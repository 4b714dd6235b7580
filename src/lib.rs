//! Working memory for coding assistants: transcript ingestion, message
//! selection, context rendering, the marker reply protocol and the
//! extraction checkpoint and cache.

pub mod json;
pub mod text;
pub mod time;
pub mod transcript;
pub mod select;
pub mod render;
pub mod oracle;
pub mod checkpoint;
pub mod extract;
pub mod prompts;
pub mod distill;
pub mod codex;
pub mod session;
pub mod state;
pub mod commands;
pub mod dive;
