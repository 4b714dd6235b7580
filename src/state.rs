//! The project's working-memory directory: where each file lives, and the
//! configuration that pauses and resumes the automatic operations.

use vstd::prelude::*;
use crate::session::{join_path, path_join};
use crate::text::{chars_of, copy_str, ends_with, push_str, str_ends_with, string_of};

verus! {

/// The name of the working-memory directory inside a project.
pub const WM_DIR: &'static str = ".wm";

/// Which automatic operations run.
#[derive(Debug, Clone, Copy, PartialEq, Eq, Structural)]
pub struct OperationsConfig {
    pub extract: bool,
    pub compile: bool,
}

impl Default for OperationsConfig {
    fn default() -> (r: OperationsConfig)
        ensures
            r.extract && r.compile,
    {
        OperationsConfig { extract: true, compile: true }
    }
}

/// The named dive prep in use, if any.
#[derive(Debug)]
pub struct DiveConfig {
    pub current: Option<String>,
}

impl Default for DiveConfig {
    fn default() -> (r: DiveConfig)
        ensures
            r.current is None,
    {
        DiveConfig { current: None }
    }
}

/// The project-level configuration.
#[derive(Debug)]
pub struct Config {
    pub operations: OperationsConfig,
    pub dive: DiveConfig,
}

impl Default for Config {
    fn default() -> (r: Config)
        ensures
            r.operations.extract && r.operations.compile,
            r.dive.current is None,
    {
        Config { operations: OperationsConfig::default(), dive: DiveConfig::default() }
    }
}

/// The value that an absent operation flag takes: operations run unless paused.
pub fn default_true() -> (r: bool)
    ensures
        r,
{
    true
}

/// Whether incremental extraction runs.
pub fn is_extract_enabled(config: &Config) -> (r: bool)
    ensures
        r == config.operations.extract,
{
    config.operations.extract
}

/// Whether compiling the working set runs.
pub fn is_compile_enabled(config: &Config) -> (r: bool)
    ensures
        r == config.operations.compile,
{
    config.operations.compile
}

/// The dive prep in use.
pub fn current_dive(config: &Config) -> (r: Option<String>)
    ensures
        crate::transcript::opt_view(r) == crate::transcript::opt_view(config.dive.current),
{
    match &config.dive.current {
        Some(n) => Some(copy_str(n.as_str())),
        None => None,
    }
}

/// Sets the dive prep in use (`None` clears it); the rest is unchanged.
pub fn set_current_dive(config: &mut Config, name: Option<&str>)
    ensures
        crate::transcript::opt_view(final(config).dive.current) == crate::select::opt_str_view(name),
        final(config).operations == old(config).operations,
{
    config.dive.current = match name {
        Some(n) => Some(copy_str(n)),
        None => None,
    };
}

/// A file in the working-memory directory `wm_dir`.
pub fn wm_path(wm_dir: &str, filename: &str) -> (r: String)
    ensures
        r@ == path_join(wm_dir@, filename@),
{
    join_path(wm_dir, filename)
}

/// The directory of one session's state.
pub fn session_dir(wm_dir: &str, session_id: &str) -> (r: String)
    ensures
        r@ == path_join(wm_dir@, "sessions/"@ + session_id@),
{
    let mut name = copy_str("sessions/");
    push_str(&mut name, session_id);
    join_path(wm_dir, name.as_str())
}

/// The state directory of an extraction: the session's, or the
/// working-memory directory itself without a session.
pub fn session_state_dir(wm_dir: &str, session_id: Option<&str>) -> (r: String)
    ensures
        r@ == match session_id {
            Some(id) => path_join(wm_dir@, "sessions/"@ + id@),
            None => path_join(wm_dir@, seq![]),
        },
{
    match session_id {
        Some(id) => session_dir(wm_dir, id),
        None => {
            let r = join_path(wm_dir, "");
            proof {
                assert(""@ =~= Seq::<char>::empty()) by {
                    reveal_strlit("");
                }
            }
            r
        },
    }
}

/// The directory of the named dive preps.
pub fn dive_dir(wm_dir: &str) -> (r: String)
    ensures
        r@ == path_join(wm_dir@, "dives"@),
{
    join_path(wm_dir, "dives")
}

/// The file of the dive prep `name`.
pub fn dive_prep_path(wm_dir: &str, name: &str) -> (r: String)
    ensures
        r@ == path_join(path_join(wm_dir@, "dives"@), name@ + ".md"@),
{
    let dir = dive_dir(wm_dir);
    let mut file = copy_str(name);
    push_str(&mut file, ".md");
    join_path(dir.as_str(), file.as_str())
}

/// The prep name of a file in the dives directory: the stem of a `.md` file.
pub fn prep_name_of_file(file_name: &str) -> (r: Option<String>)
    ensures
        match r {
            Some(n) => ends_with(file_name@, ".md"@) && file_name@.len() > 3 && n@
                == file_name@.subrange(0, file_name@.len() - 3),
            None => !(ends_with(file_name@, ".md"@) && file_name@.len() > 3),
        },
{
    proof {
        reveal_strlit(".md");
    }
    let v = chars_of(file_name);
    if str_ends_with(file_name, ".md") && v.len() > 3 {
        Some(string_of(&v, 0, v.len() - 3))
    } else {
        None
    }
}

} // verus!
