//! One incremental extraction run, as decisions: what the oracle is shown,
//! and what is written once it has answered.

use vstd::prelude::*;
use crate::oracle::MarkerResponse;
use crate::render::{format_context, render_all};
use crate::select::{get_messages_in_window, get_messages_since, opt_str_view, since_of, window_of};
use crate::text::{copy_str, is_blank, push_str, str_is_blank};
use crate::time::{CARRYOVER_SECS, Timestamp, carryover_start};
use crate::transcript::{TranscriptEntry, opt_view};

verus! {

/// What an incremental run shows the oracle.
#[derive(Debug)]
pub struct ExtractionPlan {
    /// The rendered carry-over slice: the five minutes before the checkpoint.
    pub carryover: Option<String>,
    /// The rendered records that are new since the checkpoint; `None` where
    /// there is nothing to show, and the run ends without a call.
    pub transcript: Option<String>,
    /// How many records are new since the checkpoint.
    pub message_count: usize,
}

/// The rendered carry-over slice, where there is a checkpoint and the slice
/// shows something.
pub open spec fn carryover_of(
    es: Seq<TranscriptEntry>,
    cursor: Option<Timestamp>,
    session: Option<Seq<char>>,
) -> Option<Seq<char>> {
    match cursor {
        Some(c) => {
            let text = render_all(window_of(es, c.minus_secs(CARRYOVER_SECS), c, session));
            if is_blank(text) {
                None
            } else {
                Some(text)
            }
        },
        None => None,
    }
}

/// The rendered new records, where they show something.
pub open spec fn new_transcript_of(
    es: Seq<TranscriptEntry>,
    cursor: Option<Timestamp>,
    session: Option<Seq<char>>,
) -> Option<Seq<char>> {
    let text = render_all(since_of(es, cursor, session));
    if is_blank(text) {
        None
    } else {
        Some(text)
    }
}

/// Plans an incremental run over a parsed transcript: the carry-over slice
/// `[checkpoint - 5 min, checkpoint)` and the records after the checkpoint,
/// both of the session (all sessions without a filter), rendered.
pub fn plan_extraction(
    entries: &[TranscriptEntry],
    last_extracted: Option<Timestamp>,
    session_id: Option<&str>,
) -> (r: ExtractionPlan)
    requires
        last_extracted matches Some(c) ==> c.wf(),
    ensures
        opt_view(r.carryover) == carryover_of(entries@, last_extracted, opt_str_view(session_id)),
        opt_view(r.transcript) == new_transcript_of(
            entries@,
            last_extracted,
            opt_str_view(session_id),
        ),
        r.message_count == since_of(entries@, last_extracted, opt_str_view(session_id)).len(),
{
    let carryover = match last_extracted {
        Some(cutoff) => {
            let start = carryover_start(&cutoff);
            let window = get_messages_in_window(entries, start, cutoff, session_id);
            let formatted = format_context(window.as_slice());
            if str_is_blank(formatted.as_str()) {
                None
            } else {
                Some(formatted)
            }
        },
        None => None,
    };
    let messages = get_messages_since(entries, last_extracted, session_id);
    let message_count = messages.len();
    let formatted = format_context(messages.as_slice());
    let transcript = if str_is_blank(formatted.as_str()) {
        None
    } else {
        Some(formatted)
    };
    ExtractionPlan { carryover, transcript, message_count }
}

/// The carry-over section of a request: the context between sentinels, where
/// there is any.
pub open spec fn carryover_section(carryover: Option<Seq<char>>) -> Seq<char> {
    match carryover {
        Some(c) => if is_blank(c) {
            seq![]
        } else {
            "--- PREVIOUS CONTEXT (for continuity) ---\n"@ + c + "\n--- END PREVIOUS CONTEXT ---\n\n"@
        },
        None => seq![],
    }
}

/// The user message of an incremental run: the current knowledge, the
/// carry-over section, the new transcript, and the closing cue.
pub fn generative_extraction_message(
    current_state: &str,
    new_transcript: &str,
    carryover: Option<&str>,
) -> (r: String)
    ensures
        r@ == "CURRENT STATE:\n"@ + current_state@ + "\n\n"@ + carryover_section(
            opt_str_view(carryover),
        ) + "NEW TRANSCRIPT:\n"@ + new_transcript@ + "\n\nOUTPUT:"@,
{
    let mut m = copy_str("CURRENT STATE:\n");
    push_str(&mut m, current_state);
    push_str(&mut m, "\n\n");
    let ghost head = m@;
    match carryover {
        Some(c) => {
            if !str_is_blank(c) {
                push_str(&mut m, "--- PREVIOUS CONTEXT (for continuity) ---\n");
                push_str(&mut m, c);
                push_str(&mut m, "\n--- END PREVIOUS CONTEXT ---\n\n");
            }
        },
        None => {},
    }
    proof {
        assert(m@ =~= head + carryover_section(opt_str_view(carryover)));
    }
    let ghost mid = m@;
    push_str(&mut m, "NEW TRANSCRIPT:\n");
    push_str(&mut m, new_transcript);
    push_str(&mut m, "\n\nOUTPUT:");
    proof {
        assert(m@ =~= "CURRENT STATE:\n"@ + current_state@ + "\n\n"@ + carryover_section(
            opt_str_view(carryover),
        ) + "NEW TRANSCRIPT:\n"@ + new_transcript@ + "\n\nOUTPUT:"@);
    }
    m
}

/// What a finished incremental run writes.
#[derive(Debug)]
pub struct ExtractionOutcome {
    /// The new knowledge document, where the oracle found knowledge.
    pub new_state: Option<String>,
    /// The new checkpoint: the time read before the transcript was read.
    pub checkpoint: Timestamp,
}

/// After the oracle answers: the document is replaced only on a positive
/// answer, and the checkpoint moves to the time taken before reading, on
/// every answer, so that records written meanwhile are read next time.
pub fn finish_extraction(response: MarkerResponse, read_at: Timestamp) -> (r: ExtractionOutcome)
    ensures
        r.checkpoint == read_at,
        response.is_positive ==> (r.new_state matches Some(s) && s@ == response.content@),
        !response.is_positive ==> r.new_state is None,
{
    let new_state = if response.is_positive {
        Some(response.content)
    } else {
        None
    };
    ExtractionOutcome { new_state, checkpoint: read_at }
}

} // verus!
