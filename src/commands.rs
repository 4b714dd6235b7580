//! The decisions of the smaller commands: compiling the working set for a
//! prompt, compressing the knowledge document, showing, pausing and resuming,
//! and pushing categorised items.

use vstd::prelude::*;
use crate::json::{json_parse_of, json_str_at, parse_json, str_eq};
use crate::oracle::{MarkerResponse, parse_marker_response, parse_oracle_output, reply_content, reply_positive};
use crate::state::Config;
use crate::text::{copy_str, is_blank, lines_of, push_str, split_lines, str_is_blank, trim, trim_str};
use crate::transcript::opt_view;

verus! {

// ---------------------------------------------------------------------------
// Hook output
// ---------------------------------------------------------------------------

/// What a prompt hook adds to the assistant's context.
#[derive(Debug)]
pub struct HookSpecificOutput {
    pub hook_event_name: String,
    pub additional_context: Option<String>,
}

/// The answer of a prompt hook.
#[derive(Debug)]
pub struct HookResponse {
    pub hook_specific_output: Option<HookSpecificOutput>,
}

/// The hook answer that adds `context`, or adds nothing.
pub fn hook_response(context: Option<String>) -> (r: HookResponse)
    ensures
        context is None ==> r.hook_specific_output is None,
        context matches Some(c) ==> (r.hook_specific_output matches Some(o)
            && o.hook_event_name@ == "UserPromptSubmit"@ && opt_view(o.additional_context)
            == Some(c@)),
{
    match context {
        None => HookResponse { hook_specific_output: None },
        Some(c) => HookResponse {
            hook_specific_output: Some(
                HookSpecificOutput {
                    hook_event_name: copy_str("UserPromptSubmit"),
                    additional_context: Some(c),
                },
            ),
        },
    }
}

// ---------------------------------------------------------------------------
// Compiling the working set
// ---------------------------------------------------------------------------

/// The intent in a prompt hook's input: the `prompt` member where the input is
/// JSON, else the input itself, trimmed; nothing for blank input.
pub fn intent_from_hook_input(buffer: &str) -> (r: Option<String>)
    ensures
        opt_view(r) == if is_blank(buffer@) {
            None
        } else {
            match json_parse_of(buffer@) {
                Some(j) => json_str_at(j, "prompt"@),
                None => Some(trim(buffer@)),
            }
        },
{
    if str_is_blank(buffer) {
        return None;
    }
    match parse_json(buffer) {
        Some(j) => j.str_at("prompt"),
        None => Some(trim_str(buffer)),
    }
}

/// The user message that asks which knowledge is relevant to the intent.
pub fn compile_message(state: &str, intent: Option<&str>) -> (r: String)
    ensures
        r@ == "ACCUMULATED KNOWLEDGE:\n"@ + state@ + "\n\nUSER'S CURRENT INTENT:\n"@ + (match intent {
            Some(i) => i@,
            None => "general coding task"@,
        }) + "\n\nRELEVANT KNOWLEDGE:"@,
{
    let mut m = copy_str("ACCUMULATED KNOWLEDGE:\n");
    push_str(&mut m, state);
    push_str(&mut m, "\n\nUSER'S CURRENT INTENT:\n");
    match intent {
        Some(i) => push_str(&mut m, i),
        None => push_str(&mut m, "general coding task"),
    }
    push_str(&mut m, "\n\nRELEVANT KNOWLEDGE:");
    m
}

/// What a prompt hook does before any call.
#[derive(Debug, PartialEq, Eq, Structural)]
pub enum HookPlan {
    /// Answer with nothing: compiling is paused, or there is nothing to show.
    Nothing,
    /// Answer with the dive context as it is: there is no knowledge to filter.
    DiveContextOnly,
    /// Ask the oracle which knowledge is relevant.
    Compile,
}

/// Decides a prompt hook from the configuration and the two documents.
pub fn plan_compile_hook(enabled: bool, state: &str, dive_context: &str) -> (r: HookPlan)
    ensures
        r == if !enabled {
            HookPlan::Nothing
        } else if is_blank(state@) && is_blank(dive_context@) {
            HookPlan::Nothing
        } else if is_blank(state@) {
            HookPlan::DiveContextOnly
        } else {
            HookPlan::Compile
        },
{
    if !enabled {
        return HookPlan::Nothing;
    }
    let no_state = str_is_blank(state);
    let no_dive = str_is_blank(dive_context);
    if no_state && no_dive {
        HookPlan::Nothing
    } else if no_state {
        HookPlan::DiveContextOnly
    } else {
        HookPlan::Compile
    }
}

/// The working set after the oracle answered (a failed call counts as a
/// negative answer): the dive context, if any, then the relevant knowledge
/// under its own heading; `None` where that is blank.
pub open spec fn working_set_of(dive: Seq<char>, positive: bool, content: Seq<char>) -> Option<
    Seq<char>,
> {
    let text = if !is_blank(dive) {
        if positive {
            dive + "\n\n---\n\n## Working Memory\n\n"@ + content
        } else {
            dive
        }
    } else {
        content
    };
    if is_blank(text) {
        None
    } else {
        Some(text)
    }
}

/// Combines the dive context with the oracle's answer into the working set.
pub fn combine_working_set(dive_context: &str, answer: &MarkerResponse) -> (r: Option<String>)
    ensures
        opt_view(r) == working_set_of(dive_context@, answer.is_positive, answer.content@),
{
    let text = if !str_is_blank(dive_context) {
        if answer.is_positive {
            let mut t = copy_str(dive_context);
            push_str(&mut t, "\n\n---\n\n## Working Memory\n\n");
            push_str(&mut t, answer.content.as_str());
            t
        } else {
            copy_str(dive_context)
        }
    } else {
        copy_str(answer.content.as_str())
    };
    if str_is_blank(text.as_str()) {
        None
    } else {
        Some(text)
    }
}

// ---------------------------------------------------------------------------
// Compressing the knowledge document
// ---------------------------------------------------------------------------

/// The oracle's answer on compressing: whether it condensed the document, and to what.
#[derive(Debug)]
pub struct CompressionResult {
    pub was_compressed: bool,
    pub content: String,
}

/// The user message that asks to compress the document.
pub fn compression_message(current_state: &str) -> (r: String)
    ensures
        r@ == "CURRENT STATE TO COMPRESS:\n\n"@ + current_state@ + "\n\nOUTPUT:"@,
{
    let mut m = copy_str("CURRENT STATE TO COMPRESS:\n\n");
    push_str(&mut m, current_state);
    push_str(&mut m, "\n\nOUTPUT:");
    m
}

/// Reads the compression reply under the marker protocol with `WAS_COMPRESSED`.
pub fn parse_compression_result(result_str: &str) -> (r: CompressionResult)
    ensures
        r.was_compressed == reply_positive(result_str@, "WAS_COMPRESSED"@),
        r.content@ == reply_content(result_str@, "WAS_COMPRESSED"@),
{
    let m = parse_marker_response(result_str, "WAS_COMPRESSED");
    CompressionResult { was_compressed: m.is_positive, content: m.content }
}

/// Reads the compression reply from the oracle command's JSON output.
pub fn parse_compression_response(response: &str) -> (r: Result<CompressionResult, String>)
    ensures
        match json_parse_of(response@) {
            None => r matches Err(m) && m@ == "Failed to parse the oracle's response"@,
            Some(j) => match json_str_at(j, "result"@) {
                None => r matches Err(m) && m@ == "The oracle's response has no 'result' field"@,
                Some(t) => r matches Ok(c) && c.was_compressed == reply_positive(
                    t,
                    "WAS_COMPRESSED"@,
                ) && c.content@ == reply_content(t, "WAS_COMPRESSED"@),
            },
        },
{
    match parse_oracle_output(response) {
        Ok(text) => Ok(parse_compression_result(text.as_str())),
        Err(e) => Err(e.message()),
    }
}

/// The number of lines of a text (`str::lines().count()`).
pub fn line_count(text: &str) -> (r: usize)
    ensures
        r == lines_of(text@).len(),
{
    let ls = split_lines(text);
    ls.len()
}

/// How much shorter the document became, in percent of its lines; nothing
/// where it did not shrink or was empty.
pub fn reduction_percent(old_lines: usize, new_lines: usize) -> (r: u64)
    ensures
        r as int == if old_lines == 0 || (new_lines as int * 100) / (old_lines as int) >= 100 {
            0
        } else {
            100 - (new_lines as int * 100) / (old_lines as int)
        },
{
    if old_lines == 0 {
        return 0;
    }
    let kept: u128 = (new_lines as u128) * 100 / (old_lines as u128);
    if kept >= 100 {
        0
    } else {
        (100 - kept) as u64
    }
}

// ---------------------------------------------------------------------------
// Showing, pausing, resuming
// ---------------------------------------------------------------------------

/// What `show` displays.
#[derive(Debug, Clone, Copy, PartialEq, Eq, Structural)]
pub enum ShowTarget {
    State,
    Working,
    Sessions,
}

/// Decides what `show` displays: `state`, `working` or `sessions`; any other
/// name is an error that lists them.
pub fn run(what: &str) -> (r: Result<ShowTarget, String>)
    ensures
        what@ == "state"@ ==> r == Ok::<ShowTarget, String>(ShowTarget::State),
        what@ == "working"@ ==> r == Ok::<ShowTarget, String>(ShowTarget::Working),
        what@ == "sessions"@ ==> r == Ok::<ShowTarget, String>(ShowTarget::Sessions),
        what@ != "state"@ && what@ != "working"@ && what@ != "sessions"@ ==> (r matches Err(m)
            && m@ == "Unknown target: "@ + what@ + ". Use: state, working, sessions"@),
{
    proof {
        reveal_strlit("state");
        reveal_strlit("working");
        reveal_strlit("sessions");
        assert("working"@.len() != "state"@.len());
        assert("sessions"@.len() != "state"@.len());
        assert("sessions"@.len() != "working"@.len());
    }
    if str_eq(what, "state") {
        Ok(ShowTarget::State)
    } else if str_eq(what, "working") {
        Ok(ShowTarget::Working)
    } else if str_eq(what, "sessions") {
        Ok(ShowTarget::Sessions)
    } else {
        let mut m = copy_str("Unknown target: ");
        push_str(&mut m, what);
        push_str(&mut m, ". Use: state, working, sessions");
        Err(m)
    }
}

/// Pauses (`enabled == false`) or resumes an operation: `extract`, `compile`,
/// or both where none is named. Returns the line to report.
pub fn apply_operation_switch(config: &mut Config, operation: Option<&str>, enabled: bool) -> (r:
    Result<String, String>)
    ensures
        final(config).dive == old(config).dive,
        match operation {
            None => final(config).operations.extract == enabled
                && final(config).operations.compile == enabled && r is Ok,
            Some(op) => if op@ == "extract"@ {
                final(config).operations.extract == enabled && final(config).operations.compile
                    == old(config).operations.compile && r is Ok
            } else if op@ == "compile"@ {
                final(config).operations.compile == enabled && final(config).operations.extract
                    == old(config).operations.extract && r is Ok
            } else {
                final(config).operations == old(config).operations && (r matches Err(m) && m@
                    == "Unknown operation: "@ + op@ + ". Use 'extract' or 'compile'."@)
            },
        },
{
    let verb = if enabled {
        "Resumed: "
    } else {
        "Paused: "
    };
    match operation {
        None => {
            config.operations.extract = enabled;
            config.operations.compile = enabled;
            let mut m = copy_str(verb);
            push_str(&mut m, "extract, compile");
            Ok(m)
        },
        Some(op) => {
            if str_eq(op, "extract") {
                config.operations.extract = enabled;
                let mut m = copy_str(verb);
                push_str(&mut m, "extract");
                Ok(m)
            } else if str_eq(op, "compile") {
                config.operations.compile = enabled;
                let mut m = copy_str(verb);
                push_str(&mut m, "compile");
                Ok(m)
            } else {
                let mut m = copy_str("Unknown operation: ");
                push_str(&mut m, op);
                push_str(&mut m, ". Use 'extract' or 'compile'.");
                Err(m)
            }
        },
    }
}

/// The status report: whether each operation is running or paused.
pub fn status_report(config: &Config) -> (r: String)
    ensures
        r@ == "extract: "@ + (if config.operations.extract {
            "running"@
        } else {
            "paused"@
        }) + "\ncompile: "@ + (if config.operations.compile {
            "running"@
        } else {
            "paused"@
        }),
{
    let mut m = copy_str("extract: ");
    push_str(
        &mut m,
        if config.operations.extract {
            "running"
        } else {
            "paused"
        },
    );
    push_str(&mut m, "\ncompile: ");
    push_str(
        &mut m,
        if config.operations.compile {
            "running"
        } else {
            "paused"
        },
    );
    m
}

// ---------------------------------------------------------------------------
// Pushing categorised items
// ---------------------------------------------------------------------------

/// How many items a push delivered, and the items that failed with why.
#[derive(Debug)]
pub struct PushResult {
    pub guardrails_pushed: usize,
    pub metis_pushed: usize,
    /// The item (cut for display) and the error.
    pub errors: Vec<(String, String)>,
}

/// The beginning of an item for an error report: its first 50 characters,
/// and `...` where it is longer.
pub fn truncate_for_error(content: &str) -> (r: String)
    ensures
        r@ == if content@.len() > 50 {
            content@.take(50) + "..."@
        } else {
            content@
        },
{
    let v = crate::text::chars_of(content);
    if v.len() > 50 {
        let mut r = crate::text::string_of(&v, 0, 50);
        push_str(&mut r, "...");
        proof {
            assert(v@.subrange(0, 50) =~= content@.take(50));
        }
        r
    } else {
        copy_str(content)
    }
}

impl PushResult {
    pub fn new() -> (r: PushResult)
        ensures
            r.guardrails_pushed == 0 && r.metis_pushed == 0 && r.errors@.len() == 0,
    {
        PushResult { guardrails_pushed: 0, metis_pushed: 0, errors: Vec::new() }
    }

    /// Counts an item delivered.
    pub fn record_success(&mut self, guardrail: bool)
        requires
            old(self).guardrails_pushed < usize::MAX,
            old(self).metis_pushed < usize::MAX,
        ensures
            guardrail ==> final(self).guardrails_pushed == old(self).guardrails_pushed + 1
                && final(self).metis_pushed == old(self).metis_pushed,
            !guardrail ==> final(self).metis_pushed == old(self).metis_pushed + 1
                && final(self).guardrails_pushed == old(self).guardrails_pushed,
            final(self).errors@ == old(self).errors@,
    {
        if guardrail {
            self.guardrails_pushed = self.guardrails_pushed + 1;
        } else {
            self.metis_pushed = self.metis_pushed + 1;
        }
    }

    /// Records an item that failed, cut for display, with its error.
    pub fn record_failure(&mut self, item: &str, error: String)
        ensures
            final(self).guardrails_pushed == old(self).guardrails_pushed,
            final(self).metis_pushed == old(self).metis_pushed,
            final(self).errors@.len() == old(self).errors@.len() + 1,
            final(self).errors@.last().0@ == (if item@.len() > 50 {
                item@.take(50) + "..."@
            } else {
                item@
            }),
            final(self).errors@.last().1@ == error@,
            final(self).errors@.drop_last() == old(self).errors@,
    {
        let cut = truncate_for_error(item);
        self.errors.push((cut, error));
        proof {
            assert(self.errors@.drop_last() =~= old(self).errors@);
        }
    }
}

/// The outcome of a push: an error only where every item failed.
pub fn push_outcome(result: &PushResult) -> (r: Result<(), String>)
    ensures
        r is Err <==> (result.guardrails_pushed as int + result.metis_pushed as int == 0
            && result.errors@.len() > 0),
        r matches Err(m) ==> m@ == "All items failed to push to OH"@,
{
    if result.guardrails_pushed == 0 && result.metis_pushed == 0 && result.errors.len() > 0 {
        Err(copy_str("All items failed to push to OH"))
    } else {
        Ok(())
    }
}

} // verus!
