//! The flat event schema: one `{timestamp, type, payload}` record per line,
//! where `payload.type` names the event (user message, agent message, agent
//! reasoning, function call, function call output, session metadata).

use vstd::prelude::*;
use crate::json::{
    Json, json_as_str, json_get, json_parse_of, json_str_at, json_text, json_text_of, member,
    parse_json, str_eq,
};
use crate::render::{strip_tags, strip_xml_tags, truncate_output, truncate_output_text};
use crate::text::{
    copy_str, is_blank, lines_of, push_str, split_lines, str_ends_with, str_is_blank,
    str_starts_with, starts_with, ends_with,
};

verus! {

/// One record of a flat event transcript.
#[derive(Debug)]
pub struct CodexEntry {
    pub timestamp: String,
    pub entry_type: String,
    pub payload: Json,
}

/// Why a flat event transcript could not be read.
#[derive(Debug)]
pub enum CodexReadError {
    /// The file could not be opened or read; the message says why.
    IoError(String),
}

impl CodexReadError {
    /// The message that reports this error.
    pub fn message(&self) -> (r: String)
        ensures
            r@ == "IO error: "@ + self->IoError_0@,
    {
        match self {
            CodexReadError::IoError(m) => {
                let mut r = copy_str("IO error: ");
                push_str(&mut r, m.as_str());
                r
            },
        }
    }
}

// ---------------------------------------------------------------------------
// Decoding
// ---------------------------------------------------------------------------

/// Whether a JSON record is a flat event: string `timestamp` and `type`, and a `payload`.
pub open spec fn codex_record_decodes(j: Json) -> bool {
    json_str_at(j, "timestamp"@) is Some && json_str_at(j, "type"@) is Some && json_get(
        j,
        "payload"@,
    ) is Some
}

/// The event that a flat event record decodes to.
pub open spec fn codex_entry_decodes(j: Json, e: CodexEntry) -> bool {
    json_str_at(j, "timestamp"@) == Some(e.timestamp@) && json_str_at(j, "type"@) == Some(
        e.entry_type@,
    ) && json_get(j, "payload"@) == Some(e.payload)
}

pub open spec fn codex_line_decodes(l: Seq<char>) -> bool {
    json_parse_of(l) is Some && codex_record_decodes(json_parse_of(l)->0)
}

/// The lines that yield an event: not blank, and decodable.
pub open spec fn codex_kept_lines(ls: Seq<Seq<char>>) -> Seq<Seq<char>>
    decreases ls.len(),
{
    if ls.len() == 0 {
        seq![]
    } else if !is_blank(ls.last()) && codex_line_decodes(ls.last()) {
        codex_kept_lines(ls.drop_last()).push(ls.last())
    } else {
        codex_kept_lines(ls.drop_last())
    }
}

/// The 1-based numbers of the non-blank lines that do not decode.
pub open spec fn codex_skipped_lines(ls: Seq<Seq<char>>) -> Seq<int>
    decreases ls.len(),
{
    if ls.len() == 0 {
        seq![]
    } else if !is_blank(ls.last()) && !codex_line_decodes(ls.last()) {
        codex_skipped_lines(ls.drop_last()).push(ls.len() as int)
    } else {
        codex_skipped_lines(ls.drop_last())
    }
}

impl Json {
    /// The position of the member `key` of this value, where it is an object that has one.
    fn member_index(&self, key: &str) -> (r: Option<usize>)
        ensures
            match r {
                Some(i) => self is Object && i < self->Object_0@.len() && json_get(*self, key@)
                    == Some(self->Object_0@[i as int].1),
                None => json_get(*self, key@) is None,
            },
    {
        match self {
            Json::Object(fields) => {
                let mut i: usize = 0;
                proof {
                    assert(fields@.skip(0) =~= fields@);
                }
                while i < fields.len()
                    invariant
                        i <= fields@.len(),
                        self is Object && self->Object_0@ == fields@,
                        json_get(*self, key@) == member(fields@, key@),
                        member(fields@, key@) == member(fields@.skip(i as int), key@),
                    decreases fields@.len() - i,
                {
                    proof {
                        assert(fields@.skip(i as int).drop_first() =~= fields@.skip(i + 1));
                        assert(fields@.skip(i as int)[0] == fields@[i as int]);
                    }
                    if str_eq(fields[i].0.as_str(), key) {
                        return Some(i);
                    }
                    i += 1;
                }
                None
            },
            _ => None,
        }
    }

    /// The member `key` of this value, moved out, where it is an object that has one.
    pub fn into_member(self, key: &str) -> (r: Option<Json>)
        ensures
            r == json_get(self, key@),
    {
        match self.member_index(key) {
            None => None,
            Some(i) => match self {
                Json::Object(mut fields) => {
                    let (_, v) = fields.remove(i);
                    Some(v)
                },
                _ => None,
            },
        }
    }
}

/// Decodes one flat event record; `None` where it is not one.
pub fn decode_codex_entry(j: Json) -> (r: Option<CodexEntry>)
    ensures
        r is Some <==> codex_record_decodes(j),
        r matches Some(e) ==> codex_entry_decodes(j, e),
{
    let timestamp = match j.str_at("timestamp") {
        Some(t) => t,
        None => return None,
    };
    let entry_type = match j.str_at("type") {
        Some(t) => t,
        None => return None,
    };
    match j.into_member("payload") {
        Some(payload) => Some(CodexEntry { timestamp, entry_type, payload }),
        None => None,
    }
}

/// A flat event transcript read line by line: the events that decoded, in
/// order, and the 1-based numbers of the non-blank lines that did not.
#[derive(Debug)]
pub struct ParsedCodexSession {
    pub entries: Vec<CodexEntry>,
    pub skipped_lines: Vec<usize>,
}

/// Reads a flat event transcript: each non-blank line decoded on its own, in
/// order; a line that does not decode is skipped and its number recorded.
pub fn parse_codex_session(text: &str) -> (r: ParsedCodexSession)
    ensures
        r.entries@.len() == codex_kept_lines(lines_of(text@)).len(),
        forall|i: int|
            0 <= i < r.entries@.len() ==> codex_entry_decodes(
                json_parse_of(#[trigger] codex_kept_lines(lines_of(text@))[i])->0,
                r.entries@[i],
            ),
        r.skipped_lines@.map_values(|n: usize| n as int) == codex_skipped_lines(
            lines_of(text@),
        ),
{
    let lines = split_lines(text);
    let ghost ls = lines.deep_view();
    let mut entries: Vec<CodexEntry> = Vec::new();
    let mut skipped: Vec<usize> = Vec::new();
    let mut i: usize = 0;
    while i < lines.len()
        invariant
            i <= lines.len(),
            ls == lines.deep_view(),
            ls == lines_of(text@),
            entries@.len() == codex_kept_lines(ls.take(i as int)).len(),
            forall|k: int|
                0 <= k < entries@.len() ==> codex_entry_decodes(
                    json_parse_of(#[trigger] codex_kept_lines(ls.take(i as int))[k])->0,
                    entries@[k],
                ),
            skipped@.map_values(|n: usize| n as int) == codex_skipped_lines(ls.take(i as int)),
        decreases lines.len() - i,
    {
        let ghost prev = ls.take(i as int);
        proof {
            assert(ls.take(i + 1).drop_last() =~= prev);
            assert(ls.take(i + 1).last() == lines[i as int]@);
        }
        let line = lines[i].as_str();
        if !str_is_blank(line) {
            let decoded = match parse_json(line) {
                Some(j) => decode_codex_entry(j),
                None => None,
            };
            match decoded {
                Some(e) => {
                    entries.push(e);
                    proof {
                        assert(codex_kept_lines(ls.take(i + 1)) == codex_kept_lines(prev).push(
                            line@,
                        ));
                        assert forall|k: int| 0 <= k < entries@.len() implies codex_entry_decodes(
                            json_parse_of(#[trigger] codex_kept_lines(ls.take(i + 1))[k])->0,
                            entries@[k],
                        ) by {
                            if k < entries@.len() - 1 {
                                assert(codex_kept_lines(ls.take(i + 1))[k] == codex_kept_lines(
                                    prev,
                                )[k]);
                            }
                        }
                    }
                },
                None => {
                    let ghost before = skipped@;
                    skipped.push(i + 1);
                    proof {
                        assert(skipped@.map_values(|n: usize| n as int) =~= before.map_values(
                            |n: usize| n as int,
                        ).push(i + 1));
                    }
                },
            }
        }
        i += 1;
    }
    proof {
        assert(ls.take(lines.len() as int) =~= ls);
    }
    ParsedCodexSession { entries, skipped_lines: skipped }
}

/// Every non-blank line of a flat event transcript either yields an event or
/// is recorded as skipped: together they number the non-blank lines, and the
/// events come from the decodable lines in their original order.
pub proof fn lemma_codex_parse_accounts_for_every_line(ls: Seq<Seq<char>>)
    ensures
        codex_kept_lines(ls).len() + codex_skipped_lines(ls).len()
            == crate::transcript::non_blank_count(ls),
        forall|i: int|
            0 <= i < codex_kept_lines(ls).len() ==> !is_blank(#[trigger] codex_kept_lines(ls)[i])
                && codex_line_decodes(codex_kept_lines(ls)[i]),
    decreases ls.len(),
{
    if ls.len() > 0 {
        lemma_codex_parse_accounts_for_every_line(ls.drop_last());
        let rest = codex_kept_lines(ls.drop_last());
        assert forall|i: int|
            0 <= i < codex_kept_lines(ls).len() implies !is_blank(
                #[trigger] codex_kept_lines(ls)[i],
            ) && codex_line_decodes(codex_kept_lines(ls)[i]) by {
            if i < rest.len() {
                assert(codex_kept_lines(ls)[i] == rest[i]);
            }
        }
    }
}

// ---------------------------------------------------------------------------
// Queries
// ---------------------------------------------------------------------------

/// Whether the event's `payload.type` is `t`, for an entry of type `kind`.
pub open spec fn event_is(e: CodexEntry, kind: Seq<char>, t: Seq<char>) -> bool {
    e.entry_type@ == kind && json_str_at(e.payload, "type"@) == Some(t)
}

pub open spec fn is_relevant_spec(e: CodexEntry) -> bool {
    event_is(e, "event_msg"@, "user_message"@) || event_is(e, "event_msg"@, "agent_message"@)
        || event_is(e, "event_msg"@, "agent_reasoning"@) || event_is(
        e,
        "response_item"@,
        "function_call"@,
    ) || event_is(e, "response_item"@, "function_call_output"@)
}

/// The string member `key` of the payload, where the event is `kind`/`t`.
pub open spec fn event_text(e: CodexEntry, kind: Seq<char>, t: Seq<char>, key: Seq<char>) -> Option<
    Seq<char>,
> {
    if event_is(e, kind, t) {
        json_str_at(e.payload, key)
    } else {
        None
    }
}

/// The output of a function call output event: the string, or the compact
/// JSON text of any other value.
pub open spec fn call_output_of(e: CodexEntry) -> Option<Seq<char>> {
    if event_is(e, "response_item"@, "function_call_output"@) {
        match json_get(e.payload, "output"@) {
            Some(Json::Str(s)) => Some(s@),
            Some(v) => Some(json_text_of(v)),
            None => None,
        }
    } else {
        None
    }
}

pub open spec fn opt_str(o: Option<&str>) -> Option<Seq<char>> {
    match o {
        Some(s) => Some(s@),
        None => None,
    }
}

impl CodexEntry {
    pub fn is_session_meta(&self) -> (r: bool)
        ensures
            r == (self.entry_type@ == "session_meta"@),
    {
        str_eq(self.entry_type.as_str(), "session_meta")
    }

    pub fn is_event_msg(&self) -> (r: bool)
        ensures
            r == (self.entry_type@ == "event_msg"@),
    {
        str_eq(self.entry_type.as_str(), "event_msg")
    }

    pub fn is_response_item(&self) -> (r: bool)
        ensures
            r == (self.entry_type@ == "response_item"@),
    {
        str_eq(self.entry_type.as_str(), "response_item")
    }

    pub fn is_turn_context(&self) -> (r: bool)
        ensures
            r == (self.entry_type@ == "turn_context"@),
    {
        str_eq(self.entry_type.as_str(), "turn_context")
    }

    /// The payload's string member `key`, where this is a session metadata record.
    fn meta_str(&self, key: &str) -> (r: Option<&str>)
        ensures
            opt_str(r) == if self.entry_type@ == "session_meta"@ {
                json_str_at(self.payload, key@)
            } else {
                None
            },
    {
        if self.is_session_meta() {
            match self.payload.get(key) {
                Some(v) => v.as_str(),
                None => None,
            }
        } else {
            None
        }
    }

    /// The working directory recorded in session metadata.
    pub fn session_cwd(&self) -> (r: Option<&str>)
        ensures
            opt_str(r) == if self.entry_type@ == "session_meta"@ {
                json_str_at(self.payload, "cwd"@)
            } else {
                None
            },
    {
        self.meta_str("cwd")
    }

    /// The session identifier recorded in session metadata.
    pub fn session_id(&self) -> (r: Option<&str>)
        ensures
            opt_str(r) == if self.entry_type@ == "session_meta"@ {
                json_str_at(self.payload, "id"@)
            } else {
                None
            },
    {
        self.meta_str("id")
    }

    fn payload_type_is(&self, t: &str) -> (r: bool)
        ensures
            r == (json_str_at(self.payload, "type"@) == Some(t@)),
    {
        crate::transcript::type_is(&self.payload, t)
    }

    pub fn is_user_message(&self) -> (r: bool)
        ensures
            r == event_is(*self, "event_msg"@, "user_message"@),
    {
        self.is_event_msg() && self.payload_type_is("user_message")
    }

    pub fn is_agent_message(&self) -> (r: bool)
        ensures
            r == event_is(*self, "event_msg"@, "agent_message"@),
    {
        self.is_event_msg() && self.payload_type_is("agent_message")
    }

    pub fn is_agent_reasoning(&self) -> (r: bool)
        ensures
            r == event_is(*self, "event_msg"@, "agent_reasoning"@),
    {
        self.is_event_msg() && self.payload_type_is("agent_reasoning")
    }

    pub fn is_token_count(&self) -> (r: bool)
        ensures
            r == event_is(*self, "event_msg"@, "token_count"@),
    {
        self.is_event_msg() && self.payload_type_is("token_count")
    }

    pub fn is_function_call(&self) -> (r: bool)
        ensures
            r == event_is(*self, "response_item"@, "function_call"@),
    {
        self.is_response_item() && self.payload_type_is("function_call")
    }

    pub fn is_function_call_output(&self) -> (r: bool)
        ensures
            r == event_is(*self, "response_item"@, "function_call_output"@),
    {
        self.is_response_item() && self.payload_type_is("function_call_output")
    }

    pub fn is_message_item(&self) -> (r: bool)
        ensures
            r == event_is(*self, "response_item"@, "message"@),
    {
        self.is_response_item() && self.payload_type_is("message")
    }

    /// Whether the event is shown to the oracle: messages, reasoning, and
    /// function calls with their output; not token counts or metadata.
    pub fn is_relevant(&self) -> (r: bool)
        ensures
            r == is_relevant_spec(*self),
    {
        self.is_user_message() || self.is_agent_message() || self.is_agent_reasoning()
            || self.is_function_call() || self.is_function_call_output()
    }

    fn payload_str(&self, key: &str) -> (r: Option<&str>)
        ensures
            opt_str(r) == json_str_at(self.payload, key@),
    {
        match self.payload.get(key) {
            Some(v) => v.as_str(),
            None => None,
        }
    }

    pub fn user_message_text(&self) -> (r: Option<&str>)
        ensures
            opt_str(r) == event_text(*self, "event_msg"@, "user_message"@, "message"@),
    {
        if self.is_user_message() {
            self.payload_str("message")
        } else {
            None
        }
    }

    pub fn agent_message_text(&self) -> (r: Option<&str>)
        ensures
            opt_str(r) == event_text(*self, "event_msg"@, "agent_message"@, "message"@),
    {
        if self.is_agent_message() {
            self.payload_str("message")
        } else {
            None
        }
    }

    pub fn agent_reasoning_text(&self) -> (r: Option<&str>)
        ensures
            opt_str(r) == event_text(*self, "event_msg"@, "agent_reasoning"@, "text"@),
    {
        if self.is_agent_reasoning() {
            self.payload_str("text")
        } else {
            None
        }
    }

    pub fn function_call_name(&self) -> (r: Option<&str>)
        ensures
            opt_str(r) == event_text(*self, "response_item"@, "function_call"@, "name"@),
    {
        if self.is_function_call() {
            self.payload_str("name")
        } else {
            None
        }
    }

    pub fn function_call_args(&self) -> (r: Option<&str>)
        ensures
            opt_str(r) == event_text(*self, "response_item"@, "function_call"@, "arguments"@),
    {
        if self.is_function_call() {
            self.payload_str("arguments")
        } else {
            None
        }
    }

    pub fn function_call_output(&self) -> (r: Option<String>)
        ensures
            crate::transcript::opt_view(r) == call_output_of(*self),
    {
        if self.is_function_call_output() {
            match self.payload.get("output") {
                Some(v) => match v {
                    Json::Str(s) => Some(copy_str(s.as_str())),
                    _ => Some(json_text(v)),
                },
                None => None,
            }
        } else {
            None
        }
    }
}

// ---------------------------------------------------------------------------
// Rendering
// ---------------------------------------------------------------------------

/// Removes the injected `<environment_context>` blocks from user text.
pub fn strip_environment_context(text: &str) -> (r: String)
    ensures
        r@ == strip_tags(text@, "<environment_context>"@, "</environment_context>"@),
{
    proof {
        reveal_strlit("<environment_context>");
    }
    strip_xml_tags(text, "<environment_context>", "</environment_context>")
}

/// The argument shown beside a function call: the command run by the shell
/// (the last word where it is a list), the path for the file tools, nothing
/// for other tools or arguments that are not JSON.
pub open spec fn summarize_of(name: Seq<char>, args: Seq<char>) -> Seq<char> {
    match json_parse_of(args) {
        None => seq![],
        Some(a) => if name == "shell"@ {
            match json_get(a, "command"@) {
                Some(Json::Array(items)) => if items@.len() > 0 {
                    match json_as_str(items@.last()) {
                        Some(s) => s,
                        None => seq![],
                    }
                } else {
                    seq![]
                },
                Some(Json::Str(s)) => s@,
                _ => seq![],
            }
        } else if name == "read_file"@ || name == "write_file"@ {
            match json_str_at(a, "path"@) {
                Some(s) => s,
                None => seq![],
            }
        } else if name == "edit_file"@ {
            match json_str_at(a, "target_file"@) {
                Some(s) => s,
                None => seq![],
            }
        } else {
            seq![]
        },
    }
}

fn str_member_or_empty(j: &Json, key: &str) -> (r: String)
    ensures
        r@ == match json_str_at(*j, key@) {
            Some(s) => s,
            None => seq![],
        },
{
    match j.str_at(key) {
        Some(s) => s,
        None => String::new(),
    }
}

/// The argument shown beside a function call of tool `tool_name`.
pub fn summarize_tool_args(tool_name: &str, args: &str) -> (r: String)
    ensures
        r@ == summarize_of(tool_name@, args@),
{
    let a = match parse_json(args) {
        Some(a) => a,
        None => return String::new(),
    };
    if str_eq(tool_name, "shell") {
        match a.get("command") {
            Some(Json::Array(items)) => {
                if items.len() > 0 {
                    match items[items.len() - 1].as_str() {
                        Some(s) => copy_str(s),
                        None => String::new(),
                    }
                } else {
                    String::new()
                }
            },
            Some(Json::Str(s)) => copy_str(s.as_str()),
            _ => String::new(),
        }
    } else if str_eq(tool_name, "read_file") || str_eq(tool_name, "write_file") {
        str_member_or_empty(&a, "path")
    } else if str_eq(tool_name, "edit_file") {
        str_member_or_empty(&a, "target_file")
    } else {
        String::new()
    }
}

/// The rendering of one event: its labelled block, or nothing.
pub open spec fn codex_render(e: CodexEntry) -> Seq<char> {
    if !is_relevant_spec(e) {
        seq![]
    } else if event_text(e, "event_msg"@, "user_message"@, "message"@) is Some {
        let c = strip_tags(
            event_text(e, "event_msg"@, "user_message"@, "message"@)->0,
            "<environment_context>"@,
            "</environment_context>"@,
        );
        if c.len() > 0 {
            "USER: "@ + c + "\n\n"@
        } else {
            seq![]
        }
    } else if event_text(e, "event_msg"@, "agent_message"@, "message"@) is Some {
        let t = event_text(e, "event_msg"@, "agent_message"@, "message"@)->0;
        if t.len() > 0 {
            "ASSISTANT: "@ + t + "\n\n"@
        } else {
            seq![]
        }
    } else if event_text(e, "event_msg"@, "agent_reasoning"@, "text"@) is Some {
        let t = event_text(e, "event_msg"@, "agent_reasoning"@, "text"@)->0;
        if t.len() > 0 {
            "THINKING: "@ + t + "\n\n"@
        } else {
            seq![]
        }
    } else if event_is(e, "response_item"@, "function_call"@) {
        match event_text(e, "response_item"@, "function_call"@, "name"@) {
            Some(n) => "TOOL: "@ + n + (match event_text(
                e,
                "response_item"@,
                "function_call"@,
                "arguments"@,
            ) {
                Some(a) => {
                    let s = summarize_of(n, a);
                    if s.len() > 0 {
                        "("@ + s + ")"@
                    } else {
                        seq![]
                    }
                },
                None => seq![],
            }) + "\n"@,
            None => seq![],
        }
    } else if event_is(e, "response_item"@, "function_call_output"@) {
        match call_output_of(e) {
            Some(o) => "TOOL_RESULT: "@ + truncate_output(o) + "\n\n"@,
            None => seq![],
        }
    } else {
        seq![]
    }
}

pub open spec fn codex_render_all(es: Seq<CodexEntry>) -> Seq<char>
    decreases es.len(),
{
    if es.len() == 0 {
        seq![]
    } else {
        codex_render_all(es.drop_last()) + codex_render(es.last())
    }
}

fn push_codex_entry(out: &mut String, entry: &CodexEntry)
    ensures
        final(out)@ == old(out)@ + codex_render(*entry),
{
    let ghost start = out@;
    if !entry.is_relevant() {
        proof {
            assert(out@ =~= start + codex_render(*entry));
        }
        return;
    }
    if let Some(text) = entry.user_message_text() {
        let cleaned = strip_environment_context(text);
        if !cleaned.as_str().is_empty() {
            push_str(out, "USER: ");
            push_str(out, cleaned.as_str());
            push_str(out, "\n\n");
        }
    } else if let Some(text) = entry.agent_message_text() {
        if !text.is_empty() {
            push_str(out, "ASSISTANT: ");
            push_str(out, text);
            push_str(out, "\n\n");
        }
    } else if let Some(text) = entry.agent_reasoning_text() {
        if !text.is_empty() {
            push_str(out, "THINKING: ");
            push_str(out, text);
            push_str(out, "\n\n");
        }
    } else if entry.is_function_call() {
        if let Some(name) = entry.function_call_name() {
            push_str(out, "TOOL: ");
            push_str(out, name);
            let ghost mid = out@;
            if let Some(args) = entry.function_call_args() {
                let summary = summarize_tool_args(name, args);
                if !summary.as_str().is_empty() {
                    push_str(out, "(");
                    push_str(out, summary.as_str());
                    push_str(out, ")");
                }
            }
            let ghost after = out@;
            push_str(out, "\n");
            proof {
                assert(out@ =~= start + ("TOOL: "@ + name@ + (after.subrange(
                    mid.len() as int,
                    after.len() as int,
                )) + "\n"@));
            }
        }
    } else if entry.is_function_call_output() {
        if let Some(output_text) = entry.function_call_output() {
            let cut = truncate_output_text(output_text.as_str());
            push_str(out, "TOOL_RESULT: ");
            push_str(out, cut.as_str());
            push_str(out, "\n\n");
        }
    }
    proof {
        assert(out@ =~= start + codex_render(*entry));
    }
}

/// Renders flat events as labelled blocks, in input order: `USER:`,
/// `ASSISTANT:`, `THINKING:`, `TOOL:` and `TOOL_RESULT:`. Environment blocks
/// are stripped from user text, long output is cut, and events with nothing
/// to show (token counts, metadata) add nothing.
pub fn format_context(entries: &[CodexEntry]) -> (r: String)
    ensures
        r@ == codex_render_all(entries@),
{
    let mut out = String::new();
    let mut i: usize = 0;
    while i < entries.len()
        invariant
            i <= entries@.len(),
            out@ == codex_render_all(entries@.take(i as int)),
        decreases entries@.len() - i,
    {
        proof {
            assert(entries@.take(i + 1).drop_last() =~= entries@.take(i as int));
        }
        push_codex_entry(&mut out, &entries[i]);
        i += 1;
    }
    proof {
        assert(entries@.take(entries@.len() as int) =~= entries@);
    }
    out
}

// ---------------------------------------------------------------------------
// Session files
// ---------------------------------------------------------------------------

/// Whether a file name is that of a flat event session: `rollout-*.jsonl`.
pub fn is_codex_session_file(file_name: &str) -> (r: bool)
    ensures
        r == (starts_with(file_name@, "rollout-"@) && ends_with(file_name@, ".jsonl"@)),
{
    str_starts_with(file_name, "rollout-") && str_ends_with(file_name, ".jsonl")
}

/// The session identifier of a session file's stem: the stem without its
/// `rollout-` prefix.
pub fn session_id_from_stem(stem: &str) -> (r: String)
    ensures
        starts_with(stem@, "rollout-"@) ==> r@ == stem@.skip(8),
        !starts_with(stem@, "rollout-"@) ==> r@ == stem@,
{
    proof {
        reveal_strlit("rollout-");
    }
    let v = crate::text::chars_of(stem);
    if str_starts_with(stem, "rollout-") {
        proof {
            assert(v@.subrange(8, v@.len() as int) =~= stem@.skip(8));
        }
        crate::text::string_of(&v, 8, v.len())
    } else {
        copy_str(stem)
    }
}

/// The first lines of a session file that its working directory is looked for in.
pub const CWD_SCAN_LINES: usize = 5;

/// The working directory that session metadata in the first lines records.
pub open spec fn cwd_in_lines(ls: Seq<Seq<char>>) -> Option<Seq<char>>
    decreases ls.len(),
{
    if ls.len() == 0 {
        None
    } else if !is_blank(ls[0]) && codex_line_decodes(ls[0]) && json_str_at(
        json_parse_of(ls[0])->0,
        "type"@,
    ) == Some("session_meta"@) {
        match json_get(json_parse_of(ls[0])->0, "payload"@) {
            Some(p) => json_str_at(p, "cwd"@),
            None => None,
        }
    } else {
        cwd_in_lines(ls.drop_first())
    }
}

/// The working directory of a session: the `cwd` of the first session
/// metadata record among the first five lines of its file.
pub fn read_session_cwd(head: &str) -> (r: Option<String>)
    ensures
        crate::transcript::opt_view(r) == cwd_in_lines(lines_of(head@).take(
            if lines_of(head@).len() < CWD_SCAN_LINES {
                lines_of(head@).len() as int
            } else {
                CWD_SCAN_LINES as int
            },
        )),
{
    let lines = split_lines(head);
    let n = if lines.len() < CWD_SCAN_LINES {
        lines.len()
    } else {
        CWD_SCAN_LINES
    };
    let ghost ls = lines.deep_view().take(n as int);
    let mut i: usize = 0;
    proof {
        assert(ls.skip(0) =~= ls);
    }
    while i < n
        invariant
            i <= n <= lines.len(),
            lines.deep_view() == lines_of(head@),
            n == if lines.len() < CWD_SCAN_LINES {
                lines.len()
            } else {
                CWD_SCAN_LINES
            },
            ls == lines.deep_view().take(n as int),
            cwd_in_lines(ls) == cwd_in_lines(ls.skip(i as int)),
        decreases n - i,
    {
        proof {
            assert(ls.skip(i as int).drop_first() =~= ls.skip(i + 1));
            assert(ls.skip(i as int)[0] == lines[i as int]@);
        }
        let line = lines[i].as_str();
        if !str_is_blank(line) {
            if let Some(j) = parse_json(line) {
                let ghost jg = j;
                if let Some(entry) = decode_codex_entry(j) {
                    if entry.is_session_meta() {
                        proof {
                            assert(json_parse_of(ls.skip(i as int)[0]) == Some(jg));
                            assert(json_get(jg, "payload"@) == Some(entry.payload));
                        }
                        return match entry.session_cwd() {
                            Some(c) => Some(copy_str(c)),
                            None => None,
                        };
                    }
                }
            }
        }
        i += 1;
    }
    None
}

} // verus!
