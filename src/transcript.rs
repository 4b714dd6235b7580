//! The rich session schema: one JSON record per line, with role-tagged
//! messages whose content is a string or a list of typed blocks.

use vstd::prelude::*;
use crate::json::{Json, json_get, json_str_at, json_parse_of, parse_json, str_eq};
use crate::text::{copy_str, is_blank, join, join_lines, lines_of, split_lines, str_is_blank};
use crate::time::{Timestamp, rfc3339_instant, parse_rfc3339};

verus! {

/// The string members of a tool call's input that the rendered context shows.
#[derive(Debug)]
pub struct ToolInput {
    pub file_path: Option<String>,
    pub command: Option<String>,
    pub pattern: Option<String>,
}

/// One typed block of a message's content.
#[derive(Debug)]
pub enum ContentBlock {
    Text(String),
    Thinking(String),
    ToolUse { name: String, input: Option<ToolInput> },
    ToolResult { tool_use_id: String, content: String },
    Other,
}

/// A message's content: plain text, or a list of blocks.
#[derive(Debug)]
pub enum MessageContent {
    Text(String),
    Blocks(Vec<ContentBlock>),
}

/// One decoded record of a rich session transcript. A record of a type that
/// this library does not know decodes to `Unknown`.
#[derive(Debug)]
pub enum TranscriptEntry {
    User { session_id: Option<String>, timestamp: Option<String>, content: MessageContent },
    Assistant { session_id: Option<String>, timestamp: Option<String>, content: MessageContent },
    Summary { summary: String, session_id: Option<String>, timestamp: Option<String> },
    Unknown,
}

/// A transcript read line by line: the records that decoded, in order, and
/// the 1-based numbers of the non-blank lines that did not.
#[derive(Debug)]
pub struct ParsedTranscript {
    pub entries: Vec<TranscriptEntry>,
    pub skipped_lines: Vec<usize>,
}

/// Why a transcript could not be read at all (a malformed line never is).
#[derive(Debug)]
pub enum ReadError {
    /// The file could not be opened or read; the message says why.
    Io(String),
}

impl ReadError {
    /// The message that reports this error.
    pub fn message(&self) -> (r: String)
        ensures
            r@ == "IO error: "@ + self->Io_0@,
    {
        match self {
            ReadError::Io(m) => {
                let mut r = copy_str("IO error: ");
                crate::text::push_str(&mut r, m.as_str());
                r
            },
        }
    }
}

// ---------------------------------------------------------------------------
// Decoding
// ---------------------------------------------------------------------------

pub open spec fn opt_view(o: Option<String>) -> Option<Seq<char>> {
    match o {
        Some(s) => Some(s@),
        None => None,
    }
}

/// What `input` holds of the members that the renderer shows.
pub open spec fn tool_input_decodes(j: Option<Json>, r: Option<ToolInput>) -> bool {
    match j {
        Some(v) => r matches Some(t) && opt_view(t.file_path) == json_str_at(v, "file_path"@)
            && opt_view(t.command) == json_str_at(v, "command"@) && opt_view(t.pattern)
            == json_str_at(v, "pattern"@),
        None => r is None,
    }
}

/// The texts of the `text` blocks in a list of JSON blocks.
pub open spec fn json_block_texts(items: Seq<Json>) -> Seq<Seq<char>>
    decreases items.len(),
{
    if items.len() == 0 {
        seq![]
    } else {
        let rest = json_block_texts(items.drop_last());
        if json_str_at(items.last(), "type"@) == Some("text"@) && json_str_at(
            items.last(),
            "text"@,
        ) is Some {
            rest.push(json_str_at(items.last(), "text"@)->0)
        } else {
            rest
        }
    }
}

/// The text of a tool result's content: the string itself, or the texts of its
/// `text` blocks joined by newlines; empty for anything else.
pub open spec fn result_text(j: Option<Json>) -> Seq<char> {
    match j {
        Some(Json::Str(s)) => s@,
        Some(Json::Array(items)) => join(json_block_texts(items@), "\n"@),
        _ => seq![],
    }
}

/// The block that a JSON block decodes to.
pub open spec fn block_decodes(j: Json, b: ContentBlock) -> bool {
    let ty = json_str_at(j, "type"@);
    if ty == Some("text"@) && json_str_at(j, "text"@) is Some {
        b is Text && Some(b->Text_0@) == json_str_at(j, "text"@)
    } else if ty == Some("thinking"@) && json_str_at(j, "thinking"@) is Some {
        b is Thinking && Some(b->Thinking_0@) == json_str_at(j, "thinking"@)
    } else if ty == Some("tool_use"@) && json_str_at(j, "name"@) is Some {
        b is ToolUse && Some(b->name@) == json_str_at(j, "name"@) && tool_input_decodes(
            json_get(j, "input"@),
            b->input,
        )
    } else if ty == Some("tool_result"@) {
        b is ToolResult && b->tool_use_id@ == (match json_str_at(j, "tool_use_id"@) {
            Some(s) => s,
            None => seq![],
        }) && b->content@ == result_text(json_get(j, "content"@))
    } else {
        b is Other
    }
}

/// The content of a message, where it is a string or an array.
pub open spec fn message_content(j: Json) -> Option<Json> {
    match json_get(j, "message"@) {
        Some(m) => match json_get(m, "content"@) {
            Some(Json::Str(s)) => Some(Json::Str(s)),
            Some(Json::Array(a)) => Some(Json::Array(a)),
            _ => None,
        },
        None => None,
    }
}

pub open spec fn content_decodes(j: Json, c: MessageContent) -> bool {
    match j {
        Json::Str(s) => c is Text && c->Text_0@ == s@,
        Json::Array(items) => c is Blocks && c->Blocks_0@.len() == items@.len() && forall|i: int|
            0 <= i < items@.len() ==> block_decodes(#[trigger] items@[i], c->Blocks_0@[i]),
        _ => false,
    }
}

/// Whether a JSON record decodes at all: a message with content, a summary with
/// its text, or a record of another named type.
pub open spec fn record_decodes(j: Json) -> bool {
    let ty = json_str_at(j, "type"@);
    if ty == Some("user"@) || ty == Some("assistant"@) {
        message_content(j) is Some
    } else if ty == Some("summary"@) {
        json_str_at(j, "summary"@) is Some
    } else {
        ty is Some
    }
}

/// The entry that a decodable JSON record decodes to.
pub open spec fn entry_decodes(j: Json, e: TranscriptEntry) -> bool {
    let ty = json_str_at(j, "type"@);
    if ty == Some("user"@) {
        e is User && opt_view(e->User_session_id) == json_str_at(j, "sessionId"@) && opt_view(
            e->User_timestamp,
        ) == json_str_at(j, "timestamp"@) && content_decodes(
            message_content(j)->0,
            e->User_content,
        )
    } else if ty == Some("assistant"@) {
        e is Assistant && opt_view(e->Assistant_session_id) == json_str_at(j, "sessionId"@)
            && opt_view(e->Assistant_timestamp) == json_str_at(j, "timestamp"@)
            && content_decodes(message_content(j)->0, e->Assistant_content)
    } else if ty == Some("summary"@) {
        e is Summary && Some(e->summary@) == json_str_at(j, "summary"@) && opt_view(
            e->Summary_session_id,
        ) == json_str_at(j, "sessionId"@) && opt_view(e->Summary_timestamp) == json_str_at(
            j,
            "timestamp"@,
        )
    } else {
        e is Unknown
    }
}

/// Whether a line of a transcript holds a record that decodes.
pub open spec fn line_decodes(l: Seq<char>) -> bool {
    json_parse_of(l) is Some && record_decodes(json_parse_of(l)->0)
}

/// The lines that yield a record: not blank, and decodable.
pub open spec fn kept_lines(ls: Seq<Seq<char>>) -> Seq<Seq<char>>
    decreases ls.len(),
{
    if ls.len() == 0 {
        seq![]
    } else {
        let rest = kept_lines(ls.drop_last());
        if !is_blank(ls.last()) && line_decodes(ls.last()) {
            rest.push(ls.last())
        } else {
            rest
        }
    }
}

/// The 1-based numbers of the non-blank lines that do not decode.
pub open spec fn skipped_line_numbers(ls: Seq<Seq<char>>) -> Seq<int>
    decreases ls.len(),
{
    if ls.len() == 0 {
        seq![]
    } else {
        let rest = skipped_line_numbers(ls.drop_last());
        if !is_blank(ls.last()) && !line_decodes(ls.last()) {
            rest.push(ls.len() as int)
        } else {
            rest
        }
    }
}

/// The number of non-blank lines.
pub open spec fn non_blank_count(ls: Seq<Seq<char>>) -> int
    decreases ls.len(),
{
    if ls.len() == 0 {
        0
    } else {
        non_blank_count(ls.drop_last()) + if is_blank(ls.last()) {
            0int
        } else {
            1int
        }
    }
}

/// Reads the string members that the renderer shows from a tool call's input.
fn decode_tool_input(j: Option<&Json>) -> (r: Option<ToolInput>)
    ensures
        tool_input_decodes(
            match j {
                Some(v) => Some(*v),
                None => None,
            },
            r,
        ),
{
    match j {
        Some(v) => Some(
            ToolInput {
                file_path: v.str_at("file_path"),
                command: v.str_at("command"),
                pattern: v.str_at("pattern"),
            },
        ),
        None => None,
    }
}

/// Whether the member `type` of `j` is the string `ty`.
pub fn type_is(j: &Json, ty: &str) -> (r: bool)
    ensures
        r == (json_str_at(*j, "type"@) == Some(ty@)),
{
    match j.get("type") {
        Some(t) => match t.as_str() {
            Some(s) => str_eq(s, ty),
            None => false,
        },
        None => false,
    }
}

fn result_content_text(j: Option<&Json>) -> (r: String)
    ensures
        r@ == result_text(
            match j {
                Some(v) => Some(*v),
                None => None,
            },
        ),
{
    match j {
        Some(Json::Str(s)) => copy_str(s.as_str()),
        Some(Json::Array(items)) => {
            let mut texts: Vec<String> = Vec::new();
            let mut i: usize = 0;
            while i < items.len()
                invariant
                    i <= items.len(),
                    texts.deep_view() == json_block_texts(items@.take(i as int)),
                decreases items.len() - i,
            {
                proof {
                    assert(items@.take(i + 1).drop_last() =~= items@.take(i as int));
                }
                let item = &items[i];
                if type_is(item, "text") {
                    match item.str_at("text") {
                        Some(t) => {
                            let ghost before = texts.deep_view();
                            texts.push(t);
                            proof {
                                assert(texts.deep_view() =~= before.push(t@));
                            }
                        },
                        None => {},
                    }
                }
                i += 1;
            }
            proof {
                assert(items@.take(items.len() as int) =~= items@);
                assert(texts.deep_view().skip(0) =~= texts.deep_view());
            }
            join_lines(&texts, 0, "\n")
        },
        _ => String::new(),
    }
}

/// Decodes one JSON content block.
pub fn decode_block(j: &Json) -> (r: ContentBlock)
    ensures
        block_decodes(*j, r),
{
    if type_is(j, "text") {
        if let Some(t) = j.str_at("text") {
            return ContentBlock::Text(t);
        }
    }
    if type_is(j, "thinking") {
        if let Some(t) = j.str_at("thinking") {
            return ContentBlock::Thinking(t);
        }
    }
    if type_is(j, "tool_use") {
        if let Some(name) = j.str_at("name") {
            return ContentBlock::ToolUse { name, input: decode_tool_input(j.get("input")) };
        }
    }
    if type_is(j, "tool_result") {
        let tool_use_id = match j.str_at("tool_use_id") {
            Some(s) => s,
            None => String::new(),
        };
        let content = result_content_text(j.get("content"));
        return ContentBlock::ToolResult { tool_use_id, content };
    }
    ContentBlock::Other
}

fn decode_content(j: &Json) -> (r: MessageContent)
    requires
        j is Str || j is Array,
    ensures
        content_decodes(*j, r),
{
    match j {
        Json::Str(s) => MessageContent::Text(copy_str(s.as_str())),
        Json::Array(items) => {
            let mut blocks: Vec<ContentBlock> = Vec::new();
            let mut i: usize = 0;
            while i < items.len()
                invariant
                    i <= items.len(),
                    blocks@.len() == i,
                    forall|k: int| 0 <= k < i ==> block_decodes(#[trigger] items@[k], blocks@[k]),
                decreases items.len() - i,
            {
                blocks.push(decode_block(&items[i]));
                i += 1;
            }
            MessageContent::Blocks(blocks)
        },
        _ => MessageContent::Text(String::new()),
    }
}

fn message_content_exec(j: &Json) -> (r: Option<&Json>)
    ensures
        match r {
            Some(c) => message_content(*j) == Some(*c),
            None => message_content(*j) is None,
        },
{
    match j.get("message") {
        Some(m) => match m.get("content") {
            Some(c) => match c {
                Json::Str(_) => Some(c),
                Json::Array(_) => Some(c),
                _ => None,
            },
            None => None,
        },
        None => None,
    }
}

/// Decodes one JSON record; `None` where it is not a record of this schema.
pub fn decode_entry(j: &Json) -> (r: Option<TranscriptEntry>)
    ensures
        r is Some <==> record_decodes(*j),
        r matches Some(e) ==> entry_decodes(*j, e),
{
    let is_user = type_is(j, "user");
    let is_assistant = type_is(j, "assistant");
    if is_user || is_assistant {
        match message_content_exec(j) {
            Some(c) => {
                let session_id = j.str_at("sessionId");
                let timestamp = j.str_at("timestamp");
                let content = decode_content(c);
                if is_user {
                    Some(TranscriptEntry::User { session_id, timestamp, content })
                } else {
                    Some(TranscriptEntry::Assistant { session_id, timestamp, content })
                }
            },
            None => None,
        }
    } else if type_is(j, "summary") {
        match j.str_at("summary") {
            Some(summary) => Some(
                TranscriptEntry::Summary {
                    summary,
                    session_id: j.str_at("sessionId"),
                    timestamp: j.str_at("timestamp"),
                },
            ),
            None => None,
        }
    } else {
        match j.get("type") {
            Some(t) => match t.as_str() {
                Some(_) => Some(TranscriptEntry::Unknown),
                None => None,
            },
            None => None,
        }
    }
}

/// Decodes one line of a transcript; `None` where it is not JSON or not a
/// record of this schema.
pub fn decode_line(line: &str) -> (r: Option<TranscriptEntry>)
    ensures
        r is Some <==> line_decodes(line@),
        r matches Some(e) ==> entry_decodes(json_parse_of(line@)->0, e),
{
    match parse_json(line) {
        Some(j) => decode_entry(&j),
        None => None,
    }
}

/// Reads a transcript: each non-blank line decoded on its own, in order. A
/// line that does not decode is skipped and its number recorded; it never
/// fails the whole text.
pub fn parse_transcript(text: &str) -> (r: ParsedTranscript)
    ensures
        r.entries@.len() == kept_lines(lines_of(text@)).len(),
        forall|i: int|
            0 <= i < r.entries@.len() ==> entry_decodes(
                json_parse_of(#[trigger] kept_lines(lines_of(text@))[i])->0,
                r.entries@[i],
            ),
        r.skipped_lines@.map_values(|n: usize| n as int) == skipped_line_numbers(
            lines_of(text@),
        ),
{
    let lines = split_lines(text);
    let ghost ls = lines.deep_view();
    let mut entries: Vec<TranscriptEntry> = Vec::new();
    let mut skipped: Vec<usize> = Vec::new();
    let mut i: usize = 0;
    while i < lines.len()
        invariant
            i <= lines.len(),
            ls == lines.deep_view(),
            ls == lines_of(text@),
            entries@.len() == kept_lines(ls.take(i as int)).len(),
            forall|k: int|
                0 <= k < entries@.len() ==> entry_decodes(
                    json_parse_of(#[trigger] kept_lines(ls.take(i as int))[k])->0,
                    entries@[k],
                ),
            skipped@.map_values(|n: usize| n as int) == skipped_line_numbers(ls.take(i as int)),
        decreases lines.len() - i,
    {
        let ghost prev = ls.take(i as int);
        proof {
            assert(ls.take(i + 1).drop_last() =~= prev);
            assert(ls.take(i + 1).last() == lines[i as int]@);
        }
        let line = lines[i].as_str();
        if !str_is_blank(line) {
            match decode_line(line) {
                Some(e) => {
                    entries.push(e);
                    proof {
                        assert(kept_lines(ls.take(i + 1)) == kept_lines(prev).push(line@));
                        assert forall|k: int| 0 <= k < entries@.len() implies entry_decodes(
                            json_parse_of(#[trigger] kept_lines(ls.take(i + 1))[k])->0,
                            entries@[k],
                        ) by {
                            if k < entries@.len() - 1 {
                                assert(kept_lines(ls.take(i + 1))[k] == kept_lines(prev)[k]);
                            }
                        }
                        assert(skipped_line_numbers(ls.take(i + 1)) == skipped_line_numbers(prev));
                    }
                },
                None => {
                    let ghost before = skipped@;
                    skipped.push(i + 1);
                    proof {
                        assert(skipped@.map_values(|n: usize| n as int) =~= before.map_values(
                            |n: usize| n as int,
                        ).push(i + 1));
                        assert(kept_lines(ls.take(i + 1)) == kept_lines(prev));
                    }
                },
            }
        } else {
            proof {
                assert(kept_lines(ls.take(i + 1)) == kept_lines(prev));
                assert(skipped_line_numbers(ls.take(i + 1)) == skipped_line_numbers(prev));
            }
        }
        i += 1;
    }
    proof {
        assert(ls.take(lines.len() as int) =~= ls);
    }
    ParsedTranscript { entries, skipped_lines: skipped }
}

/// Every non-blank line of a transcript either yields a record or is recorded
/// as skipped: the records and the skipped lines together number the non-blank
/// lines, and the records are the decodable lines in their original order.
pub proof fn lemma_parse_accounts_for_every_line(ls: Seq<Seq<char>>)
    ensures
        kept_lines(ls).len() + skipped_line_numbers(ls).len() == non_blank_count(ls),
        forall|i: int|
            0 <= i < kept_lines(ls).len() ==> !is_blank(#[trigger] kept_lines(ls)[i])
                && line_decodes(kept_lines(ls)[i]),
    decreases ls.len(),
{
    if ls.len() > 0 {
        lemma_parse_accounts_for_every_line(ls.drop_last());
        let rest = kept_lines(ls.drop_last());
        assert forall|i: int|
            0 <= i < kept_lines(ls).len() implies !is_blank(#[trigger] kept_lines(ls)[i])
            && line_decodes(kept_lines(ls)[i]) by {
            if i < rest.len() {
                assert(kept_lines(ls)[i] == rest[i]);
            }
        }
    }
}

// ---------------------------------------------------------------------------
// Queries
// ---------------------------------------------------------------------------

/// The texts of the `Text` blocks.
pub open spec fn block_texts(bs: Seq<ContentBlock>) -> Seq<Seq<char>>
    decreases bs.len(),
{
    if bs.len() == 0 {
        seq![]
    } else if bs.last() is Text {
        block_texts(bs.drop_last()).push(bs.last()->Text_0@)
    } else {
        block_texts(bs.drop_last())
    }
}

/// The texts of the `Thinking` blocks.
pub open spec fn block_thoughts(bs: Seq<ContentBlock>) -> Seq<Seq<char>>
    decreases bs.len(),
{
    if bs.len() == 0 {
        seq![]
    } else if bs.last() is Thinking {
        block_thoughts(bs.drop_last()).push(bs.last()->Thinking_0@)
    } else {
        block_thoughts(bs.drop_last())
    }
}

/// Texts joined by newlines, or `None` where there are none.
pub open spec fn joined(ts: Seq<Seq<char>>) -> Option<Seq<char>> {
    if ts.len() == 0 {
        None
    } else {
        Some(join(ts, "\n"@))
    }
}

/// The text of a message's content: the string, or its text blocks joined.
pub open spec fn content_text(c: MessageContent) -> Option<Seq<char>> {
    match c {
        MessageContent::Text(s) => Some(s@),
        MessageContent::Blocks(bs) => joined(block_texts(bs@)),
    }
}

/// The blocks of a message's content; none for plain text.
pub open spec fn content_blocks(c: MessageContent) -> Seq<ContentBlock> {
    match c {
        MessageContent::Text(_) => seq![],
        MessageContent::Blocks(bs) => bs@,
    }
}

pub open spec fn is_message(e: TranscriptEntry) -> bool {
    e is User || e is Assistant
}

/// The session identifier that a record carries.
pub open spec fn entry_session(e: TranscriptEntry) -> Option<Seq<char>> {
    match e {
        TranscriptEntry::User { session_id, .. } => opt_view(session_id),
        TranscriptEntry::Assistant { session_id, .. } => opt_view(session_id),
        TranscriptEntry::Summary { session_id, .. } => opt_view(session_id),
        _ => None,
    }
}

/// The timestamp text that a record carries.
pub open spec fn entry_timestamp(e: TranscriptEntry) -> Option<Seq<char>> {
    match e {
        TranscriptEntry::User { timestamp, .. } => opt_view(timestamp),
        TranscriptEntry::Assistant { timestamp, .. } => opt_view(timestamp),
        TranscriptEntry::Summary { timestamp, .. } => opt_view(timestamp),
        _ => None,
    }
}

/// The instant of a record: its timestamp read as RFC 3339, where it has one
/// that reads.
pub open spec fn entry_instant(e: TranscriptEntry) -> Option<Timestamp> {
    match entry_timestamp(e) {
        Some(t) => rfc3339_instant(t),
        None => None,
    }
}

/// The text a user wrote, where the record is a user message that has text.
pub open spec fn user_text_of(e: TranscriptEntry) -> Option<Seq<char>> {
    match e {
        TranscriptEntry::User { content, .. } => content_text(content),
        _ => None,
    }
}

/// The text an assistant wrote, where the record is an assistant message that has text.
pub open spec fn assistant_text_of(e: TranscriptEntry) -> Option<Seq<char>> {
    match e {
        TranscriptEntry::Assistant { content, .. } => content_text(content),
        _ => None,
    }
}

/// The assistant's reasoning, where the record is an assistant message that has some.
pub open spec fn assistant_thinking_of(e: TranscriptEntry) -> Option<Seq<char>> {
    match e {
        TranscriptEntry::Assistant { content, .. } => joined(block_thoughts(content_blocks(content))),
        _ => None,
    }
}

fn texts_joined(bs: &Vec<ContentBlock>, thinking: bool) -> (r: Option<String>)
    ensures
        opt_view(r) == joined(
            if thinking {
                block_thoughts(bs@)
            } else {
                block_texts(bs@)
            },
        ),
{
    let mut texts: Vec<String> = Vec::new();
    let mut i: usize = 0;
    while i < bs.len()
        invariant
            i <= bs.len(),
            texts.deep_view() == if thinking {
                block_thoughts(bs@.take(i as int))
            } else {
                block_texts(bs@.take(i as int))
            },
        decreases bs.len() - i,
    {
        proof {
            assert(bs@.take(i + 1).drop_last() =~= bs@.take(i as int));
        }
        let ghost before = texts.deep_view();
        match &bs[i] {
            ContentBlock::Text(t) => {
                if !thinking {
                    texts.push(copy_str(t.as_str()));
                    proof {
                        assert(texts.deep_view() =~= before.push(t@));
                    }
                }
            },
            ContentBlock::Thinking(t) => {
                if thinking {
                    texts.push(copy_str(t.as_str()));
                    proof {
                        assert(texts.deep_view() =~= before.push(t@));
                    }
                }
            },
            _ => {},
        }
        i += 1;
    }
    proof {
        assert(bs@.take(bs.len() as int) =~= bs@);
        assert(texts.deep_view().skip(0) =~= texts.deep_view());
    }
    if texts.len() == 0 {
        None
    } else {
        Some(join_lines(&texts, 0, "\n"))
    }
}

fn content_text_exec(c: &MessageContent) -> (r: Option<String>)
    ensures
        opt_view(r) == content_text(*c),
{
    match c {
        MessageContent::Text(s) => Some(copy_str(s.as_str())),
        MessageContent::Blocks(bs) => texts_joined(bs, false),
    }
}

impl TranscriptEntry {
    pub fn is_user(&self) -> (r: bool)
        ensures
            r == self is User,
    {
        matches!(self, TranscriptEntry::User { .. })
    }

    pub fn is_assistant(&self) -> (r: bool)
        ensures
            r == self is Assistant,
    {
        matches!(self, TranscriptEntry::Assistant { .. })
    }

    /// Whether the record is a user or assistant message.
    pub fn is_message(&self) -> (r: bool)
        ensures
            r == is_message(*self),
    {
        self.is_user() || self.is_assistant()
    }

    pub fn is_summary(&self) -> (r: bool)
        ensures
            r == self is Summary,
    {
        matches!(self, TranscriptEntry::Summary { .. })
    }

    pub fn session_id(&self) -> (r: Option<&str>)
        ensures
            match r {
                Some(s) => entry_session(*self) == Some(s@),
                None => entry_session(*self) is None,
            },
    {
        match self {
            TranscriptEntry::User { session_id: Some(s), .. } => Some(s.as_str()),
            TranscriptEntry::Assistant { session_id: Some(s), .. } => Some(s.as_str()),
            TranscriptEntry::Summary { session_id: Some(s), .. } => Some(s.as_str()),
            _ => None,
        }
    }

    pub fn timestamp(&self) -> (r: Option<&str>)
        ensures
            match r {
                Some(s) => entry_timestamp(*self) == Some(s@),
                None => entry_timestamp(*self) is None,
            },
    {
        match self {
            TranscriptEntry::User { timestamp: Some(s), .. } => Some(s.as_str()),
            TranscriptEntry::Assistant { timestamp: Some(s), .. } => Some(s.as_str()),
            TranscriptEntry::Summary { timestamp: Some(s), .. } => Some(s.as_str()),
            _ => None,
        }
    }

    pub fn summary_text(&self) -> (r: Option<&str>)
        ensures
            match r {
                Some(s) => self is Summary && s@ == self->summary@,
                None => !(self is Summary),
            },
    {
        match self {
            TranscriptEntry::Summary { summary, .. } => Some(summary.as_str()),
            _ => None,
        }
    }

    pub fn user_text(&self) -> (r: Option<String>)
        ensures
            opt_view(r) == user_text_of(*self),
    {
        match self {
            TranscriptEntry::User { content, .. } => content_text_exec(content),
            _ => None,
        }
    }

    pub fn assistant_text(&self) -> (r: Option<String>)
        ensures
            opt_view(r) == assistant_text_of(*self),
    {
        match self {
            TranscriptEntry::Assistant { content, .. } => content_text_exec(content),
            _ => None,
        }
    }

    pub fn assistant_thinking(&self) -> (r: Option<String>)
        ensures
            opt_view(r) == assistant_thinking_of(*self),
    {
        match self {
            TranscriptEntry::Assistant { content: MessageContent::Blocks(bs), .. } => texts_joined(
                bs,
                true,
            ),
            _ => None,
        }
    }

    /// The instant of the record's timestamp, where it has one that reads.
    pub fn instant(&self) -> (r: Option<Timestamp>)
        ensures
            r == entry_instant(*self),
    {
        match self.timestamp() {
            Some(t) => parse_rfc3339(t),
            None => None,
        }
    }
}

} // verus!
