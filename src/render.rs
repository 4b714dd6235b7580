//! Rendering selected records as one labelled transcript for the oracle:
//! injected reminder blocks stripped, tool calls summarised, tool output cut
//! at a whole character.

use vstd::prelude::*;
use vstd::utf8::{encode_utf8, valid_utf8, encode_utf8_valid_utf8};
use crate::json::str_eq;
use crate::text::occurs_at;
use crate::text::{
    chars_of, copy_str, find_from, find_from_exec, lemma_find_from_range, push_str, string_of,
    trim, trim_end, trim_start, trim_str, contains,
};
use crate::transcript::{ContentBlock, MessageContent, ToolInput, TranscriptEntry, assistant_text_of, assistant_thinking_of, content_blocks, user_text_of};

verus! {

/// Tool output longer than this many bytes is cut.
pub const OUTPUT_LIMIT_BYTES: usize = 500;

// ---------------------------------------------------------------------------
// Stripping tagged blocks
// ---------------------------------------------------------------------------

/// `t` from `start` on, with each block from an `open` tag through the next
/// `close` tag removed; an `open` with no `close` after it removes the rest.
pub open spec fn strip_from(t: Seq<char>, open: Seq<char>, close: Seq<char>, start: int) -> Seq<
    char,
>
    decreases t.len() + 1 - start,
{
    if start < 0 || start > t.len() || open.len() == 0 {
        seq![]
    } else {
        let k = find_from(t, open, start);
        if k < 0 {
            t.subrange(start, t.len() as int)
        } else {
            let m = find_from(t, close, k + open.len());
            if m < 0 {
                t.subrange(start, k)
            } else {
                let next = m + close.len();
                if next <= start || next > t.len() || k < start {
                    seq![]
                } else {
                    t.subrange(start, k) + strip_from(t, open, close, next)
                }
            }
        }
    }
}

/// `t` with tagged blocks removed pass after pass, until no opening tag is
/// left (a removal can join the halves of a new opening tag).
pub open spec fn strip_all(t: Seq<char>, open: Seq<char>, close: Seq<char>) -> Seq<char>
    decreases t.len(),
{
    if open.len() == 0 || !contains(t, open) {
        t
    } else {
        let s = strip_from(t, open, close, 0);
        if s.len() < t.len() {
            strip_all(s, open, close)
        } else {
            s
        }
    }
}

/// `t` with every tagged block removed, then trimmed.
pub open spec fn strip_tags(t: Seq<char>, open: Seq<char>, close: Seq<char>) -> Seq<char> {
    trim(strip_all(t, open, close))
}

/// One pass: removes every block from `open_tag` through the next `close_tag`
/// (through the end where no `close_tag` follows).
fn strip_blocks_once(text: &str, open_tag: &str, close_tag: &str) -> (r: String)
    requires
        open_tag@.len() > 0,
    ensures
        r@ == strip_from(text@, open_tag@, close_tag@, 0),
{
    let t = chars_of(text);
    let o = chars_of(open_tag);
    let c = chars_of(close_tag);
    let mut out = String::new();
    let mut start: usize = 0;
    while start < t.len()
        invariant
            start <= t.len(),
            t@ == text@,
            o@ == open_tag@,
            c@ == close_tag@,
            o@.len() > 0,
            strip_from(t@, o@, c@, 0) == out@ + strip_from(t@, o@, c@, start as int),
        decreases t.len() - start,
    {
        let ghost prev = out@;
        proof {
            lemma_find_from_range(t@, o@, start as int);
        }
        match find_from_exec(&t, &o, start) {
            None => {
                let rest = string_of(&t, start, t.len());
                push_str(&mut out, rest.as_str());
                proof {
                    assert(strip_from(t@, o@, c@, t.len() as int) =~= seq![]);
                    assert(out@ + strip_from(t@, o@, c@, t.len() as int) =~= prev
                        + strip_from(t@, o@, c@, start as int));
                }
                start = t.len();
            },
            Some(k) => {
                let before = string_of(&t, start, k);
                push_str(&mut out, before.as_str());
                let after_open = k + o.len();
                proof {
                    lemma_find_from_range(t@, c@, after_open as int);
                }
                match find_from_exec(&t, &c, after_open) {
                    None => {
                        proof {
                            assert(strip_from(t@, o@, c@, t.len() as int) =~= seq![]);
                            assert(out@ + strip_from(t@, o@, c@, t.len() as int) =~= prev
                                + strip_from(t@, o@, c@, start as int));
                        }
                        start = t.len();
                    },
                    Some(m) => {
                        proof {
                            assert(out@ + strip_from(t@, o@, c@, m + c.len()) =~= prev
                                + strip_from(t@, o@, c@, start as int));
                        }
                        start = m + c.len();
                    },
                }
            },
        }
    }
    proof {
        assert(strip_from(t@, o@, c@, start as int) =~= seq![]);
        assert(out@ =~= strip_from(t@, o@, c@, 0));
    }
    out
}

/// Removes every block from `open_tag` through the next `close_tag` (through
/// the end where no `close_tag` follows), again until none is left, and trims
/// what remains.
pub fn strip_xml_tags(text: &str, open_tag: &str, close_tag: &str) -> (r: String)
    requires
        open_tag@.len() > 0,
    ensures
        r@ == strip_tags(text@, open_tag@, close_tag@),
{
    let mut cur = copy_str(text);
    while crate::text::str_contains(cur.as_str(), open_tag)
        invariant
            open_tag@.len() > 0,
            strip_all(text@, open_tag@, close_tag@) == strip_all(cur@, open_tag@, close_tag@),
        decreases cur@.len(),
    {
        proof {
            lemma_strip_from_shorter(cur@, open_tag@, close_tag@, 0);
        }
        cur = strip_blocks_once(cur.as_str(), open_tag, close_tag);
    }
    trim_str(cur.as_str())
}

/// One pass keeps at most the text after `start`, and less where an opening
/// tag occurs there.
pub proof fn lemma_strip_from_shorter(t: Seq<char>, open: Seq<char>, close: Seq<char>, start: int)
    requires
        open.len() > 0,
        0 <= start <= t.len(),
    ensures
        strip_from(t, open, close, start).len() <= t.len() - start,
        find_from(t, open, start) >= 0 ==> strip_from(t, open, close, start).len() < t.len()
            - start,
    decreases t.len() + 1 - start,
{
    lemma_find_from_range(t, open, start);
    let k = find_from(t, open, start);
    if k >= 0 {
        lemma_find_from_range(t, close, k + open.len());
        let m = find_from(t, close, k + open.len());
        if m >= 0 {
            let next = m + close.len();
            if !(next <= start || next > t.len() || k < start) {
                lemma_strip_from_shorter(t, open, close, next);
            }
        }
    }
}

/// Where `p` occurs at `j`, a search from any earlier `i` finds it.
pub proof fn lemma_find_from_finds(s: Seq<char>, p: Seq<char>, i: int, j: int)
    requires
        0 <= i <= j,
        occurs_at(s, p, j),
    ensures
        find_from(s, p, i) >= 0,
    decreases j - i,
{
    if !occurs_at(s, p, i) {
        lemma_find_from_finds(s, p, i + 1, j);
    }
}

/// Repeated passes leave no opening tag.
pub proof fn lemma_strip_all_clean(t: Seq<char>, open: Seq<char>, close: Seq<char>)
    requires
        open.len() > 0,
    ensures
        !contains(strip_all(t, open, close), open),
    decreases t.len(),
{
    if contains(t, open) {
        lemma_strip_from_shorter(t, open, close, 0);
        lemma_strip_all_clean(strip_from(t, open, close, 0), open, close);
    }
}

proof fn lemma_trim_start_skips(s: Seq<char>)
    ensures
        exists|k: int| 0 <= k <= s.len() && trim_start(s) == #[trigger] s.skip(k),
    decreases s.len(),
{
    if s.len() > 0 && crate::text::is_ws(s[0]) {
        lemma_trim_start_skips(s.drop_first());
        let k = choose|k: int|
            0 <= k <= s.drop_first().len() && trim_start(s.drop_first()) == #[trigger] s.drop_first().skip(k);
        assert(s.drop_first().skip(k) =~= s.skip(k + 1));
    } else {
        assert(s.skip(0) =~= s);
    }
}

proof fn lemma_trim_end_takes(s: Seq<char>)
    ensures
        exists|k: int| 0 <= k <= s.len() && trim_end(s) == #[trigger] s.take(k),
    decreases s.len(),
{
    if s.len() > 0 && crate::text::is_ws(s.last()) {
        lemma_trim_end_takes(s.drop_last());
        let k = choose|k: int|
            0 <= k <= s.drop_last().len() && trim_end(s.drop_last()) == #[trigger] s.drop_last().take(k);
        assert(s.drop_last().take(k) =~= s.take(k));
    } else {
        assert(s.take(s.len() as int) =~= s);
    }
}

/// What is left of a text without `p` after trimming holds no `p` either.
proof fn lemma_trim_keeps_absent(s: Seq<char>, p: Seq<char>)
    requires
        !contains(s, p),
    ensures
        !contains(trim(s), p),
{
    lemma_trim_start_skips(s);
    let a = choose|k: int| 0 <= k <= s.len() && trim_start(s) == #[trigger] s.skip(k);
    let u = trim_start(s);
    lemma_trim_end_takes(u);
    let b = choose|k: int| 0 <= k <= u.len() && trim_end(u) == #[trigger] u.take(k);
    let w = trim(s);
    if contains(w, p) {
        lemma_find_from_range(w, p, 0);
        let j = find_from(w, p, 0);
        assert(w =~= s.subrange(a, a + b));
        assert(s.subrange(a + j, a + j + p.len()) =~= w.subrange(j, j + p.len()));
        lemma_find_from_finds(s, p, 0, a + j);
    }
}


/// Removes the injected `<system-reminder>` blocks from user text.
pub fn strip_system_reminders(text: &str) -> (r: String)
    ensures
        r@ == strip_tags(text@, "<system-reminder>"@, "</system-reminder>"@),
{
    proof {
        reveal_strlit("<system-reminder>");
    }
    strip_xml_tags(text, "<system-reminder>", "</system-reminder>")
}

proof fn lemma_trim_start_idem(s: Seq<char>)
    ensures
        trim_start(trim_start(s)) == trim_start(s),
        trim_start(s).len() > 0 ==> !crate::text::is_ws(trim_start(s)[0]),
    decreases s.len(),
{
    if s.len() > 0 && crate::text::is_ws(s[0]) {
        lemma_trim_start_idem(s.drop_first());
    }
}

proof fn lemma_trim_end_keeps_start(s: Seq<char>)
    requires
        s.len() > 0 ==> !crate::text::is_ws(s[0]),
    ensures
        trim_end(s).len() > 0 ==> !crate::text::is_ws(trim_end(s)[0]),
        trim_end(trim_end(s)) == trim_end(s),
    decreases s.len(),
{
    if s.len() > 0 && crate::text::is_ws(s.last()) {
        let t = s.drop_last();
        if t.len() > 0 {
            assert(t[0] == s[0]);
        }
        lemma_trim_end_keeps_start(t);
    }
}

/// Trimming twice trims no more than once.
pub proof fn lemma_trim_idem(s: Seq<char>)
    ensures
        trim(trim(s)) == trim(s),
{
    lemma_trim_start_idem(s);
    let a = trim_start(s);
    lemma_trim_end_keeps_start(a);
    let b = trim_end(a);
    if b.len() > 0 {
        assert(trim_start(b) == b);
    } else {
        assert(trim_start(b) == b);
    }
}

/// Stripping is idempotent: stripping an already stripped text changes nothing.
pub proof fn lemma_strip_idempotent(t: Seq<char>, open: Seq<char>, close: Seq<char>)
    requires
        open.len() > 0,
    ensures
        strip_tags(strip_tags(t, open, close), open, close) == strip_tags(t, open, close),
{
    let r = strip_all(t, open, close);
    lemma_strip_all_clean(t, open, close);
    lemma_trim_keeps_absent(r, open);
    lemma_trim_idem(r);
}

// ---------------------------------------------------------------------------
// Cutting long output
// ---------------------------------------------------------------------------

/// The number of bytes in the UTF-8 encoding of `c`.
pub open spec fn utf8_width(c: char) -> int {
    if (c as u32) < 0x80 {
        1
    } else if (c as u32) < 0x800 {
        2
    } else if (c as u32) < 0x10000 {
        3
    } else {
        4
    }
}

/// The number of bytes in the UTF-8 encoding of `s`.
pub open spec fn utf8_len(s: Seq<char>) -> int
    decreases s.len(),
{
    if s.len() == 0 {
        0
    } else {
        utf8_width(s[0]) + utf8_len(s.drop_first())
    }
}

/// The longest run of whole characters at the start of `s` that fits in
/// `budget` bytes.
pub open spec fn fit_prefix(s: Seq<char>, budget: int) -> Seq<char>
    decreases s.len(),
{
    if s.len() == 0 || utf8_width(s[0]) > budget {
        seq![]
    } else {
        seq![s[0]] + fit_prefix(s.drop_first(), budget - utf8_width(s[0]))
    }
}

/// Tool output as rendered: where it is longer than the limit, the whole
/// characters that fit in it followed by a truncation marker.
pub open spec fn truncate_output(s: Seq<char>) -> Seq<char> {
    let p = fit_prefix(s, OUTPUT_LIMIT_BYTES as int);
    if p.len() < s.len() {
        p + "...[truncated]"@
    } else {
        s
    }
}

fn char_width(c: char) -> (r: usize)
    ensures
        r == utf8_width(c),
{
    let u = c as u32;
    if u < 0x80 {
        1
    } else if u < 0x800 {
        2
    } else if u < 0x10000 {
        3
    } else {
        4
    }
}

/// The longest run of whole characters at the start of `text` that fits in
/// `limit` bytes, and whether that run is shorter than the text.
pub fn prefix_within(text: &str, limit: usize) -> (r: (String, bool))
    ensures
        r.0@ == fit_prefix(text@, limit as int),
        r.1 == (fit_prefix(text@, limit as int).len() < text@.len()),
{
    let v = chars_of(text);
    let mut k: usize = 0;
    let mut room: usize = limit;
    proof {
        assert(v@.skip(0) =~= v@);
        assert(v@.take(0) + fit_prefix(v@, room as int) =~= fit_prefix(v@, room as int));
    }
    while k < v.len() && char_width(v[k]) <= room
        invariant
            k <= v.len(),
            v@ == text@,
            room <= limit,
            fit_prefix(v@, limit as int) == v@.take(k as int) + fit_prefix(
                v@.skip(k as int),
                room as int,
            ),
        decreases v.len() - k,
    {
        proof {
            let rest = v@.skip(k as int);
            assert(rest[0] == v@[k as int]);
            assert(rest.drop_first() =~= v@.skip(k + 1));
            assert(v@.take(k + 1) =~= v@.take(k as int) + seq![v@[k as int]]);
            assert(v@.take(k as int) + (seq![v@[k as int]] + fit_prefix(
                v@.skip(k + 1),
                room - utf8_width(v@[k as int]),
            )) =~= v@.take(k + 1) + fit_prefix(v@.skip(k + 1), room - utf8_width(v@[k as int])));
        }
        room = room - char_width(v[k]);
        k += 1;
    }
    proof {
        if k < v.len() {
            assert(v@.skip(k as int)[0] == v@[k as int]);
        }
        assert(fit_prefix(v@.skip(k as int), room as int) =~= seq![]);
        assert(v@.take(k as int) + seq![] =~= v@.take(k as int));
        assert(v@.subrange(0, k as int) =~= v@.take(k as int));
    }
    (string_of(&v, 0, k), k < v.len())
}

/// Cuts tool output longer than the limit at the last whole character that
/// fits, and marks the cut.
pub fn truncate_output_text(text: &str) -> (r: String)
    ensures
        r@ == truncate_output(text@),
{
    let (mut kept, cut) = prefix_within(text, OUTPUT_LIMIT_BYTES);
    if cut {
        push_str(&mut kept, "...[truncated]");
        kept
    } else {
        proof {
            crate::render::lemma_fit_prefix_is_prefix(text@, OUTPUT_LIMIT_BYTES as int);
            assert(kept@ =~= text@);
        }
        kept
    }
}

/// The byte length of a text grows by the width of each character added.
pub proof fn lemma_utf8_len_push(s: Seq<char>, c: char)
    ensures
        utf8_len(s.push(c)) == utf8_len(s) + utf8_width(c),
    decreases s.len(),
{
    if s.len() > 0 {
        assert(s.push(c)[0] == s[0]);
        assert(s.push(c).drop_first() =~= s.drop_first().push(c));
        lemma_utf8_len_push(s.drop_first(), c);
    } else {
        assert(s.push(c)[0] == c);
        assert(s.push(c).drop_first() =~= Seq::<char>::empty());
        assert(utf8_len(Seq::<char>::empty()) == 0);
    }
}

/// The number of bytes in the UTF-8 encoding of `text`.
pub fn byte_len(text: &str) -> (r: u128)
    ensures
        r as int == utf8_len(text@),
        r <= 4 * (usize::MAX as u128),
{
    let v = chars_of(text);
    let mut n: u128 = 0;
    let mut i: usize = 0;
    while i < v.len()
        invariant
            i <= v.len(),
            v@ == text@,
            n as int == utf8_len(v@.take(i as int)),
            n <= 4 * i,
        decreases v.len() - i,
    {
        proof {
            assert(v@.take(i + 1) =~= v@.take(i as int).push(v@[i as int]));
            lemma_utf8_len_push(v@.take(i as int), v@[i as int]);
        }
        n = n + char_width(v[i]) as u128;
        i += 1;
    }
    proof {
        assert(v@.take(v.len() as int) =~= v@);
    }
    n
}

/// What `fit_prefix` keeps is a run at the start of the text.
pub proof fn lemma_fit_prefix_is_prefix(s: Seq<char>, budget: int)
    ensures
        fit_prefix(s, budget).len() <= s.len(),
        fit_prefix(s, budget) =~= s.take(fit_prefix(s, budget).len() as int),
    decreases s.len(),
{
    if !(s.len() == 0 || utf8_width(s[0]) > budget) {
        lemma_fit_prefix_is_prefix(s.drop_first(), budget - utf8_width(s[0]));
    }
}

/// The kept part of cut output is a run of whole characters at the start of
/// the text, no longer than the limit, and the longest such run; its bytes
/// are valid UTF-8, so a cut never splits a character.
pub proof fn lemma_truncation_keeps_whole_chars(s: Seq<char>, budget: int)
    requires
        budget >= 0,
    ensures
        exists|k: int|
            0 <= k <= s.len() && fit_prefix(s, budget) == #[trigger] s.take(k) && utf8_len(
                s.take(k),
            ) <= budget && (k == s.len() || utf8_len(s.take(k + 1)) > budget),
        valid_utf8(encode_utf8(fit_prefix(s, budget))),
        valid_utf8(encode_utf8(truncate_output(s))),
    decreases s.len(),
{
    encode_utf8_valid_utf8(fit_prefix(s, budget));
    encode_utf8_valid_utf8(truncate_output(s));
    if s.len() == 0 || utf8_width(s[0]) > budget {
        assert(s.take(0) =~= seq![]);
        assert(utf8_len(s.take(0)) == 0);
        if s.len() > 0 {
            assert(s.take(1)[0] == s[0]);
            assert(s.take(1).drop_first() =~= seq![]);
            assert(utf8_len(s.take(1)) == utf8_width(s[0]) + utf8_len(s.take(1).drop_first()));
        }
        assert(fit_prefix(s, budget) == s.take(0));
    } else {
        let rest = s.drop_first();
        let b = budget - utf8_width(s[0]);
        lemma_truncation_keeps_whole_chars(rest, b);
        let k = choose|k: int|
            0 <= k <= rest.len() && fit_prefix(rest, b) == #[trigger] rest.take(k) && utf8_len(
                rest.take(k),
            ) <= b && (k == rest.len() || utf8_len(rest.take(k + 1)) > b);
        assert(s.take(k + 1) =~= seq![s[0]] + rest.take(k));
        assert(s.take(k + 1).drop_first() =~= rest.take(k));
        assert(s.take(k + 1)[0] == s[0]);
        assert(utf8_len(s.take(k + 1)) == utf8_width(s[0]) + utf8_len(rest.take(k)));
        if k < rest.len() {
            assert(s.take(k + 2).drop_first() =~= rest.take(k + 1));
            assert(s.take(k + 2)[0] == s[0]);
            assert(utf8_len(s.take(k + 2)) == utf8_width(s[0]) + utf8_len(rest.take(k + 1)));
        }
        assert(fit_prefix(s, budget) == s.take(k + 1));
    }
}

// ---------------------------------------------------------------------------
// Tool call summaries
// ---------------------------------------------------------------------------

pub open spec fn opt_or_empty(o: Option<String>) -> Seq<char> {
    match o {
        Some(s) => s@,
        None => seq![],
    }
}

/// The argument shown beside a tool call: the file for the file tools, the
/// command for the shell, the pattern for the search tools; nothing else.
pub open spec fn tool_summary_of(name: Seq<char>, input: Option<ToolInput>) -> Seq<char> {
    match input {
        None => seq![],
        Some(i) => if name == "Edit"@ || name == "Write"@ || name == "Read"@ {
            opt_or_empty(i.file_path)
        } else if name == "Bash"@ {
            opt_or_empty(i.command)
        } else if name == "Glob"@ || name == "Grep"@ {
            opt_or_empty(i.pattern)
        } else {
            seq![]
        },
    }
}

fn copy_opt(o: &Option<String>) -> (r: String)
    ensures
        r@ == opt_or_empty(*o),
{
    match o {
        Some(s) => copy_str(s.as_str()),
        None => String::new(),
    }
}

/// The argument shown beside a tool call of tool `name`.
pub fn tool_summary(name: &str, input: Option<&ToolInput>) -> (r: String)
    ensures
        r@ == tool_summary_of(
            name@,
            match input {
                Some(i) => Some(*i),
                None => None,
            },
        ),
{
    match input {
        None => String::new(),
        Some(i) => {
            if str_eq(name, "Edit") || str_eq(name, "Write") || str_eq(name, "Read") {
                copy_opt(&i.file_path)
            } else if str_eq(name, "Bash") {
                copy_opt(&i.command)
            } else if str_eq(name, "Glob") || str_eq(name, "Grep") {
                copy_opt(&i.pattern)
            } else {
                String::new()
            }
        },
    }
}

// ---------------------------------------------------------------------------
// Rendering records of the rich schema
// ---------------------------------------------------------------------------

/// The `TOOL_RESULT:` blocks of a message's tool results, in order.
pub open spec fn results_text(bs: Seq<ContentBlock>) -> Seq<char>
    decreases bs.len(),
{
    if bs.len() == 0 {
        seq![]
    } else {
        results_text(bs.drop_last()) + if bs.last() is ToolResult {
            "TOOL_RESULT: "@ + truncate_output(bs.last()->ToolResult_content@) + "\n\n"@
        } else {
            seq![]
        }
    }
}

/// One tool call as the `TOOLS:` line shows it: its name, its summary in
/// parentheses where there is one, and a space.
pub open spec fn tool_call_text(name: Seq<char>, input: Option<ToolInput>) -> Seq<char> {
    let s = tool_summary_of(name, input);
    name + if s.len() > 0 {
        "("@ + s + ")"@
    } else {
        seq![]
    } + " "@
}

/// The tool calls of a message, as the `TOOLS:` line lists them.
pub open spec fn tools_text(bs: Seq<ContentBlock>) -> Seq<char>
    decreases bs.len(),
{
    if bs.len() == 0 {
        seq![]
    } else {
        tools_text(bs.drop_last()) + if bs.last() is ToolUse {
            tool_call_text(bs.last()->name@, bs.last()->input)
        } else {
            seq![]
        }
    }
}

/// The number of tool calls in a message.
pub open spec fn tool_use_count(bs: Seq<ContentBlock>) -> int
    decreases bs.len(),
{
    if bs.len() == 0 {
        0
    } else {
        tool_use_count(bs.drop_last()) + if bs.last() is ToolUse {
            1int
        } else {
            0int
        }
    }
}

/// The rendering of one record: its labelled blocks, or nothing.
pub open spec fn render_entry(e: TranscriptEntry) -> Seq<char> {
    match e {
        TranscriptEntry::Summary { summary, .. } => "SUMMARY: "@ + summary@ + "\n\n"@,
        TranscriptEntry::User { content, .. } => results_text(content_blocks(content)) + match
            user_text_of(e) {
            Some(t) => {
                let cleaned = strip_tags(t, "<system-reminder>"@, "</system-reminder>"@);
                if cleaned.len() > 0 {
                    "USER: "@ + cleaned + "\n\n"@
                } else {
                    seq![]
                }
            },
            None => seq![],
        },
        TranscriptEntry::Assistant { content, .. } => {
            let bs = content_blocks(content);
            let has_tools = tool_use_count(bs) > 0;
            (match assistant_thinking_of(e) {
                Some(t) => "THINKING: "@ + t + "\n\n"@,
                None => seq![],
            }) + (if has_tools {
                "TOOLS: "@ + tools_text(bs) + "\n"@
            } else {
                seq![]
            }) + match assistant_text_of(e) {
                Some(t) => "ASSISTANT: "@ + t + "\n\n"@,
                None => if has_tools {
                    "\n"@
                } else {
                    seq![]
                },
            }
        },
        TranscriptEntry::Unknown => seq![],
    }
}

/// The rendering of a run of records: each one's blocks, in order.
pub open spec fn render_all(es: Seq<TranscriptEntry>) -> Seq<char>
    decreases es.len(),
{
    if es.len() == 0 {
        seq![]
    } else {
        render_all(es.drop_last()) + render_entry(es.last())
    }
}

fn blocks_of(c: &MessageContent) -> (r: &[ContentBlock])
    ensures
        r@ == content_blocks(*c),
{
    match c {
        MessageContent::Text(_) => &[],
        MessageContent::Blocks(bs) => bs.as_slice(),
    }
}

fn push_results(out: &mut String, bs: &[ContentBlock])
    ensures
        final(out)@ == old(out)@ + results_text(bs@),
{
    let mut i: usize = 0;
    let ghost start = out@;
    while i < bs.len()
        invariant
            i <= bs@.len(),
            out@ == start + results_text(bs@.take(i as int)),
        decreases bs@.len() - i,
    {
        proof {
            assert(bs@.take(i + 1).drop_last() =~= bs@.take(i as int));
        }
        let ghost prev = out@;
        match &bs[i] {
            ContentBlock::ToolResult { content, .. } => {
                let cut = truncate_output_text(content.as_str());
                push_str(out, "TOOL_RESULT: ");
                push_str(out, cut.as_str());
                push_str(out, "\n\n");
                proof {
                    assert(out@ =~= prev + ("TOOL_RESULT: "@ + truncate_output(content@)
                        + "\n\n"@));
                }
            },
            _ => {
                proof {
                    assert(out@ =~= prev + seq![]);
                }
            },
        }
        i += 1;
    }
    proof {
        assert(bs@.take(bs@.len() as int) =~= bs@);
    }
}

fn push_tools(out: &mut String, bs: &[ContentBlock]) -> (n: usize)
    ensures
        final(out)@ == old(out)@ + tools_text(bs@),
        n == tool_use_count(bs@),
{
    let mut i: usize = 0;
    let mut n: usize = 0;
    let ghost start = out@;
    while i < bs.len()
        invariant
            i <= bs@.len(),
            n == tool_use_count(bs@.take(i as int)),
            n <= i,
            out@ == start + tools_text(bs@.take(i as int)),
        decreases bs@.len() - i,
    {
        proof {
            assert(bs@.take(i + 1).drop_last() =~= bs@.take(i as int));
        }
        let ghost prev = out@;
        match &bs[i] {
            ContentBlock::ToolUse { name, input } => {
                push_str(out, name.as_str());
                let summary = tool_summary(
                    name.as_str(),
                    match input {
                        Some(t) => Some(t),
                        None => None,
                    },
                );
                if !summary.as_str().is_empty() {
                    push_str(out, "(");
                    push_str(out, summary.as_str());
                    push_str(out, ")");
                }
                push_str(out, " ");
                proof {
                    assert(out@ =~= prev + tool_call_text(name@, *input));
                }
                n += 1;
            },
            _ => {
                proof {
                    assert(out@ =~= prev + seq![]);
                }
            },
        }
        i += 1;
    }
    proof {
        assert(bs@.take(bs@.len() as int) =~= bs@);
    }
    n
}

/// Appends the rendering of one record.
#[verifier::rlimit(80)]
fn push_entry(out: &mut String, e: &TranscriptEntry)
    ensures
        final(out)@ == old(out)@ + render_entry(*e),
{
    let ghost start = out@;
    match e {
        TranscriptEntry::Summary { summary, .. } => {
            push_str(out, "SUMMARY: ");
            push_str(out, summary.as_str());
            push_str(out, "\n\n");
            proof {
                assert(out@ =~= start + render_entry(*e));
            }
        },
        TranscriptEntry::User { content, .. } => {
            push_results(out, blocks_of(content));
            let ghost mid = out@;
            match e.user_text() {
                Some(text) => {
                    let cleaned = strip_system_reminders(text.as_str());
                    if !cleaned.as_str().is_empty() {
                        push_str(out, "USER: ");
                        push_str(out, cleaned.as_str());
                        push_str(out, "\n\n");
                        proof {
                            assert(out@ =~= mid + ("USER: "@ + cleaned@ + "\n\n"@));
                        }
                    } else {
                        proof {
                            assert(out@ =~= mid + seq![]);
                        }
                    }
                },
                None => {
                    proof {
                        assert(out@ =~= mid + seq![]);
                    }
                },
            }
            proof {
                assert(out@ =~= start + render_entry(*e));
            }
        },
        TranscriptEntry::Assistant { content, .. } => {
            let bs = blocks_of(content);
            match e.assistant_thinking() {
                Some(t) => {
                    push_str(out, "THINKING: ");
                    push_str(out, t.as_str());
                    push_str(out, "\n\n");
                },
                None => {},
            }
            let ghost after_thinking = out@;
            let mut n: usize = 0;
            let mut tools = String::new();
            n = push_tools(&mut tools, bs);
            if n > 0 {
                push_str(out, "TOOLS: ");
                push_str(out, tools.as_str());
                push_str(out, "\n");
            }
            let ghost after_tools = out@;
            match e.assistant_text() {
                Some(t) => {
                    push_str(out, "ASSISTANT: ");
                    push_str(out, t.as_str());
                    push_str(out, "\n\n");
                },
                None => {
                    if n > 0 {
                        push_str(out, "\n");
                    }
                },
            }
            proof {
                let thinking_part = match assistant_thinking_of(*e) {
                    Some(t) => "THINKING: "@ + t + "\n\n"@,
                    None => seq![],
                };
                let tools_part = if n > 0 {
                    "TOOLS: "@ + tools_text(bs@) + "\n"@
                } else {
                    seq![]
                };
                let text_part = match assistant_text_of(*e) {
                    Some(t) => "ASSISTANT: "@ + t + "\n\n"@,
                    None => if n > 0 {
                        "\n"@
                    } else {
                        seq![]
                    },
                };
                assert(after_thinking =~= start + thinking_part);
                assert(after_tools =~= after_thinking + tools_part);
                assert(out@ =~= after_tools + text_part);
                assert(out@ =~= start + (thinking_part + tools_part + text_part));
            }
        },
        TranscriptEntry::Unknown => {
            proof {
                assert(out@ =~= start + seq![]);
            }
        },
    }
}

/// Renders records as labelled blocks, in input order: `SUMMARY:`, `USER:`,
/// `THINKING:`, `TOOLS:`, `ASSISTANT:` and `TOOL_RESULT:`. Reminder blocks
/// are stripped from user text, long tool output is cut, and a record with
/// nothing to show adds nothing; no records give the empty string.
pub fn format_context(messages: &[&TranscriptEntry]) -> (r: String)
    ensures
        r@ == render_all(messages@.map_values(|e: &TranscriptEntry| *e)),
{
    let ghost es = messages@.map_values(|e: &TranscriptEntry| *e);
    let mut out = String::new();
    let mut i: usize = 0;
    while i < messages.len()
        invariant
            i <= messages@.len(),
            es == messages@.map_values(|e: &TranscriptEntry| *e),
            out@ == render_all(es.take(i as int)),
        decreases messages@.len() - i,
    {
        proof {
            assert(es.take(i + 1).drop_last() =~= es.take(i as int));
            assert(es.take(i + 1).last() == *messages@[i as int]);
        }
        push_entry(&mut out, messages[i]);
        i += 1;
    }
    proof {
        assert(es.take(messages@.len() as int) =~= es);
    }
    out
}

} // verus!
