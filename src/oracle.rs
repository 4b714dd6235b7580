//! The oracle's reply protocol: a line `NAME: YES|NO|TRUE|FALSE`, possibly
//! wrapped in markdown, followed on a positive answer by the content; and the
//! JSON envelope `{"result": ...}` that the oracle's command prints.

use vstd::prelude::*;
use crate::json::{json_parse_of, json_str_at, parse_json, str_eq};
use crate::text::{chars_of, copy_str, join, join_lines, lines_of, occurs_at_exec, push_str, split_lines, starts_with, string_of, trim, trim_bounds, trim_start_chars, trim_start_set, trim_str};

verus! {

/// A parsed reply: whether the marker said yes, and the content after it.
#[derive(Debug)]
pub struct MarkerResponse {
    pub is_positive: bool,
    pub content: String,
}

/// What `str::to_uppercase` returns for a text.
pub uninterp spec fn upper_of(s: Seq<char>) -> Seq<char>;

/// Relies on `str::to_uppercase`: the text in upper case, which depends on its
/// characters alone.
#[verifier::external_body]
fn to_upper(s: &str) -> (r: String)
    ensures
        r@ == upper_of(s@),
{
    s.to_uppercase()
}

/// The characters that may wrap a marker line: headings, quotes, emphasis.
pub open spec fn markdown_marks() -> Seq<char> {
    seq!['#', '>', '*']
}

/// A line without surrounding whitespace and leading markdown marks.
pub open spec fn markdown_stripped(l: Seq<char>) -> Seq<char> {
    trim(trim_start_set(trim(l), markdown_marks()))
}

/// Whether line `s` (already stripped) opens with the marker `name` in any
/// case, followed by `:`.
pub open spec fn opens_with_marker(s: Seq<char>, name: Seq<char>) -> bool {
    name.len() < s.len() && upper_of(s.take(name.len() as int)) == upper_of(name) && s[name.len() as int] == ':'
}

/// The value after a marker on line `l`, trimmed, where `l` is a marker line:
/// stripped of markdown marks, it opens with the marker name in any case and `:`.
pub open spec fn marker_value(l: Seq<char>, name: Seq<char>) -> Option<Seq<char>> {
    let s = markdown_stripped(l);
    if opens_with_marker(s, name) {
        Some(trim(s.skip(name.len() as int + 1)))
    } else {
        None
    }
}

/// The first marker line at or after `i`, or -1.
pub open spec fn first_marker(ls: Seq<Seq<char>>, name: Seq<char>, i: int) -> int
    decreases ls.len() - i,
{
    if i < 0 || i >= ls.len() {
        -1
    } else if marker_value(ls[i], name) is Some {
        i
    } else {
        first_marker(ls, name, i + 1)
    }
}

/// Whether an upper-cased marker value is affirmative.
pub open spec fn affirmative(v: Seq<char>) -> bool {
    v == "YES"@ || v == "TRUE"@
}

/// Whether a reply's first marker line is affirmative.
pub open spec fn reply_positive(text: Seq<char>, name: Seq<char>) -> bool {
    let ls = lines_of(text);
    let i = first_marker(ls, name, 0);
    i >= 0 && affirmative(upper_of(marker_value(ls[i], name)->0))
}

/// The content of a positive reply: the lines after the marker line, trimmed.
pub open spec fn reply_content(text: Seq<char>, name: Seq<char>) -> Seq<char> {
    let ls = lines_of(text);
    let i = first_marker(ls, name, 0);
    if reply_positive(text, name) {
        trim(join(ls.skip(i + 1), "\n"@))
    } else {
        seq![]
    }
}

/// Strips the whitespace and leading markdown marks around a marker line.
pub fn strip_markdown_prefix(line: &str) -> (r: String)
    ensures
        r@ == markdown_stripped(line@),
{
    let t = trim_str(line);
    let marks: Vec<char> = vec!['#', '>', '*'];
    proof {
        assert(marks@ =~= markdown_marks());
    }
    let u = trim_start_chars(t.as_str(), &marks);
    trim_str(u.as_str())
}

/// Whether an upper-cased marker value is affirmative: `YES` or `TRUE`.
pub fn is_affirmative(value_upper: &str) -> (r: bool)
    ensures
        r == affirmative(value_upper@),
{
    str_eq(value_upper, "YES") || str_eq(value_upper, "TRUE")
}

/// The value after the marker on `line`, trimmed, where it is a marker line.
fn marker_value_exec(line: &str, name: &str) -> (r: Option<String>)
    ensures
        match r {
            Some(v) => marker_value(line@, name@) == Some(v@),
            None => marker_value(line@, name@) is None,
        },
{
    let s = strip_markdown_prefix(line);
    let sv = chars_of(s.as_str());
    let nv = chars_of(name);
    let n = nv.len();
    if n >= sv.len() || sv[n] != ':' {
        return None;
    }
    let head = string_of(&sv, 0, n);
    let head_upper = to_upper(head.as_str());
    let name_upper = to_upper(name);
    proof {
        assert(sv@.subrange(0, n as int) =~= sv@.take(n as int));
    }
    if str_eq(head_upper.as_str(), name_upper.as_str()) {
        let (a, b) = trim_bounds(&sv, n + 1, sv.len());
        proof {
            assert(sv@.subrange(n + 1, sv.len() as int) =~= sv@.skip(n + 1));
        }
        Some(string_of(&sv, a, b))
    } else {
        None
    }
}

/// Reads a reply under the marker protocol. The first line that, stripped of
/// markdown marks, opens with `NAME:` (the name in any case) decides: a value of `YES` or `TRUE` in
/// any case makes the reply positive, with the lines after it, trimmed, as
/// content; any other value makes it negative. Without such a line the reply
/// is negative. Negative replies have empty content.
pub fn parse_marker_response(text: &str, marker_name: &str) -> (r: MarkerResponse)
    ensures
        r.is_positive == reply_positive(text@, marker_name@),
        r.content@ == reply_content(text@, marker_name@),
{
    let lines = split_lines(text);
    let ghost ls = lines.deep_view();
    let mut i: usize = 0;
    while i < lines.len()
        invariant
            i <= lines.len(),
            ls == lines.deep_view(),
            ls == lines_of(text@),
            first_marker(ls, marker_name@, 0) == first_marker(ls, marker_name@, i as int),
        decreases lines.len() - i,
    {
        match marker_value_exec(lines[i].as_str(), marker_name) {
            Some(value) => {
                let upper = to_upper(value.as_str());
                if is_affirmative(upper.as_str()) {
                    let rest = join_lines(&lines, i + 1, "\n");
                    let content = trim_str(rest.as_str());
                    return MarkerResponse { is_positive: true, content };
                }
                return MarkerResponse { is_positive: false, content: String::new() };
            },
            None => {},
        }
        i += 1;
    }
    MarkerResponse { is_positive: false, content: String::new() }
}

/// Why the oracle's output could not be read.
#[derive(Debug, Clone, Copy, PartialEq, Eq, Structural)]
pub enum OracleOutputError {
    /// The output is not JSON.
    NotJson,
    /// The output has no string member `result`.
    MissingResult,
}

impl OracleOutputError {
    /// The message that reports this error.
    pub fn message(&self) -> (r: String)
        ensures
            r@ == match *self {
                OracleOutputError::NotJson => "Failed to parse the oracle's response"@,
                OracleOutputError::MissingResult => "The oracle's response has no 'result' field"@,
            },
    {
        match self {
            OracleOutputError::NotJson => copy_str("Failed to parse the oracle's response"),
            OracleOutputError::MissingResult => copy_str(
                "The oracle's response has no 'result' field",
            ),
        }
    }
}

/// Reads the text of the oracle's reply from the JSON that its command prints:
/// the string member `result`.
pub fn parse_oracle_output(stdout: &str) -> (r: Result<String, OracleOutputError>)
    ensures
        match json_parse_of(stdout@) {
            None => r == Err::<String, OracleOutputError>(OracleOutputError::NotJson),
            Some(j) => match json_str_at(j, "result"@) {
                Some(t) => r matches Ok(s) && s@ == t,
                None => r == Err::<String, OracleOutputError>(OracleOutputError::MissingResult),
            },
        },
{
    match parse_json(stdout) {
        None => Err(OracleOutputError::NotJson),
        Some(j) => match j.str_at("result") {
            Some(t) => Ok(t),
            None => Err(OracleOutputError::MissingResult),
        },
    }
}

} // verus!
