//! Session and project discovery, as decisions on what the file system
//! listed: which files are sessions, their identifiers, their order.

use vstd::prelude::*;
use vstd::multiset::Multiset;
use crate::text::{
    contains, copy_str, ends_with, push_str, replace_char, replace_char_str, str_contains,
    str_ends_with, string_of, chars_of,
};
use crate::time::Timestamp;

verus! {

/// A transcript file found for a session of the rich schema.
#[derive(Debug)]
pub struct SessionInfo {
    pub session_id: String,
    pub transcript_path: String,
    pub modified_at: Timestamp,
    pub size_bytes: u64,
}

/// A session file found for the flat event schema.
#[derive(Debug)]
pub struct CodexSessionInfo {
    pub session_id: String,
    pub session_path: String,
    /// The working directory that the session's metadata records.
    pub cwd: Option<String>,
    pub modified_at: Timestamp,
    pub size_bytes: u64,
}

/// A discovered item with a last-modified time.
pub trait Dated {
    spec fn date(&self) -> Timestamp;

    fn modified(&self) -> (r: Timestamp)
        ensures
            r == self.date(),
    ;
}

impl Dated for SessionInfo {
    open spec fn date(&self) -> Timestamp {
        self.modified_at
    }

    fn modified(&self) -> (r: Timestamp) {
        self.modified_at
    }
}

impl Dated for CodexSessionInfo {
    open spec fn date(&self) -> Timestamp {
        self.modified_at
    }

    fn modified(&self) -> (r: Timestamp) {
        self.modified_at
    }
}

/// Whether `s` runs from newest to oldest.
pub open spec fn newest_first<T: Dated>(s: Seq<T>) -> bool {
    forall|i: int, j: int| 0 <= i < j < s.len() ==> !(#[trigger] s[i].date()).before(#[trigger] s[j].date())
}

/// The first position at or after `k` whose item is not newer than `t`.
pub open spec fn first_not_newer<T: Dated>(out: Seq<T>, t: Timestamp, k: int) -> int
    decreases out.len() - k,
{
    if k < 0 || k >= out.len() {
        out.len() as int
    } else if t.before(out[k].date()) {
        first_not_newer(out, t, k + 1)
    } else {
        k
    }
}

/// `s` ordered newest first by inserting its items, last to first, each
/// before the first item that is not newer: so of two items of the same
/// time, the one that came first in `s` stays first.
pub open spec fn newest_first_order<T: Dated>(s: Seq<T>) -> Seq<T>
    decreases s.len(),
{
    if s.len() == 0 {
        seq![]
    } else {
        let rest = newest_first_order(s.drop_first());
        rest.insert(first_not_newer(rest, s[0].date(), 0), s[0])
    }
}

/// Orders discovered items newest first; of items of the same time, the one
/// that came first stays first.
pub fn sort_newest_first<T: Dated>(items: Vec<T>) -> (r: Vec<T>)
    ensures
        newest_first(r@),
        r@.to_multiset() == items@.to_multiset(),
        r@ == newest_first_order(items@),
{
    let mut rest = items;
    let mut out: Vec<T> = Vec::new();
    let ghost all = rest@;
    proof {
        assert(rest@.subrange(0, rest@.len() as int) =~= rest@);
        assert(out@.to_multiset().add(rest@.to_multiset()) =~= all.to_multiset()) by {
            broadcast use vstd::multiset::group_multiset_axioms;
            vstd::seq_lib::to_multiset_len(out@);
            vstd::multiset::lemma_multiset_empty_len(out@.to_multiset());
        }
    }
    proof {
        assert(all.skip(all.len() as int) =~= Seq::<T>::empty());
    }
    while rest.len() > 0
        invariant
            newest_first(out@),
            out@.to_multiset().add(rest@.to_multiset()) == all.to_multiset(),
            rest@ == all.take(rest@.len() as int),
            rest@.len() <= all.len(),
            out@ == newest_first_order(all.skip(rest@.len() as int)),
        decreases rest.len(),
    {
        let ghost before_rest = rest@;
        let ghost before_out = out@;
        let x = rest.pop().unwrap();
        proof {
            assert(before_rest =~= rest@.push(x));
            vstd::seq_lib::to_multiset_build(rest@, x);
            let m = rest@.len() as int;
            assert(rest@ =~= all.take(m));
            assert(all.skip(m)[0] == x);
            assert(all.skip(m).drop_first() =~= all.skip(m + 1));
        }
        let t = x.modified();
        let mut p: usize = 0;
        while p < out.len() && t.is_before(&out[p].modified())
            invariant
                p <= out@.len(),
                out@ == before_out,
                forall|k: int| 0 <= k < p ==> t.before(#[trigger] out@[k].date()),
                first_not_newer(before_out, t, 0) == first_not_newer(before_out, t, p as int),
            decreases out@.len() - p,
        {
            p += 1;
        }
        out.insert(p, x);
        proof {
            vstd::seq_lib::to_multiset_insert(before_out, p as int, x);
            let o = out@;
            assert(o == before_out.insert(p as int, x));
            assert forall|i: int, j: int| 0 <= i < j < o.len() implies !(
            #[trigger] o[i].date()).before(#[trigger] o[j].date()) by {
                if j < p {
                    assert(o[i] == before_out[i] && o[j] == before_out[j]);
                } else if j == p {
                    assert(o[i] == before_out[i]);
                } else if i == p {
                    assert(o[j] == before_out[j - 1]);
                    if p < before_out.len() {
                        assert(!t.before(before_out[p as int].date()));
                        if j - 1 > p {
                            assert(!before_out[p as int].date().before(before_out[j - 1].date()));
                        }
                    }
                } else if i < p {
                    assert(o[i] == before_out[i] && o[j] == before_out[j - 1]);
                } else {
                    assert(o[i] == before_out[i - 1] && o[j] == before_out[j - 1]);
                }
            }
            assert(out@.to_multiset().add(rest@.to_multiset()) =~= all.to_multiset()) by {
                broadcast use vstd::multiset::group_multiset_axioms;
            }
        }
    }
    proof {
        assert(all.skip(0) =~= all);
        assert(rest@.to_multiset() =~= Multiset::<T>::empty()) by {
            broadcast use vstd::multiset::group_multiset_axioms;
            vstd::seq_lib::to_multiset_len(rest@);
            vstd::multiset::lemma_multiset_empty_len(rest@.to_multiset());
        }
        assert(out@.to_multiset() =~= all.to_multiset()) by {
            broadcast use vstd::multiset::group_multiset_axioms;
        }
    }
    out
}

/// The identifier of a project directory: its absolute path with each `/`
/// turned into `-`.
pub fn compute_project_id(project_path: &str) -> (r: String)
    ensures
        r@ == replace_char(project_path@, '/', "-"@),
{
    replace_char_str(project_path, '/', "-")
}

/// `dir` and `name` joined by one `/`.
pub open spec fn path_join(dir: Seq<char>, name: Seq<char>) -> Seq<char> {
    if dir.len() == 0 {
        name
    } else if dir.last() == '/' {
        dir + name
    } else {
        dir + "/"@ + name
    }
}

/// `dir` and `name` joined by one `/`.
pub fn join_path(dir: &str, name: &str) -> (r: String)
    ensures
        r@ == path_join(dir@, name@),
{
    let v = chars_of(dir);
    let mut r = copy_str(dir);
    if v.len() > 0 && v[v.len() - 1] != '/' {
        push_str(&mut r, "/");
    }
    push_str(&mut r, name);
    proof {
        if v.len() > 0 {
            assert(dir@.last() == v@[v.len() - 1]);
        }
    }
    r
}

/// The directory where the sessions of a project are kept: the projects
/// directory joined with the project's identifier.
pub fn get_project_dir(projects_dir: &str, project_path: &str) -> (r: String)
    ensures
        r@ == path_join(projects_dir@, replace_char(project_path@, '/', "-"@)),
{
    let id = compute_project_id(project_path);
    join_path(projects_dir, id.as_str())
}

/// The session identifier of a file of the rich schema: the name without
/// `.jsonl`, where it has that extension.
pub fn session_id_from_file_name(file_name: &str) -> (r: Option<String>)
    ensures
        match r {
            Some(id) => ends_with(file_name@, ".jsonl"@) && file_name@.len() > 6 && id@
                == file_name@.subrange(0, file_name@.len() - 6),
            None => !(ends_with(file_name@, ".jsonl"@) && file_name@.len() > 6),
        },
{
    proof {
        reveal_strlit(".jsonl");
    }
    let v = chars_of(file_name);
    if str_ends_with(file_name, ".jsonl") && v.len() > 6 {
        Some(string_of(&v, 0, v.len() - 6))
    } else {
        None
    }
}

/// Whether a session of the flat schema is taken under `filter`: always without
/// one; else where its recorded working directory holds the filter.
pub open spec fn cwd_matches(s: CodexSessionInfo, filter: Option<Seq<char>>) -> bool {
    match filter {
        Some(f) => s.cwd matches Some(c) && contains(c@, f),
        None => true,
    }
}

/// The sessions of `ss` taken under `filter`, in order.
pub open spec fn matching_codex(ss: Seq<CodexSessionInfo>, filter: Option<Seq<char>>) -> Seq<
    CodexSessionInfo,
>
    decreases ss.len(),
{
    if ss.len() == 0 {
        seq![]
    } else if cwd_matches(ss.last(), filter) {
        matching_codex(ss.drop_last(), filter).push(ss.last())
    } else {
        matching_codex(ss.drop_last(), filter)
    }
}

/// The sessions of the flat schema whose working directory holds `filter`
/// (all of them without a filter; none without a recorded directory when
/// filtering), newest first.
pub fn select_codex_sessions(sessions: Vec<CodexSessionInfo>, filter: Option<&str>) -> (r: Vec<
    CodexSessionInfo,
>)
    ensures
        newest_first(r@),
        forall|i: int|
            0 <= i < r@.len() ==> match filter {
                Some(f) => (#[trigger] r@[i]).cwd matches Some(c) && contains(c@, f@),
                None => true,
            },
        filter is None ==> r@.to_multiset() == sessions@.to_multiset(),
        r@.to_multiset() == matching_codex(sessions@, crate::select::opt_str_view(filter)).to_multiset(),
{
    let ghost fv = crate::select::opt_str_view(filter);
    let mut kept: Vec<CodexSessionInfo> = Vec::new();
    let mut rest = sessions;
    let ghost all = rest@;
    proof {
        assert(kept@.to_multiset().add(rest@.to_multiset()) =~= all.to_multiset()) by {
            broadcast use vstd::multiset::group_multiset_axioms;
            vstd::seq_lib::to_multiset_len(kept@);
            vstd::multiset::lemma_multiset_empty_len(kept@.to_multiset());
        }
        assert(kept@.to_multiset().add(matching_codex(rest@, fv).to_multiset()) =~= matching_codex(
            all,
            fv,
        ).to_multiset()) by {
            broadcast use vstd::multiset::group_multiset_axioms;
            vstd::seq_lib::to_multiset_len(kept@);
            vstd::multiset::lemma_multiset_empty_len(kept@.to_multiset());
        }
    }
    while rest.len() > 0
        invariant
            forall|i: int|
                0 <= i < kept@.len() ==> match filter {
                    Some(f) => (#[trigger] kept@[i]).cwd matches Some(c) && contains(c@, f@),
                    None => true,
                },
            filter is None ==> kept@.to_multiset().add(rest@.to_multiset()) == all.to_multiset(),
            fv == crate::select::opt_str_view(filter),
            kept@.to_multiset().add(matching_codex(rest@, fv).to_multiset()) == matching_codex(
                all,
                fv,
            ).to_multiset(),
        decreases rest.len(),
    {
        let ghost before_rest = rest@;
        let ghost before_kept = kept@;
        let s = rest.pop().unwrap();
        proof {
            assert(before_rest =~= rest@.push(s));
            vstd::seq_lib::to_multiset_build(rest@, s);
            assert(before_rest.drop_last() =~= rest@);
            vstd::seq_lib::to_multiset_build(matching_codex(rest@, fv), s);
        }
        let keep = match filter {
            Some(f) => match &s.cwd {
                Some(c) => str_contains(c.as_str(), f),
                None => false,
            },
            None => true,
        };
        if keep {
            kept.push(s);
            proof {
                vstd::seq_lib::to_multiset_build(before_kept, s);
                assert(kept@ == before_kept.push(s));
                assert(kept@.to_multiset().add(matching_codex(rest@, fv).to_multiset()) =~= matching_codex(
                    all,
                    fv,
                ).to_multiset()) by {
                    broadcast use vstd::multiset::group_multiset_axioms;
                }
                if filter is None {
                    assert(kept@.to_multiset().add(rest@.to_multiset()) =~= all.to_multiset()) by {
                        broadcast use vstd::multiset::group_multiset_axioms;
                    }
                }
            }
        }
    }
    proof {
        assert(kept@.to_multiset() =~= matching_codex(all, fv).to_multiset()) by {
            broadcast use vstd::multiset::group_multiset_axioms;
            assert(matching_codex(rest@, fv).len() == 0);
            vstd::seq_lib::to_multiset_len(matching_codex(rest@, fv));
            vstd::multiset::lemma_multiset_empty_len(matching_codex(rest@, fv).to_multiset());
        }
        if filter is None {
            assert(kept@.to_multiset() =~= all.to_multiset()) by {
                broadcast use vstd::multiset::group_multiset_axioms;
                vstd::seq_lib::to_multiset_len(rest@);
                vstd::multiset::lemma_multiset_empty_len(rest@.to_multiset());
            }
        }
    }
    let r = sort_newest_first(kept);
    proof {
        assert forall|i: int| 0 <= i < r@.len() implies match filter {
            Some(f) => (#[trigger] r@[i]).cwd matches Some(c) && contains(c@, f@),
            None => true,
        } by {
            assert(r@.to_multiset().count(r@[i]) > 0) by {
                vstd::seq_lib::to_multiset_contains(r@, r@[i]);
                assert(r@.contains(r@[i]));
            }
            vstd::seq_lib::to_multiset_contains(kept@, r@[i]);
            let k = choose|k: int| 0 <= k < kept@.len() && kept@[k] == r@[i];
            assert(kept@[k] == r@[i]);
        }
    }
    r
}

/// A project directory of the rich schema.
#[derive(Debug)]
pub struct ProjectInfo {
    /// The directory's name: the project's identifier.
    pub project_id: String,
    pub project_dir: String,
    /// How many session files it holds.
    pub session_count: usize,
}

/// What `str::to_lowercase` returns for a text.
pub uninterp spec fn lower_of(s: Seq<char>) -> Seq<char>;

/// Relies on `str::to_lowercase`: the text in lower case, which depends on its
/// characters alone.
#[verifier::external_body]
fn to_lower(s: &str) -> (r: String)
    ensures
        r@ == lower_of(s@),
{
    s.to_lowercase()
}

/// Whether a project's identifier holds `filter_lower` once lower-cased.
pub open spec fn project_matches(p: ProjectInfo, filter_lower: Seq<char>) -> bool {
    contains(lower_of(p.project_id@), filter_lower)
}

/// The projects whose identifiers hold `filter_lower` (a lower-cased filter)
/// once lower-cased, in order.
pub open spec fn matching_projects(ps: Seq<ProjectInfo>, filter_lower: Seq<char>) -> Seq<ProjectInfo>
    decreases ps.len(),
{
    if ps.len() == 0 {
        seq![]
    } else if project_matches(ps.last(), filter_lower) {
        matching_projects(ps.drop_last(), filter_lower).push(ps.last())
    } else {
        matching_projects(ps.drop_last(), filter_lower)
    }
}

/// Whether a project's identifier, lower-cased, holds an already lower-cased filter.
pub fn project_matches_lowered(project: &ProjectInfo, filter_lower: &str) -> (r: bool)
    ensures
        r == project_matches(*project, filter_lower@),
{
    let id = to_lower(project.project_id.as_str());
    str_contains(id.as_str(), filter_lower)
}

/// The projects whose identifiers hold `filter`, ignoring case, in order.
pub fn find_projects_by_filter(projects: Vec<ProjectInfo>, filter: &str) -> (r: Vec<ProjectInfo>)
    ensures
        r@ == matching_projects(projects@, lower_of(filter@)),
{
    let filter_lower = to_lower(filter);
    let mut rest = projects;
    let ghost all = rest@;
    let mut kept_rev: Vec<ProjectInfo> = Vec::new();
    proof {
        assert(all.subrange(0, rest@.len() as int) =~= rest@);
    }
    // Take items from the back; `kept_rev` holds the matches of the taken
    // suffix, last first.
    while rest.len() > 0
        invariant
            rest@ == all.subrange(0, rest@.len() as int),
            rest@.len() <= all.len(),
            matching_projects(all, filter_lower@) == matching_projects(rest@, filter_lower@)
                + kept_rev@.reverse(),
        decreases rest.len(),
    {
        let ghost before = rest@;
        let ghost kr = kept_rev@;
        let p = rest.pop().unwrap();
        proof {
            assert(before.drop_last() =~= rest@);
            assert(rest@ =~= all.subrange(0, rest@.len() as int));
        }
        if project_matches_lowered(&p, filter_lower.as_str()) {
            kept_rev.push(p);
            proof {
                assert(kept_rev@.reverse() =~= seq![p] + kr.reverse());
                assert(matching_projects(before, filter_lower@) == matching_projects(rest@, filter_lower@).push(p));
                assert(matching_projects(rest@, filter_lower@).push(p) + kr.reverse() =~= matching_projects(rest@, filter_lower@) + (seq![p] + kr.reverse()));
            }
        } else {
            proof {
                assert(matching_projects(before, filter_lower@) == matching_projects(rest@, filter_lower@));
            }
        }
    }
    let mut out: Vec<ProjectInfo> = Vec::new();
    let ghost total = kept_rev@;
    proof {
        assert(matching_projects(rest@, filter_lower@) =~= seq![]);
        assert(total.reverse().subrange(0, 0) =~= out@);
    }
    while kept_rev.len() > 0
        invariant
            kept_rev@ == total.subrange(0, kept_rev@.len() as int),
            kept_rev@.len() <= total.len(),
            out@ == total.reverse().subrange(0, total.len() - kept_rev@.len()),
        decreases kept_rev.len(),
    {
        let ghost n = kept_rev@.len();
        let p = kept_rev.pop().unwrap();
        proof {
            assert(p == total[n - 1]);
            assert(total.reverse()[total.len() - n] == total[n - 1]);
        }
        out.push(p);
        proof {
            assert(kept_rev@ =~= total.subrange(0, kept_rev@.len() as int));
            assert(out@ =~= total.reverse().subrange(0, total.len() - kept_rev@.len()));
        }
    }
    proof {
        assert(out@ =~= total.reverse());
        assert(matching_projects(all, filter_lower@) =~= total.reverse());
    }
    out
}

// ---------------------------------------------------------------------------
// Ordering by name
// ---------------------------------------------------------------------------

/// Whether text `a` sorts strictly before `b`: character by character by code
/// point, a proper prefix first (the order of `str`'s `Ord`).
pub open spec fn text_before(a: Seq<char>, b: Seq<char>) -> bool
    decreases a.len(),
{
    if a.len() == 0 {
        b.len() > 0
    } else if b.len() == 0 {
        false
    } else if a[0] != b[0] {
        a[0] < b[0]
    } else {
        text_before(a.drop_first(), b.drop_first())
    }
}

pub proof fn lemma_text_before_asym(a: Seq<char>, b: Seq<char>)
    ensures
        text_before(a, b) ==> !text_before(b, a),
    decreases a.len(),
{
    if a.len() > 0 && b.len() > 0 && a[0] == b[0] {
        lemma_text_before_asym(a.drop_first(), b.drop_first());
    }
}

pub proof fn lemma_text_before_trans(a: Seq<char>, b: Seq<char>, c: Seq<char>)
    requires
        text_before(a, b),
        text_before(b, c),
    ensures
        text_before(a, c),
    decreases a.len(),
{
    if a.len() > 0 && b.len() > 0 && c.len() > 0 && a[0] == b[0] && b[0] == c[0] {
        lemma_text_before_trans(a.drop_first(), b.drop_first(), c.drop_first());
    }
}

/// Whether text `a` sorts strictly before `b`.
pub fn str_before(a: &str, b: &str) -> (r: bool)
    ensures
        r == text_before(a@, b@),
{
    let x = chars_of(a);
    let y = chars_of(b);
    let mut i: usize = 0;
    proof {
        assert(x@.skip(0) =~= x@);
        assert(y@.skip(0) =~= y@);
    }
    while i < x.len() && i < y.len() && x[i] == y[i]
        invariant
            i <= x.len(),
            i <= y.len(),
            x@ == a@,
            y@ == b@,
            text_before(a@, b@) == text_before(x@.skip(i as int), y@.skip(i as int)),
        decreases x.len() - i,
    {
        proof {
            assert(x@.skip(i as int).drop_first() =~= x@.skip(i + 1));
            assert(y@.skip(i as int).drop_first() =~= y@.skip(i + 1));
            assert(x@.skip(i as int)[0] == x@[i as int]);
            assert(y@.skip(i as int)[0] == y@[i as int]);
        }
        i += 1;
    }
    proof {
        if i < x.len() {
            assert(x@.skip(i as int)[0] == x@[i as int]);
        }
        if i < y.len() {
            assert(y@.skip(i as int)[0] == y@[i as int]);
        }
    }
    if i == x.len() {
        i < y.len()
    } else if i == y.len() {
        false
    } else {
        x[i] < y[i]
    }
}

/// An item listed by name.
pub trait Named {
    spec fn name_spec(&self) -> Seq<char>;

    fn name(&self) -> (r: &str)
        ensures
            r@ == self.name_spec(),
    ;
}

impl Named for ProjectInfo {
    open spec fn name_spec(&self) -> Seq<char> {
        self.project_id@
    }

    fn name(&self) -> (r: &str) {
        self.project_id.as_str()
    }
}

impl Named for String {
    open spec fn name_spec(&self) -> Seq<char> {
        self@
    }

    fn name(&self) -> (r: &str) {
        self.as_str()
    }
}

/// Whether `s` runs in order of name.
pub open spec fn sorted_by_name<T: Named>(s: Seq<T>) -> bool {
    forall|i: int, j: int|
        0 <= i < j < s.len() ==> !text_before(#[trigger] s[j].name_spec(), #[trigger] s[i].name_spec())
}

/// Orders items by name; items of the same name keep their order.
pub fn sort_by_name<T: Named>(items: Vec<T>) -> (r: Vec<T>)
    ensures
        sorted_by_name(r@),
        r@.to_multiset() == items@.to_multiset(),
{
    let mut rest = items;
    let mut out: Vec<T> = Vec::new();
    let ghost all = rest@;
    proof {
        assert(out@.to_multiset().add(rest@.to_multiset()) =~= all.to_multiset()) by {
            broadcast use vstd::multiset::group_multiset_axioms;
            vstd::seq_lib::to_multiset_len(out@);
            vstd::multiset::lemma_multiset_empty_len(out@.to_multiset());
        }
    }
    while rest.len() > 0
        invariant
            sorted_by_name(out@),
            out@.to_multiset().add(rest@.to_multiset()) == all.to_multiset(),
        decreases rest.len(),
    {
        let ghost before_rest = rest@;
        let ghost before_out = out@;
        let x = rest.pop().unwrap();
        proof {
            assert(before_rest =~= rest@.push(x));
            vstd::seq_lib::to_multiset_build(rest@, x);
        }
        // `x` comes before everything still in `out` in the input, so it goes
        // before the first item of the same name or later.
        let mut p: usize = 0;
        while p < out.len() && str_before(out[p].name(), x.name())
            invariant
                p <= out@.len(),
                out@ == before_out,
                forall|k: int| 0 <= k < p ==> text_before(#[trigger] out@[k].name_spec(), x.name_spec()),
            decreases out@.len() - p,
        {
            p += 1;
        }
        out.insert(p, x);
        proof {
            vstd::seq_lib::to_multiset_insert(before_out, p as int, x);
            let o = out@;
            assert(o == before_out.insert(p as int, x));
            assert forall|i: int, j: int| 0 <= i < j < o.len() implies !text_before(
                #[trigger] o[j].name_spec(),
                #[trigger] o[i].name_spec(),
            ) by {
                if j < p {
                    assert(o[i] == before_out[i] && o[j] == before_out[j]);
                } else if j == p {
                    assert(o[i] == before_out[i]);
                    lemma_text_before_asym(before_out[i].name_spec(), x.name_spec());
                } else if i == p {
                    assert(o[j] == before_out[j - 1]);
                    let y = before_out[p as int].name_spec();
                    let z = before_out[j - 1].name_spec();
                    assert(!text_before(y, x.name_spec()));
                    if text_before(z, x.name_spec()) {
                        if j - 1 > p {
                            assert(!text_before(z, y));
                        }
                        if text_before(y, z) {
                            lemma_text_before_trans(y, z, x.name_spec());
                        } else if j - 1 > p {
                            lemma_text_before_total(y, z);
                        }
                    }
                } else if i < p {
                    assert(o[i] == before_out[i] && o[j] == before_out[j - 1]);
                } else {
                    assert(o[i] == before_out[i - 1] && o[j] == before_out[j - 1]);
                }
            }
            assert(out@.to_multiset().add(rest@.to_multiset()) =~= all.to_multiset()) by {
                broadcast use vstd::multiset::group_multiset_axioms;
            }
        }
    }
    proof {
        assert(out@.to_multiset() =~= all.to_multiset()) by {
            broadcast use vstd::multiset::group_multiset_axioms;
            vstd::seq_lib::to_multiset_len(rest@);
            vstd::multiset::lemma_multiset_empty_len(rest@.to_multiset());
        }
    }
    out
}

pub proof fn lemma_text_before_total(a: Seq<char>, b: Seq<char>)
    ensures
        text_before(a, b) || text_before(b, a) || a =~= b,
    decreases a.len(),
{
    if a.len() > 0 && b.len() > 0 && a[0] == b[0] {
        lemma_text_before_total(a.drop_first(), b.drop_first());
        if a.drop_first() =~= b.drop_first() {
            assert(a =~= seq![a[0]] + a.drop_first());
            assert(b =~= seq![b[0]] + b.drop_first());
        }
    } else if a.len() == 0 && b.len() == 0 {
        assert(a =~= b);
    } else if a.len() > 0 && b.len() > 0 {
        assert(a[0] < b[0] || b[0] < a[0]);
    }
}

} // verus!
