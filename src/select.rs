//! Choosing the records of a transcript that an extraction run reads: by
//! session, by kind, and by time relative to the checkpoint.

use vstd::prelude::*;
use crate::json::str_eq;
use crate::time::Timestamp;
use crate::transcript::{TranscriptEntry, entry_instant, entry_session, entry_timestamp, is_message};

verus! {

/// Whether a record belongs to the session that the filter names, if any.
pub open spec fn session_matches(e: TranscriptEntry, session: Option<Seq<char>>) -> bool {
    match session {
        Some(sid) => entry_session(e) == Some(sid),
        None => true,
    }
}

/// Whether a record's timestamp comes after the cursor, or it has none.
pub open spec fn after_cursor(e: TranscriptEntry, c: Timestamp) -> bool {
    entry_timestamp(e) is None || (entry_instant(e) matches Some(t) && c.before(t))
}

/// Whether a record is read on an incremental run. With a checkpoint `cursor`:
/// every summary, since it carries compacted context with no position, and
/// each message of the session whose timestamp comes after the cursor or that
/// has no timestamp. Without one (a first run): every message or summary of
/// the session.
pub open spec fn passes_since(
    e: TranscriptEntry,
    cursor: Option<Timestamp>,
    session: Option<Seq<char>>,
) -> bool {
    match cursor {
        Some(c) => e is Summary || (is_message(e) && session_matches(e, session) && after_cursor(
            e,
            c,
        )),
        None => (is_message(e) || e is Summary) && session_matches(e, session),
    }
}

/// Whether a record is a message or summary of the session whose instant lies
/// in `[start, end)`.
pub open spec fn passes_window(
    e: TranscriptEntry,
    start: Timestamp,
    end: Timestamp,
    session: Option<Seq<char>>,
) -> bool {
    (is_message(e) || e is Summary) && session_matches(e, session) && match entry_instant(e) {
        Some(t) => !t.before(start) && t.before(end),
        None => false,
    }
}

/// The records of `es` that pass `passes_since`, in order.
pub open spec fn since_of(
    es: Seq<TranscriptEntry>,
    cursor: Option<Timestamp>,
    session: Option<Seq<char>>,
) -> Seq<TranscriptEntry>
    decreases es.len(),
{
    if es.len() == 0 {
        seq![]
    } else if passes_since(es.last(), cursor, session) {
        since_of(es.drop_last(), cursor, session).push(es.last())
    } else {
        since_of(es.drop_last(), cursor, session)
    }
}

/// The records of `es` that pass `passes_window`, in order.
pub open spec fn window_of(
    es: Seq<TranscriptEntry>,
    start: Timestamp,
    end: Timestamp,
    session: Option<Seq<char>>,
) -> Seq<TranscriptEntry>
    decreases es.len(),
{
    if es.len() == 0 {
        seq![]
    } else if passes_window(es.last(), start, end, session) {
        window_of(es.drop_last(), start, end, session).push(es.last())
    } else {
        window_of(es.drop_last(), start, end, session)
    }
}

pub open spec fn opt_str_view(o: Option<&str>) -> Option<Seq<char>> {
    match o {
        Some(s) => Some(s@),
        None => None,
    }
}

fn session_matches_exec(e: &TranscriptEntry, session_id: Option<&str>) -> (r: bool)
    ensures
        r == session_matches(*e, opt_str_view(session_id)),
{
    match session_id {
        Some(sid) => match e.session_id() {
            Some(s) => str_eq(s, sid),
            None => false,
        },
        None => true,
    }
}

/// The records read on an incremental run: with a checkpoint, all summaries
/// and the messages of the session (all sessions without a filter) whose
/// timestamp comes after it or that carry none; without one, every message and
/// summary of the session.
pub fn get_messages_since<'a>(
    entries: &'a [TranscriptEntry],
    since: Option<Timestamp>,
    session_id: Option<&str>,
) -> (r: Vec<&'a TranscriptEntry>)
    ensures
        r@.map_values(|e: &TranscriptEntry| *e) == since_of(
            entries@,
            since,
            opt_str_view(session_id),
        ),
{
    let mut out: Vec<&'a TranscriptEntry> = Vec::new();
    let mut i: usize = 0;
    while i < entries.len()
        invariant
            i <= entries@.len(),
            out@.map_values(|e: &TranscriptEntry| *e) == since_of(
                entries@.take(i as int),
                since,
                opt_str_view(session_id),
            ),
        decreases entries@.len() - i,
    {
        proof {
            assert(entries@.take(i + 1).drop_last() =~= entries@.take(i as int));
        }
        let e = &entries[i];
        let keep = match since {
            Some(c) => e.is_summary() || (e.is_message() && session_matches_exec(e, session_id) && (
            e.timestamp().is_none() || match e.instant() {
                Some(t) => c.is_before(&t),
                None => false,
            })),
            None => (e.is_message() || e.is_summary()) && session_matches_exec(e, session_id),
        };
        if keep {
            let ghost before = out@;
            out.push(e);
            proof {
                assert(out@.map_values(|e: &TranscriptEntry| *e) =~= before.map_values(
                    |e: &TranscriptEntry| *e,
                ).push(*e));
            }
        }
        i += 1;
    }
    proof {
        assert(entries@.take(entries@.len() as int) =~= entries@);
    }
    out
}

/// The records of the carry-over slice: the messages and summaries of the
/// session whose instant lies in `[start, end)`.
pub fn get_messages_in_window<'a>(
    entries: &'a [TranscriptEntry],
    start: Timestamp,
    end: Timestamp,
    session_id: Option<&str>,
) -> (r: Vec<&'a TranscriptEntry>)
    ensures
        r@.map_values(|e: &TranscriptEntry| *e) == window_of(
            entries@,
            start,
            end,
            opt_str_view(session_id),
        ),
{
    let mut out: Vec<&'a TranscriptEntry> = Vec::new();
    let mut i: usize = 0;
    while i < entries.len()
        invariant
            i <= entries@.len(),
            out@.map_values(|e: &TranscriptEntry| *e) == window_of(
                entries@.take(i as int),
                start,
                end,
                opt_str_view(session_id),
            ),
        decreases entries@.len() - i,
    {
        proof {
            assert(entries@.take(i + 1).drop_last() =~= entries@.take(i as int));
        }
        let e = &entries[i];
        let kind_ok = e.is_message() || e.is_summary();
        let session_ok = session_matches_exec(e, session_id);
        let keep = kind_ok && session_ok && match e.instant() {
            Some(t) => !t.is_before(&start) && t.is_before(&end),
            None => false,
        };
        if keep {
            let ghost before = out@;
            out.push(e);
            proof {
                assert(out@.map_values(|e: &TranscriptEntry| *e) =~= before.map_values(
                    |e: &TranscriptEntry| *e,
                ).push(*e));
            }
        }
        i += 1;
    }
    proof {
        assert(entries@.take(entries@.len() as int) =~= entries@);
    }
    out
}

/// An incremental run reads only summaries and messages of the filtered
/// session whose timestamp comes after the checkpoint or that have none; it
/// reads every summary, whatever its session or time; and it reads every
/// message of the session that comes after the checkpoint.
pub proof fn lemma_since_reads_only_newer(
    es: Seq<TranscriptEntry>,
    cursor: Timestamp,
    session: Option<Seq<char>>,
)
    ensures
        forall|e: TranscriptEntry| #[trigger]
            since_of(es, Some(cursor), session).contains(e) ==> e is Summary || (is_message(e)
                && session_matches(e, session) && (entry_timestamp(e) is None || (entry_instant(
                e,
            ) matches Some(t) && cursor.before(t)))),
        forall|e: TranscriptEntry| es.contains(e) && e is Summary ==> #[trigger] since_of(
            es,
            Some(cursor),
            session,
        ).contains(e),
        forall|e: TranscriptEntry|
            es.contains(e) && is_message(e) && session_matches(e, session) && (entry_instant(
                e,
            ) matches Some(t) && cursor.before(t)) ==> #[trigger] since_of(
                es,
                Some(cursor),
                session,
            ).contains(e),
    decreases es.len(),
{
    lemma_since_members(es, Some(cursor), session);
}

/// A record is in `since_of(es, ..)` exactly where it is in `es` and passes.
pub proof fn lemma_since_members(
    es: Seq<TranscriptEntry>,
    cursor: Option<Timestamp>,
    session: Option<Seq<char>>,
)
    ensures
        forall|e: TranscriptEntry| #[trigger]
            since_of(es, cursor, session).contains(e) <==> (es.contains(e) && passes_since(
                e,
                cursor,
                session,
            )),
    decreases es.len(),
{
    if es.len() > 0 {
        let init = es.drop_last();
        lemma_since_members(init, cursor, session);
        assert forall|e: TranscriptEntry| #[trigger]
            since_of(es, cursor, session).contains(e) <==> (es.contains(e) && passes_since(
                e,
                cursor,
                session,
            )) by {
            assert(es =~= init.push(es.last()));
            lemma_push_contains(init, es.last(), e);
            lemma_push_contains(since_of(init, cursor, session), es.last(), e);
        }
    }
}

/// A record is in `window_of(es, ..)` exactly where it is in `es` and passes.
pub proof fn lemma_window_members(
    es: Seq<TranscriptEntry>,
    start: Timestamp,
    end: Timestamp,
    session: Option<Seq<char>>,
)
    ensures
        forall|e: TranscriptEntry| #[trigger]
            window_of(es, start, end, session).contains(e) <==> (es.contains(e) && passes_window(
                e,
                start,
                end,
                session,
            )),
    decreases es.len(),
{
    if es.len() > 0 {
        let init = es.drop_last();
        lemma_window_members(init, start, end, session);
        assert forall|e: TranscriptEntry| #[trigger]
            window_of(es, start, end, session).contains(e) <==> (es.contains(e) && passes_window(
                e,
                start,
                end,
                session,
            )) by {
            assert(es =~= init.push(es.last()));
            lemma_push_contains(init, es.last(), e);
            lemma_push_contains(window_of(init, start, end, session), es.last(), e);
        }
    }
}

/// A record is in `s.push(a)` exactly where it is in `s` or is `a`.
pub proof fn lemma_push_contains<A>(s: Seq<A>, a: A, e: A)
    ensures
        s.push(a).contains(e) <==> (s.contains(e) || e == a),
{
    let t = s.push(a);
    if t.contains(e) {
        let k = choose|k: int| 0 <= k < t.len() && t[k] == e;
        if k < s.len() {
            assert(s[k] == e);
        }
    }
    if s.contains(e) {
        let k = choose|k: int| 0 <= k < s.len() && s[k] == e;
        assert(t[k] == e);
    }
    if e == a {
        assert(t[s.len() as int] == e);
    }
}

} // verus!
