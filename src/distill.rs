//! Batch distillation: which sessions are extracted anew, the requests, the
//! accumulated extractions, and the categorised guardrails and metis.

use vstd::prelude::*;
use crate::checkpoint::{
    ExtractionCache, SessionExtraction, decimal_text, is_decimal_of, needs_extraction,
    needs_extraction_spec,
};
use crate::session::SessionInfo;
use crate::json::str_eq;
use crate::text::{
    copy_str, is_blank, lines_of, push_str, replace_char, replace_char_str, split_lines,
    starts_with, str_is_blank, str_starts_with, trim, trim_start_chars, trim_start_set, trim_str,
};

verus! {

/// Options of a batch run.
#[derive(Debug)]
pub struct DistillOptions {
    /// Show what would be extracted, and write nothing.
    pub dry_run: bool,
    /// Extract every session, cached or not.
    pub force: bool,
    /// Push the categorised items to the knowledge-context service.
    pub push_to_oh: bool,
    /// The service's context to push to; needed with `push_to_oh`.
    pub context_id: Option<String>,
    /// Take the sessions of the projects whose names hold this text.
    pub project: Option<String>,
}

/// Checks the options: a push needs a context.
pub fn validate_options(options: &DistillOptions) -> (r: Result<(), String>)
    ensures
        r is Err <==> (options.push_to_oh && options.context_id is None),
        r matches Err(m) ==> m@ == "--context-id is required when using --push-to-oh"@,
{
    if options.push_to_oh && options.context_id.is_none() {
        return Err(copy_str("--context-id is required when using --push-to-oh"));
    }
    Ok(())
}

/// Whether a batch run extracts a session: always when forced, else where
/// the cache does not settle it.
pub fn should_extract(session: &SessionInfo, cache: &ExtractionCache, force: bool) -> (r: bool)
    requires
        cache.wf(),
    ensures
        r == (force || needs_extraction_spec(*session, cache.entries@)),
{
    force || needs_extraction(session, cache)
}

/// How a dry run labels a session.
pub fn session_status(force: bool, needs: bool) -> (r: &'static str)
    ensures
        r@ == if force {
            "force"@
        } else if needs {
            "new/changed"@
        } else {
            "cached"@
        },
{
    if force {
        "force"
    } else if needs {
        "new/changed"
    } else {
        "cached"
    }
}

/// The user message that asks for one session's knowledge.
pub fn extraction_message(transcript: &str) -> (r: String)
    ensures
        r@ == "TRANSCRIPT:\n"@ + transcript@ + "\n\nOUTPUT:"@,
{
    let mut m = copy_str("TRANSCRIPT:\n");
    push_str(&mut m, transcript);
    push_str(&mut m, "\n\nOUTPUT:");
    m
}

/// The user message that asks to categorise the accumulated extractions.
pub fn categorization_message(raw_extractions: &str) -> (r: String)
    ensures
        r@ == "Categorize these extracted insights:\n\n"@ + raw_extractions@ + "\n\nOUTPUT:"@,
{
    let mut m = copy_str("Categorize these extracted insights:\n\n");
    push_str(&mut m, raw_extractions);
    push_str(&mut m, "\n\nOUTPUT:");
    m
}

/// The cache entry for a session just extracted.
pub fn extraction_record(
    session: &SessionInfo,
    extracted_at: crate::time::Timestamp,
    has_knowledge: bool,
    content: String,
) -> (r: SessionExtraction)
    ensures
        r.session_id@ == session.session_id@,
        r.extracted_at == extracted_at,
        r.has_knowledge == has_knowledge,
        r.content@ == content@,
        r.file_size_bytes == session.size_bytes,
{
    SessionExtraction {
        session_id: copy_str(session.session_id.as_str()),
        extracted_at,
        has_knowledge,
        content,
        file_size_bytes: session.size_bytes,
    }
}

// ---------------------------------------------------------------------------
// Accumulating extractions
// ---------------------------------------------------------------------------

/// One session's block in the accumulated document, where it found knowledge.
pub open spec fn extraction_block(e: SessionExtraction) -> Seq<char> {
    if e.has_knowledge && !is_blank(e.content@) {
        "## Session: "@ + e.session_id@ + "\n\n"@ + e.content@ + "\n\n"@
    } else {
        seq![]
    }
}

pub open spec fn extraction_blocks(es: Seq<SessionExtraction>) -> Seq<char>
    decreases es.len(),
{
    if es.len() == 0 {
        seq![]
    } else {
        extraction_blocks(es.drop_last()) + extraction_block(es.last())
    }
}

/// The accumulated document: a section per session that found knowledge, in
/// order, trimmed.
pub fn accumulate_extractions(extractions: &[SessionExtraction]) -> (r: String)
    ensures
        r@ == trim(extraction_blocks(extractions@)),
{
    let mut out = String::new();
    let mut i: usize = 0;
    while i < extractions.len()
        invariant
            i <= extractions@.len(),
            out@ == extraction_blocks(extractions@.take(i as int)),
        decreases extractions@.len() - i,
    {
        proof {
            assert(extractions@.take(i + 1).drop_last() =~= extractions@.take(i as int));
        }
        let e = &extractions[i];
        let ghost prev = out@;
        if e.has_knowledge && !str_is_blank(e.content.as_str()) {
            push_str(&mut out, "## Session: ");
            push_str(&mut out, e.session_id.as_str());
            push_str(&mut out, "\n\n");
            push_str(&mut out, e.content.as_str());
            push_str(&mut out, "\n\n");
            proof {
                assert(out@ =~= prev + extraction_block(*e));
            }
        } else {
            proof {
                assert(out@ =~= prev + extraction_block(*e));
            }
        }
        i += 1;
    }
    proof {
        assert(extractions@.take(extractions@.len() as int) =~= extractions@);
    }
    trim_str(out.as_str())
}

// ---------------------------------------------------------------------------
// Categorisation
// ---------------------------------------------------------------------------

/// The items sorted into guardrails (hard constraints) and metis (advice).
#[derive(Debug)]
pub struct CategorizationResult {
    pub guardrails: Vec<String>,
    pub metis: Vec<String>,
}

/// The characters that open a bullet.
pub open spec fn bullet_dash() -> Seq<char> {
    seq!['-']
}

pub open spec fn bullet_star() -> Seq<char> {
    seq!['*']
}

pub open spec fn bullet_dot() -> Seq<char> {
    seq!['\u{2022}']
}

/// The text of a bullet line: trimmed, with leading `-`, then `*`, then `•`
/// removed, trimmed again; `None` where nothing is left.
pub open spec fn bullet_item(line: Seq<char>) -> Option<Seq<char>> {
    let t = trim(line);
    let c = trim(
        trim_start_set(trim_start_set(trim_start_set(t, bullet_dash()), bullet_star()), bullet_dot()),
    );
    if t.len() == 0 || c.len() == 0 {
        None
    } else {
        Some(c)
    }
}

/// Reads a bullet line.
pub fn parse_bullet_item(line: &str) -> (r: Option<String>)
    ensures
        match r {
            Some(s) => bullet_item(line@) == Some(s@),
            None => bullet_item(line@) is None,
        },
{
    let trimmed = trim_str(line);
    if trimmed.as_str().is_empty() {
        return None;
    }
    let dash: Vec<char> = vec!['-'];
    let star: Vec<char> = vec!['*'];
    let dot: Vec<char> = vec!['\u{2022}'];
    proof {
        assert(dash@ =~= bullet_dash());
        assert(star@ =~= bullet_star());
        assert(dot@ =~= bullet_dot());
    }
    let a = trim_start_chars(trimmed.as_str(), &dash);
    let b = trim_start_chars(a.as_str(), &star);
    let c = trim_start_chars(b.as_str(), &dot);
    let content = trim_str(c.as_str());
    if content.as_str().is_empty() {
        None
    } else {
        Some(content)
    }
}

/// Which list the lines that follow a header go to: none yet, guardrails, metis.
pub open spec fn header_section(t: Seq<char>) -> int {
    if starts_with(t, "GUARDRAILS:"@) || t == "GUARDRAILS"@ {
        1
    } else if starts_with(t, "METIS:"@) || t == "METIS"@ {
        2
    } else {
        0
    }
}

/// The state after reading lines: the current section and the two lists.
pub open spec fn categorize(ls: Seq<Seq<char>>) -> (int, Seq<Seq<char>>, Seq<Seq<char>>)
    decreases ls.len(),
{
    if ls.len() == 0 {
        (0, seq![], seq![])
    } else {
        let (sec, g, m) = categorize(ls.drop_last());
        let t = trim(ls.last());
        let h = header_section(t);
        if h != 0 {
            (h, g, m)
        } else {
            match bullet_item(t) {
                Some(item) => if sec == 1 {
                    (sec, g.push(item), m)
                } else if sec == 2 {
                    (sec, g, m.push(item))
                } else {
                    (sec, g, m)
                },
                None => (sec, g, m),
            }
        }
    }
}

/// Reads the categorisation reply: bullet lines under `GUARDRAILS:` go to the
/// guardrails, those under `METIS:` to metis; lines before either header, and
/// lines that are not bullets, are ignored.
pub fn parse_categorization_response(response: &str) -> (r: Result<CategorizationResult, String>)
    ensures
        r matches Ok(c) && c.guardrails.deep_view() == categorize(lines_of(response@)).1
            && c.metis.deep_view() == categorize(lines_of(response@)).2,
{
    let lines = split_lines(response);
    let ghost ls = lines.deep_view();
    let mut guardrails: Vec<String> = Vec::new();
    let mut metis: Vec<String> = Vec::new();
    let mut section: u8 = 0;
    let mut i: usize = 0;
    while i < lines.len()
        invariant
            i <= lines.len(),
            ls == lines.deep_view(),
            ls == lines_of(response@),
            categorize(ls.take(i as int)) == (section as int, guardrails.deep_view(), metis.deep_view()),
        decreases lines.len() - i,
    {
        proof {
            assert(ls.take(i + 1).drop_last() =~= ls.take(i as int));
            assert(ls.take(i + 1).last() == lines[i as int]@);
        }
        let trimmed = trim_str(lines[i].as_str());
        let is_guardrails = str_starts_with(trimmed.as_str(), "GUARDRAILS:") || str_eq(
            trimmed.as_str(),
            "GUARDRAILS",
        );
        let is_metis = str_starts_with(trimmed.as_str(), "METIS:") || str_eq(
            trimmed.as_str(),
            "METIS",
        );
        if is_guardrails {
            section = 1;
        } else if is_metis {
            section = 2;
        } else {
            proof {
                lemma_trim_twice(lines[i as int]@);
            }
            match parse_bullet_item(trimmed.as_str()) {
                Some(item) => {
                    if section == 1 {
                        let ghost before = guardrails.deep_view();
                        guardrails.push(item);
                        proof {
                            assert(guardrails.deep_view() =~= before.push(item@));
                        }
                    } else if section == 2 {
                        let ghost before = metis.deep_view();
                        metis.push(item);
                        proof {
                            assert(metis.deep_view() =~= before.push(item@));
                        }
                    }
                },
                None => {},
            }
        }
        i += 1;
    }
    proof {
        assert(ls.take(lines.len() as int) =~= ls);
    }
    Ok(CategorizationResult { guardrails, metis })
}

proof fn lemma_trim_twice(s: Seq<char>)
    ensures
        bullet_item(trim(s)) == bullet_item(s),
{
    crate::render::lemma_trim_idem(s);
}

/// The text of a categorised file: a title heading and a bullet per item.
pub open spec fn categorized_lines(items: Seq<Seq<char>>) -> Seq<char>
    decreases items.len(),
{
    if items.len() == 0 {
        seq![]
    } else {
        categorized_lines(items.drop_last()) + "- "@ + items.last() + "\n"@
    }
}

/// Writes categorised items as markdown: `# title`, a blank line, and `- item`
/// per item.
pub fn format_categorized_output(title: &str, items: &[String]) -> (r: String)
    ensures
        r@ == "# "@ + title@ + "\n\n"@ + categorized_lines(items.deep_view()),
{
    let mut out = copy_str("# ");
    push_str(&mut out, title);
    push_str(&mut out, "\n\n");
    let ghost head = out@;
    let mut i: usize = 0;
    while i < items.len()
        invariant
            i <= items@.len(),
            out@ == head + categorized_lines(items.deep_view().take(i as int)),
        decreases items@.len() - i,
    {
        proof {
            assert(items.deep_view().take(i + 1).drop_last() =~= items.deep_view().take(i as int));
            assert(items.deep_view().take(i + 1).last() == items@[i as int]@);
        }
        let ghost prev = out@;
        push_str(&mut out, "- ");
        push_str(&mut out, items[i].as_str());
        push_str(&mut out, "\n");
        proof {
            assert(out@ =~= head + categorized_lines(items.deep_view().take(i + 1)));
        }
        i += 1;
    }
    proof {
        assert(items.deep_view().take(items@.len() as int) =~= items.deep_view());
    }
    out
}

// ---------------------------------------------------------------------------
// Reporting
// ---------------------------------------------------------------------------

/// The line of the error log for a session that failed: the time, the
/// session, and the error on one line (newlines become ` | `).
pub fn error_log_line(timestamp: &str, session_id: &str, error: &str) -> (r: String)
    ensures
        r@ == "["@ + timestamp@ + "] Session "@ + session_id@ + ": "@ + replace_char(
            error@,
            '\n',
            " | "@,
        ) + "\n"@,
{
    let one_line = replace_char_str(error, '\n', " | ");
    let mut out = copy_str("[");
    push_str(&mut out, timestamp);
    push_str(&mut out, "] Session ");
    push_str(&mut out, session_id);
    push_str(&mut out, ": ");
    push_str(&mut out, one_line.as_str());
    push_str(&mut out, "\n");
    out
}

/// The summary line of the first pass: sessions processed, and where there
/// were any, those taken from the cache and those that failed.
pub fn pass1_summary(processed: u64, skipped: u64, failed: u64) -> (r: String)
    ensures
        exists|p: Seq<char>, s: Seq<char>, f: Seq<char>|
            is_decimal_of(p, processed as int) && is_decimal_of(s, skipped as int)
                && is_decimal_of(f, failed as int) && r@ == p + " session(s) processed"@ + (if skipped
                > 0 {
                ", "@ + s + " from cache"@
            } else {
                seq![]
            }) + (if failed > 0 {
                ", "@ + f + " failed"@
            } else {
                seq![]
            }),
{
    let p = decimal_text(processed);
    let s = decimal_text(skipped);
    let f = decimal_text(failed);
    let mut out = copy_str(p.as_str());
    push_str(&mut out, " session(s) processed");
    let ghost head = out@;
    if skipped > 0 {
        push_str(&mut out, ", ");
        push_str(&mut out, s.as_str());
        push_str(&mut out, " from cache");
    }
    let ghost mid = out@;
    if failed > 0 {
        push_str(&mut out, ", ");
        push_str(&mut out, f.as_str());
        push_str(&mut out, " failed");
    }
    proof {
        let sp = if skipped > 0 {
            ", "@ + s@ + " from cache"@
        } else {
            seq![]
        };
        let fp = if failed > 0 {
            ", "@ + f@ + " failed"@
        } else {
            seq![]
        };
        assert(mid =~= head + sp);
        assert(out@ =~= mid + fp);
        assert(out@ =~= p@ + " session(s) processed"@ + sp + fp);
    }
    out
}

// ---------------------------------------------------------------------------
// The first pass, session by session
// ---------------------------------------------------------------------------

/// Whether two cached results hold the same values.
pub open spec fn same_extraction(a: SessionExtraction, b: SessionExtraction) -> bool {
    a.session_id@ == b.session_id@ && a.extracted_at == b.extracted_at && a.has_knowledge
        == b.has_knowledge && a.content@ == b.content@ && a.file_size_bytes == b.file_size_bytes
}

/// A copy of a cached result.
pub fn copy_extraction(e: &SessionExtraction) -> (r: SessionExtraction)
    ensures
        same_extraction(r, *e),
{
    SessionExtraction {
        session_id: copy_str(e.session_id.as_str()),
        extracted_at: e.extracted_at,
        has_knowledge: e.has_knowledge,
        content: copy_str(e.content.as_str()),
        file_size_bytes: e.file_size_bytes,
    }
}

/// The state of the first pass: the cache, the results so far, and counts of
/// sessions extracted, taken from the cache, and failed.
#[derive(Debug)]
pub struct Pass1State {
    pub cache: ExtractionCache,
    pub results: Vec<SessionExtraction>,
    pub processed: u64,
    pub skipped: u64,
    pub failed: u64,
}

impl Pass1State {
    /// A first pass over `cache`, with nothing done yet.
    pub fn new(cache: ExtractionCache) -> (r: Pass1State)
        ensures
            r.cache == cache,
            r.results@.len() == 0,
            r.processed == 0 && r.skipped == 0 && r.failed == 0,
    {
        Pass1State { cache, results: Vec::new(), processed: 0, skipped: 0, failed: 0 }
    }

    /// The state's invariant: the cache holds one result per session, each
    /// with a time that can be written back.
    pub open spec fn wf(&self) -> bool {
        self.cache.wf() && self.cache.times_displayable()
    }
}

/// Takes a session's result from the cache where the run is not forced and
/// the cache settles it: the cached result is appended to the results and
/// counted as skipped. Otherwise nothing changes and the session is to be
/// extracted.
pub fn pass1_try_cached(state: &mut Pass1State, session: &SessionInfo, force: bool) -> (used: bool)
    requires
        old(state).wf(),
        old(state).skipped < u64::MAX,
    ensures
        final(state).wf(),
        used == !(force || needs_extraction_spec(*session, old(state).cache.entries@)),
        final(state).cache == old(state).cache,
        final(state).processed == old(state).processed,
        final(state).failed == old(state).failed,
        used ==> final(state).skipped == old(state).skipped + 1
            && final(state).results@.len() == old(state).results@.len() + 1
            && final(state).results@.drop_last() == old(state).results@
            && same_extraction(
            final(state).results@.last(),
            crate::checkpoint::cache_lookup(old(state).cache.entries@, session.session_id@)->0,
        ),
        !used ==> final(state).skipped == old(state).skipped && final(state).results@ == old(
            state,
        ).results@,
{
    if should_extract(session, &state.cache, force) {
        return false;
    }
    match state.cache.get(session.session_id.as_str()) {
        Some(cached) => {
            let copy = copy_extraction(cached);
            let ghost before = state.results@;
            state.results.push(copy);
            state.skipped = state.skipped + 1;
            proof {
                assert(state.results@.drop_last() =~= before);
            }
            true
        },
        None => false,
    }
}

/// Records the outcome of extracting one session. A result is appended and
/// replaces the session's cache entry wholesale, and counts as processed; a
/// failure changes neither, counts as failed, and gives the error-log line
/// (so that one failing session never stops the batch).
pub fn pass1_record(
    state: &mut Pass1State,
    session: &SessionInfo,
    outcome: Result<SessionExtraction, String>,
    now: &str,
) -> (line: Option<String>)
    requires
        old(state).wf(),
        old(state).processed < u64::MAX,
        old(state).failed < u64::MAX,
        outcome matches Ok(e) ==> e.extracted_at.displayable(),
    ensures
        final(state).wf(),
        final(state).skipped == old(state).skipped,
        match outcome {
            Ok(e) => {
                &&& line is None
                &&& final(state).processed == old(state).processed + 1
                &&& final(state).failed == old(state).failed
                &&& final(state).results@.len() == old(state).results@.len() + 1
                &&& final(state).results@.drop_last() == old(state).results@
                &&& same_extraction(final(state).results@.last(), e)
                &&& crate::checkpoint::cache_lookup(final(state).cache.entries@, e.session_id@)
                    == Some(e)
                &&& forall|id: Seq<char>|
                    id != e.session_id@ ==> #[trigger] crate::checkpoint::cache_lookup(
                        final(state).cache.entries@,
                        id,
                    ) == crate::checkpoint::cache_lookup(old(state).cache.entries@, id)
            },
            Err(m) => {
                &&& final(state).processed == old(state).processed
                &&& final(state).failed == old(state).failed + 1
                &&& final(state).results@ == old(state).results@
                &&& final(state).cache == old(state).cache
                &&& line matches Some(l) && l@ == "["@ + now@ + "] Session "@
                    + session.session_id@ + ": "@ + replace_char(m@, '\n', " | "@) + "\n"@
            },
        },
{
    match outcome {
        Ok(e) => {
            let copy = copy_extraction(&e);
            let ghost before = state.results@;
            let ghost old_entries = state.cache.entries@;
            let ghost ee = e;
            state.results.push(copy);
            state.cache.insert(e);
            state.processed = state.processed + 1;
            proof {
                assert(state.results@.drop_last() =~= before);
                assert forall|k: int| 0 <= k < state.cache.entries@.len() implies (
                #[trigger] state.cache.entries@[k]).extracted_at.displayable() by {
                    if state.cache.entries@[k] != ee {
                        assert(old_entries[k].extracted_at.displayable());
                    }
                }
            }
            None
        },
        Err(m) => {
            state.failed = state.failed + 1;
            Some(error_log_line(now, session.session_id.as_str(), m.as_str()))
        },
    }
}

/// What one session gives the oracle in a batch run: its own records (and
/// its summaries), rendered; `None` where that shows nothing, and the
/// session then has no knowledge without any call.
pub fn session_transcript(entries: &[crate::transcript::TranscriptEntry], session_id: &str) -> (r:
    Option<String>)
    ensures
        crate::transcript::opt_view(r) == crate::extract::new_transcript_of(
            entries@,
            None,
            Some(session_id@),
        ),
{
    let messages = crate::select::get_messages_since(entries, None, Some(session_id));
    let formatted = crate::render::format_context(messages.as_slice());
    if str_is_blank(formatted.as_str()) {
        None
    } else {
        Some(formatted)
    }
}

/// The cache entry of a session whose records show nothing: no knowledge.
pub fn empty_extraction(session: &SessionInfo, extracted_at: crate::time::Timestamp) -> (r:
    SessionExtraction)
    ensures
        r.session_id@ == session.session_id@,
        r.extracted_at == extracted_at,
        !r.has_knowledge,
        r.content@.len() == 0,
        r.file_size_bytes == session.size_bytes,
{
    extraction_record(session, extracted_at, false, String::new())
}

} // verus!
