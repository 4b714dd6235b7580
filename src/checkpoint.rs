//! The per-session checkpoint, `{"last_extracted": <RFC 3339>}`, and the
//! batch cache of per-session extraction results.

use vstd::prelude::*;
use crate::json::{
    Json, json_as_str, json_get, json_parse_of, json_pretty_text, json_pretty_text_of,
    json_str_at, member, parse_json, str_eq,
};
use crate::session::SessionInfo;
use crate::text::copy_str;
use crate::time::{Timestamp, format_rfc3339, parse_rfc3339, rfc3339_instant, rfc3339_text};

verus! {

// ---------------------------------------------------------------------------
// Checkpoint
// ---------------------------------------------------------------------------

/// The instant that a checkpoint document records.
pub open spec fn checkpoint_of_document(j: Json) -> Option<Timestamp> {
    match json_str_at(j, "last_extracted"@) {
        Some(s) => rfc3339_instant(s),
        None => None,
    }
}

/// The instant that a checkpoint file's text records; `None` where the text
/// is not JSON or records none.
pub open spec fn checkpoint_of_text(text: Seq<char>) -> Option<Timestamp> {
    match json_parse_of(text) {
        Some(j) => checkpoint_of_document(j),
        None => None,
    }
}

/// Whether `d` is the checkpoint document for `t`: an object whose one member
/// `last_extracted` holds chrono's RFC 3339 text of `t`.
pub open spec fn is_checkpoint_document(d: Json, t: Timestamp) -> bool {
    &&& d is Object
    &&& d->Object_0@.len() == 1
    &&& d->Object_0@[0].0@ == "last_extracted"@
    &&& json_str_at(d, "last_extracted"@) == Some(rfc3339_text(t))
}

/// The checkpoint document for instant `t`.
pub fn checkpoint_document(t: &Timestamp) -> (r: Json)
    requires
        t.displayable(),
    ensures
        is_checkpoint_document(r, *t),
        checkpoint_of_document(r) == Some(*t),
        r is Object && r->Object_0@.len() == 1 && r->Object_0@[0].1 is Str,
        r->Object_0@[0].0@ == "last_extracted"@,
{
    let text = format_rfc3339(t);
    let key = copy_str("last_extracted");
    proof {
        reveal_strlit("last_extracted");
    }
    let r = Json::Object(vec![(key, Json::Str(text))]);
    proof {
        assert(r->Object_0@[0].0@ == "last_extracted"@);
    }
    r
}

/// The text of the checkpoint file for instant `t`. Reading it back with
/// `read_checkpoint` yields `t` again.
pub fn encode_checkpoint(t: &Timestamp) -> (r: String)
    requires
        t.displayable(),
    ensures
        checkpoint_of_text(r@) == Some(*t),
        exists|d: Json| is_checkpoint_document(d, *t) && r@ == json_pretty_text_of(d),
        json_parse_of(r@) is Some && json_str_at(json_parse_of(r@)->0, "last_extracted"@) == Some(
            rfc3339_text(*t),
        ),
{
    let doc = checkpoint_document(t);
    let r = json_pretty_text(&doc);
    proof {
        let fs = doc->Object_0@;
        assert(json_str_at(json_parse_of(r@)->0, "last_extracted"@) == json_as_str(fs[0].1));
        assert(json_str_at(doc, "last_extracted"@) == json_as_str(fs[0].1));
    }
    r
}

/// The instant that a checkpoint file records. A missing file (`None`) is no
/// checkpoint, as is text that does not hold one.
pub fn read_checkpoint(contents: Option<&str>) -> (r: Option<Timestamp>)
    ensures
        r == match contents {
            Some(text) => checkpoint_of_text(text@),
            None => None,
        },
        r matches Some(t) ==> t.wf(),
{
    match contents {
        None => None,
        Some(text) => match parse_json(text) {
            None => None,
            Some(j) => match j.get("last_extracted") {
                Some(v) => match v.as_str() {
                    Some(s) => parse_rfc3339(s),
                    None => None,
                },
                None => None,
            },
        },
    }
}

// ---------------------------------------------------------------------------
// Decimal numerals
// ---------------------------------------------------------------------------

pub open spec fn is_digit(c: char) -> bool {
    '0' <= c && c <= '9'
}

/// The value of a numeral made of decimal digits.
pub open spec fn decimal_value(s: Seq<char>) -> int
    decreases s.len(),
{
    if s.len() == 0 {
        0
    } else {
        decimal_value(s.drop_last()) * 10 + (s.last() as int - '0' as int)
    }
}

/// Whether `s` is the decimal numeral of `n`, without leading zeros.
pub open spec fn is_decimal_of(s: Seq<char>, n: int) -> bool {
    &&& s.len() > 0
    &&& forall|i: int| 0 <= i < s.len() ==> is_digit(#[trigger] s[i])
    &&& (s[0] == '0' ==> s.len() == 1)
    &&& decimal_value(s) == n
}

/// Relies on `u64`'s `Display` (through `ToString`): its decimal numeral.
#[verifier::external_body]
pub(crate) fn decimal_text(n: u64) -> (r: String)
    ensures
        is_decimal_of(r@, n as int),
{
    n.to_string()
}

/// The value of a numeral of decimal digits that fits in a `u64`.
pub fn parse_decimal_u64(s: &str) -> (r: Option<u64>)
    ensures
        match r {
            Some(n) => s@.len() > 0 && (forall|i: int| 0 <= i < s@.len() ==> is_digit(
                #[trigger] s@[i],
            )) && decimal_value(s@) == n as int,
            None => !(s@.len() > 0 && (forall|i: int| 0 <= i < s@.len() ==> is_digit(
                #[trigger] s@[i],
            )) && decimal_value(s@) <= u64::MAX),
        },
{
    let v = crate::text::chars_of(s);
    if v.len() == 0 {
        return None;
    }
    let mut acc: u64 = 0;
    let mut i: usize = 0;
    while i < v.len()
        invariant
            i <= v.len(),
            v@ == s@,
            forall|k: int| 0 <= k < i ==> is_digit(#[trigger] v@[k]),
            acc as int == decimal_value(v@.take(i as int)),
        decreases v.len() - i,
    {
        proof {
            assert(v@.take(i + 1).drop_last() =~= v@.take(i as int));
        }
        let c = v[i];
        if !('0' <= c && c <= '9') {
            return None;
        }
        let d = (c as u32 - '0' as u32) as u64;
        if acc > (u64::MAX - d) / 10 {
            proof {
                assert(decimal_value(v@.take(i + 1)) == acc * 10 + d);
                if forall|k: int| 0 <= k < v@.len() ==> is_digit(#[trigger] v@[k]) {
                    lemma_decimal_prefix_bound(v@, i as int + 1);
                }
                assert(acc * 10 + d > u64::MAX) by (nonlinear_arith)
                    requires
                        acc > (u64::MAX - d) / 10,
                        d <= 9,
                ;
            }
            return None;
        }
        acc = acc * 10 + d;
        i += 1;
    }
    proof {
        assert(v@.take(v.len() as int) =~= v@);
    }
    Some(acc)
}

proof fn lemma_decimal_prefix_bound(s: Seq<char>, k: int)
    requires
        0 <= k <= s.len(),
        forall|i: int| 0 <= i < s.len() ==> is_digit(#[trigger] s[i]),
    ensures
        decimal_value(s.take(k)) <= decimal_value(s),
        decimal_value(s.take(k)) >= 0,
    decreases s.len(),
{
    lemma_decimal_nonneg(s.take(k));
    if k < s.len() {
        assert(s.drop_last().take(k) =~= s.take(k));
        lemma_decimal_prefix_bound(s.drop_last(), k);
        lemma_decimal_nonneg(s.drop_last());
    } else {
        assert(s.take(k) =~= s);
    }
}

proof fn lemma_decimal_nonneg(s: Seq<char>)
    requires
        forall|i: int| 0 <= i < s.len() ==> is_digit(#[trigger] s[i]),
    ensures
        decimal_value(s) >= 0,
    decreases s.len(),
{
    if s.len() > 0 {
        lemma_decimal_nonneg(s.drop_last());
    }
}

// ---------------------------------------------------------------------------
// Batch cache
// ---------------------------------------------------------------------------

/// The cached result of extracting one session.
#[derive(Debug)]
pub struct SessionExtraction {
    pub session_id: String,
    pub extracted_at: Timestamp,
    pub has_knowledge: bool,
    pub content: String,
    pub file_size_bytes: u64,
}

/// The cached results of a batch run, at most one per session.
#[derive(Debug)]
pub struct ExtractionCache {
    pub entries: Vec<SessionExtraction>,
}

/// Whether the entry at `i` is for session `id`.
pub open spec fn entry_is_for(es: Seq<SessionExtraction>, i: int, id: Seq<char>) -> bool {
    0 <= i < es.len() && es[i].session_id@ == id
}

/// The cached result for session `id`.
pub open spec fn cache_lookup(es: Seq<SessionExtraction>, id: Seq<char>) -> Option<
    SessionExtraction,
> {
    if exists|i: int| #[trigger] entry_is_for(es, i, id) {
        Some(es[choose|i: int| #[trigger] entry_is_for(es, i, id)])
    } else {
        None
    }
}

/// No two entries are for the same session.
pub open spec fn ids_unique(es: Seq<SessionExtraction>) -> bool {
    forall|i: int, j: int|
        0 <= i < es.len() && 0 <= j < es.len() && #[trigger] es[i].session_id@
            == #[trigger] es[j].session_id@ ==> i == j
}

proof fn lemma_lookup_at(es: Seq<SessionExtraction>, i: int, id: Seq<char>)
    requires
        ids_unique(es),
        entry_is_for(es, i, id),
    ensures
        cache_lookup(es, id) == Some(es[i]),
{
    let j = choose|j: int| #[trigger] entry_is_for(es, j, id);
    assert(es[j].session_id@ == es[i].session_id@);
}

proof fn lemma_lookup_same(a: Seq<SessionExtraction>, b: Seq<SessionExtraction>, id: Seq<char>)
    requires
        ids_unique(a),
        ids_unique(b),
        forall|k: int| #[trigger] entry_is_for(a, k, id) <==> entry_is_for(b, k, id),
        forall|k: int| #[trigger] entry_is_for(a, k, id) ==> a[k] == b[k],
    ensures
        cache_lookup(a, id) == cache_lookup(b, id),
{
    if exists|k: int| #[trigger] entry_is_for(a, k, id) {
        let j = choose|k: int| #[trigger] entry_is_for(a, k, id);
        assert(entry_is_for(b, j, id));
        lemma_lookup_at(a, j, id);
        lemma_lookup_at(b, j, id);
    } else {
        if exists|k: int| #[trigger] entry_is_for(b, k, id) {
            let k = choose|k: int| #[trigger] entry_is_for(b, k, id);
            assert(entry_is_for(a, k, id));
        }
    }
}

/// Whether a session is extracted anew: it has no cached result, or its
/// transcript's size differs from the size cached (transcripts only grow).
pub open spec fn needs_extraction_spec(session: SessionInfo, es: Seq<SessionExtraction>) -> bool {
    match cache_lookup(es, session.session_id@) {
        Some(c) => c.file_size_bytes != session.size_bytes,
        None => true,
    }
}

impl ExtractionCache {
    /// At most one entry per session.
    pub open spec fn wf(&self) -> bool {
        ids_unique(self.entries@)
    }

    pub fn new() -> (r: ExtractionCache)
        ensures
            r.entries@.len() == 0,
            r.wf(),
    {
        ExtractionCache { entries: Vec::new() }
    }

    /// The position of the cached result for session `id`.
    fn position(&self, id: &str) -> (r: Option<usize>)
        requires
            self.wf(),
        ensures
            match r {
                Some(i) => i < self.entries@.len() && cache_lookup(self.entries@, id@) == Some(
                    self.entries@[i as int],
                ) && self.entries@[i as int].session_id@ == id@,
                None => cache_lookup(self.entries@, id@) is None,
            },
    {
        let mut i: usize = 0;
        while i < self.entries.len()
            invariant
                i <= self.entries@.len(),
                self.wf(),
                forall|k: int| 0 <= k < i ==> !entry_is_for(self.entries@, k, id@),
            decreases self.entries@.len() - i,
        {
            if str_eq(self.entries[i].session_id.as_str(), id) {
                proof {
                    lemma_lookup_at(self.entries@, i as int, id@);
                }
                return Some(i);
            }
            i += 1;
        }
        proof {
            assert(!exists|k: int| #[trigger] entry_is_for(self.entries@, k, id@));
        }
        None
    }

    /// The cached result for session `id`.
    pub fn get(&self, id: &str) -> (r: Option<&SessionExtraction>)
        requires
            self.wf(),
        ensures
            match r {
                Some(e) => cache_lookup(self.entries@, id@) == Some(*e),
                None => cache_lookup(self.entries@, id@) is None,
            },
    {
        match self.position(id) {
            Some(i) => Some(&self.entries[i]),
            None => None,
        }
    }

    /// Replaces the cached result of the entry's session wholesale, or adds it.
    pub fn insert(&mut self, e: SessionExtraction)
        requires
            old(self).wf(),
        ensures
            final(self).wf(),
            cache_lookup(final(self).entries@, e.session_id@) == Some(e),
            forall|id: Seq<char>|
                id != e.session_id@ ==> #[trigger] cache_lookup(final(self).entries@, id)
                    == cache_lookup(old(self).entries@, id),
            forall|k: int|
                0 <= k < final(self).entries@.len() ==> #[trigger] final(self).entries@[k] == e
                    || (k < old(self).entries@.len() && final(self).entries@[k] == old(
                    self,
                ).entries@[k]),
    {
        let ghost old_entries = self.entries@;
        let ghost eid = e.session_id@;
        match self.position(e.session_id.as_str()) {
            Some(i) => {
                self.entries.set(i, e);
                proof {
                    let u = self.entries@;
                    assert(u == old_entries.update(i as int, e));
                    assert forall|a: int, b: int|
                        0 <= a < u.len() && 0 <= b < u.len() && #[trigger] u[a].session_id@
                            == #[trigger] u[b].session_id@ implies a == b by {
                        assert(old_entries[a].session_id@ == u[a].session_id@);
                        assert(old_entries[b].session_id@ == u[b].session_id@);
                    }
                    lemma_lookup_at(u, i as int, eid);
                    assert forall|id: Seq<char>| id != eid implies #[trigger] cache_lookup(u, id)
                        == cache_lookup(old_entries, id) by {
                        assert forall|k: int| #[trigger] entry_is_for(u, k, id) <==> entry_is_for(
                            old_entries,
                            k,
                            id,
                        ) by {
                            if k == i {
                                assert(old_entries[k].session_id@ == eid);
                            }
                        }
                        lemma_lookup_same(u, old_entries, id);
                    }
                }
            },
            None => {
                self.entries.push(e);
                proof {
                    let u = self.entries@;
                    assert(u == old_entries.push(e));
                    assert forall|a: int, b: int|
                        0 <= a < u.len() && 0 <= b < u.len() && #[trigger] u[a].session_id@
                            == #[trigger] u[b].session_id@ implies a == b by {
                        if a < old_entries.len() && b == old_entries.len() {
                            assert(entry_is_for(old_entries, a, eid));
                        }
                        if b < old_entries.len() && a == old_entries.len() {
                            assert(entry_is_for(old_entries, b, eid));
                        }
                        if a < old_entries.len() && b < old_entries.len() {
                            assert(u[a] == old_entries[a]);
                            assert(u[b] == old_entries[b]);
                        }
                    }
                    lemma_lookup_at(u, old_entries.len() as int, eid);
                    assert forall|id: Seq<char>| id != eid implies #[trigger] cache_lookup(u, id)
                        == cache_lookup(old_entries, id) by {
                        assert forall|k: int| #[trigger] entry_is_for(u, k, id) <==> entry_is_for(
                            old_entries,
                            k,
                            id,
                        ) by {
                            if 0 <= k < old_entries.len() {
                                assert(u[k] == old_entries[k]);
                            }
                        }
                        assert forall|k: int| #[trigger] entry_is_for(u, k, id) implies u[k]
                            == old_entries[k] by {}
                        lemma_lookup_same(u, old_entries, id);
                    }
                }
            },
        }
    }
}

/// Whether a session is extracted anew: true where the cache has no result for
/// it, true where the cached size differs from the transcript's size now, and
/// false otherwise. A forced run extracts every session whatever this says.
pub fn needs_extraction(session: &SessionInfo, cache: &ExtractionCache) -> (r: bool)
    requires
        cache.wf(),
    ensures
        r == needs_extraction_spec(*session, cache.entries@),
        r == match cache_lookup(cache.entries@, session.session_id@) {
            Some(c) => c.file_size_bytes != session.size_bytes,
            None => true,
        },
{
    match cache.get(session.session_id.as_str()) {
        Some(cached) => cached.file_size_bytes != session.size_bytes,
        None => true,
    }
}

// ---------------------------------------------------------------------------
// The cache file: an object from session id to the cached result
// ---------------------------------------------------------------------------

/// The value of a JSON number written as decimal digits.
pub open spec fn number_value(j: Option<Json>) -> Option<int> {
    match j {
        Some(Json::Number(t)) => if t@.len() > 0 && (forall|i: int|
            0 <= i < t@.len() ==> is_digit(#[trigger] t@[i])) {
            Some(decimal_value(t@))
        } else {
            None
        },
        _ => None,
    }
}

/// Whether a JSON object records the cached result `e`.
pub open spec fn entry_of_json(j: Json, e: SessionExtraction) -> bool {
    &&& json_str_at(j, "session_id"@) == Some(e.session_id@)
    &&& json_str_at(j, "extracted_at"@) matches Some(t) && rfc3339_instant(t) == Some(
        e.extracted_at,
    )
    &&& json_get(j, "has_knowledge"@) == Some(Json::Bool(e.has_knowledge))
    &&& json_str_at(j, "content"@) == Some(e.content@)
    &&& number_value(json_get(j, "file_size_bytes"@)) == Some(e.file_size_bytes as int)
}

/// Whether a JSON object records some cached result whose time can be written back.
pub open spec fn json_entry_decodes(j: Json) -> bool {
    &&& json_str_at(j, "session_id"@) is Some
    &&& json_str_at(j, "extracted_at"@) matches Some(t) && rfc3339_instant(t) matches Some(
        i,
    ) && i.displayable()
    &&& json_get(j, "has_knowledge"@) matches Some(Json::Bool(_))
    &&& json_str_at(j, "content"@) is Some
    &&& number_value(json_get(j, "file_size_bytes"@)) matches Some(n) && n <= u64::MAX
}

/// Whether every member of a cache document records a cached result.
pub open spec fn all_members_decode(fields: Seq<(String, Json)>) -> bool {
    forall|i: int| 0 <= i < fields.len() ==> json_entry_decodes(#[trigger] fields[i].1)
}

/// The last member of a cache document whose result is for session `id`.
pub open spec fn last_member_for(fields: Seq<(String, Json)>, id: Seq<char>) -> Option<Json>
    decreases fields.len(),
{
    if fields.len() == 0 {
        None
    } else if json_str_at(fields.last().1, "session_id"@) == Some(id) {
        Some(fields.last().1)
    } else {
        last_member_for(fields.drop_last(), id)
    }
}

impl ExtractionCache {
    /// Every cached time can be written as RFC 3339 text.
    pub open spec fn times_displayable(&self) -> bool {
        forall|i: int| 0 <= i < self.entries@.len() ==> (#[trigger] self.entries@[i]).extracted_at.displayable()
    }
}

fn decode_cache_entry(j: &Json) -> (r: Option<SessionExtraction>)
    ensures
        r is Some <==> json_entry_decodes(*j),
        r matches Some(e) ==> entry_of_json(*j, e) && e.extracted_at.displayable(),
{
    let session_id = match j.str_at("session_id") {
        Some(s) => s,
        None => return None,
    };
    let extracted_at = match j.str_at("extracted_at") {
        Some(t) => match parse_rfc3339(t.as_str()) {
            Some(i) => i,
            None => return None,
        },
        None => return None,
    };
    if !(extracted_at.nanos < 1_000_000_000 && crate::time::YEAR_0_SECS <= extracted_at.secs
        && extracted_at.secs <= crate::time::YEAR_9999_END_SECS) {
        return None;
    }
    let has_knowledge = match j.get("has_knowledge") {
        Some(Json::Bool(b)) => *b,
        _ => return None,
    };
    let content = match j.str_at("content") {
        Some(c) => c,
        None => return None,
    };
    let file_size_bytes = match j.get("file_size_bytes") {
        Some(Json::Number(t)) => match parse_decimal_u64(t.as_str()) {
            Some(n) => n,
            None => return None,
        },
        _ => return None,
    };
    Some(SessionExtraction { session_id, extracted_at, has_knowledge, content, file_size_bytes })
}

/// Reads the cache file. A missing file, text that is not a JSON object, or a
/// member that does not record a cached result gives an empty cache; else
/// each session's cached result is the last member for it.
pub fn decode_cache(contents: Option<&str>) -> (r: ExtractionCache)
    ensures
        r.wf(),
        r.times_displayable(),
        match contents {
            Some(text) => match json_parse_of(text@) {
                Some(Json::Object(fields)) => if all_members_decode(fields@) {
                    forall|id: Seq<char>|
                        match #[trigger] last_member_for(fields@, id) {
                            Some(j) => cache_lookup(r.entries@, id) matches Some(e) && entry_of_json(j, e),
                            None => cache_lookup(r.entries@, id) is None,
                        }
                } else {
                    r.entries@.len() == 0
                },
                _ => r.entries@.len() == 0,
            },
            None => r.entries@.len() == 0,
        },
{
    let text = match contents {
        Some(t) => t,
        None => return ExtractionCache::new(),
    };
    let doc = match parse_json(text) {
        Some(d) => d,
        None => return ExtractionCache::new(),
    };
    let fields = match &doc {
        Json::Object(fields) => fields,
        _ => return ExtractionCache::new(),
    };
    let mut cache = ExtractionCache::new();
    let mut i: usize = 0;
    while i < fields.len()
        invariant
            i <= fields@.len(),
            contents == Some(text),
            json_parse_of(text@) == Some(doc),
            doc is Object && doc->Object_0@ == fields@,
            cache.wf(),
            cache.times_displayable(),
            forall|k: int| 0 <= k < i ==> json_entry_decodes(#[trigger] fields@[k].1),
            forall|id: Seq<char>|
                match #[trigger] last_member_for(fields@.take(i as int), id) {
                    Some(j) => cache_lookup(cache.entries@, id) matches Some(e) && entry_of_json(j, e),
                    None => cache_lookup(cache.entries@, id) is None,
                },
        decreases fields@.len() - i,
    {
        proof {
            assert(fields@.take(i + 1).drop_last() =~= fields@.take(i as int));
        }
        match decode_cache_entry(&fields[i].1) {
            Some(e) => {
                let ghost prev = cache.entries@;
                let ghost eid = e.session_id@;
                let ghost ee = e;
                cache.insert(e);
                proof {
                    assert forall|k: int| 0 <= k < cache.entries@.len() implies (
                    #[trigger] cache.entries@[k]).extracted_at.displayable() by {
                        if cache.entries@[k] != ee {
                            assert(prev[k].extracted_at.displayable());
                        }
                    }
                    assert forall|id: Seq<char>|
                        match #[trigger] last_member_for(fields@.take(i + 1), id) {
                            Some(j) => cache_lookup(cache.entries@, id) matches Some(e2) && entry_of_json(j, e2),
                            None => cache_lookup(cache.entries@, id) is None,
                        } by {
                        if id != eid {
                            assert(last_member_for(fields@.take(i + 1), id) == last_member_for(
                                fields@.take(i as int),
                                id,
                            ));
                        }
                    }
                }
            },
            None => {
                proof {
                    assert(!json_entry_decodes(fields@[i as int].1));
                    assert(!all_members_decode(fields@));
                }
                return ExtractionCache::new();
            },
        }
        i += 1;
    }
    proof {
        assert(fields@.take(fields@.len() as int) =~= fields@);
    }
    cache
}

/// Whether `d` is the cache document for `es`: one member per entry, in
/// order, named by the session and recording the entry.
pub open spec fn is_cache_document(d: Json, es: Seq<SessionExtraction>) -> bool {
    d is Object && d->Object_0@.len() == es.len() && forall|i: int|
        0 <= i < es.len() ==> (#[trigger] d->Object_0@[i]).0@ == es[i].session_id@
            && entry_of_json(d->Object_0@[i].1, es[i])
}

fn entry_document(e: &SessionExtraction) -> (r: Json)
    requires
        e.extracted_at.displayable(),
    ensures
        entry_of_json(r, *e),
{
    proof {
        reveal_strlit("session_id");
        reveal_strlit("extracted_at");
        reveal_strlit("has_knowledge");
        reveal_strlit("content");
        reveal_strlit("file_size_bytes");
    }
    let size = decimal_text(e.file_size_bytes);
    let k0 = copy_str("session_id");
    let k1 = copy_str("extracted_at");
    let k2 = copy_str("has_knowledge");
    let k3 = copy_str("content");
    let k4 = copy_str("file_size_bytes");
    let at = format_rfc3339(&e.extracted_at);
    let ghost at_view = at@;
    let r = Json::Object(
        vec![
            (k0, Json::Str(copy_str(e.session_id.as_str()))),
            (k1, Json::Str(at)),
            (k2, Json::Bool(e.has_knowledge)),
            (k3, Json::Str(copy_str(e.content.as_str()))),
            (k4, Json::Number(size)),
        ],
    );
    proof {
        reveal_with_fuel(member, 6);
        let fs = r->Object_0@;
        assert(fs.len() == 5);
        let f1 = fs.drop_first();
        let f2 = f1.drop_first();
        let f3 = f2.drop_first();
        let f4 = f3.drop_first();
        assert(f1[0] == fs[1]);
        assert(f2[0] == fs[2]);
        assert(f3[0] == fs[3]);
        assert(f4[0] == fs[4]);
        assert(fs[0].0@ == "session_id"@);
        assert(fs[1].0@ == "extracted_at"@);
        assert(fs[2].0@ == "has_knowledge"@);
        assert(fs[3].0@ == "content"@);
        assert(fs[4].0@ == "file_size_bytes"@);
        assert(fs[2].1 == Json::Bool(e.has_knowledge));
        assert(fs[1].1 == Json::Str(at));
        assert(member(f1, "extracted_at"@) == Some(fs[1].1));
        assert(member(fs, "extracted_at"@) == Some(fs[1].1));
        assert(json_str_at(r, "session_id"@) == Some(e.session_id@));
        assert(json_str_at(r, "extracted_at"@) == Some(at_view));
        assert(member(f2, "has_knowledge"@) == Some(fs[2].1));
        assert(member(f1, "has_knowledge"@) == Some(fs[2].1));
        assert(member(fs, "has_knowledge"@) == Some(fs[2].1));
        assert(json_get(r, "has_knowledge"@) == Some(Json::Bool(e.has_knowledge)));
        assert(member(f3, "content"@) == Some(fs[3].1));
        assert(member(f2, "content"@) == Some(fs[3].1));
        assert(member(f1, "content"@) == Some(fs[3].1));
        assert(member(fs, "content"@) == Some(fs[3].1));
        assert(json_str_at(r, "content"@) == Some(e.content@));
        assert(member(f4, "file_size_bytes"@) == Some(fs[4].1));
        assert(member(f3, "file_size_bytes"@) == Some(fs[4].1));
        assert(member(f2, "file_size_bytes"@) == Some(fs[4].1));
        assert(member(f1, "file_size_bytes"@) == Some(fs[4].1));
        assert(member(fs, "file_size_bytes"@) == Some(fs[4].1));
        assert(json_get(r, "file_size_bytes"@) == Some(fs[4].1));
    }
    r
}

/// The cache document: an object from session id to the cached result.
pub fn cache_document(cache: &ExtractionCache) -> (r: Json)
    requires
        cache.times_displayable(),
    ensures
        is_cache_document(r, cache.entries@),
{
    let mut fields: Vec<(String, Json)> = Vec::new();
    let mut i: usize = 0;
    while i < cache.entries.len()
        invariant
            i <= cache.entries@.len(),
            cache.times_displayable(),
            fields@.len() == i,
            forall|k: int|
                0 <= k < i ==> (#[trigger] fields@[k]).0@ == cache.entries@[k].session_id@
                    && entry_of_json(fields@[k].1, cache.entries@[k]),
        decreases cache.entries@.len() - i,
    {
        let e = &cache.entries[i];
        proof {
            assert(cache.entries@[i as int].extracted_at.displayable());
        }
        let doc = entry_document(e);
        fields.push((copy_str(e.session_id.as_str()), doc));
        i += 1;
    }
    Json::Object(fields)
}

/// The text of the cache file.
pub fn encode_cache(cache: &ExtractionCache) -> (r: String)
    requires
        cache.times_displayable(),
    ensures
        exists|d: Json| is_cache_document(d, cache.entries@) && r@ == json_pretty_text_of(d),
{
    let d = cache_document(cache);
    json_pretty_text(&d)
}

} // verus!
