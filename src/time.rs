//! Instants in UTC, read from and written as RFC 3339 text through chrono.

use vstd::prelude::*;

verus! {

/// Seconds from the epoch to 0000-01-01T00:00:00Z.
pub const YEAR_0_SECS: i64 = -62_167_219_200;

/// Seconds from the epoch to 9999-12-31T23:59:59Z.
pub const YEAR_9999_END_SECS: i64 = 253_402_300_799;

/// The largest UTC offset that RFC 3339 text can carry, in seconds.
pub const MAX_OFFSET_SECS: i64 = 86_399;

/// Seconds in the carry-over window that precedes a checkpoint (five minutes).
pub const CARRYOVER_SECS: i64 = 300;

/// An instant: whole seconds since 1970-01-01T00:00:00Z and the nanoseconds
/// after them. A leap second holds `nanos` from 10^9 on, as chrono does.
#[derive(Debug, Clone, Copy, PartialEq, Eq, Structural)]
pub struct Timestamp {
    pub secs: i64,
    pub nanos: u32,
}

impl Timestamp {
    /// An instant that RFC 3339 text can denote: a four-digit year and an
    /// offset of less than a day.
    pub open spec fn wf(self) -> bool {
        &&& self.nanos < 2_000_000_000
        &&& YEAR_0_SECS - MAX_OFFSET_SECS <= self.secs
        &&& self.secs <= YEAR_9999_END_SECS + MAX_OFFSET_SECS
    }

    /// An instant that RFC 3339 text in UTC can denote, outside a leap second.
    pub open spec fn displayable(self) -> bool {
        &&& self.nanos < 1_000_000_000
        &&& YEAR_0_SECS <= self.secs <= YEAR_9999_END_SECS
    }

    /// Whether RFC 3339 text in UTC can denote this instant.
    pub fn is_displayable(&self) -> (r: bool)
        ensures
            r == self.displayable(),
    {
        self.nanos < 1_000_000_000 && YEAR_0_SECS <= self.secs && self.secs <= YEAR_9999_END_SECS
    }

    /// Whether this instant comes strictly before `other`.
    pub open spec fn before(self, other: Timestamp) -> bool {
        self.secs < other.secs || (self.secs == other.secs && self.nanos < other.nanos)
    }

    /// Whether this instant comes strictly before `other`.
    pub fn is_before(&self, other: &Timestamp) -> (r: bool)
        ensures
            r == self.before(*other),
    {
        self.secs < other.secs || (self.secs == other.secs && self.nanos < other.nanos)
    }

    /// This instant moved `n` seconds earlier.
    pub open spec fn minus_secs(self, n: i64) -> Timestamp {
        Timestamp { secs: (self.secs - n) as i64, nanos: self.nanos }
    }
}

/// The start of the carry-over window of a checkpoint: five minutes earlier.
pub fn carryover_start(cursor: &Timestamp) -> (r: Timestamp)
    requires
        cursor.wf(),
    ensures
        r == cursor.minus_secs(CARRYOVER_SECS),
        r.secs == cursor.secs - CARRYOVER_SECS,
{
    Timestamp { secs: cursor.secs - CARRYOVER_SECS, nanos: cursor.nanos }
}

/// The instant that chrono reads from RFC 3339 text, if the text is RFC 3339.
pub uninterp spec fn rfc3339_instant(s: Seq<char>) -> Option<Timestamp>;

/// The RFC 3339 text that chrono writes for an instant in UTC.
pub uninterp spec fn rfc3339_text(t: Timestamp) -> Seq<char>;

/// Relies on chrono's `DateTime::parse_from_rfc3339`, read as seconds and
/// nanoseconds since the epoch. Its grammar takes a four-digit year and an
/// offset of less than a day, which bounds the instant.
#[verifier::external_body]
pub(crate) fn parse_rfc3339(s: &str) -> (r: Option<Timestamp>)
    ensures
        r == rfc3339_instant(s@),
        r matches Some(t) ==> t.wf(),
{
    match chrono::DateTime::parse_from_rfc3339(s) {
        Ok(d) => Some(Timestamp { secs: d.timestamp(), nanos: d.timestamp_subsec_nanos() }),
        Err(_) => None,
    }
}

/// Relies on chrono's `DateTime::<Utc>::from_timestamp` and `to_rfc3339`: the
/// instant as RFC 3339 text, with as many fractional digits as the nanoseconds
/// need, which `parse_from_rfc3339` reads back as the same instant.
#[verifier::external_body]
pub(crate) fn format_rfc3339(t: &Timestamp) -> (r: String)
    requires
        t.displayable(),
    ensures
        r@ == rfc3339_text(*t),
        rfc3339_instant(r@) == Some(*t),
{
    match chrono::DateTime::from_timestamp(t.secs, t.nanos) {
        Some(d) => d.to_rfc3339(),
        None => String::new(),
    }
}

} // verus!
