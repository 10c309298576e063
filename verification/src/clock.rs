//! Points in time, and the cutoff that separates old files from recent ones.

use vstd::prelude::*;

verus! {

/// Nanoseconds in one second.
pub const NANOS_PER_SEC: i128 = 1_000_000_000;

/// Nanoseconds in one retention month, which is thirty days long.
pub const NANOS_PER_MONTH: i128 = 2_592_000_000_000_000;

/// A point in time: whole seconds since 1970-01-01T00:00:00 UTC, which may be
/// negative, and the nanoseconds that follow them.
#[derive(Clone, Copy, Debug)]
pub struct Timestamp {
    pub secs: i64,
    pub nanos: u32,
}

/// The point in time that a text such as "2024-03-01T12:00:00Z" names in the
/// notation of RFC 3339, in seconds and nanoseconds; `None` for any other text.
pub uninterp spec fn rfc3339_instant(text: Seq<char>) -> Option<(i64, u32)>;

/// Calls `chrono::DateTime::parse_from_rfc3339`, then `timestamp` and
/// `timestamp_subsec_nanos`. Claimed: only that the text determines the answer.
#[verifier::external_body]
fn chrono_parse_rfc3339(text: &str) -> (found: Option<(i64, u32)>)
    ensures
        found == rfc3339_instant(text@),
{
    match chrono::DateTime::parse_from_rfc3339(text) {
        Ok(when) => Some((when.timestamp(), when.timestamp_subsec_nanos())),
        Err(_) => None,
    }
}

impl Timestamp {
    /// The point in time that `found` stands for, where it holds one.
    pub open spec fn from_parts(found: Option<(i64, u32)>) -> Option<Timestamp> {
        match found {
            Some(parts) => Some(Timestamp { secs: parts.0, nanos: parts.1 }),
            None => None,
        }
    }

    /// The point in time that seconds and nanoseconds name, where there are any.
    pub fn of_parts(found: Option<(i64, u32)>) -> (time: Option<Timestamp>)
        ensures
            time == Self::from_parts(found),
    {
        match found {
            Some(parts) => Some(Timestamp { secs: parts.0, nanos: parts.1 }),
            None => None,
        }
    }

    /// Reads a date and time in the notation of RFC 3339.
    pub fn parse_rfc3339(text: &str) -> (time: Option<Timestamp>)
        ensures
            time == Self::from_parts(rfc3339_instant(text@)),
    {
        Self::of_parts(chrono_parse_rfc3339(text))
    }

    /// The point in time as a count of nanoseconds since the epoch.
    pub open spec fn instant(self) -> int {
        self.secs * NANOS_PER_SEC + self.nanos
    }

    /// The same count, computed.
    pub fn to_nanos(&self) -> (n: i128)
        ensures
            n == self.instant(),
    {
        let whole: i128 = self.secs as i128;
        let part: i128 = self.nanos as i128;
        whole * NANOS_PER_SEC + part
    }

    /// Whether `self` lies strictly before `other`.
    pub fn is_before(&self, other: &Timestamp) -> (b: bool)
        ensures
            b == (self.instant() < other.instant()),
    {
        self.to_nanos() < other.to_nanos()
    }
}

/// The boundary of a sweep: a file last modified strictly before it is old.
#[derive(Clone, Copy, Debug)]
pub struct Cutoff {
    /// Nanoseconds since the epoch.
    pub nanos: i128,
}

impl View for Cutoff {
    type V = int;

    open spec fn view(&self) -> int {
        self.nanos as int
    }
}

impl Cutoff {
    /// The instant that lies `months` retention months before `now`.
    pub open spec fn months_before_spec(now: Timestamp, months: i64) -> int {
        now.instant() - months * NANOS_PER_MONTH
    }

    /// A cutoff at a given point in time.
    pub fn at(when: Timestamp) -> (c: Cutoff)
        ensures
            c@ == when.instant(),
    {
        Cutoff { nanos: when.to_nanos() }
    }

    /// The cutoff that lies `months` retention months of thirty days before
    /// `now`. A file is then old exactly when more than that span has passed
    /// between its modification and `now`.
    pub fn months_before(now: Timestamp, months: i64) -> (c: Cutoff)
        ensures
            c@ == Self::months_before_spec(now, months),
    {
        let span: i128 = (months as i128) * NANOS_PER_MONTH;
        Cutoff { nanos: now.to_nanos() - span }
    }

    /// Whether a file last modified at `modified` is old.
    pub fn expires(&self, modified: &Timestamp) -> (old: bool)
        ensures
            old == (modified.instant() < self@),
    {
        modified.to_nanos() < self.nanos
    }
}

/// A file is old under `months_before(now, months)` exactly when the time
/// from its modification to `now` exceeds `months` times thirty days.
pub proof fn lemma_months_before_is_elapsed_time(now: Timestamp, modified: Timestamp, months: i64)
    ensures
        modified.instant() < Cutoff::months_before_spec(now, months) <==> now.instant()
            - modified.instant() > months * 30 * 86_400 * NANOS_PER_SEC,
{
}

} // verus!
