//! Instants on the UTC time line and the delays between them.

use vstd::prelude::*;

verus! {

/// Nanoseconds in one second.
pub const NANOS_PER_SEC: u128 = 1_000_000_000;

/// A point on the UTC time line: whole seconds since 1970-01-01T00:00:00Z and
/// the nanoseconds past that second.
///
/// Instants are ordered by `secs`, then by `nanos`. A leap second is carried
/// the way calendar libraries commonly carry it, as a `nanos` of a billion or
/// more on the second before it, and the order above puts it where it belongs.
#[derive(Clone, Copy, Debug, PartialEq, Eq, Structural)]
pub struct Instant {
    pub secs: i64,
    pub nanos: u32,
}

/// A length of time in nanoseconds, never negative.
#[derive(Clone, Copy, Debug, PartialEq, Eq, Structural)]
pub struct Delay {
    pub nanos: u128,
}

impl Instant {
    /// Nanoseconds from the epoch to this instant.
    pub open spec fn epoch_nanos(self) -> int {
        self.secs * 1_000_000_000 + self.nanos
    }

    /// Whether this instant comes strictly after the instant that lies
    /// `shift_secs` seconds after `other`.
    pub open spec fn is_after(self, other: Instant, shift_secs: int) -> bool {
        self.secs > other.secs + shift_secs || (self.secs == other.secs + shift_secs && self.nanos
            > other.nanos)
    }

    /// Nanoseconds still to pass at `self` until the instant that lies
    /// `shift_secs` seconds after `target`; zero once that instant is reached.
    pub open spec fn nanos_until(self, target: Instant, shift_secs: int) -> int {
        let gap = target.epoch_nanos() + shift_secs * 1_000_000_000 - self.epoch_nanos();
        if gap > 0 {
            gap
        } else {
            0
        }
    }

    /// Decides `self.is_after(other, shift_secs)`.
    pub fn after(&self, other: &Instant, shift_secs: i64) -> (later: bool)
        ensures
            later == self.is_after(*other, shift_secs as int),
    {
        let bound: i128 = other.secs as i128 + shift_secs as i128;
        let secs: i128 = self.secs as i128;
        secs > bound || (secs == bound && self.nanos > other.nanos)
    }

    /// The delay from `self` until `shift_secs` seconds after `target`.
    pub fn delay_until(&self, target: &Instant, shift_secs: i64) -> (delay: Delay)
        ensures
            delay.nanos == self.nanos_until(*target, shift_secs as int),
    {
        let goal: i128 = (target.secs as i128 + shift_secs as i128) * 1_000_000_000
            + target.nanos as i128;
        let here: i128 = self.secs as i128 * 1_000_000_000 + self.nanos as i128;
        if goal > here {
            Delay { nanos: (goal - here) as u128 }
        } else {
            Delay { nanos: 0 }
        }
    }
}

impl Delay {
    /// A delay of whole seconds.
    pub fn from_secs(secs: u64) -> (delay: Delay)
        ensures
            delay.nanos == secs * 1_000_000_000,
    {
        Delay { nanos: secs as u128 * NANOS_PER_SEC }
    }
}

/// The instant that a text denotes when `chrono::DateTime::parse_from_rfc3339`
/// reads it as an RFC 3339 date and time: seconds since the epoch and
/// nanoseconds past the second, or `None` where the text is no such date and
/// time.
pub uninterp spec fn rfc3339_instant(text: Seq<char>) -> Option<(i64, u32)>;

/// The instant that `text` denotes, as a value of this library.
pub open spec fn parsed_instant(text: Seq<char>) -> Option<Instant> {
    match rfc3339_instant(text) {
        Some((secs, nanos)) => Some(Instant { secs, nanos }),
        None => None,
    }
}

/// Calls `chrono::DateTime::parse_from_rfc3339`.
///
/// Trusted: the result is what chrono's parser makes of the text, which
/// depends on the text alone. A text that parses gives the Unix timestamp of
/// the date and time and its nanoseconds, whatever offset the text was written
/// with; a text that chrono rejects gives `None`.
#[verifier::external_body]
fn chrono_parse_rfc3339(text: &str) -> (parsed: Option<(i64, u32)>)
    ensures
        parsed == rfc3339_instant(text@),
{
    match chrono::DateTime::parse_from_rfc3339(text) {
        Ok(moment) => Some((moment.timestamp(), moment.timestamp_subsec_nanos())),
        Err(_) => None,
    }
}

/// Reads an RFC 3339 date and time.
pub fn parse_rfc3339(text: &str) -> (parsed: Option<Instant>)
    ensures
        parsed == parsed_instant(text@),
{
    match chrono_parse_rfc3339(text) {
        Some((secs, nanos)) => Some(Instant { secs, nanos }),
        None => None,
    }
}

} // verus!
