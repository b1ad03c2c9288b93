//! Instants, ages, and the cutoff that separates posts too recent to delete
//! from those old enough.

use vstd::prelude::*;

verus! {

/// Nanoseconds in one second.
pub const NANOS_PER_SEC: u32 = 1_000_000_000;

/// The whole seconds of the longest age: `i64::MAX` milliseconds, the
/// longest span that chrono's `TimeDelta` holds.
pub const MAX_AGE_SECS: i64 = 9_223_372_036_854_775;

/// The nanoseconds past `MAX_AGE_SECS` seconds of the longest age.
pub const MAX_AGE_LAST_NANOS: u32 = 807_000_000;

/// An instant on the UTC time line: whole seconds since 1970-01-01T00:00:00Z
/// and the nanoseconds past that second.
///
/// Inside a leap second `nanos` runs from 1_000_000_000 to 1_999_999_999
/// while `secs` stays on the second before it, so instants are ordered by
/// `secs` first and `nanos` second.
#[derive(Clone, Copy, Debug, PartialEq, Eq, Structural)]
pub struct Timestamp {
    pub secs: i64,
    pub nanos: u32,
}

/// A non-negative span of time.
#[derive(Clone, Copy, Debug, PartialEq, Eq, Structural)]
pub struct Duration {
    pub secs: i64,
    pub nanos: u32,
}

impl Timestamp {
    /// Whether this instant lies outside any leap second.
    pub open spec fn is_regular(self) -> bool {
        self.nanos < NANOS_PER_SEC
    }

    /// The instant as one number of nanoseconds since the epoch.
    pub open spec fn nanos_since_epoch(self) -> int {
        self.secs * 1_000_000_000 + self.nanos
    }

    /// The instant that lies `total` nanoseconds after the epoch.
    pub open spec fn from_nanos(total: int) -> Timestamp {
        Timestamp {
            secs: (total / 1_000_000_000) as i64,
            nanos: (total % 1_000_000_000) as u32,
        }
    }

    /// Whether this instant is strictly later than `other`.
    pub open spec fn after(self, other: Timestamp) -> bool {
        self.secs > other.secs || (self.secs == other.secs && self.nanos > other.nanos)
    }

    /// The whole seconds since the epoch of the instant `age` before this
    /// one.
    pub open spec fn secs_earlier_by(self, age: Duration) -> int {
        (self.nanos_since_epoch() - age.total_nanos()) / 1_000_000_000
    }

    /// The instant `age` before this one.
    pub open spec fn earlier_by(self, age: Duration) -> Timestamp {
        Timestamp::from_nanos(self.nanos_since_epoch() - age.total_nanos())
    }

    /// The instant `nanos` nanoseconds past the second `secs` of the Unix
    /// era.
    pub fn new(secs: i64, nanos: u32) -> (t: Timestamp)
        ensures
            t == (Timestamp { secs, nanos }),
    {
        Timestamp { secs, nanos }
    }

    /// Whether this instant is strictly later than `other`.
    pub fn is_after(&self, other: &Timestamp) -> (b: bool)
        ensures
            b == self.after(*other),
    {
        self.secs > other.secs || (self.secs == other.secs && self.nanos > other.nanos)
    }
}

impl Duration {
    /// Whether the span is non-negative, its nanoseconds stay below one
    /// second, and it is no longer than the longest age.
    pub open spec fn valid(self) -> bool {
        &&& 0 <= self.secs <= MAX_AGE_SECS
        &&& self.nanos < NANOS_PER_SEC
        &&& self.secs == MAX_AGE_SECS ==> self.nanos <= MAX_AGE_LAST_NANOS
    }

    /// The span as one number of nanoseconds.
    pub open spec fn total_nanos(self) -> int {
        self.secs * 1_000_000_000 + self.nanos
    }

    /// The empty span.
    pub fn zero() -> (d: Duration)
        ensures
            d == (Duration { secs: 0, nanos: 0 }),
            d.valid(),
            d.total_nanos() == 0,
    {
        Duration { secs: 0, nanos: 0 }
    }

    /// The span of `secs` seconds and `nanos` nanoseconds, if that is a valid
    /// span.
    pub fn new(secs: i64, nanos: u32) -> (r: Option<Duration>)
        ensures
            r == (if (Duration { secs, nanos }).valid() {
                Some(Duration { secs, nanos })
            } else {
                None
            }),
    {
        let d = Duration { secs, nanos };
        if d.is_valid() {
            Some(d)
        } else {
            None
        }
    }

    /// Whether the span is valid.
    pub fn is_valid(&self) -> (b: bool)
        ensures
            b == self.valid(),
    {
        0 <= self.secs && self.secs <= MAX_AGE_SECS && self.nanos < NANOS_PER_SEC
            && (self.secs != MAX_AGE_SECS || self.nanos <= MAX_AGE_LAST_NANOS)
    }
}

/// Whether chrono has a date and time for the second `secs` of the Unix
/// era: whether `chrono::DateTime::from_timestamp(secs, 0)` is some date.
pub uninterp spec fn chrono_holds(secs: int) -> bool;

/// Whether `now` and `age` have a cutoff: `now` is a regular instant, `age` a
/// valid span, and both `now` and the instant `age` before it can be held.
pub open spec fn cutoff_defined(now: Timestamp, age: Duration) -> bool {
    &&& now.is_regular()
    &&& age.valid()
    &&& chrono_holds(now.secs as int)
    &&& chrono_holds(now.secs_earlier_by(age))
}

/// Calls `chrono::DateTime::checked_sub_signed` on the UTC date and time that
/// `DateTime::from_timestamp` makes of `now`, with the `TimeDelta` that
/// `TimeDelta::new` makes of `age`, and reads the result with `timestamp`
/// and `timestamp_subsec_nanos`.
///
/// Nothing of this is proved. The contract claims of chrono that
/// - `TimeDelta::new` takes every valid age;
/// - `from_timestamp` takes a regular instant exactly if it has a date for
///   its second, which `chrono_holds` names;
/// - away from leap seconds `checked_sub_signed` subtracts as on the number
///   line of nanoseconds, and fails exactly if chrono has no date for the
///   second of the instant found;
/// - `timestamp` and `timestamp_subsec_nanos` give the seconds and the
///   nanoseconds of that instant, the latter below one second.
#[verifier::external_body]
fn chrono_before(now: Timestamp, age: Duration) -> (found: Option<Timestamp>)
    requires
        now.is_regular(),
        age.valid(),
    ensures
        found.is_some() == (chrono_holds(now.secs as int) && chrono_holds(now.secs_earlier_by(age))),
        found matches Some(t) ==> t.is_regular() && t.nanos_since_epoch() == now.nanos_since_epoch()
            - age.total_nanos(),
{
    let at = chrono::DateTime::from_timestamp(now.secs, now.nanos)?;
    let span = chrono::TimeDelta::new(age.secs, age.nanos)?;
    let before = at.checked_sub_signed(span)?;
    Some(Timestamp { secs: before.timestamp(), nanos: before.timestamp_subsec_nanos() })
}

/// The cutoff: the instant `minimum_age` before `now`. Posts created after
/// it are too recent to delete.
pub fn compute_cutoff(now: Timestamp, minimum_age: Duration) -> (cutoff: Timestamp)
    requires
        cutoff_defined(now, minimum_age),
    ensures
        cutoff == now.earlier_by(minimum_age),
        cutoff.is_regular(),
        cutoff.nanos_since_epoch() == now.nanos_since_epoch() - minimum_age.total_nanos(),
{
    match chrono_before(now, minimum_age) {
        Some(cutoff) => cutoff,
        None => unreached(),
    }
}

/// The cutoff for `now` and `minimum_age` where there is one, `None` where
/// `cutoff_defined` fails.
pub fn checked_cutoff(now: Timestamp, minimum_age: Duration) -> (r: Option<Timestamp>)
    ensures
        r == (if cutoff_defined(now, minimum_age) {
            Some(now.earlier_by(minimum_age))
        } else {
            None
        }),
{
    if now.nanos >= NANOS_PER_SEC || !minimum_age.is_valid() {
        return None;
    }
    match chrono_before(now, minimum_age) {
        Some(_) => Some(compute_cutoff(now, minimum_age)),
        None => None,
    }
}

/// The instant `age` before `now` is regular and lies exactly
/// `age.total_nanos()` nanoseconds before it, wherever its seconds fit the
/// machine's 64 bits.
pub proof fn lemma_earlier_by_is_exact(now: Timestamp, age: Duration)
    requires
        i64::MIN <= now.secs_earlier_by(age) <= i64::MAX,
    ensures
        now.earlier_by(age).is_regular(),
        now.earlier_by(age).nanos_since_epoch() == now.nanos_since_epoch() - age.total_nanos(),
{
}

/// With an age of zero the cutoff is `now` itself.
pub proof fn lemma_zero_age_cutoff(now: Timestamp, age: Duration)
    requires
        now.is_regular(),
        age.total_nanos() == 0,
    ensures
        now.earlier_by(age) == now,
{
}

/// The cutoff is never later than `now`.
pub proof fn lemma_cutoff_not_after_now(now: Timestamp, age: Duration)
    requires
        now.is_regular(),
        age.valid(),
        i64::MIN <= now.secs_earlier_by(age),
    ensures
        !now.earlier_by(age).after(now),
{
}

/// Among regular instants, `after` is the order of the nanoseconds since the
/// epoch.
pub proof fn lemma_after_is_later(a: Timestamp, b: Timestamp)
    requires
        a.is_regular(),
        b.is_regular(),
    ensures
        a.after(b) <==> a.nanos_since_epoch() > b.nanos_since_epoch(),
{
}

/// Any two instants are ordered one way, the other, or are the same.
pub proof fn lemma_after_total(a: Timestamp, b: Timestamp)
    ensures
        a.after(b) || b.after(a) || a == b,
        !(a.after(b) && b.after(a)),
        !a.after(a),
{
}

} // verus!
