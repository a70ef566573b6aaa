//! Points in time of the UTC time line, and the calendar arithmetic of `chrono` on them.

use chrono::{DateTime, TimeDelta, Utc};
use vstd::prelude::*;

verus! {

/// The first second that a [`Timestamp`] can hold: midnight of 1 January of the year -262143.
pub const MIN_SECS: i64 = -8_334_601_228_800;

/// The last second that a [`Timestamp`] can hold: the last one of 31 December of the year 262142.
pub const MAX_SECS: i64 = 8_210_266_876_799;

/// Nanoseconds in one second.
pub const SECOND: i128 = 1_000_000_000;

/// A point in time: whole seconds since the Unix epoch and nanoseconds within that second. A leap
/// second is held as nanoseconds of one second or more, in the last second of a minute.
pub struct Instant {
    pub secs: int,
    pub nanos: int,
}

impl Instant {
    /// The point in time lies on the time line that `chrono` knows.
    pub open spec fn valid(self) -> bool {
        &&& MIN_SECS <= self.secs <= MAX_SECS
        &&& 0 <= self.nanos < 2_000_000_000
        &&& self.nanos >= 1_000_000_000 ==> self.secs % 60 == 59
    }

    /// Strictly earlier than `other`.
    pub open spec fn before(self, other: Instant) -> bool {
        self.secs < other.secs || (self.secs == other.secs && self.nanos < other.nanos)
    }

    /// Within a leap second.
    pub open spec fn in_leap_second(self) -> bool {
        self.nanos >= 1_000_000_000
    }

    /// Nanoseconds from `earlier` to this point. A leap second counts only where one of the two
    /// points lies in it, and then by the order of the two times of day.
    pub open spec fn since(self, earlier: Instant) -> int {
        let plain = (self.secs - earlier.secs) * 1_000_000_000 + (self.nanos - earlier.nanos);
        if self.secs % 86_400 > earlier.secs % 86_400 && earlier.in_leap_second() {
            plain + 1_000_000_000
        } else if self.secs % 86_400 < earlier.secs % 86_400 && self.in_leap_second() {
            plain - 1_000_000_000
        } else {
            plain
        }
    }

    /// The point `seconds` later (earlier, where negative). Leaving a leap second forwards counts
    /// from the second before it, leaving it backwards from the one after it.
    pub open spec fn moved(self, seconds: int) -> Instant {
        if self.in_leap_second() && seconds > 0 {
            Instant { secs: self.secs + seconds, nanos: self.nanos - 1_000_000_000 }
        } else if self.in_leap_second() && seconds < 0 {
            Instant { secs: self.secs + 1 + seconds, nanos: self.nanos - 1_000_000_000 }
        } else {
            Instant { secs: self.secs + seconds, nanos: self.nanos }
        }
    }

    /// The point `seconds` later is still on the time line.
    pub open spec fn can_move(self, seconds: int) -> bool {
        MIN_SECS <= self.moved(seconds).secs <= MAX_SECS
    }
}

/// The point in time of a pair of seconds and nanoseconds.
pub open spec fn instant(secs: i64, nanos: u32) -> Instant {
    Instant { secs: secs as int, nanos: nanos as int }
}

/// `DateTime::<Utc>::from_timestamp` of `chrono`, with the fields of its result read back by
/// `timestamp` and `timestamp_subsec_nanos`: a point in time exists for exactly the pairs that
/// [`Instant::valid`] describes, and it has the seconds and nanoseconds that it was made from.
#[verifier::external_body]
fn chrono_from_timestamp(secs: i64, nanos: u32) -> (made: Option<(i64, u32)>)
    ensures
        made == if instant(secs, nanos).valid() { Some((secs, nanos)) } else { None },
{
    let made = DateTime::<Utc>::from_timestamp(secs, nanos)?;
    Some((made.timestamp(), made.timestamp_subsec_nanos()))
}

/// `DateTime::<Utc>::checked_add_signed` of `chrono` with a `TimeDelta` of whole seconds: the point
/// in time that [`Instant::moved`] describes, or nothing where that lies off the time line. The
/// subtraction of a `TimeDelta` is the addition of its negation.
#[verifier::external_body]
fn chrono_add_seconds(secs: i64, nanos: u32, seconds: i64) -> (sum: Option<(i64, u32)>)
    requires
        instant(secs, nanos).valid(),
    ensures
        sum is Some <==> instant(secs, nanos).can_move(seconds as int),
        sum matches Some(pair) ==> instant(pair.0, pair.1) == instant(secs, nanos).moved(
            seconds as int,
        ),
{
    let start = DateTime::<Utc>::from_timestamp(secs, nanos)?;
    let sum = start.checked_add_signed(TimeDelta::try_seconds(seconds)?)?;
    Some((sum.timestamp(), sum.timestamp_subsec_nanos()))
}

/// `DateTime::<Utc>::signed_duration_since` of `chrono`: the span that [`Instant::since`]
/// describes, as whole seconds and the nanoseconds that are left of it. It exists for every two
/// points of the time line.
#[verifier::external_body]
fn chrono_since(secs: i64, nanos: u32, from: (i64, u32)) -> (span: Option<(i64, i32)>)
    requires
        instant(secs, nanos).valid(),
        instant(from.0, from.1).valid(),
    ensures
        span is Some,
        span matches Some(pair) ==> pair.0 * 1_000_000_000 + pair.1 == instant(secs, nanos).since(
            instant(from.0, from.1),
        ),
{
    let start = DateTime::<Utc>::from_timestamp(from.0, from.1)?;
    let span = DateTime::<Utc>::from_timestamp(secs, nanos)?.signed_duration_since(start);
    Some((span.num_seconds(), span.subsec_nanos()))
}

/// A point in time of the UTC time line, from the year -262143 to the year 262142.
#[derive(Clone, Copy, Debug)]
pub struct Timestamp {
    secs: i64,
    nanos: u32,
}

impl View for Timestamp {
    type V = Instant;

    closed spec fn view(&self) -> Instant {
        instant(self.secs, self.nanos)
    }
}

impl Timestamp {
    #[verifier::type_invariant]
    spec fn on_time_line(self) -> bool {
        self@.valid()
    }

    /// The point in time at `secs` seconds and `nanos` nanoseconds after the Unix epoch, or `None`
    /// where the time line does not reach that far or `nanos` is out of range.
    pub fn from_timestamp(secs: i64, nanos: u32) -> (made: Option<Timestamp>)
        ensures
            made is Some <==> instant(secs, nanos).valid(),
            made matches Some(t) ==> t@ == instant(secs, nanos),
    {
        match chrono_from_timestamp(secs, nanos) {
            Some((secs, nanos)) => Some(Timestamp { secs, nanos }),
            None => None,
        }
    }

    /// Whole seconds since the Unix epoch.
    pub fn timestamp(&self) -> (secs: i64)
        ensures
            secs == self@.secs,
    {
        self.secs
    }

    /// Nanoseconds within the second.
    pub fn subsec_nanos(&self) -> (nanos: u32)
        ensures
            nanos == self@.nanos,
    {
        self.nanos
    }

    /// Whether this point is strictly earlier than `other`.
    pub fn is_before(&self, other: &Timestamp) -> (earlier: bool)
        ensures
            earlier == self@.before(other@),
    {
        self.secs < other.secs || (self.secs == other.secs && self.nanos < other.nanos)
    }

    /// The point `seconds` later, or `None` where that lies off the time line.
    pub fn checked_add_seconds(&self, seconds: i64) -> (sum: Option<Timestamp>)
        ensures
            sum is Some <==> self@.can_move(seconds as int),
            sum matches Some(t) ==> t@ == self@.moved(seconds as int),
    {
        proof {
            use_type_invariant(self);
        }
        match chrono_add_seconds(self.secs, self.nanos, seconds) {
            Some((secs, nanos)) => {
                assert(instant(secs, nanos).valid());
                Some(Timestamp { secs, nanos })
            },
            None => None,
        }
    }

    /// The point `seconds` later.
    pub fn add_seconds(&self, seconds: i64) -> (sum: Timestamp)
        requires
            self@.can_move(seconds as int),
        ensures
            sum@ == self@.moved(seconds as int),
    {
        match self.checked_add_seconds(seconds) {
            Some(t) => t,
            None => *self,
        }
    }

    /// Whether less than `seconds` have passed from `earlier` to this point.
    pub fn is_within(&self, earlier: &Timestamp, seconds: i64) -> (within: bool)
        ensures
            within == (self@.since(earlier@) < seconds * 1_000_000_000),
    {
        proof {
            use_type_invariant(self);
            use_type_invariant(earlier);
        }
        match chrono_since(self.secs, self.nanos, (earlier.secs, earlier.nanos)) {
            Some((secs, nanos)) => secs as i128 * SECOND + (nanos as i128) < seconds as i128
                * SECOND,
            None => false,
        }
    }
}

/// Every point in time is at distance zero from itself.
pub proof fn no_time_passes_at_once(t: Instant)
    ensures
        t.since(t) == 0,
{
}

/// Outside leap seconds, time that has passed is the plain difference of the two points, so that
/// of two points the earlier one is the one from which time has passed to the other.
pub proof fn time_passes_forwards(earlier: Instant, later: Instant)
    requires
        earlier.valid(),
        later.valid(),
        !earlier.in_leap_second(),
        !later.in_leap_second(),
    ensures
        earlier.before(later) <==> later.since(earlier) > 0,
{
}

/// Outside leap seconds, of two points that are moved by the same time the later one stays the
/// later one.
pub proof fn moving_keeps_the_order(earlier: Instant, later: Instant, seconds: int)
    requires
        !later.before(earlier),
        !earlier.in_leap_second(),
        !later.in_leap_second(),
    ensures
        !later.moved(seconds).before(earlier.moved(seconds)),
{
}

} // verus!
