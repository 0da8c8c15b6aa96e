//! Points in time, as `chrono` counts them: seconds since the start of 1970 in UTC, and
//! nanoseconds.
use vstd::prelude::*;

verus! {

/// The first second of the year -262143, the first year that `chrono` has dates for.
pub const MIN_SECONDS: i64 = -8_334_601_228_800;

/// The last second of the year 262142, the last year that `chrono` has dates for.
pub const MAX_SECONDS: i64 = 8_210_266_876_799;

/// The model of a [`Timestamp`].
pub struct TimestampView {
    pub seconds: int,
    /// Nanoseconds since the second began; a leap second, which goes on to two billion of
    /// them, can only be the last of a minute.
    pub nanos: nat,
}

impl TimestampView {
    /// Whether `chrono` can hold the point in time.
    pub open spec fn in_range(self) -> bool {
        &&& MIN_SECONDS <= self.seconds <= MAX_SECONDS
        &&& self.nanos < 2_000_000_000
        &&& self.nanos >= 1_000_000_000 ==> self.seconds % 60 == 59
    }

    /// The milliseconds since the start of 1970, what is left of a millisecond dropped.
    pub open spec fn millis(self) -> int {
        self.seconds * 1000 + self.nanos as int / 1_000_000
    }

    /// Whether one point comes after another.
    pub open spec fn after(self, other: TimestampView) -> bool {
        self.seconds > other.seconds || (self.seconds == other.seconds && self.nanos > other.nanos)
    }

    /// Whether milliseconds are all there is to it.
    pub open spec fn is_whole_millis(self) -> bool {
        self.nanos < 1_000_000_000 && self.nanos % 1_000_000 == 0
    }
}

/// The point in time that lies the given number of milliseconds after the start of 1970,
/// `None` where `chrono` has no date for it.
pub open spec fn from_millis(millis: int) -> Option<TimestampView> {
    if MIN_SECONDS <= millis / 1000 <= MAX_SECONDS {
        Some(
            TimestampView { seconds: millis / 1000, nanos: (millis % 1000 * 1_000_000) as nat },
        )
    } else {
        None
    }
}

/// A point in time.
#[derive(Clone, Copy, Debug, PartialEq, Eq, Structural)]
pub struct Timestamp {
    seconds: i64,
    nanos: u32,
}

impl View for Timestamp {
    type V = TimestampView;

    closed spec fn view(&self) -> TimestampView {
        TimestampView { seconds: self.seconds as int, nanos: self.nanos as nat }
    }
}

/// `chrono::DateTime::from_timestamp_millis`, the result given as the seconds and the
/// nanoseconds of the `DateTime`: the milliseconds split at whole seconds, rounded down,
/// unless the second lies outside the years that `chrono` has dates for.
#[verifier::external_body]
fn datetime_from_millis(millis: i64) -> (res: Option<(i64, u32)>)
    ensures
        match res {
            Some((seconds, nanos)) => from_millis(millis as int) == Some(
                TimestampView { seconds: seconds as int, nanos: nanos as nat },
            ),
            None => from_millis(millis as int) is None,
        },
{
    chrono::DateTime::<chrono::Utc>::from_timestamp_millis(millis).map(
        |datetime| (datetime.timestamp(), datetime.timestamp_subsec_nanos()),
    )
}

fn ends_a_minute(seconds: i64) -> (ends: bool)
    requires
        MIN_SECONDS <= seconds <= MAX_SECONDS,
    ensures
        ends == (seconds as int % 60 == 59),
{
    // A whole number of minutes that makes every second in range positive.
    let shifted: i64 = seconds + 12_000_000_000_000;
    (shifted as u64) % 60 == 59
}

impl Timestamp {
    #[verifier::type_invariant]
    spec fn valid(self) -> bool {
        self@.in_range()
    }

    /// The point in time with the given seconds and nanoseconds.
    pub fn from_parts(seconds: i64, nanos: u32) -> (res: Option<Timestamp>)
        ensures
            ({
                let parts = TimestampView { seconds: seconds as int, nanos: nanos as nat };
                match res {
                    Some(timestamp) => parts.in_range() && timestamp@ == parts,
                    None => !parts.in_range(),
                }
            }),
    {
        if !(MIN_SECONDS <= seconds && seconds <= MAX_SECONDS && nanos < 2_000_000_000) {
            return None;
        }
        if nanos >= 1_000_000_000 && !ends_a_minute(seconds) {
            return None;
        }
        Some(Timestamp { seconds, nanos })
    }

    pub fn from_timestamp_millis(millis: i64) -> (res: Option<Timestamp>)
        ensures
            match res {
                Some(timestamp) => from_millis(millis as int) == Some(timestamp@),
                None => from_millis(millis as int) is None,
            },
    {
        match datetime_from_millis(millis) {
            Some((seconds, nanos)) => Some(Timestamp { seconds, nanos }),
            None => None,
        }
    }

    pub fn timestamp_millis(&self) -> (millis: i64)
        ensures
            millis == self@.millis(),
            self@.in_range(),
    {
        proof {
            use_type_invariant(self);
        }
        self.seconds * 1000 + (self.nanos / 1_000_000) as i64
    }

    pub fn seconds(&self) -> (seconds: i64)
        ensures
            seconds == self@.seconds,
    {
        self.seconds
    }

    pub fn nanos(&self) -> (nanos: u32)
        ensures
            nanos == self@.nanos,
    {
        self.nanos
    }

    /// Whether this point in time comes after another.
    pub fn is_after(&self, other: &Timestamp) -> (after: bool)
        ensures
            after == self@.after(other@),
    {
        self.seconds > other.seconds || (self.seconds == other.seconds && self.nanos > other.nanos)
    }
}

/// A point in time that has whole milliseconds only survives being written in
/// milliseconds and read back.
pub proof fn millis_read_back(timestamp: TimestampView)
    requires
        timestamp.in_range(),
        timestamp.is_whole_millis(),
    ensures
        from_millis(timestamp.millis()) == Some(timestamp),
{
    let part = timestamp.nanos as int / 1_000_000;
    assert(0 <= part < 1000);
    assert((timestamp.seconds * 1000 + part) / 1000 == timestamp.seconds);
    assert((timestamp.seconds * 1000 + part) % 1000 == part);
    assert(part * 1_000_000 == timestamp.nanos);
}

/// What is read from milliseconds is written as the same milliseconds.
pub proof fn millis_write_back(millis: int)
    ensures
        from_millis(millis) matches Some(timestamp) ==> timestamp.millis() == millis
            && timestamp.is_whole_millis() && timestamp.in_range(),
{
    let part = millis % 1000;
    assert(part * 1_000_000 / 1_000_000 == part);
}

/// Of two points in time one comes after the other, unless they are the same; and what comes
/// after a later point comes after the earlier one.
pub proof fn points_in_time_are_ordered(a: TimestampView, b: TimestampView, c: TimestampView)
    ensures
        a == b <==> !a.after(b) && !b.after(a),
        !(a.after(b) && b.after(a)),
        a.after(b) && b.after(c) ==> a.after(c),
{
}

/// Later seconds come after, and within a second later nanoseconds; so, but for leap seconds,
/// more milliseconds come after.
pub proof fn later_milliseconds_come_after(a: TimestampView, b: TimestampView)
    ensures
        a.seconds > b.seconds ==> a.after(b),
        a.seconds == b.seconds && a.nanos > b.nanos ==> a.after(b),
        a.nanos < 1_000_000_000 && b.nanos < 1_000_000_000 && a.millis() > b.millis() ==> a.after(
            b,
        ),
{
}

/// The milliseconds of a point in time are those that have passed since the start of 1970.
pub proof fn milliseconds_have_passed(timestamp: TimestampView)
    ensures
        timestamp.millis() * 1_000_000 <= timestamp.seconds * 1_000_000_000 + timestamp.nanos,
        timestamp.seconds * 1_000_000_000 + timestamp.nanos < (timestamp.millis() + 1) * 1_000_000,
{
}

/// Milliseconds are a point in time exactly where it lies in the years that there are dates
/// for.
pub proof fn milliseconds_are_dates(millis: int)
    ensures
        from_millis(millis) is Some <==> MIN_SECONDS * 1000 <= millis < (MAX_SECONDS + 1) * 1000,
{
}

/// Two points in time without leap seconds that are read from milliseconds come after each
/// other as the milliseconds do.
pub proof fn reading_keeps_the_order(first: int, second: int)
    ensures
        from_millis(first) matches Some(a) ==> from_millis(second) matches Some(b) ==> (a.after(b)
            <==> first > second),
{
    millis_write_back(first);
    millis_write_back(second);
}

} // verus!
