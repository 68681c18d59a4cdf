//! Points in time as events are stamped with them.

use crate::text::opt_text;
use std::fmt::Write;
use vstd::prelude::*;

verus! {

/// A point in time, and the offset from UTC of the place where it was taken.
#[derive(Clone, Copy, Debug, PartialEq, Eq, Structural)]
pub struct Timestamp {
    /// Seconds since the start of 1970, UTC.
    pub secs: i64,
    /// Nanoseconds within the second; from 1_000_000_000 on within a leap second after it.
    pub nanos: u32,
    /// Seconds by which local time was ahead of UTC.
    pub offset: i32,
}

impl Timestamp {
    /// Whether this point in time lies before the other, wherever they were taken.
    pub open spec fn precedes(self, other: Timestamp) -> bool {
        self.secs < other.secs || (self.secs == other.secs && self.nanos < other.nanos)
    }

    /// Whole milliseconds since the start of 1970, UTC.
    pub open spec fn millis(self) -> int {
        self.secs * 1000 + (self.nanos / 1_000_000) as int
    }

    /// Whether this point in time lies before the other.
    pub fn is_before(&self, other: &Timestamp) -> (r: bool)
        ensures
            r == self.precedes(*other),
    {
        self.secs < other.secs || (self.secs == other.secs && self.nanos < other.nanos)
    }

    /// Whole milliseconds since the start of 1970, UTC.
    pub fn timestamp_millis(&self) -> (r: i128)
        ensures
            r == self.millis(),
    {
        self.secs as i128 * 1000 + (self.nanos / 1_000_000) as i128
    }
}

/// Whether a clock can show a point in time: its nanoseconds are those of a second or of a leap
/// second after it, and its offset is less than a day.
pub open spec fn is_clock_reading(ts: Timestamp) -> bool {
    ts.nanos < 2_000_000_000 && -86_400 < ts.offset < 86_400
}

/// What `chrono` writes for the point in time `secs` and `nanos` at the given offset under a
/// strftime format, or `None` if it has no such point in time or cannot write the format.
pub uninterp spec fn strftime(secs: i64, nanos: u32, offset: i32, fmt: Seq<char>) -> Option<
    Seq<char>,
>;

/// `chrono::DateTime::format`, written to a string. The text depends on nothing but the point
/// in time, the offset and the format; what it is, is left to `chrono`. `None` comes where
/// `FixedOffset::east_opt` or `DateTime::from_timestamp` has no value for the timestamp, or
/// where the format is not a valid strftime format.
#[verifier::external_body]
pub(crate) fn format_timestamp(ts: Timestamp, fmt: &str) -> (r: Option<String>)
    ensures
        opt_text(r) == strftime(ts.secs, ts.nanos, ts.offset, fmt@),
{
    let offset = chrono::FixedOffset::east_opt(ts.offset)?;
    let when = chrono::DateTime::from_timestamp(ts.secs, ts.nanos)?.with_timezone(&offset);
    let mut text = String::new();
    match write!(text, "{}", when.format(fmt)) {
        Ok(()) => Some(text),
        Err(_) => None,
    }
}

/// `chrono::Local::now`, the clock of the machine. Of its reading only the ranges of the
/// nanoseconds and of the offset are known. On a clock that stands before 1970 it panics.
#[verifier::external_body]
pub(crate) fn local_now() -> (r: Timestamp)
    ensures
        is_clock_reading(r),
{
    let now = chrono::Local::now();
    Timestamp {
        secs: now.timestamp(),
        nanos: now.timestamp_subsec_nanos(),
        offset: now.offset().local_minus_utc(),
    }
}

/// Points in time are ordered by how many nanoseconds have passed, whatever the offsets are, and
/// milliseconds are counted in full.
pub proof fn law_time_counts_nanoseconds(a: Timestamp, b: Timestamp)
    requires
        a.nanos < 1_000_000_000,
        b.nanos < 1_000_000_000,
    ensures
        a.precedes(b) <==> a.secs * 1_000_000_000 + a.nanos < b.secs * 1_000_000_000 + b.nanos,
        a.millis() * 1_000_000 <= a.secs * 1_000_000_000 + a.nanos < (a.millis() + 1) * 1_000_000,
        forall|r: bool| #[trigger]
            call_ensures(Timestamp::is_before, (&a, &b), r) ==> r == a.precedes(b),
        forall|r: i128| #[trigger]
            call_ensures(Timestamp::timestamp_millis, (&a,), r) ==> r == a.millis(),
{
}

/// Of two points in time either one lies before the other, or they are the same up to the offset;
/// a leap second lies after all of the second that it follows, and before the next one.
pub proof fn law_time_is_ordered(a: Timestamp, b: Timestamp, c: Timestamp)
    ensures
        !a.precedes(a),
        !(a.precedes(b) && b.precedes(a)),
        a.precedes(b) && b.precedes(c) ==> a.precedes(c),
        !a.precedes(b) && !b.precedes(a) ==> a.secs == b.secs && a.nanos == b.nanos,
        a.secs < b.secs ==> a.precedes(b),
        a.secs == b.secs && a.nanos < b.nanos ==> a.precedes(b),
{
}

} // verus!
