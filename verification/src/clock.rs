//! Dates and times: the stamp of a backup and the time of a file.

use crate::text;
use vstd::prelude::*;

verus! {

/// The last two decimal digits of a number.
pub open spec fn two_digits(n: nat) -> Seq<char> {
    seq![text::digit_char((n / 10) % 10), text::digit_char(n % 10)]
}

/// A year as dates show it: four digits, or a sign and at least four digits
/// outside of the years 0 to 9999.
pub open spec fn year_text(year: int) -> Seq<char> {
    let n = if year < 0 {
        (-year) as nat
    } else {
        year as nat
    };
    let digits = if n <= 9999 {
        two_digits(n / 100) + two_digits(n % 100)
    } else {
        text::decimal(n)
    };
    if year < 0 {
        seq!['-'] + digits
    } else if year > 9999 {
        seq!['+'] + digits
    } else {
        digits
    }
}

/// A date and a time of day.
pub struct Moment {
    pub year: int,
    pub month: nat,
    pub day: nat,
    pub hour: nat,
    pub minute: nat,
    pub second: nat,
}

/// Are the parts of the moment those of a calendar and a clock?
pub open spec fn is_moment(m: Moment) -> bool {
    1 <= m.month <= 12 && 1 <= m.day <= 31 && m.hour <= 23 && m.minute <= 59 && m.second <= 60
}

/// The stamp of a moment, such as `2026-09-07 08-00-00`.
pub open spec fn stamp_text(m: Moment) -> Seq<char> {
    year_text(m.year) + seq!['-'] + two_digits(m.month) + seq!['-'] + two_digits(m.day) + seq![' ']
        + two_digits(m.hour) + seq!['-'] + two_digits(m.minute) + seq!['-'] + two_digits(m.second)
}

/// Is the text the stamp of some moment?
pub open spec fn is_stamp_text(s: Seq<char>) -> bool {
    exists|m: Moment| is_moment(m) && s == #[trigger] stamp_text(m)
}

/// Stamp of the present moment.
///
/// Calls `chrono::Local::now` and formats it as `%Y-%m-%d %H-%M-%S`. Which
/// moment it is depends on the clock and the time zone; the text is always the
/// stamp of one.
#[verifier::external_body]
pub(crate) fn present_stamp() -> (r: String)
    ensures
        is_stamp_text(r@),
{
    chrono::Local::now().format("%Y-%m-%d %H-%M-%S").to_string()
}

/// Stamp of the present moment, for the name of a backup.
pub fn timestamp() -> (r: String)
    ensures
        is_stamp_text(r@),
{
    present_stamp()
}

/// First second of the times that Windows gives files, counted from 1970.
pub const FILE_TIME_MIN: i64 = -11644473600;

/// Last second of the times that Windows gives files, counted from 1970.
pub const FILE_TIME_MAX: i64 = 910692730085;

/// Is it a time that a file can have: seconds from 1970 and nanoseconds?
pub open spec fn is_file_time(time: (i64, u32)) -> bool {
    FILE_TIME_MIN <= time.0 <= FILE_TIME_MAX && time.1 < 1000000000
}

/// The RFC 3339 text of a time, `offset` seconds east of UTC.
pub uninterp spec fn rfc3339(seconds: int, nanoseconds: int, offset: int) -> Seq<char>;

/// Is the text the RFC 3339 text of a time at some offset from UTC?
pub open spec fn is_local_text(time: (i64, u32), s: Seq<char>) -> bool {
    exists|offset: int|
        -86400 < offset < 86400 && s == #[trigger] rfc3339(time.0 as int, time.1 as int, offset)
}

/// RFC 3339 text of a file's time in the time zone of the machine, with the
/// offset of that zone from UTC in seconds.
///
/// Calls `chrono::DateTime::from_timestamp`, converts to `chrono::Local` and
/// calls `to_rfc3339`. The offset depends on the machine and is less than a
/// day; how the text is made of time and offset is only named.
#[verifier::external_body]
pub(crate) fn local_text(seconds: i64, nanoseconds: u32) -> (r: (String, i32))
    requires
        is_file_time((seconds, nanoseconds)),
    ensures
        r.0@ == rfc3339(seconds as int, nanoseconds as int, r.1 as int),
        -86400 < r.1 < 86400,
{
    let utc = chrono::DateTime::from_timestamp(seconds, nanoseconds).unwrap_or_default();
    let local = utc.with_timezone(&chrono::Local);
    (local.to_rfc3339(), local.offset().local_minus_utc())
}

} // verus!
