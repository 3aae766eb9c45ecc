//! The time of day.

use crate::text;
use vstd::prelude::*;
use vstd::string::*;

verus! {

/// Date and time, for the model to read.
pub const REMINDER_TIME: &'static str = "%Y-%m-%d %H:%M:%S";

/// The day, for the model to read.
pub const TODAY: &'static str = "%a %b %d %Y";

/// Date and time down to the microsecond, for identifiers.
pub const STAMP: &'static str = "%Y%m%d%H%M%S%6f";

/// The same with the day set off.
pub const DATED_STAMP: &'static str = "%Y%m%d-%H%M%S%6f";

/// A decimal digit.
pub open spec fn is_digit(c: char) -> bool {
    '0' <= c && c <= '9'
}

/// What a stamp looks like whatever the time is: digits, four or more for the
/// year and sixteen for the rest, where a year out of the ordinary has a sign.
pub open spec fn is_stamp(s: Seq<char>) -> bool {
    &&& s.len() >= 20
    &&& is_digit(s[0]) || s[0] == '+' || s[0] == '-'
    &&& forall|i: int| 1 <= i < s.len() ==> is_digit(#[trigger] s[i])
}

/// Calls `chrono::Local::now` and formats what it returns. The text depends
/// on the time and on the time zone of the machine; of a stamp it is claimed
/// what it looks like, of the other texts nothing.
#[verifier::external_body]
pub(crate) fn local_time(format: &str) -> (s: String)
    requires
        format@ == REMINDER_TIME@ || format@ == TODAY@ || format@ == STAMP@,
    ensures
        format@ == STAMP@ ==> is_stamp(s@),
{
    chrono::Local::now().format(format).to_string()
}

/// A point in time: seconds since the start of 1970 in UTC, and the fraction of
/// the second.
#[derive(Debug, Clone, Copy, PartialEq, Eq, Structural)]
pub struct Timestamp {
    pub secs: i64,
    pub nanos: u32,
}

/// Calls `chrono::Utc::now`. Nothing is claimed of the time.
#[verifier::external_body]
pub(crate) fn utc_now() -> (t: Timestamp) {
    let now = chrono::Utc::now();
    Timestamp { secs: now.timestamp(), nanos: now.timestamp_subsec_nanos() }
}

/// How `chrono` writes a point in time in UTC in a format; `None` where it is
/// out of the range of `chrono::DateTime`.
pub uninterp spec fn utc_text(secs: i64, nanos: u32, format: Seq<char>) -> Option<Seq<char>>;

/// How `chrono` writes a point in time after RFC 3339; `None` where it is out of
/// the range of `chrono::DateTime`.
pub uninterp spec fn utc_rfc3339(secs: i64, nanos: u32) -> Option<Seq<char>>;

/// Calls `chrono::DateTime::from_timestamp` and formats the date that it
/// returns, if any. The text is a function of the point in time and the format.
#[verifier::external_body]
pub(crate) fn utc_text_of(t: Timestamp, format: &str) -> (r: Option<String>)
    requires
        format@ == DATED_STAMP@,
    ensures
        text::opt_view(r) == utc_text(t.secs, t.nanos, format@),
{
    match chrono::DateTime::<chrono::Utc>::from_timestamp(t.secs, t.nanos) {
        Some(date) => Some(date.format(format).to_string()),
        None => None,
    }
}

/// Calls `chrono::DateTime::from_timestamp`, and `to_rfc3339` on the date that
/// it returns, if any. The text is a function of the point in time.
#[verifier::external_body]
pub(crate) fn rfc3339_of(t: Timestamp) -> (r: Option<String>)
    ensures
        text::opt_view(r) == utc_rfc3339(t.secs, t.nanos),
{
    match chrono::DateTime::<chrono::Utc>::from_timestamp(t.secs, t.nanos) {
        Some(date) => Some(date.to_rfc3339()),
        None => None,
    }
}

/// A text that may be missing.
pub open spec fn or_empty(s: Option<Seq<char>>) -> Seq<char> {
    match s {
        Some(t) => t,
        None => Seq::empty(),
    }
}

/// A text that may be missing.
fn text_or_empty(s: Option<String>) -> (r: String)
    ensures
        r@ == or_empty(text::opt_view(s)),
{
    match s {
        Some(t) => t,
        None => String::new(),
    }
}

/// A point in time as it stands in the identifier of a session.
pub fn stamp_of(t: Timestamp) -> (s: String)
    ensures
        s@ == or_empty(utc_text(t.secs, t.nanos, DATED_STAMP@)),
{
    text_or_empty(utc_text_of(t, DATED_STAMP))
}

/// A point in time as clients are told it.
pub fn told_time(t: Timestamp) -> (s: String)
    ensures
        s@ == or_empty(utc_rfc3339(t.secs, t.nanos)),
{
    text_or_empty(rfc3339_of(t))
}

/// Two digits.
pub open spec fn two_digits(n: int) -> Seq<char> {
    seq![text::digit((n / 10) as nat), text::digit((n % 10) as nat)]
}

/// The time of day in UTC: hours, minutes and seconds.
pub open spec fn time_of_day(secs: int) -> Seq<char> {
    let s = secs % 86400;
    two_digits(s / 3600) + ":"@ + two_digits(s % 3600 / 60) + ":"@ + two_digits(s % 60)
}

fn push_two_digits(s: &mut String, n: u64)
    requires
        n < 100,
    ensures
        final(s)@ == old(s)@ + two_digits(n as int),
{
    let a: u8 = (n / 10) as u8;
    let b: u8 = (n % 10) as u8;
    s.push((48u8 + a) as char);
    s.push((48u8 + b) as char);
    assert(s@ =~= old(s)@ + two_digits(n as int));
}

/// The time of day in UTC.
pub fn time_of(t: Timestamp) -> (s: String)
    ensures
        s@ == time_of_day(t.secs as int),
{
    let r: u64 = if t.secs >= 0 {
        t.secs as u64 % 86400
    } else {
        86399 - (-(t.secs + 1)) as u64 % 86400
    };
    assert(r == t.secs as int % 86400);
    let mut s = String::new();
    push_two_digits(&mut s, r / 3600);
    s.append(":");
    push_two_digits(&mut s, r % 3600 / 60);
    s.append(":");
    push_two_digits(&mut s, r % 60);
    assert(s@ =~= time_of_day(t.secs as int));
    s
}

/// The time of day goes by hours, minutes and seconds, on whatever day.
pub proof fn law_times_of_day_come_again(day: int, hours: int, minutes: int, seconds: int)
    requires
        0 <= hours < 24,
        0 <= minutes < 60,
        0 <= seconds < 60,
    ensures
        time_of_day(86400 * day + 3600 * hours + 60 * minutes + seconds) == two_digits(hours)
            + ":"@ + two_digits(minutes) + ":"@ + two_digits(seconds),
{
    let rest = 3600 * hours + 60 * minutes + seconds;
    let secs = 86400 * day + rest;
    assert(0 <= rest < 86400);
    assert(secs % 86400 == rest) by (nonlinear_arith)
        requires
            secs == 86400 * day + rest,
            0 <= rest < 86400,
    ;
    assert(rest / 3600 == hours);
    assert(rest % 3600 / 60 == minutes);
    assert(rest % 60 == seconds);
}

} // verus!
