//! Dates and times as they are written and shown.
use vstd::prelude::*;

verus! {

/// Whether a text is a date and time as RFC 3339 has it.
pub uninterp spec fn is_rfc3339(text: Seq<char>) -> bool;

/// `DateTime::parse_from_rfc3339` of the `chrono` crate: whether it reads the
/// text. What RFC 3339 admits is that function's to say.
#[verifier::external_body]
pub(crate) fn reads_rfc3339(text: &str) -> (r: bool)
    ensures
        r == is_rfc3339(text@),
{
    chrono::DateTime::parse_from_rfc3339(text).is_ok()
}

/// The formats that times are shown in.
pub open spec fn is_time_format(format: Seq<char>) -> bool {
    format == "%H:%M:%S%.3f"@ || format == "%Y-%m-%d %H:%M"@
}

/// A time of day, to the millisecond.
pub open spec fn is_clock_text(s: Seq<char>) -> bool {
    &&& s.len() == 12
    &&& s[2] == ':'
    &&& s[5] == ':'
    &&& s[8] == '.'
    &&& forall|i: int|
        0 <= i < 12 && i != 2 && i != 5 && i != 8 ==> '0' <= #[trigger] s[i] <= '9'
}

/// A digit in the place `i`.
pub open spec fn digit_at(s: Seq<char>, i: int) -> bool {
    '0' <= s[i] <= '9'
}

/// A date and the time of day, to the minute, behind a year of at least four
/// characters.
pub open spec fn is_date_text(s: Seq<char>) -> bool {
    let n = s.len() as int;
    &&& n >= 16
    &&& s[n - 12] == '-' && digit_at(s, n - 11) && digit_at(s, n - 10)
    &&& s[n - 9] == '-' && digit_at(s, n - 8) && digit_at(s, n - 7)
    &&& s[n - 6] == ' ' && digit_at(s, n - 5) && digit_at(s, n - 4)
    &&& s[n - 3] == ':' && digit_at(s, n - 2) && digit_at(s, n - 1)
}

/// How a date and time is written in a format, in a time zone that is so many
/// seconds ahead of universal time at that moment.
pub uninterp spec fn shown_at(text: Seq<char>, format: Seq<char>, offset: i32) -> Seq<char>;

/// `time` is the date and time `text`, written in the format for some time zone.
pub open spec fn is_local_time(text: Seq<char>, format: Seq<char>, time: Seq<char>) -> bool {
    &&& exists|offset: i32|
        -86_400 < offset < 86_400 && time == #[trigger] shown_at(text, format, offset)
    &&& format == "%H:%M:%S%.3f"@ ==> is_clock_text(time)
    &&& format == "%Y-%m-%d %H:%M"@ ==> is_date_text(time)
}

/// `DateTime::with_timezone` and `DateTime::format` of the `chrono` crate, on
/// what `parse_from_rfc3339` read: the time in the time zone of this machine,
/// wherever the text is a date and time. What is written depends on the text, the
/// format and the offset of that zone, which is less than a day; days, months,
/// hours, minutes and seconds have two digits, milliseconds three, and a year at
/// least four characters. Which offset it is depends on the machine and is not
/// said.
#[verifier::external_body]
pub(crate) fn local_time(text: &str, format: &str) -> (r: Option<String>)
    requires
        is_time_format(format@),
    ensures
        r is Some <==> is_rfc3339(text@),
        r is Some ==> exists|offset: i32|
            -86_400 < offset < 86_400 && r->0@ == #[trigger] shown_at(text@, format@, offset),
        r is Some && format@ == "%H:%M:%S%.3f"@ ==> is_clock_text(r->0@),
        r is Some && format@ == "%Y-%m-%d %H:%M"@ ==> is_date_text(r->0@),
{
    let time = chrono::DateTime::parse_from_rfc3339(text).ok()?;
    Some(time.with_timezone(&chrono::Local).format(format).to_string())
}

/// A date and the time of day, to the second, in figures alone.
pub open spec fn is_stamp(s: Seq<char>) -> bool {
    let n = s.len() as int;
    &&& n >= 15
    &&& s[n - 7] == '-'
    &&& forall|i: int| n - 11 <= i < n && i != n - 7 ==> #[trigger] digit_at(s, i)
}

/// `Local::now` of the `chrono` crate, formatted: the date and time of this
/// moment on this machine, two digits each for month, day, hour, minute and
/// second behind a year of at least four characters. Which moment that is is not
/// said.
#[verifier::external_body]
pub(crate) fn stamp_of_now() -> (r: String)
    ensures
        is_stamp(r@),
{
    chrono::Local::now().format("%Y%m%d-%H%M%S").to_string()
}

} // verus!
