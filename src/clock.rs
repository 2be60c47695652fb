//! Time strings of the form `HH:MM:SS` and the number of seconds they stand for.

use chrono::Timelike;
use vstd::prelude::*;

verus! {

/// Whether `c` is an ASCII decimal digit.
pub open spec fn is_digit(c: char) -> bool {
    '0' <= c && c <= '9'
}

/// The value of the two decimal digits of `s` at `at` and `at + 1`.
pub open spec fn two_digit_field(s: Seq<char>, at: int) -> int {
    10 * (s[at] as int - '0' as int) + (s[at + 1] as int - '0' as int)
}

/// `s` is exactly `DD:DD:DD`, each `D` a decimal digit.
pub open spec fn clock_shape(s: Seq<char>) -> bool {
    &&& s.len() == 8
    &&& is_digit(s[0]) && is_digit(s[1])
    &&& s[2] == ':'
    &&& is_digit(s[3]) && is_digit(s[4])
    &&& s[5] == ':'
    &&& is_digit(s[6]) && is_digit(s[7])
}

pub open spec fn hours_field(s: Seq<char>) -> int {
    two_digit_field(s, 0)
}

pub open spec fn minutes_field(s: Seq<char>) -> int {
    two_digit_field(s, 3)
}

pub open spec fn seconds_field(s: Seq<char>) -> int {
    two_digit_field(s, 6)
}

/// The number of seconds that the time string `s` stands for: defined exactly
/// when `s` is `HH:MM:SS` with each field within its natural range.
pub open spec fn clock_seconds(s: Seq<char>) -> Option<int> {
    if clock_shape(s) && hours_field(s) < 24 && minutes_field(s) < 60 && seconds_field(s) < 60 {
        Some(hours_field(s) * 3600 + minutes_field(s) * 60 + seconds_field(s))
    } else {
        None
    }
}

/// A time of day as chrono reads it: whole seconds since midnight and the
/// nanoseconds past them (one second or more during a leap second).
pub struct ClockReading {
    pub seconds: u32,
    pub nanosecond: u32,
}

/// The fields of `s`, of shape `DD:DD:DD`, are within what chrono accepts: a
/// second of 60 is a leap second.
pub open spec fn clock_in_range(s: Seq<char>) -> bool {
    hours_field(s) < 24 && minutes_field(s) < 60 && seconds_field(s) <= 60
}

/// `c` is what chrono reads from `s`, of shape `DD:DD:DD` with fields in range.
pub open spec fn reading_matches(s: Seq<char>, c: ClockReading) -> bool {
    if seconds_field(s) < 60 {
        c.seconds == hours_field(s) * 3600 + minutes_field(s) * 60 + seconds_field(s)
            && c.nanosecond < 1_000_000_000
    } else {
        c.nanosecond >= 1_000_000_000
    }
}

/// What chrono makes of `s` under the pattern `%H:%M:%S`: the time it reads,
/// or its diagnostic.
pub uninterp spec fn clock_parse(s: Seq<char>) -> Result<ClockReading, Seq<char>>;

/// What `{:?}` prints for a string: the text in double quotes, escaped.
pub uninterp spec fn debug_quoted(s: Seq<char>) -> Seq<char>;

/// Relies on `<str as Debug>::fmt`: the quoted, escaped form of a string, which
/// depends on its characters alone.
#[verifier::external_body]
pub(crate) fn quoted(s: &str) -> (r: String)
    ensures
        r@ == debug_quoted(s@),
{
    format!("{s:?}")
}

/// The diagnostic for a time string that could not be read.
pub open spec fn time_failure_text(s: Seq<char>, cause: Seq<char>) -> Seq<char> {
    "Failed to parse time-formatted string: time_string -> "@ + debug_quoted(s) + ", e -> "@
        + cause
}

/// Why the time string `s` cannot be read: chrono's diagnostic where chrono
/// refuses it; otherwise the shape, or a leap second.
pub open spec fn time_failure_cause(s: Seq<char>) -> Seq<char> {
    match clock_parse(s) {
        Err(e) => e,
        Ok(_) => if !clock_shape(s) {
            "not of the form HH:MM:SS"@
        } else {
            "second out of range"@
        },
    }
}

/// The diagnostic for the time string `s`, where it cannot be read.
pub open spec fn time_failure_message(s: Seq<char>) -> Seq<char> {
    time_failure_text(s, time_failure_cause(s))
}

/// Relies on chrono's `NaiveTime::parse_from_str(s, "%H:%M:%S")`, read back through
/// `Timelike::num_seconds_from_midnight` and `Timelike::nanosecond`. On a string of
/// three two-digit fields, chrono accepts hours up to 23, minutes up to 59 and
/// seconds up to 60; it takes second 60 as a leap second, stored as second 59
/// with a nanosecond count of one second or more. Its outcome depends on the
/// string alone; its error is given in `Debug` form.
#[verifier::external_body]
fn read_clock(s: &str) -> (r: Result<ClockReading, String>)
    ensures
        r is Ok <==> clock_parse(s@) is Ok,
        r matches Ok(c) ==> c == clock_parse(s@)->Ok_0,
        r matches Err(e) ==> e@ == clock_parse(s@)->Err_0,
        clock_shape(s@) ==> (r is Ok <==> clock_in_range(s@)),
        clock_shape(s@) && r is Ok ==> reading_matches(s@, r->Ok_0),
{
    match chrono::NaiveTime::parse_from_str(s, "%H:%M:%S") {
        Ok(t) => Ok(ClockReading { seconds: t.num_seconds_from_midnight(), nanosecond: t.nanosecond() }),
        Err(e) => Err(format!("{e:?}")),
    }
}

pub(crate) fn is_digit_char(c: char) -> (r: bool)
    ensures
        r == is_digit(c),
{
    '0' <= c && c <= '9'
}

/// Whether `s` has the shape `DD:DD:DD`.
fn has_clock_shape(s: &str) -> (r: bool)
    ensures
        r == clock_shape(s@),
{
    let n = s.unicode_len();
    if n != 8 {
        return false;
    }
    is_digit_char(s.get_char(0)) && is_digit_char(s.get_char(1)) && s.get_char(2) == ':'
        && is_digit_char(s.get_char(3)) && is_digit_char(s.get_char(4)) && s.get_char(5) == ':'
        && is_digit_char(s.get_char(6)) && is_digit_char(s.get_char(7))
}

fn time_failure(s: &str, cause: &str) -> (r: String)
    ensures
        r@ == time_failure_text(s@, cause@),
{
    let text = String::from_str("Failed to parse time-formatted string: time_string -> ");
    let text = text.concat(quoted(s).as_str());
    let text = text.concat(", e -> ");
    text.concat(cause)
}

/// Converts a time string `HH:MM:SS` into a number of seconds.
///
/// Exactly the strings of two-digit fields with hours below 24 and minutes and
/// seconds below 60 are accepted; anything else, the empty string included, fails
/// with a diagnostic that quotes the input and gives the cause.
pub fn time_string_to_seconds(time_string: &str) -> (r: Result<u64, String>)
    ensures
        r is Ok <==> clock_seconds(time_string@) is Some,
        r matches Ok(v) ==> v == clock_seconds(time_string@)->Some_0,
        r matches Err(m) ==> m@ == time_failure_message(time_string@),
{
    match read_clock(time_string) {
        Err(cause) => Err(time_failure(time_string, cause.as_str())),
        Ok(reading) => {
            if !has_clock_shape(time_string) {
                Err(time_failure(time_string, "not of the form HH:MM:SS"))
            } else if reading.nanosecond >= 1_000_000_000 {
                Err(time_failure(time_string, "second out of range"))
            } else {
                Ok(reading.seconds as u64)
            }
        },
    }
}

/// The offset that an optional time string stands for: the empty string is zero.
pub open spec fn offset_seconds(s: Seq<char>) -> Option<int> {
    if s.len() == 0 {
        Some(0)
    } else {
        clock_seconds(s)
    }
}

/// Converts a time string that may be empty: the empty string is zero seconds,
/// any other string goes through [`time_string_to_seconds`].
pub fn seconds_or_zero(time_string: &str) -> (r: Result<u64, String>)
    ensures
        r is Ok <==> offset_seconds(time_string@) is Some,
        r matches Ok(v) ==> v == offset_seconds(time_string@)->Some_0,
        r matches Err(m) ==> m@ == time_failure_message(time_string@),
{
    if time_string.is_empty() {
        Ok(0)
    } else {
        time_string_to_seconds(time_string)
    }
}

} // verus!
