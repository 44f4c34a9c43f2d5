//! The capture date-time: a naive (timezone-free) calendar value, and the
//! parser for the fixed 19-character `YYYY:MM:DD HH:MM:SS` field format.

use vstd::prelude::*;

verus! {

/// A naive calendar date-time as read from a capture-date metadata field.
/// Years are limited to four digits, as the field format itself is.
#[derive(Clone, Copy, Debug, PartialEq, Eq, Structural)]
pub struct DateTime {
    pub year: u16,
    pub month: u8,
    pub day: u8,
    pub hour: u8,
    pub minute: u8,
    pub second: u8,
}

pub open spec fn spec_is_leap_year(y: int) -> bool {
    (y % 4 == 0 && y % 100 != 0) || y % 400 == 0
}

pub open spec fn spec_days_in_month(y: int, m: int) -> int {
    if m == 2 {
        if spec_is_leap_year(y) {
            29
        } else {
            28
        }
    } else if m == 4 || m == 6 || m == 9 || m == 11 {
        30
    } else {
        31
    }
}

impl DateTime {
    /// A calendar-valid value: month and day exist in the given year,
    /// and the time of day is within range.
    pub open spec fn valid(self) -> bool {
        &&& self.year <= 9999
        &&& 1 <= self.month <= 12
        &&& 1 <= self.day <= spec_days_in_month(self.year as int, self.month as int)
        &&& self.hour <= 23
        &&& self.minute <= 59
        &&& self.second <= 59
    }
}

/// One decimal digit character, by its Unicode scalar value.
pub open spec fn spec_is_digit(c: char) -> bool {
    48 <= c as int <= 57
}

pub open spec fn spec_digit(c: char) -> int {
    c as int - 48
}

/// The value of the two-digit decimal field at position `i`.
pub open spec fn spec_field2(s: Seq<char>, i: int) -> int {
    10 * spec_digit(s[i]) + spec_digit(s[i + 1])
}

/// The value of the four-digit decimal field at position `i`.
pub open spec fn spec_field4(s: Seq<char>, i: int) -> int {
    1000 * spec_digit(s[i]) + 100 * spec_digit(s[i + 1]) + 10 * spec_digit(s[i + 2]) + spec_digit(
        s[i + 3],
    )
}

/// The fixed 19-character field grammar: a four-digit year, two-digit month,
/// day, hour, minute and second, with `:` between date parts, `:` between
/// time parts, and a single space between date and time.
pub open spec fn spec_well_formed(s: Seq<char>) -> bool {
    &&& s.len() == 19
    &&& spec_is_digit(s[0])
    &&& spec_is_digit(s[1])
    &&& spec_is_digit(s[2])
    &&& spec_is_digit(s[3])
    &&& s[4] == ':'
    &&& spec_is_digit(s[5])
    &&& spec_is_digit(s[6])
    &&& s[7] == ':'
    &&& spec_is_digit(s[8])
    &&& spec_is_digit(s[9])
    &&& s[10] == ' '
    &&& spec_is_digit(s[11])
    &&& spec_is_digit(s[12])
    &&& s[13] == ':'
    &&& spec_is_digit(s[14])
    &&& spec_is_digit(s[15])
    &&& s[16] == ':'
    &&& spec_is_digit(s[17])
    &&& spec_is_digit(s[18])
}

/// The date-time denoted by a well-formed field string.
pub open spec fn spec_field_value(s: Seq<char>) -> DateTime {
    DateTime {
        year: spec_field4(s, 0) as u16,
        month: spec_field2(s, 5) as u8,
        day: spec_field2(s, 8) as u8,
        hour: spec_field2(s, 11) as u8,
        minute: spec_field2(s, 14) as u8,
        second: spec_field2(s, 17) as u8,
    }
}

/// What parsing a capture-date field returns: the denoted date-time when the
/// string matches the grammar and is calendar-valid, and nothing otherwise.
pub open spec fn spec_parse(s: Seq<char>) -> Option<DateTime> {
    if spec_well_formed(s) && spec_field_value(s).valid() {
        Some(spec_field_value(s))
    } else {
        None
    }
}

/// The digit value of `c`, or nothing if `c` is not a decimal digit.
fn digit(c: char) -> (r: Option<u8>)
    ensures
        r is Some <==> spec_is_digit(c),
        r is Some ==> r->0 as int == spec_digit(c),
{
    let v = c as u32;
    if 48 <= v && v <= 57 {
        Some((v - 48) as u8)
    } else {
        None
    }
}

/// The two-digit field at position `i`, or nothing if a character is no digit.
fn field2(s: &str, i: usize) -> (r: Option<u8>)
    requires
        i + 2 <= s@.len(),
        s@.len() < usize::MAX,
    ensures
        r is Some <==> spec_is_digit(s@[i as int]) && spec_is_digit(s@[i + 1]),
        r is Some ==> r->0 as int == spec_field2(s@, i as int),
{
    let d0 = digit(s.get_char(i));
    let d1 = digit(s.get_char(i + 1));
    match (d0, d1) {
        (Some(a), Some(b)) => Some(10 * a + b),
        _ => None,
    }
}

/// The four-digit field at position `i`, or nothing if a character is no digit.
fn field4(s: &str, i: usize) -> (r: Option<u16>)
    requires
        i + 4 <= s@.len(),
        s@.len() < usize::MAX,
    ensures
        r is Some <==> spec_is_digit(s@[i as int]) && spec_is_digit(s@[i + 1]) && spec_is_digit(
            s@[i + 2],
        ) && spec_is_digit(s@[i + 3]),
        r is Some ==> r->0 as int == spec_field4(s@, i as int),
{
    let a = field2(s, i);
    let b = field2(s, i + 2);
    match (a, b) {
        (Some(hi), Some(lo)) => Some(100 * (hi as u16) + (lo as u16)),
        _ => None,
    }
}

/// Parse a capture-date field in the fixed format `YYYY:MM:DD HH:MM:SS`.
/// Returns the date-time exactly when the string matches the grammar and
/// names a real calendar date with a valid time of day.
pub fn parse_datetime(s: &str) -> (r: Option<DateTime>)
    ensures
        r == spec_parse(s@),
{
    if s.unicode_len() != 19 {
        return None;
    }
    if !(s.get_char(4) == ':' && s.get_char(7) == ':' && s.get_char(10) == ' ' && s.get_char(13)
        == ':' && s.get_char(16) == ':') {
        return None;
    }
    let year = field4(s, 0);
    let month = field2(s, 5);
    let day = field2(s, 8);
    let hour = field2(s, 11);
    let minute = field2(s, 14);
    let second = field2(s, 17);
    match (year, month, day, hour, minute, second) {
        (Some(year), Some(month), Some(day), Some(hour), Some(minute), Some(second)) => {
            let dt = DateTime { year, month, day, hour, minute, second };
            if 1 <= month && month <= 12 && 1 <= day && day <= days_in_month(year, month) && hour
                <= 23 && minute <= 59 && second <= 59 {
                Some(dt)
            } else {
                None
            }
        },
        _ => None,
    }
}

pub fn is_leap_year(y: u16) -> (r: bool)
    ensures
        r == spec_is_leap_year(y as int),
{
    (y % 4 == 0 && y % 100 != 0) || y % 400 == 0
}

pub fn days_in_month(y: u16, m: u8) -> (r: u8)
    ensures
        r as int == spec_days_in_month(y as int, m as int),
{
    if m == 2 {
        if is_leap_year(y) {
            29
        } else {
            28
        }
    } else if m == 4 || m == 6 || m == 9 || m == 11 {
        30
    } else {
        31
    }
}

} // verus!
