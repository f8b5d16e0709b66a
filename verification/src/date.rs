//! Calendar dates as plain year/month/day numbers, their weekday, and the
//! fixed-width `YYYY-MM-DD` wire format.

use vstd::prelude::*;
use vstd::string::StrSliceExecFns;
use vstd::string::StringExecFns;

verus! {

/// A calendar date in the proleptic Gregorian calendar, held as plain
/// year/month/day numbers. Only years 1 through 9999 are representable,
/// matching the fixed-width `YYYY-MM-DD` wire format.
pub struct Date {
    pub year: u32,
    pub month: u32,
    pub day: u32,
}

pub open spec fn is_leap_year(y: int) -> bool {
    (y % 4 == 0 && y % 100 != 0) || y % 400 == 0
}

/// Number of days in month `m` of year `y` (0 for a month outside 1..=12).
pub open spec fn days_in_month(y: int, m: int) -> int {
    if m == 2 {
        if is_leap_year(y) {
            29
        } else {
            28
        }
    } else if m == 4 || m == 6 || m == 9 || m == 11 {
        30
    } else if 1 <= m <= 12 {
        31
    } else {
        0
    }
}

pub open spec fn valid_ymd(y: int, m: int, d: int) -> bool {
    &&& 1 <= y <= 9999
    &&& 1 <= m <= 12
    &&& 1 <= d <= days_in_month(y, m)
}

impl Date {
    pub open spec fn valid(self) -> bool {
        valid_ymd(self.year as int, self.month as int, self.day as int)
    }
}

/// Month term of Sakamoto's day-of-the-week formula.
pub open spec fn month_code(m: int) -> int {
    if m == 1 {
        0
    } else if m == 2 {
        3
    } else if m == 3 {
        2
    } else if m == 4 {
        5
    } else if m == 5 {
        0
    } else if m == 6 {
        3
    } else if m == 7 {
        5
    } else if m == 8 {
        1
    } else if m == 9 {
        4
    } else if m == 10 {
        6
    } else if m == 11 {
        2
    } else {
        4
    }
}

/// Day of the week of a Gregorian date, by Sakamoto's formula:
/// 0 = Sunday, 1 = Monday, ..., 6 = Saturday.
pub open spec fn day_of_week(y: int, m: int, d: int) -> int {
    let yy = if m < 3 {
        y - 1
    } else {
        y
    };
    (yy + yy / 4 - yy / 100 + yy / 400 + month_code(m) + d) % 7
}

pub open spec fn is_weekend(y: int, m: int, d: int) -> bool {
    day_of_week(y, m, d) == 0 || day_of_week(y, m, d) == 6
}

impl Date {
    /// Day of the week of this date: 0 = Sunday through 6 = Saturday.
    pub fn weekday(&self) -> (r: u32)
        requires
            self.valid(),
        ensures
            r == day_of_week(self.year as int, self.month as int, self.day as int),
            r < 7,
    {
        let yy: u32 = if self.month < 3 {
            self.year - 1
        } else {
            self.year
        };
        let code: u32 = match self.month {
            1 => 0,
            2 => 3,
            3 => 2,
            4 => 5,
            5 => 0,
            6 => 3,
            7 => 5,
            8 => 1,
            9 => 4,
            10 => 6,
            11 => 2,
            _ => 4,
        };
        (yy + yy / 4 - yy / 100 + yy / 400 + code + self.day) % 7
    }
}

/// The decimal digit character for a value 0 through 9 ('9' outside that range).
pub open spec fn digit_char(v: int) -> char {
    if v == 0 {
        '0'
    } else if v == 1 {
        '1'
    } else if v == 2 {
        '2'
    } else if v == 3 {
        '3'
    } else if v == 4 {
        '4'
    } else if v == 5 {
        '5'
    } else if v == 6 {
        '6'
    } else if v == 7 {
        '7'
    } else if v == 8 {
        '8'
    } else {
        '9'
    }
}

pub open spec fn is_digit_char(c: char) -> bool {
    ||| c == '0'
    ||| c == '1'
    ||| c == '2'
    ||| c == '3'
    ||| c == '4'
    ||| c == '5'
    ||| c == '6'
    ||| c == '7'
    ||| c == '8'
    ||| c == '9'
}

/// The value of a decimal digit character (10 for a non-digit).
pub open spec fn digit_val(c: char) -> int {
    if c == '0' {
        0
    } else if c == '1' {
        1
    } else if c == '2' {
        2
    } else if c == '3' {
        3
    } else if c == '4' {
        4
    } else if c == '5' {
        5
    } else if c == '6' {
        6
    } else if c == '7' {
        7
    } else if c == '8' {
        8
    } else if c == '9' {
        9
    } else {
        10
    }
}

/// The ten characters of `y`, `m`, `d` written as `YYYY-MM-DD`.
pub open spec fn iso_of(y: int, m: int, d: int) -> Seq<char> {
    seq![
        digit_char(y / 1000 % 10),
        digit_char(y / 100 % 10),
        digit_char(y / 10 % 10),
        digit_char(y % 10),
        '-',
        digit_char(m / 10 % 10),
        digit_char(m % 10),
        '-',
        digit_char(d / 10 % 10),
        digit_char(d % 10),
    ]
}

fn digit_str(v: u32) -> (r: &'static str)
    requires
        v < 10,
    ensures
        r@ == seq![digit_char(v as int)],
{
    let r: &'static str = match v {
        0 => "0",
        1 => "1",
        2 => "2",
        3 => "3",
        4 => "4",
        5 => "5",
        6 => "6",
        7 => "7",
        8 => "8",
        _ => "9",
    };
    proof {
        reveal_strlit("0");
        reveal_strlit("1");
        reveal_strlit("2");
        reveal_strlit("3");
        reveal_strlit("4");
        reveal_strlit("5");
        reveal_strlit("6");
        reveal_strlit("7");
        reveal_strlit("8");
        reveal_strlit("9");
        assert(r@ =~= seq![digit_char(v as int)]);
    }
    r
}

/// Writes a date in the `YYYY-MM-DD` wire format.
pub fn format_date(date: &Date) -> (r: String)
    requires
        date.valid(),
    ensures
        r@ == iso_of(date.year as int, date.month as int, date.day as int),
{
    let mut s = String::new();
    s.append(digit_str(date.year / 1000 % 10));
    s.append(digit_str(date.year / 100 % 10));
    s.append(digit_str(date.year / 10 % 10));
    s.append(digit_str(date.year % 10));
    s.append("-");
    s.append(digit_str(date.month / 10 % 10));
    s.append(digit_str(date.month % 10));
    s.append("-");
    s.append(digit_str(date.day / 10 % 10));
    s.append(digit_str(date.day % 10));
    proof {
        reveal_strlit("-");
        assert(s@ =~= iso_of(date.year as int, date.month as int, date.day as int));
    }
    s
}

/// Number of days in month `m` of year `y`.
pub fn month_length(y: u32, m: u32) -> (r: u32)
    requires
        1 <= m <= 12,
    ensures
        r == days_in_month(y as int, m as int),
{
    if m == 2 {
        if (y % 4 == 0 && y % 100 != 0) || y % 400 == 0 {
            29
        } else {
            28
        }
    } else if m == 4 || m == 6 || m == 9 || m == 11 {
        30
    } else {
        31
    }
}

proof fn lemma_digit_char_val(v: int)
    requires
        0 <= v <= 9,
    ensures
        is_digit_char(digit_char(v)),
        digit_val(digit_char(v)) == v,
{
}

/// Writing a valid date as `YYYY-MM-DD` yields a well-formed date string
/// that denotes exactly that date: formatting and parsing are inverses.
pub proof fn lemma_iso_round_trip(y: int, m: int, d: int)
    requires
        valid_ymd(y, m, d),
    ensures
        is_iso_date_seq(iso_of(y, m, d)),
        iso_year(iso_of(y, m, d)) == y,
        iso_month(iso_of(y, m, d)) == m,
        iso_day(iso_of(y, m, d)) == d,
{
    let s = iso_of(y, m, d);
    lemma_digit_char_val(y / 1000 % 10);
    lemma_digit_char_val(y / 100 % 10);
    lemma_digit_char_val(y / 10 % 10);
    lemma_digit_char_val(y % 10);
    lemma_digit_char_val(m / 10 % 10);
    lemma_digit_char_val(m % 10);
    lemma_digit_char_val(d / 10 % 10);
    lemma_digit_char_val(d % 10);
    assert(iso_year(s) == y) by {
        assert(y / 1000 % 10 == y / 1000);
        assert(y / 1000 * 1000 + y / 100 % 10 * 100 + y / 10 % 10 * 10 + y % 10 == y);
    }
    assert(iso_month(s) == m) by {
        assert(m / 10 % 10 == m / 10);
        assert(m / 10 * 10 + m % 10 == m);
    }
    assert(iso_day(s) == d) by {
        assert(d / 10 % 10 == d / 10);
        assert(d / 10 * 10 + d % 10 == d);
    }
}

/// Two valid dates written as `YYYY-MM-DD` coincide only if they are the
/// same date.
pub proof fn lemma_iso_of_injective(y1: int, m1: int, d1: int, y2: int, m2: int, d2: int)
    requires
        valid_ymd(y1, m1, d1),
        valid_ymd(y2, m2, d2),
        iso_of(y1, m1, d1) == iso_of(y2, m2, d2),
    ensures
        y1 == y2 && m1 == m2 && d1 == d2,
{
    lemma_iso_round_trip(y1, m1, d1);
    lemma_iso_round_trip(y2, m2, d2);
}

/// The error reported for a string that is not a well-formed `YYYY-MM-DD`
/// calendar date.
#[derive(Clone, Copy, Debug, PartialEq, Eq, Structural)]
pub struct DateParseError;

pub open spec fn iso_year(s: Seq<char>) -> int {
    digit_val(s[0]) * 1000 + digit_val(s[1]) * 100 + digit_val(s[2]) * 10 + digit_val(s[3])
}

pub open spec fn iso_month(s: Seq<char>) -> int {
    digit_val(s[5]) * 10 + digit_val(s[6])
}

pub open spec fn iso_day(s: Seq<char>) -> int {
    digit_val(s[8]) * 10 + digit_val(s[9])
}

/// Whether a character sequence is a well-formed `YYYY-MM-DD` date:
/// the fixed shape, and a day that exists in its month and year.
pub open spec fn is_iso_date_seq(s: Seq<char>) -> bool {
    &&& s.len() == 10
    &&& is_digit_char(s[0])
    &&& is_digit_char(s[1])
    &&& is_digit_char(s[2])
    &&& is_digit_char(s[3])
    &&& s[4] == '-'
    &&& is_digit_char(s[5])
    &&& is_digit_char(s[6])
    &&& s[7] == '-'
    &&& is_digit_char(s[8])
    &&& is_digit_char(s[9])
    &&& valid_ymd(iso_year(s), iso_month(s), iso_day(s))
}

/// The value of a decimal digit character, or `None` for any other character.
pub(crate) fn char_digit(c: char) -> (r: Option<u32>)
    ensures
        match r {
            Some(v) => is_digit_char(c) && v == digit_val(c),
            None => !is_digit_char(c),
        },
{
    match c {
        '0' => Some(0),
        '1' => Some(1),
        '2' => Some(2),
        '3' => Some(3),
        '4' => Some(4),
        '5' => Some(5),
        '6' => Some(6),
        '7' => Some(7),
        '8' => Some(8),
        '9' => Some(9),
        _ => None,
    }
}

/// Reads a `YYYY-MM-DD` string. Succeeds exactly on well-formed calendar
/// dates, and returns the date the string denotes.
pub fn parse_iso_date(s: &str) -> (r: Result<Date, DateParseError>)
    ensures
        r matches Ok(d) ==> {
            &&& is_iso_date_seq(s@)
            &&& d.valid()
            &&& d.year == iso_year(s@)
            &&& d.month == iso_month(s@)
            &&& d.day == iso_day(s@)
        },
        r is Ok <==> is_iso_date_seq(s@),
{
    if s.unicode_len() != 10 {
        return Err(DateParseError);
    }
    if s.get_char(4) != '-' || s.get_char(7) != '-' {
        return Err(DateParseError);
    }
    let y0 = match char_digit(s.get_char(0)) {
        Some(v) => v,
        None => return Err(DateParseError),
    };
    let y1 = match char_digit(s.get_char(1)) {
        Some(v) => v,
        None => return Err(DateParseError),
    };
    let y2 = match char_digit(s.get_char(2)) {
        Some(v) => v,
        None => return Err(DateParseError),
    };
    let y3 = match char_digit(s.get_char(3)) {
        Some(v) => v,
        None => return Err(DateParseError),
    };
    let m0 = match char_digit(s.get_char(5)) {
        Some(v) => v,
        None => return Err(DateParseError),
    };
    let m1 = match char_digit(s.get_char(6)) {
        Some(v) => v,
        None => return Err(DateParseError),
    };
    let d0 = match char_digit(s.get_char(8)) {
        Some(v) => v,
        None => return Err(DateParseError),
    };
    let d1 = match char_digit(s.get_char(9)) {
        Some(v) => v,
        None => return Err(DateParseError),
    };
    let year = y0 * 1000 + y1 * 100 + y2 * 10 + y3;
    let month = m0 * 10 + m1;
    let day = d0 * 10 + d1;
    if year < 1 || month < 1 || month > 12 || day < 1 || day > month_length(year, month) {
        return Err(DateParseError);
    }
    Ok(Date { year, month, day })
}

/// The English name of a day of the week, 0 = Sunday through 6 = Saturday.
pub open spec fn weekday_name_seq(w: int) -> Seq<char> {
    if w == 0 {
        "Sunday"@
    } else if w == 1 {
        "Monday"@
    } else if w == 2 {
        "Tuesday"@
    } else if w == 3 {
        "Wednesday"@
    } else if w == 4 {
        "Thursday"@
    } else if w == 5 {
        "Friday"@
    } else {
        "Saturday"@
    }
}

/// The English weekday name of a `YYYY-MM-DD` date string, or
/// `DateParseError` exactly when the string is not a well-formed date.
pub fn weekday_name(date_str: &str) -> (r: Result<String, DateParseError>)
    ensures
        r is Ok <==> is_iso_date_seq(date_str@),
        r matches Ok(n) ==> n@ == weekday_name_seq(
            day_of_week(iso_year(date_str@), iso_month(date_str@), iso_day(date_str@)),
        ),
{
    let date = match parse_iso_date(date_str) {
        Ok(d) => d,
        Err(e) => return Err(e),
    };
    let w = date.weekday();
    let name: &str = match w {
        0 => "Sunday",
        1 => "Monday",
        2 => "Tuesday",
        3 => "Wednesday",
        4 => "Thursday",
        5 => "Friday",
        _ => "Saturday",
    };
    Ok(name.to_owned())
}

} // verus!
