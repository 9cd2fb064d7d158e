use vstd::prelude::*;

use crate::chars::{digit_value, is_digit};

verus! {

/// A calendar date in the proleptic Gregorian calendar, as written in a task
/// line: four-digit year, month and day. No time component.
#[derive(Clone, Copy, PartialEq, Eq, Structural, Debug)]
pub struct Date {
    pub year: u32,
    pub month: u32,
    pub day: u32,
}

/// The Gregorian leap-year rule.
pub open spec fn is_leap_year(y: int) -> bool {
    (y % 4 == 0 && y % 100 != 0) || y % 400 == 0
}

/// How many days the month `m` of year `y` has.
pub open spec fn days_in_month(y: int, m: int) -> int {
    if m == 2 {
        if is_leap_year(y) {
            29
        } else {
            28
        }
    } else if m == 4 || m == 6 || m == 9 || m == 11 {
        30
    } else {
        31
    }
}

/// Year, month and day name a real calendar date that four digits can write.
pub open spec fn valid_date(y: int, m: int, d: int) -> bool {
    &&& 0 <= y <= 9999
    &&& 1 <= m <= 12
    &&& 1 <= d <= days_in_month(y, m)
}

/// The character that writes the decimal digit `d`.
pub open spec fn digit_char(d: int) -> char {
    if d == 0 {
        '0'
    } else if d == 1 {
        '1'
    } else if d == 2 {
        '2'
    } else if d == 3 {
        '3'
    } else if d == 4 {
        '4'
    } else if d == 5 {
        '5'
    } else if d == 6 {
        '6'
    } else if d == 7 {
        '7'
    } else if d == 8 {
        '8'
    } else {
        '9'
    }
}

/// `n` written as two decimal digits, zero-padded.
pub open spec fn two_digit_chars(n: int) -> Seq<char> {
    seq![digit_char(n / 10), digit_char(n % 10)]
}

/// `n` written as four decimal digits, zero-padded.
pub open spec fn four_digit_chars(n: int) -> Seq<char> {
    seq![
        digit_char(n / 1000),
        digit_char((n / 100) % 10),
        digit_char((n / 10) % 10),
        digit_char(n % 10),
    ]
}

/// A date written as `YYYY-MM-DD`.
pub open spec fn date_chars(d: Date) -> Seq<char> {
    four_digit_chars(d.year as int) + seq!['-'] + two_digit_chars(d.month as int) + seq!['-']
        + two_digit_chars(d.day as int)
}

/// The ten characters of `s` at `i` have the shape `YYYY-MM-DD`:
/// four digits, a dash, two digits, a dash, two digits.
pub open spec fn date_shape_at(s: Seq<char>, i: int) -> bool {
    &&& 0 <= i
    &&& i + 10 <= s.len()
    &&& is_digit(s[i]) && is_digit(s[i + 1]) && is_digit(s[i + 2]) && is_digit(s[i + 3])
    &&& s[i + 4] == '-'
    &&& is_digit(s[i + 5]) && is_digit(s[i + 6])
    &&& s[i + 7] == '-'
    &&& is_digit(s[i + 8]) && is_digit(s[i + 9])
}

/// The year that the four digits at `i` write.
pub open spec fn year_at(s: Seq<char>, i: int) -> int {
    digit_value(s[i]) * 1000 + digit_value(s[i + 1]) * 100 + digit_value(s[i + 2]) * 10
        + digit_value(s[i + 3])
}

/// The month that the two digits at `i + 5` write.
pub open spec fn month_at(s: Seq<char>, i: int) -> int {
    digit_value(s[i + 5]) * 10 + digit_value(s[i + 6])
}

/// The day that the two digits at `i + 8` write.
pub open spec fn day_at(s: Seq<char>, i: int) -> int {
    digit_value(s[i + 8]) * 10 + digit_value(s[i + 9])
}

/// The character for digit `d`.
pub fn digit_char_of(d: u32) -> (c: char)
    requires
        0 <= d < 10,
    ensures
        c == digit_char(d as int),
{
    match d {
        0 => '0',
        1 => '1',
        2 => '2',
        3 => '3',
        4 => '4',
        5 => '5',
        6 => '6',
        7 => '7',
        8 => '8',
        _ => '9',
    }
}

impl Date {
    /// The date exists in the calendar.
    pub open spec fn valid(self) -> bool {
        valid_date(self.year as int, self.month as int, self.day as int)
    }

    /// Builds the date after checking that it exists in the calendar.
    /// Values that name no real date are rejected, not clamped.
    pub fn new(year: u32, month: u32, day: u32) -> (r: Option<Date>)
        ensures
            r is Some <==> valid_date(year as int, month as int, day as int),
            r matches Some(d) ==> d == (Date { year, month, day }),
    {
        let leap = (year % 4 == 0 && year % 100 != 0) || year % 400 == 0;
        let month_days: u32 = if month == 2 {
            if leap {
                29
            } else {
                28
            }
        } else if month == 4 || month == 6 || month == 9 || month == 11 {
            30
        } else {
            31
        };
        if year <= 9999 && 1 <= month && month <= 12 && 1 <= day && day <= month_days {
            Some(Date { year, month, day })
        } else {
            None
        }
    }

    /// Decides `valid`: whether the date exists in the calendar.
    pub fn is_valid(&self) -> (r: bool)
        ensures
            r == self.valid(),
    {
        Date::new(self.year, self.month, self.day).is_some()
    }

    /// The year.
    pub fn year(&self) -> (r: u32)
        ensures
            r == self.year,
    {
        self.year
    }

    /// The month.
    pub fn month(&self) -> (r: u32)
        ensures
            r == self.month,
    {
        self.month
    }

    /// The day of the month.
    pub fn day(&self) -> (r: u32)
        ensures
            r == self.day,
    {
        self.day
    }

    /// Writes the date as `YYYY-MM-DD`.
    pub fn to_string(&self) -> (r: String)
        requires
            self.valid(),
        ensures
            r@ == date_chars(*self),
    {
        let mut r = String::new();
        r.push(digit_char_of(self.year / 1000));
        r.push(digit_char_of((self.year / 100) % 10));
        r.push(digit_char_of((self.year / 10) % 10));
        r.push(digit_char_of(self.year % 10));
        r.push('-');
        r.push(digit_char_of(self.month / 10));
        r.push(digit_char_of(self.month % 10));
        r.push('-');
        r.push(digit_char_of(self.day / 10));
        r.push(digit_char_of(self.day % 10));
        proof {
            assert(r@ =~= date_chars(*self));
        }
        r
    }
}

} // verus!
