use vstd::prelude::*;

use crate::chars::{digit, digit_u32};
use crate::date::{date_shape_at, day_at, month_at, valid_date, year_at, Date};

verus! {

/// A parsed value together with the unconsumed rest of the input, which
/// starts exactly where the match ended.
pub struct ParserResult<'a, Value> {
    pub value: Value,
    pub remaining: &'a str,
}

/// A parser anchored at the start of its input: it either recognizes a prefix
/// and returns the value that prefix stands for plus the rest of the input,
/// or reports no match. It never searches forward. Each implementation fixes
/// the meaning of its result through `parse_ensures`.
pub trait Parser {
    type Value;

    /// What `parse` promises of its result.
    spec fn parse_ensures<'a>(input: &'a str, result: Option<ParserResult<'a, Self::Value>>) -> bool;

    fn parse<'a>(input: &'a str) -> (result: Option<ParserResult<'a, Self::Value>>)
        ensures
            Self::parse_ensures(input, result),
    ;
}

/// Recognizes `YYYY-MM-DD` at the start of the input and converts it to a
/// calendar date. Digits that name no real date are rejected, not clamped.
pub struct DateParser {}

impl Parser for DateParser {
    type Value = Date;

    /// A match is returned exactly when the input starts with ten characters
    /// of date shape whose digits form a valid calendar date; the remainder
    /// starts right after those ten characters.
    open spec fn parse_ensures<'a>(input: &'a str, result: Option<ParserResult<'a, Date>>) -> bool {
        match result {
            Some(pr) => {
                &&& date_shape_at(input@, 0)
                &&& pr.value.valid()
                &&& pr.value.year == year_at(input@, 0)
                &&& pr.value.month == month_at(input@, 0)
                &&& pr.value.day == day_at(input@, 0)
                &&& pr.remaining@ == input@.skip(10)
            },
            None => !(date_shape_at(input@, 0) && valid_date(
                year_at(input@, 0),
                month_at(input@, 0),
                day_at(input@, 0),
            )),
        }
    }

    fn parse<'a>(input: &'a str) -> (result: Option<ParserResult<'a, Date>>) {
        let n = input.unicode_len();
        if n < 10 {
            return None;
        }
        let d0 = input.get_char(0);
        let d1 = input.get_char(1);
        let d2 = input.get_char(2);
        let d3 = input.get_char(3);
        let d5 = input.get_char(5);
        let d6 = input.get_char(6);
        let d8 = input.get_char(8);
        let d9 = input.get_char(9);
        let shape = digit(d0) && digit(d1) && digit(d2) && digit(d3) && input.get_char(4) == '-'
            && digit(d5) && digit(d6) && input.get_char(7) == '-' && digit(d8) && digit(d9);
        if !shape {
            return None;
        }
        let year = digit_u32(d0) * 1000 + digit_u32(d1) * 100 + digit_u32(d2) * 10 + digit_u32(d3);
        let month = digit_u32(d5) * 10 + digit_u32(d6);
        let day = digit_u32(d8) * 10 + digit_u32(d9);
        match Date::new(year, month, day) {
            Some(date) => Some(
                ParserResult { value: date, remaining: input.substring_char(10, n) },
            ),
            None => None,
        }
    }
}

/// Recognizes the completion marker `x ` at the start of the input. It never
/// fails: without the marker it reports `false` and consumes nothing.
pub struct CompletionMarkParser {}

/// The input starts with the two characters `x` and space.
pub open spec fn completion_mark_at(s: Seq<char>) -> bool {
    s.len() >= 2 && s[0] == 'x' && s[1] == ' '
}

impl Parser for CompletionMarkParser {
    type Value = bool;

    /// Always a match: `true` and the rest after the marker when the input
    /// starts with `x `, otherwise `false` and the whole input.
    open spec fn parse_ensures<'a>(input: &'a str, result: Option<ParserResult<'a, bool>>) -> bool {
        match result {
            Some(pr) => {
                if completion_mark_at(input@) {
                    pr.value == true && pr.remaining@ == input@.skip(2)
                } else {
                    pr.value == false && pr.remaining@ == input@
                }
            },
            None => false,
        }
    }

    fn parse<'a>(input: &'a str) -> (result: Option<ParserResult<'a, bool>>) {
        let n = input.unicode_len();
        if n >= 2 && input.get_char(0) == 'x' && input.get_char(1) == ' ' {
            Some(ParserResult { value: true, remaining: input.substring_char(2, n) })
        } else {
            proof {
                assert(input@.skip(0) =~= input@);
            }
            Some(ParserResult { value: false, remaining: input })
        }
    }
}

} // verus!
