use vstd::prelude::*;

use crate::chars::{digit, digit_u32};
use crate::date::{date_shape_at, day_at, month_at, valid_date, year_at, Date};
use crate::parsers::completion_mark_at;

verus! {

/// The header fields of a task line, split off but not interpreted: each
/// present field keeps its matched text, trailing space included, and the
/// rest of the line is the description.
#[derive(Debug)]
pub struct TaskTokens {
    pub completed: Option<String>,
    pub priority: Option<String>,
    pub first_date: Option<String>,
    pub second_date: Option<String>,
    pub description: String,
}

/// A priority field `(A) ` stands at `i`: an opening parenthesis, one
/// uppercase letter, a closing parenthesis, one space.
pub open spec fn priority_field_at(s: Seq<char>, i: int) -> bool {
    &&& 0 <= i
    &&& i + 4 <= s.len()
    &&& s[i] == '('
    &&& 'A' <= s[i + 1] <= 'Z'
    &&& s[i + 2] == ')'
    &&& s[i + 3] == ' '
}

/// A date field `YYYY-MM-DD ` stands at `i`: ten characters of date shape
/// whose digits name a real calendar date, then one space. Well-shaped
/// digits that name no real date are no header field; they stay in the
/// description.
pub open spec fn date_field_at(s: Seq<char>, i: int) -> bool {
    &&& date_shape_at(s, i)
    &&& valid_date(year_at(s, i), month_at(s, i), day_at(s, i))
    &&& i + 11 <= s.len()
    &&& s[i + 10] == ' '
}

/// Length of the completion field at the start of the line: 2 when `x `
/// stands there, otherwise 0.
pub open spec fn completed_len(s: Seq<char>) -> int {
    if completion_mark_at(s) {
        2
    } else {
        0
    }
}

/// Length of the priority field at `i`: 4 when one stands there, else 0.
pub open spec fn priority_len(s: Seq<char>, i: int) -> int {
    if priority_field_at(s, i) {
        4
    } else {
        0
    }
}

/// Length of a date field at `i`: 11 when one stands there, else 0.
pub open spec fn date_len(s: Seq<char>, i: int) -> int {
    if date_field_at(s, i) {
        11
    } else {
        0
    }
}

/// Where the description begins: after the optional completion marker,
/// priority, first date and second date, scanned once, left to right, each
/// field recognized only at its own position. A second date is looked for
/// only after a first date, so a lone date is always the first date.
pub open spec fn header_end(s: Seq<char>) -> int {
    let c = completed_len(s);
    let p = priority_len(s, c);
    let d1 = date_len(s, c + p);
    let d2 = if d1 > 0 {
        date_len(s, c + p + d1)
    } else {
        0
    };
    c + p + d1 + d2
}

/// Splits a raw task line into its header fields and description.
pub trait Tokenizer: Sized {
    /// What `tokenize` promises of its result.
    spec fn tokenize_ensures(self, result: Option<TaskTokens>) -> bool;

    fn tokenize(self) -> (result: Option<TaskTokens>)
        ensures
            self.tokenize_ensures(result),
    ;
}

impl<'a> Tokenizer for &'a str {
    /// The split is total: it always succeeds. Each header field is present
    /// exactly when its fixed format stands at its position and then
    /// carries the matched text with its trailing space; a date field whose
    /// digits name no real calendar date is absent, its text left to the
    /// description; the description is the whole rest of the line, possibly
    /// empty.
    open spec fn tokenize_ensures(self, result: Option<TaskTokens>) -> bool {
        let s = self@;
        let c = completed_len(s);
        let p = priority_len(s, c);
        let d1 = date_len(s, c + p);
        let d2 = if d1 > 0 {
            date_len(s, c + p + d1)
        } else {
            0
        };
        match result {
            Some(t) => {
                &&& (match t.completed {
                    Some(x) => c == 2 && x@ == s.subrange(0, 2),
                    None => c == 0,
                })
                &&& (match t.priority {
                    Some(x) => p == 4 && x@ == s.subrange(c, c + 4),
                    None => p == 0,
                })
                &&& (match t.first_date {
                    Some(x) => d1 == 11 && x@ == s.subrange(c + p, c + p + 11),
                    None => d1 == 0,
                })
                &&& (match t.second_date {
                    Some(x) => d2 == 11 && x@ == s.subrange(c + p + d1, c + p + d1 + 11),
                    None => d2 == 0,
                })
                &&& t.description@ == s.skip(header_end(s))
            },
            None => false,
        }
    }

    fn tokenize(self) -> (result: Option<TaskTokens>) {
        let n = self.unicode_len();
        let mut pos: usize = 0;
        let completed: Option<String> = if n >= 2 && self.get_char(0) == 'x' && self.get_char(1)
            == ' ' {
            pos = 2;
            Some(String::from_str(self.substring_char(0, 2)))
        } else {
            None
        };
        let priority: Option<String> = if check_priority_field(self, pos, n) {
            let x = String::from_str(self.substring_char(pos, pos + 4));
            pos = pos + 4;
            Some(x)
        } else {
            None
        };
        let first_date: Option<String> = if check_date_field(self, pos, n) {
            let x = String::from_str(self.substring_char(pos, pos + 11));
            pos = pos + 11;
            Some(x)
        } else {
            None
        };
        let second_date: Option<String> = if first_date.is_some() && check_date_field(
            self,
            pos,
            n,
        ) {
            let x = String::from_str(self.substring_char(pos, pos + 11));
            pos = pos + 11;
            Some(x)
        } else {
            None
        };
        let description = String::from_str(self.substring_char(pos, n));
        Some(TaskTokens { completed, priority, first_date, second_date, description })
    }
}

/// Decides `priority_field_at`.
fn check_priority_field(s: &str, i: usize, n: usize) -> (r: bool)
    requires
        n == s@.len(),
        i <= n,
    ensures
        r == priority_field_at(s@, i as int),
{
    n - i >= 4 && s.get_char(i) == '(' && uppercase(s.get_char(i + 1)) && s.get_char(i + 2) == ')'
        && s.get_char(i + 3) == ' '
}

/// Decides whether `c` is an uppercase letter `A` through `Z`.
fn uppercase(c: char) -> (r: bool)
    ensures
        r == ('A' <= c <= 'Z'),
{
    'A' <= c && c <= 'Z'
}

/// Decides `date_field_at`.
fn check_date_field(s: &str, i: usize, n: usize) -> (r: bool)
    requires
        n == s@.len(),
        i <= n,
    ensures
        r == date_field_at(s@, i as int),
{
    let shape = n - i >= 11 && digit(s.get_char(i)) && digit(s.get_char(i + 1)) && digit(
        s.get_char(i + 2),
    ) && digit(s.get_char(i + 3)) && s.get_char(i + 4) == '-' && digit(s.get_char(i + 5)) && digit(
        s.get_char(i + 6),
    ) && s.get_char(i + 7) == '-' && digit(s.get_char(i + 8)) && digit(s.get_char(i + 9))
        && s.get_char(i + 10) == ' ';
    if !shape {
        return false;
    }
    let year = digit_u32(s.get_char(i)) * 1000 + digit_u32(s.get_char(i + 1)) * 100 + digit_u32(
        s.get_char(i + 2),
    ) * 10 + digit_u32(s.get_char(i + 3));
    let month = digit_u32(s.get_char(i + 5)) * 10 + digit_u32(s.get_char(i + 6));
    let day = digit_u32(s.get_char(i + 8)) * 10 + digit_u32(s.get_char(i + 9));
    Date::new(year, month, day).is_some()
}

} // verus!
