//! Date normalization: parsing a free-text "day-ordinal month year"
//! string (for example `11th November 2023`) into a calendar date, with
//! validation against the Gregorian calendar.

use vstd::prelude::*;
use vstd::string::StrSliceExecFns;

use crate::numbers::{
    all_digits, digit_val, digits_val, is_digit, parse_i32_str, parse_u32_str, sign_mag,
    spec_parse_i32, spec_parse_u32, unsigned_digits, valid_signed_str,
};
use crate::text::{
    lemma_split_on_concat, lemma_split_on_no_sep, split_chars, split_on, str_eq,
};
use vstd::arithmetic::div_mod::{
    lemma_div_is_strictly_smaller, lemma_div_pos_is_pos, lemma_fundamental_div_mod,
};

verus! {

/// A month as named in the raw review data.
#[derive(Clone, Copy, Debug, PartialEq, Eq, Structural)]
pub enum RawMonth {
    Jan,
    Feb,
    Mar,
    Apr,
    May,
    Jun,
    Jul,
    Aug,
    Sept,
    Oct,
    Nov,
    Dec,
}

impl RawMonth {
    /// The month's one-based ordinal in the year.
    pub open spec fn spec_number(self) -> u32 {
        match self {
            RawMonth::Jan => 1,
            RawMonth::Feb => 2,
            RawMonth::Mar => 3,
            RawMonth::Apr => 4,
            RawMonth::May => 5,
            RawMonth::Jun => 6,
            RawMonth::Jul => 7,
            RawMonth::Aug => 8,
            RawMonth::Sept => 9,
            RawMonth::Oct => 10,
            RawMonth::Nov => 11,
            RawMonth::Dec => 12,
        }
    }

    pub fn number(self) -> (n: u32)
        ensures
            n == self.spec_number(),
    {
        match self {
            RawMonth::Jan => 1,
            RawMonth::Feb => 2,
            RawMonth::Mar => 3,
            RawMonth::Apr => 4,
            RawMonth::May => 5,
            RawMonth::Jun => 6,
            RawMonth::Jul => 7,
            RawMonth::Aug => 8,
            RawMonth::Sept => 9,
            RawMonth::Oct => 10,
            RawMonth::Nov => 11,
            RawMonth::Dec => 12,
        }
    }

    /// The month an English month name denotes. An unrecognized name
    /// falls back to January, as the raw data pipeline always has.
    pub open spec fn spec_from_name(s: Seq<char>) -> RawMonth {
        if s == "January"@ {
            RawMonth::Jan
        } else if s == "February"@ {
            RawMonth::Feb
        } else if s == "March"@ {
            RawMonth::Mar
        } else if s == "April"@ {
            RawMonth::Apr
        } else if s == "May"@ {
            RawMonth::May
        } else if s == "June"@ {
            RawMonth::Jun
        } else if s == "July"@ {
            RawMonth::Jul
        } else if s == "August"@ {
            RawMonth::Aug
        } else if s == "September"@ {
            RawMonth::Sept
        } else if s == "October"@ {
            RawMonth::Oct
        } else if s == "November"@ {
            RawMonth::Nov
        } else if s == "December"@ {
            RawMonth::Dec
        } else {
            RawMonth::Jan
        }
    }

    pub fn from_name(s: &str) -> (m: RawMonth)
        ensures
            m == Self::spec_from_name(s@),
    {
        if str_eq(s, "January") {
            RawMonth::Jan
        } else if str_eq(s, "February") {
            RawMonth::Feb
        } else if str_eq(s, "March") {
            RawMonth::Mar
        } else if str_eq(s, "April") {
            RawMonth::Apr
        } else if str_eq(s, "May") {
            RawMonth::May
        } else if str_eq(s, "June") {
            RawMonth::Jun
        } else if str_eq(s, "July") {
            RawMonth::Jul
        } else if str_eq(s, "August") {
            RawMonth::Aug
        } else if str_eq(s, "September") {
            RawMonth::Sept
        } else if str_eq(s, "October") {
            RawMonth::Oct
        } else if str_eq(s, "November") {
            RawMonth::Nov
        } else if str_eq(s, "December") {
            RawMonth::Dec
        } else {
            RawMonth::Jan
        }
    }
}

/// The one structured error the transforms raise: the date string does
/// not denote a real calendar date.
#[derive(Clone, Copy, Debug, PartialEq, Eq, Structural)]
pub enum DateError {
    InvalidDate,
}

pub open spec fn is_leap_year(y: int) -> bool {
    (y % 4 == 0 && y % 100 != 0) || y % 400 == 0
}

pub open spec fn days_in_month(y: int, m: int) -> int {
    if m == 2 {
        if is_leap_year(y) {
            29
        } else {
            28
        }
    } else if m == 4 || m == 6 || m == 9 || m == 11 {
        30
    } else {
        31
    }
}

/// A real Gregorian date: month in range and day in range for that
/// month of that year.
pub open spec fn valid_ymd(y: int, m: int, d: int) -> bool {
    1 <= m <= 12 && 1 <= d && d <= days_in_month(y, m)
}

/// A normalized (year, month, day) triple.
#[derive(Clone, Copy, Debug, PartialEq, Eq, Structural)]
pub struct CalendarDate {
    pub year: i32,
    pub month: u32,
    pub day: u32,
}

fn is_leap_year_exec(y: i32) -> (b: bool)
    ensures
        b == is_leap_year(y as int),
{
    let z: i64 = if y >= 0 {
        y as i64
    } else {
        -(y as i64)
    };
    proof {
        assert((y as int) % 4 == 0 <==> (z as int) % 4 == 0);
        assert((y as int) % 100 == 0 <==> (z as int) % 100 == 0);
        assert((y as int) % 400 == 0 <==> (z as int) % 400 == 0);
    }
    (z % 4 == 0 && z % 100 != 0) || z % 400 == 0
}

impl CalendarDate {
    pub open spec fn well_formed(self) -> bool {
        valid_ymd(self.year as int, self.month as int, self.day as int)
    }

    /// Build a date from its components; `None` exactly when the triple
    /// is not a real Gregorian date.
    pub fn new(year: i32, month: u32, day: u32) -> (r: Option<CalendarDate>)
        ensures
            r is Some <==> valid_ymd(year as int, month as int, day as int),
            r is Some ==> r->Some_0 == (CalendarDate { year, month, day })
                && r->Some_0.well_formed(),
    {
        if month < 1 || month > 12 {
            return None;
        }
        let max_day: u32 = if month == 2 {
            if is_leap_year_exec(year) {
                29
            } else {
                28
            }
        } else if month == 4 || month == 6 || month == 9 || month == 11 {
            30
        } else {
            31
        };
        if day >= 1 && day <= max_day {
            Some(CalendarDate { year, month, day })
        } else {
            None
        }
    }
}

/// Split a raw date string on single spaces, as the record pipeline
/// always has; it never fails.
pub fn split_date(date_str: &str) -> (r: Result<Vec<&str>, &'static str>)
    ensures
        r is Ok,
        r->Ok_0.deep_view() == split_on(date_str@, ' '),
{
    Ok(split_chars(date_str, ' '))
}

/// The day of month a day token denotes: everything but the trailing
/// two characters (the ordinal suffix), read as an unsigned integer.
pub open spec fn spec_parse_day(s: Seq<char>) -> Option<u32> {
    if s.len() >= 2 {
        spec_parse_u32(s.take(s.len() - 2))
    } else {
        None
    }
}

/// Strip the two-character ordinal suffix from a day token (`11th`,
/// `2nd`) and parse the rest as a day of month.
pub fn parse_day_str(day_str: &str) -> (r: Result<u32, &'static str>)
    ensures
        spec_parse_day(day_str@) is Some ==> r is Ok && r->Ok_0 == spec_parse_day(
            day_str@,
        )->Some_0,
        spec_parse_day(day_str@) is None ==> r is Err && r->Err_0@ == "Invalid day"@,
{
    let n = day_str.unicode_len();
    if n < 2 {
        return Err("Invalid day");
    }
    let body = day_str.substring_char(0, n - 2);
    proof {
        assert(body@ =~= day_str@.take(day_str@.len() - 2));
    }
    match parse_u32_str(body) {
        Some(d) => Ok(d),
        None => Err("Invalid day"),
    }
}

/// Parse a year token as a signed integer.
pub fn parse_year_str(year_str: &str) -> (r: Result<i32, &'static str>)
    ensures
        spec_parse_i32(year_str@) is Some ==> r is Ok && r->Ok_0 == spec_parse_i32(
            year_str@,
        )->Some_0,
        spec_parse_i32(year_str@) is None ==> r is Err && r->Err_0@ == "Invalid year"@,
{
    match parse_i32_str(year_str) {
        Some(y) => Ok(y),
        None => Err("Invalid year"),
    }
}

/// The date the first three tokens of a split date string denote, or
/// `None` when the day or year does not parse or the triple is not a
/// real date. An unrecognized month name falls back to January.
pub open spec fn spec_convert_date(toks: Seq<Seq<char>>) -> Option<CalendarDate>
    recommends
        toks.len() >= 3,
{
    let day_o = spec_parse_day(toks[0]);
    let year_o = spec_parse_i32(toks[2]);
    let m = RawMonth::spec_from_name(toks[1]).spec_number();
    match (day_o, year_o) {
        (Some(d), Some(y)) => if valid_ymd(y as int, m as int, d as int) {
            Some(CalendarDate { year: y, month: m, day: d })
        } else {
            None
        },
        _ => None,
    }
}

/// Turn the tokens of a date string into a calendar date; `Err` exactly
/// when the day or year does not parse or the triple is not a real date.
pub fn convert_date(date_vec: Vec<&str>) -> (r: Result<CalendarDate, &'static str>)
    requires
        date_vec@.len() >= 3,
    ensures
        spec_convert_date(date_vec.deep_view()) is Some ==> r is Ok && r->Ok_0
            == spec_convert_date(date_vec.deep_view())->Some_0,
        spec_convert_date(date_vec.deep_view()) is None ==> r is Err && r->Err_0@
            == "Invalid date"@,
{
    proof {
        assert(date_vec.deep_view()[0] == date_vec@[0]@);
        assert(date_vec.deep_view()[1] == date_vec@[1]@);
        assert(date_vec.deep_view()[2] == date_vec@[2]@);
    }
    let day_r = parse_day_str(date_vec[0]);
    let year_r = parse_year_str(date_vec[2]);
    let month = RawMonth::from_name(date_vec[1]).number();
    match (day_r, year_r) {
        (Ok(d), Ok(y)) => match CalendarDate::new(y, month, d) {
            Some(cd) => Ok(cd),
            None => Err("Invalid date"),
        },
        _ => Err("Invalid date"),
    }
}

/// The calendar date a raw date string denotes, or `InvalidDate`.
pub open spec fn spec_normalize_date(s: Seq<char>) -> Result<CalendarDate, DateError> {
    let toks = split_on(s, ' ');
    if toks.len() >= 3 {
        match spec_convert_date(toks) {
            Some(d) => Ok(d),
            None => Err(DateError::InvalidDate),
        }
    } else {
        Err(DateError::InvalidDate)
    }
}

/// Parse a "day-ordinal month year" string into a calendar date; fails
/// with `InvalidDate` when the string has fewer than three tokens, the
/// day or year does not parse as an integer, or the triple is not a
/// real Gregorian date.
pub fn normalize_date(text: &str) -> (r: Result<CalendarDate, DateError>)
    ensures
        r == spec_normalize_date(text@),
{
    let toks = match split_date(text) {
        Ok(v) => v,
        Err(_) => {
            return Err(DateError::InvalidDate);
        },
    };
    if toks.len() < 3 {
        return Err(DateError::InvalidDate);
    }
    match convert_date(toks) {
        Ok(d) => Ok(d),
        Err(_) => Err(DateError::InvalidDate),
    }
}

/// The digit character for one decimal digit.
pub open spec fn digit_char(d: int) -> char
    recommends
        0 <= d <= 9,
{
    ((d + 48) as u8) as char
}

/// The decimal digit string of a nonnegative number, most significant
/// digit first, no sign and no leading zeros (a lone zero for 0).
pub open spec fn dec_digits(n: int) -> Seq<char>
    recommends
        n >= 0,
    decreases n,
    via dec_digits_decreases
{
    if n < 10 {
        seq![digit_char(n)]
    } else {
        dec_digits(n / 10).push(digit_char(n % 10))
    }
}

#[via_fn]
proof fn dec_digits_decreases(n: int) {
    if n >= 10 {
        lemma_div_pos_is_pos(n, 10);
        lemma_div_is_strictly_smaller(n, 10);
    }
}

/// The decimal string of a year, a leading minus sign for a negative
/// one.
pub open spec fn format_year(y: int) -> Seq<char> {
    if y < 0 {
        seq!['-'] + dec_digits(-y)
    } else {
        dec_digits(y)
    }
}

/// The English name of month `m`.
pub open spec fn month_name(m: int) -> Seq<char>
    recommends
        1 <= m <= 12,
{
    if m == 1 {
        "January"@
    } else if m == 2 {
        "February"@
    } else if m == 3 {
        "March"@
    } else if m == 4 {
        "April"@
    } else if m == 5 {
        "May"@
    } else if m == 6 {
        "June"@
    } else if m == 7 {
        "July"@
    } else if m == 8 {
        "August"@
    } else if m == 9 {
        "September"@
    } else if m == 10 {
        "October"@
    } else if m == 11 {
        "November"@
    } else {
        "December"@
    }
}

/// A date written back in the raw shape: day digits, a two-character
/// ordinal suffix, the month name and the year, space-separated.
pub open spec fn format_date_str(d: int, suffix: Seq<char>, m: int, y: int) -> Seq<char> {
    dec_digits(d) + suffix + seq![' '] + month_name(m) + seq![' '] + format_year(y)
}

/// Printing a number and reading it back gives the number again.
proof fn lemma_dec_digits_val(n: int)
    requires
        n >= 0,
    ensures
        dec_digits(n).len() >= 1,
        all_digits(dec_digits(n)),
        digits_val(dec_digits(n)) == n,
        forall|i: int| 0 <= i < dec_digits(n).len() ==> dec_digits(n)[i] != ' '
            && dec_digits(n)[i] != '-' && dec_digits(n)[i] != '+',
    decreases n,
{
    if n < 10 {
        let c = digit_char(n);
        assert(is_digit(c));
        assert(seq![c].drop_last() =~= Seq::<char>::empty());
        assert(digits_val(Seq::<char>::empty()) == 0);
        assert(digit_val(c) == n);
    } else {
        lemma_div_pos_is_pos(n, 10);
        lemma_div_is_strictly_smaller(n, 10);
        lemma_fundamental_div_mod(n, 10);
        lemma_dec_digits_val(n / 10);
        let pre = dec_digits(n / 10);
        let c = digit_char(n % 10);
        assert(is_digit(c));
        assert(pre.push(c).drop_last() =~= pre);
        assert(digits_val(pre.push(c)) == (n / 10) * 10 + (n % 10));
    }
}

/// The month names hold no space, and each one names its own month.
#[verifier::rlimit(100)]
proof fn lemma_month_name_props(m: int)
    requires
        1 <= m <= 12,
    ensures
        forall|i: int| 0 <= i < month_name(m).len() ==> month_name(m)[i] != ' ',
        RawMonth::spec_from_name(month_name(m)).spec_number() == m,
{
    if m == 1 {
        assert(forall|i: int| 0 <= i < month_name(m).len() ==> month_name(m)[i] != ' ') by {
            reveal_strlit("January");
        }
        assert(RawMonth::spec_from_name(month_name(m)) == RawMonth::Jan);
    } else if m == 2 {
        assert(month_name(m) != "January"@) by {
            reveal_strlit("January");
            reveal_strlit("February");
            assert("February"@.len() == 8);
            assert("January"@.len() == 7);
        }
        assert(forall|i: int| 0 <= i < month_name(m).len() ==> month_name(m)[i] != ' ') by {
            reveal_strlit("February");
        }
        assert(RawMonth::spec_from_name(month_name(m)) == RawMonth::Feb);
    } else if m == 3 {
        assert(month_name(m) != "January"@) by {
            reveal_strlit("January");
            reveal_strlit("March");
            assert("March"@.len() == 5);
            assert("January"@.len() == 7);
        }
        assert(month_name(m) != "February"@) by {
            reveal_strlit("February");
            reveal_strlit("March");
            assert("March"@.len() == 5);
            assert("February"@.len() == 8);
        }
        assert(forall|i: int| 0 <= i < month_name(m).len() ==> month_name(m)[i] != ' ') by {
            reveal_strlit("March");
        }
        assert(RawMonth::spec_from_name(month_name(m)) == RawMonth::Mar);
    } else if m == 4 {
        assert(month_name(m) != "January"@) by {
            reveal_strlit("January");
            reveal_strlit("April");
            assert("April"@.len() == 5);
            assert("January"@.len() == 7);
        }
        assert(month_name(m) != "February"@) by {
            reveal_strlit("February");
            reveal_strlit("April");
            assert("April"@.len() == 5);
            assert("February"@.len() == 8);
        }
        assert(month_name(m) != "March"@) by {
            reveal_strlit("March");
            reveal_strlit("April");
            assert("April"@[0] == 'A');
            assert("March"@[0] == 'M');
        }
        assert(forall|i: int| 0 <= i < month_name(m).len() ==> month_name(m)[i] != ' ') by {
            reveal_strlit("April");
        }
        assert(RawMonth::spec_from_name(month_name(m)) == RawMonth::Apr);
    } else if m == 5 {
        assert(month_name(m) != "January"@) by {
            reveal_strlit("January");
            reveal_strlit("May");
            assert("May"@.len() == 3);
            assert("January"@.len() == 7);
        }
        assert(month_name(m) != "February"@) by {
            reveal_strlit("February");
            reveal_strlit("May");
            assert("May"@.len() == 3);
            assert("February"@.len() == 8);
        }
        assert(month_name(m) != "March"@) by {
            reveal_strlit("March");
            reveal_strlit("May");
            assert("May"@.len() == 3);
            assert("March"@.len() == 5);
        }
        assert(month_name(m) != "April"@) by {
            reveal_strlit("April");
            reveal_strlit("May");
            assert("May"@.len() == 3);
            assert("April"@.len() == 5);
        }
        assert(forall|i: int| 0 <= i < month_name(m).len() ==> month_name(m)[i] != ' ') by {
            reveal_strlit("May");
        }
        assert(RawMonth::spec_from_name(month_name(m)) == RawMonth::May);
    } else if m == 6 {
        assert(month_name(m) != "January"@) by {
            reveal_strlit("January");
            reveal_strlit("June");
            assert("June"@.len() == 4);
            assert("January"@.len() == 7);
        }
        assert(month_name(m) != "February"@) by {
            reveal_strlit("February");
            reveal_strlit("June");
            assert("June"@.len() == 4);
            assert("February"@.len() == 8);
        }
        assert(month_name(m) != "March"@) by {
            reveal_strlit("March");
            reveal_strlit("June");
            assert("June"@.len() == 4);
            assert("March"@.len() == 5);
        }
        assert(month_name(m) != "April"@) by {
            reveal_strlit("April");
            reveal_strlit("June");
            assert("June"@.len() == 4);
            assert("April"@.len() == 5);
        }
        assert(month_name(m) != "May"@) by {
            reveal_strlit("May");
            reveal_strlit("June");
            assert("June"@.len() == 4);
            assert("May"@.len() == 3);
        }
        assert(forall|i: int| 0 <= i < month_name(m).len() ==> month_name(m)[i] != ' ') by {
            reveal_strlit("June");
        }
        assert(RawMonth::spec_from_name(month_name(m)) == RawMonth::Jun);
    } else if m == 7 {
        assert(month_name(m) != "January"@) by {
            reveal_strlit("January");
            reveal_strlit("July");
            assert("July"@.len() == 4);
            assert("January"@.len() == 7);
        }
        assert(month_name(m) != "February"@) by {
            reveal_strlit("February");
            reveal_strlit("July");
            assert("July"@.len() == 4);
            assert("February"@.len() == 8);
        }
        assert(month_name(m) != "March"@) by {
            reveal_strlit("March");
            reveal_strlit("July");
            assert("July"@.len() == 4);
            assert("March"@.len() == 5);
        }
        assert(month_name(m) != "April"@) by {
            reveal_strlit("April");
            reveal_strlit("July");
            assert("July"@.len() == 4);
            assert("April"@.len() == 5);
        }
        assert(month_name(m) != "May"@) by {
            reveal_strlit("May");
            reveal_strlit("July");
            assert("July"@.len() == 4);
            assert("May"@.len() == 3);
        }
        assert(month_name(m) != "June"@) by {
            reveal_strlit("June");
            reveal_strlit("July");
            assert("July"@[2] == 'l');
            assert("June"@[2] == 'n');
        }
        assert(forall|i: int| 0 <= i < month_name(m).len() ==> month_name(m)[i] != ' ') by {
            reveal_strlit("July");
        }
        assert(RawMonth::spec_from_name(month_name(m)) == RawMonth::Jul);
    } else if m == 8 {
        assert(month_name(m) != "January"@) by {
            reveal_strlit("January");
            reveal_strlit("August");
            assert("August"@.len() == 6);
            assert("January"@.len() == 7);
        }
        assert(month_name(m) != "February"@) by {
            reveal_strlit("February");
            reveal_strlit("August");
            assert("August"@.len() == 6);
            assert("February"@.len() == 8);
        }
        assert(month_name(m) != "March"@) by {
            reveal_strlit("March");
            reveal_strlit("August");
            assert("August"@.len() == 6);
            assert("March"@.len() == 5);
        }
        assert(month_name(m) != "April"@) by {
            reveal_strlit("April");
            reveal_strlit("August");
            assert("August"@.len() == 6);
            assert("April"@.len() == 5);
        }
        assert(month_name(m) != "May"@) by {
            reveal_strlit("May");
            reveal_strlit("August");
            assert("August"@.len() == 6);
            assert("May"@.len() == 3);
        }
        assert(month_name(m) != "June"@) by {
            reveal_strlit("June");
            reveal_strlit("August");
            assert("August"@.len() == 6);
            assert("June"@.len() == 4);
        }
        assert(month_name(m) != "July"@) by {
            reveal_strlit("July");
            reveal_strlit("August");
            assert("August"@.len() == 6);
            assert("July"@.len() == 4);
        }
        assert(forall|i: int| 0 <= i < month_name(m).len() ==> month_name(m)[i] != ' ') by {
            reveal_strlit("August");
        }
        assert(RawMonth::spec_from_name(month_name(m)) == RawMonth::Aug);
    } else if m == 9 {
        assert(month_name(m) != "January"@) by {
            reveal_strlit("January");
            reveal_strlit("September");
            assert("September"@.len() == 9);
            assert("January"@.len() == 7);
        }
        assert(month_name(m) != "February"@) by {
            reveal_strlit("February");
            reveal_strlit("September");
            assert("September"@.len() == 9);
            assert("February"@.len() == 8);
        }
        assert(month_name(m) != "March"@) by {
            reveal_strlit("March");
            reveal_strlit("September");
            assert("September"@.len() == 9);
            assert("March"@.len() == 5);
        }
        assert(month_name(m) != "April"@) by {
            reveal_strlit("April");
            reveal_strlit("September");
            assert("September"@.len() == 9);
            assert("April"@.len() == 5);
        }
        assert(month_name(m) != "May"@) by {
            reveal_strlit("May");
            reveal_strlit("September");
            assert("September"@.len() == 9);
            assert("May"@.len() == 3);
        }
        assert(month_name(m) != "June"@) by {
            reveal_strlit("June");
            reveal_strlit("September");
            assert("September"@.len() == 9);
            assert("June"@.len() == 4);
        }
        assert(month_name(m) != "July"@) by {
            reveal_strlit("July");
            reveal_strlit("September");
            assert("September"@.len() == 9);
            assert("July"@.len() == 4);
        }
        assert(month_name(m) != "August"@) by {
            reveal_strlit("August");
            reveal_strlit("September");
            assert("September"@.len() == 9);
            assert("August"@.len() == 6);
        }
        assert(forall|i: int| 0 <= i < month_name(m).len() ==> month_name(m)[i] != ' ') by {
            reveal_strlit("September");
        }
        assert(RawMonth::spec_from_name(month_name(m)) == RawMonth::Sept);
    } else if m == 10 {
        assert(month_name(m) != "January"@) by {
            reveal_strlit("January");
            reveal_strlit("October");
            assert("October"@[0] == 'O');
            assert("January"@[0] == 'J');
        }
        assert(month_name(m) != "February"@) by {
            reveal_strlit("February");
            reveal_strlit("October");
            assert("October"@.len() == 7);
            assert("February"@.len() == 8);
        }
        assert(month_name(m) != "March"@) by {
            reveal_strlit("March");
            reveal_strlit("October");
            assert("October"@.len() == 7);
            assert("March"@.len() == 5);
        }
        assert(month_name(m) != "April"@) by {
            reveal_strlit("April");
            reveal_strlit("October");
            assert("October"@.len() == 7);
            assert("April"@.len() == 5);
        }
        assert(month_name(m) != "May"@) by {
            reveal_strlit("May");
            reveal_strlit("October");
            assert("October"@.len() == 7);
            assert("May"@.len() == 3);
        }
        assert(month_name(m) != "June"@) by {
            reveal_strlit("June");
            reveal_strlit("October");
            assert("October"@.len() == 7);
            assert("June"@.len() == 4);
        }
        assert(month_name(m) != "July"@) by {
            reveal_strlit("July");
            reveal_strlit("October");
            assert("October"@.len() == 7);
            assert("July"@.len() == 4);
        }
        assert(month_name(m) != "August"@) by {
            reveal_strlit("August");
            reveal_strlit("October");
            assert("October"@.len() == 7);
            assert("August"@.len() == 6);
        }
        assert(month_name(m) != "September"@) by {
            reveal_strlit("September");
            reveal_strlit("October");
            assert("October"@.len() == 7);
            assert("September"@.len() == 9);
        }
        assert(forall|i: int| 0 <= i < month_name(m).len() ==> month_name(m)[i] != ' ') by {
            reveal_strlit("October");
        }
        assert(RawMonth::spec_from_name(month_name(m)) == RawMonth::Oct);
    } else if m == 11 {
        assert(month_name(m) != "January"@) by {
            reveal_strlit("January");
            reveal_strlit("November");
            assert("November"@.len() == 8);
            assert("January"@.len() == 7);
        }
        assert(month_name(m) != "February"@) by {
            reveal_strlit("February");
            reveal_strlit("November");
            assert("November"@[0] == 'N');
            assert("February"@[0] == 'F');
        }
        assert(month_name(m) != "March"@) by {
            reveal_strlit("March");
            reveal_strlit("November");
            assert("November"@.len() == 8);
            assert("March"@.len() == 5);
        }
        assert(month_name(m) != "April"@) by {
            reveal_strlit("April");
            reveal_strlit("November");
            assert("November"@.len() == 8);
            assert("April"@.len() == 5);
        }
        assert(month_name(m) != "May"@) by {
            reveal_strlit("May");
            reveal_strlit("November");
            assert("November"@.len() == 8);
            assert("May"@.len() == 3);
        }
        assert(month_name(m) != "June"@) by {
            reveal_strlit("June");
            reveal_strlit("November");
            assert("November"@.len() == 8);
            assert("June"@.len() == 4);
        }
        assert(month_name(m) != "July"@) by {
            reveal_strlit("July");
            reveal_strlit("November");
            assert("November"@.len() == 8);
            assert("July"@.len() == 4);
        }
        assert(month_name(m) != "August"@) by {
            reveal_strlit("August");
            reveal_strlit("November");
            assert("November"@.len() == 8);
            assert("August"@.len() == 6);
        }
        assert(month_name(m) != "September"@) by {
            reveal_strlit("September");
            reveal_strlit("November");
            assert("November"@.len() == 8);
            assert("September"@.len() == 9);
        }
        assert(month_name(m) != "October"@) by {
            reveal_strlit("October");
            reveal_strlit("November");
            assert("November"@.len() == 8);
            assert("October"@.len() == 7);
        }
        assert(forall|i: int| 0 <= i < month_name(m).len() ==> month_name(m)[i] != ' ') by {
            reveal_strlit("November");
        }
        assert(RawMonth::spec_from_name(month_name(m)) == RawMonth::Nov);
    } else {
        assert(month_name(m) != "January"@) by {
            reveal_strlit("January");
            reveal_strlit("December");
            assert("December"@.len() == 8);
            assert("January"@.len() == 7);
        }
        assert(month_name(m) != "February"@) by {
            reveal_strlit("February");
            reveal_strlit("December");
            assert("December"@[0] == 'D');
            assert("February"@[0] == 'F');
        }
        assert(month_name(m) != "March"@) by {
            reveal_strlit("March");
            reveal_strlit("December");
            assert("December"@.len() == 8);
            assert("March"@.len() == 5);
        }
        assert(month_name(m) != "April"@) by {
            reveal_strlit("April");
            reveal_strlit("December");
            assert("December"@.len() == 8);
            assert("April"@.len() == 5);
        }
        assert(month_name(m) != "May"@) by {
            reveal_strlit("May");
            reveal_strlit("December");
            assert("December"@.len() == 8);
            assert("May"@.len() == 3);
        }
        assert(month_name(m) != "June"@) by {
            reveal_strlit("June");
            reveal_strlit("December");
            assert("December"@.len() == 8);
            assert("June"@.len() == 4);
        }
        assert(month_name(m) != "July"@) by {
            reveal_strlit("July");
            reveal_strlit("December");
            assert("December"@.len() == 8);
            assert("July"@.len() == 4);
        }
        assert(month_name(m) != "August"@) by {
            reveal_strlit("August");
            reveal_strlit("December");
            assert("December"@.len() == 8);
            assert("August"@.len() == 6);
        }
        assert(month_name(m) != "September"@) by {
            reveal_strlit("September");
            reveal_strlit("December");
            assert("December"@.len() == 8);
            assert("September"@.len() == 9);
        }
        assert(month_name(m) != "October"@) by {
            reveal_strlit("October");
            reveal_strlit("December");
            assert("December"@.len() == 8);
            assert("October"@.len() == 7);
        }
        assert(month_name(m) != "November"@) by {
            reveal_strlit("November");
            reveal_strlit("December");
            assert("December"@[0] == 'D');
            assert("November"@[0] == 'N');
        }
        assert(forall|i: int| 0 <= i < month_name(m).len() ==> month_name(m)[i] != ' ') by {
            reveal_strlit("December");
        }
        assert(RawMonth::spec_from_name(month_name(m)) == RawMonth::Dec);
    }
}

/// For every valid "Dth Month YYYY" string — day digits with a
/// two-character, space-free ordinal suffix, a real English month name
/// and a year — normalization returns exactly that (year, month, day)
/// triple; and a triple so returned reformats, with a matching suffix,
/// to the very same string.
pub proof fn lemma_normalize_date_formatted(d: u32, suffix: Seq<char>, m: u32, y: i32)
    requires
        1 <= d <= 31,
        1 <= m <= 12,
        suffix.len() == 2,
        forall|i: int| 0 <= i < suffix.len() ==> suffix[i] != ' ',
        valid_ymd(y as int, m as int, d as int),
    ensures
        spec_normalize_date(format_date_str(d as int, suffix, m as int, y as int)) == Ok::<
            CalendarDate,
            DateError,
        >(CalendarDate { year: y, month: m, day: d }),
        ({
            let cd = CalendarDate { year: y, month: m, day: d };
            format_date_str(cd.day as int, suffix, cd.month as int, cd.year as int)
                == format_date_str(d as int, suffix, m as int, y as int)
        }),
{
    let full = format_date_str(d as int, suffix, m as int, y as int);
    let tok0 = dec_digits(d as int) + suffix;
    let mn = month_name(m as int);
    let ys = format_year(y as int);
    lemma_dec_digits_val(d as int);
    lemma_month_name_props(m as int);
    if y < 0 {
        lemma_dec_digits_val(-(y as int));
    } else {
        lemma_dec_digits_val(y as int);
    }

    // The string splits into exactly the three tokens it was built from.
    assert(full =~= tok0 + seq![' '] + (mn + seq![' '] + ys));
    lemma_split_on_concat(tok0, mn + seq![' '] + ys, ' ');
    lemma_split_on_concat(mn, ys, ' ');
    lemma_split_on_no_sep(ys, ' ');
    let toks = split_on(full, ' ');
    assert(toks =~= seq![tok0, mn, ys]);

    // The day token parses back to the day.
    assert(tok0.take(tok0.len() - 2) =~= dec_digits(d as int));
    assert(unsigned_digits(dec_digits(d as int)) == dec_digits(d as int));
    assert(spec_parse_day(tok0) == Some(d));

    // The year token parses back to the year.
    if y < 0 {
        assert(ys[0] == '-');
        assert(ys.drop_first() =~= dec_digits(-(y as int)));
        assert(sign_mag(ys) == (true, dec_digits(-(y as int))));
        assert(valid_signed_str(ys));
        assert(spec_parse_i32(ys) == Some(y));
    } else {
        assert(ys == dec_digits(y as int));
        assert(ys[0] != '-' && ys[0] != '+');
        assert(sign_mag(ys) == (false, ys));
        assert(spec_parse_i32(ys) == Some(y));
    }

    assert(spec_convert_date(toks) == Some(CalendarDate { year: y, month: m, day: d }));
}

} // verus!

