//! Calendar days, held as their day number in the proleptic Gregorian calendar
//! (January 1 of year 1 is day 1), with chrono doing the calendar work.

use vstd::prelude::*;
use chrono::Datelike;
use crate::text::{decimal, digit_char};

verus! {

/// The day number of chrono's earliest date, January 1 of year -262143.
pub const MIN_DAY: i32 = -95746129;

/// The day number of chrono's latest date, December 31 of year 262142.
pub const MAX_DAY: i32 = 95745399;

/// The day-and-time layout of poll lines, e.g. `Mon, Mar 04 at 10pm`.
pub const DATE_TIME_FORMAT: &'static str = "%a, %b %d at %I%P";

/// The month/day layout of thread names, e.g. `3/4`.
pub const SHORT_DATE_FORMAT: &'static str = "%-m/%-d";

/// The layout in which users type a first poll day, `mm/dd/yy`.
pub const INPUT_DATE_FORMAT: &'static str = "%D";

/// A calendar day that chrono can represent.
#[derive(PartialEq, Eq, Structural, Debug, Clone, Copy)]
pub struct Date {
    day_number: i32,
}

/// Whether `year` is a leap year of the Gregorian calendar.
pub open spec fn is_leap_year(year: int) -> bool {
    (year % 4 == 0 && year % 100 != 0) || year % 400 == 0
}

/// The number of days in `month` (1 to 12) of `year`.
pub open spec fn days_in_month(year: int, month: int) -> int {
    if month == 2 {
        if is_leap_year(year) {
            29
        } else {
            28
        }
    } else if month == 4 || month == 6 || month == 9 || month == 11 {
        30
    } else {
        31
    }
}

/// The days of `year` before the first of `month`.
pub open spec fn days_before_month(year: int, month: int) -> int
    decreases month,
{
    if month <= 1 {
        0
    } else {
        days_before_month(year, month - 1) + days_in_month(year, month - 1)
    }
}

/// The day number of the first day of `year`, minus one.
pub open spec fn days_before_year(year: int) -> int {
    let y = year - 1;
    y * 365 + y / 4 - y / 100 + y / 400
}

/// The day number of a year, month and day.
pub open spec fn ymd_day_number(year: int, month: int, day: int) -> int {
    days_before_year(year) + days_before_month(year, month) + day
}

/// Whether chrono accepts a year, month and day as a date.
pub open spec fn valid_ymd(year: int, month: int, day: int) -> bool {
    &&& -262143 <= year <= 262142
    &&& 1 <= month <= 12
    &&& 1 <= day <= days_in_month(year, month)
}

/// What chrono's `checked_add_days` gives: the day `n` days later, if chrono can hold it.
pub open spec fn day_plus(day_number: int, n: int) -> Option<int> {
    if n <= i32::MAX && MIN_DAY <= day_number + n <= MAX_DAY {
        Some(day_number + n)
    } else {
        None
    }
}

/// The day of the week, counted from Monday as 0 (day 1 was a Monday).
pub open spec fn weekday_of(day_number: int) -> int {
    (day_number - 1) % 7
}

/// The year, month and day of a day number: the valid calendar date that has it.
pub open spec fn calendar_of(day_number: int) -> (int, int, int) {
    choose|y: int, m: int, d: int| valid_ymd(y, m, d) && ymd_day_number(y, m, d) == day_number
}

/// The number of days in `year`.
pub open spec fn days_in_year(year: int) -> int {
    if is_leap_year(year) {
        366
    } else {
        365
    }
}

proof fn lemma_days_before_next_year(year: int)
    ensures
        days_before_year(year + 1) == days_before_year(year) + days_in_year(year),
{
    let y = year - 1;
    assert(year / 4 - y / 4 == (if year % 4 == 0 { 1int } else { 0 }));
    assert(year / 100 - y / 100 == (if year % 100 == 0 { 1int } else { 0 }));
    assert(year / 400 - y / 400 == (if year % 400 == 0 { 1int } else { 0 }));
}

proof fn lemma_days_before_year_grows(a: int, b: int)
    requires
        a <= b,
    ensures
        days_before_year(a) <= days_before_year(b),
        a < b ==> days_before_year(a + 1) <= days_before_year(b),
    decreases b - a,
{
    if a < b {
        lemma_days_before_next_year(a);
        lemma_days_before_year_grows(a + 1, b);
    }
}

proof fn lemma_days_before_month_grows(year: int, a: int, b: int)
    requires
        1 <= a <= b,
    ensures
        days_before_month(year, a) <= days_before_month(year, b),
        a < b ==> days_before_month(year, a) + days_in_month(year, a) <= days_before_month(year, b),
    decreases b - a,
{
    if a < b {
        lemma_days_before_month_grows(year, a + 1, b);
    }
}

proof fn lemma_day_of_year_range(year: int, month: int, day: int)
    requires
        valid_ymd(year, month, day),
    ensures
        1 <= days_before_month(year, month) + day <= days_in_year(year),
{
    lemma_days_before_month_grows(year, month, 13);
    if month < 13 {
        lemma_days_before_month_grows(year, month, 13);
    }
    reveal_with_fuel(days_before_month, 13);
}

/// A day number belongs to one calendar date only.
pub proof fn lemma_ymd_unique(y1: int, m1: int, d1: int, y2: int, m2: int, d2: int)
    requires
        valid_ymd(y1, m1, d1),
        valid_ymd(y2, m2, d2),
        ymd_day_number(y1, m1, d1) == ymd_day_number(y2, m2, d2),
    ensures
        y1 == y2 && m1 == m2 && d1 == d2,
{
    lemma_day_of_year_range(y1, m1, d1);
    lemma_day_of_year_range(y2, m2, d2);
    if y1 < y2 {
        lemma_days_before_year_grows(y1, y2);
        lemma_days_before_next_year(y1);
    } else if y2 < y1 {
        lemma_days_before_year_grows(y2, y1);
        lemma_days_before_next_year(y2);
    } else if m1 < m2 {
        lemma_days_before_month_grows(y1, m1, m2);
    } else if m2 < m1 {
        lemma_days_before_month_grows(y1, m2, m1);
    }
}

/// The calendar date of the day number of a valid date is that date.
pub proof fn lemma_calendar_of(year: int, month: int, day: int)
    requires
        valid_ymd(year, month, day),
    ensures
        calendar_of(ymd_day_number(year, month, day)) == (year, month, day),
{
    let n = ymd_day_number(year, month, day);
    assert(valid_ymd(year, month, day) && ymd_day_number(year, month, day) == n);
    let (y, m, d) = calendar_of(n);
    lemma_ymd_unique(y, m, d, year, month, day);
}

/// The English three-letter name of month `m` (1 to 12).
pub open spec fn month_abbrev(m: int) -> Seq<char> {
    if m == 1 {
        seq!['J', 'a', 'n']
    } else if m == 2 {
        seq!['F', 'e', 'b']
    } else if m == 3 {
        seq!['M', 'a', 'r']
    } else if m == 4 {
        seq!['A', 'p', 'r']
    } else if m == 5 {
        seq!['M', 'a', 'y']
    } else if m == 6 {
        seq!['J', 'u', 'n']
    } else if m == 7 {
        seq!['J', 'u', 'l']
    } else if m == 8 {
        seq!['A', 'u', 'g']
    } else if m == 9 {
        seq!['S', 'e', 'p']
    } else if m == 10 {
        seq!['O', 'c', 't']
    } else if m == 11 {
        seq!['N', 'o', 'v']
    } else {
        seq!['D', 'e', 'c']
    }
}

/// The English three-letter name of a weekday, counted from Monday as 0.
pub open spec fn weekday_abbrev(w: int) -> Seq<char> {
    if w == 0 {
        seq!['M', 'o', 'n']
    } else if w == 1 {
        seq!['T', 'u', 'e']
    } else if w == 2 {
        seq!['W', 'e', 'd']
    } else if w == 3 {
        seq!['T', 'h', 'u']
    } else if w == 4 {
        seq!['F', 'r', 'i']
    } else if w == 5 {
        seq!['S', 'a', 't']
    } else {
        seq!['S', 'u', 'n']
    }
}

/// The last two decimal digits of `v`, the tens first.
pub open spec fn two_digits(v: int) -> Seq<char> {
    seq![digit_char(((v / 10) % 10) as nat), digit_char((v % 10) as nat)]
}

/// The hour on a twelve-hour clock, from 1 to 12.
pub open spec fn hour12(hour: int) -> int {
    if hour % 12 == 0 {
        12
    } else {
        hour % 12
    }
}

/// `am` before noon, `pm` from noon on.
pub open spec fn am_pm(hour: int) -> Seq<char> {
    if hour < 12 {
        seq!['a', 'm']
    } else {
        seq!['p', 'm']
    }
}

/// A day at a whole hour in the poll-line layout `%a, %b %d at %I%P`, e.g.
/// `Mon, Mar 04 at 10pm`.
pub open spec fn date_time_text(day_number: int, hour: int) -> Seq<char> {
    let (y, m, d) = calendar_of(day_number);
    weekday_abbrev(weekday_of(day_number)) + seq![',', ' '] + month_abbrev(m) + seq![' ']
        + two_digits(d) + seq![' ', 'a', 't', ' '] + two_digits(hour12(hour)) + am_pm(hour)
}

/// A day in the month/day layout `%-m/%-d`, e.g. `3/4`.
pub open spec fn short_date_text(day_number: int) -> Seq<char> {
    let (y, m, d) = calendar_of(day_number);
    decimal(m as nat) + seq!['/'] + decimal(d as nat)
}

/// What chrono's `NaiveDate::parse_from_str` reads from a text in a given layout.
pub uninterp spec fn chrono_parsed_day(text: Seq<char>, format: Seq<char>) -> Option<int>;

/// Calls chrono's `NaiveDate::from_ymd_opt` and reads back `num_days_from_ce`. Claims
/// that a date comes back exactly for valid calendar dates in chrono's range, with the
/// day number of the proleptic Gregorian calendar, within chrono's range.
#[verifier::external_body]
fn chrono_from_ymd(year: i32, month: u32, day: u32) -> (res: Option<i32>)
    ensures
        res is Some <==> valid_ymd(year as int, month as int, day as int),
        res matches Some(n) ==> n == ymd_day_number(year as int, month as int, day as int)
            && MIN_DAY <= n <= MAX_DAY,
{
    match chrono::NaiveDate::from_ymd_opt(year, month, day) {
        Some(d) => Some(d.num_days_from_ce()),
        None => None,
    }
}

/// Calls chrono's `NaiveDate::checked_add_days`. Claims the day `n` later, or nothing
/// where chrono cannot hold it, as its documentation says.
#[verifier::external_body]
fn chrono_add_days(day_number: i32, n: u64) -> (res: Option<i32>)
    requires
        MIN_DAY <= day_number <= MAX_DAY,
    ensures
        match day_plus(day_number as int, n as int) {
            Some(m) => res == Some(m as i32),
            None => res is None,
        },
{
    let date = chrono::NaiveDate::from_num_days_from_ce_opt(day_number).unwrap();
    match date.checked_add_days(chrono::Days::new(n)) {
        Some(d) => Some(d.num_days_from_ce()),
        None => None,
    }
}

/// Calls chrono's `NaiveDate::checked_sub_days`. Claims the day `n` earlier, or nothing
/// where chrono cannot hold it, as its documentation says.
#[verifier::external_body]
fn chrono_sub_days(day_number: i32, n: u64) -> (res: Option<i32>)
    requires
        MIN_DAY <= day_number <= MAX_DAY,
    ensures
        n <= i32::MAX && MIN_DAY <= day_number - n ==> res == Some((day_number - n) as i32),
        !(n <= i32::MAX && MIN_DAY <= day_number - n) ==> res is None,
{
    let date = chrono::NaiveDate::from_num_days_from_ce_opt(day_number).unwrap();
    match date.checked_sub_days(chrono::Days::new(n)) {
        Some(d) => Some(d.num_days_from_ce()),
        None => None,
    }
}

/// Calls chrono's `Datelike::weekday` and reads `num_days_from_monday`. Claims the
/// weekday of the proleptic Gregorian calendar, in which day 1 was a Monday.
#[verifier::external_body]
fn chrono_weekday(day_number: i32) -> (res: u32)
    requires
        MIN_DAY <= day_number <= MAX_DAY,
    ensures
        res == weekday_of(day_number as int),
{
    chrono::NaiveDate::from_num_days_from_ce_opt(day_number).unwrap().weekday().num_days_from_monday()
}

/// Calls chrono's `NaiveDateTime::format` for the day at `hour`:00 and writes it out, in the
/// poll-line layout. Claims the text that chrono's formatting code writes for that layout
/// without a locale: the English short weekday and month names, the day and the
/// twelve-hour clock hour as two digits, and `am` or `pm`.
#[verifier::external_body]
fn chrono_format_date_time(day_number: i32, hour: u32, format: &str) -> (res: String)
    requires
        MIN_DAY <= day_number <= MAX_DAY,
        hour < 24,
        format@ == DATE_TIME_FORMAT@,
    ensures
        res@ == date_time_text(day_number as int, hour as int),
{
    let date = chrono::NaiveDate::from_num_days_from_ce_opt(day_number).unwrap();
    date.and_hms_opt(hour, 0, 0).unwrap().format(format).to_string()
}

/// Calls chrono's `NaiveDate::format` and writes it out, in the month/day layout. Claims
/// the text that chrono's formatting code writes for `%-m/%-d`: the month and the day in
/// decimal without padding, split by `/`.
#[verifier::external_body]
fn chrono_format_date(day_number: i32, format: &str) -> (res: String)
    requires
        MIN_DAY <= day_number <= MAX_DAY,
        format@ == SHORT_DATE_FORMAT@,
    ensures
        res@ == short_date_text(day_number as int),
{
    let date = chrono::NaiveDate::from_num_days_from_ce_opt(day_number).unwrap();
    date.format(format).to_string()
}

/// Calls chrono's `NaiveDate::parse_from_str`. Claims that the result is the named
/// `chrono_parsed_day` of its arguments, and a day that chrono can hold.
#[verifier::external_body]
fn chrono_parse_date(text: &str, format: &str) -> (res: Option<i32>)
    ensures
        res matches Some(n) ==> MIN_DAY <= n <= MAX_DAY && chrono_parsed_day(text@, format@)
            == Some(n as int),
        res is None ==> chrono_parsed_day(text@, format@) is None,
{
    match chrono::NaiveDate::parse_from_str(text, format) {
        Ok(d) => Some(d.num_days_from_ce()),
        Err(_) => None,
    }
}

impl Date {
    #[verifier::type_invariant]
    spec fn in_range(self) -> bool {
        MIN_DAY <= self.day_number <= MAX_DAY
    }

    /// The day number of this date (January 1 of year 1 is day 1).
    pub closed spec fn day(self) -> int {
        self.day_number as int
    }

    /// The date of a day number, if chrono can hold it.
    pub fn from_day_number(day_number: i32) -> (res: Option<Date>)
        ensures
            MIN_DAY <= day_number <= MAX_DAY ==> res is Some && res->0.day() == day_number,
            !(MIN_DAY <= day_number <= MAX_DAY) ==> res is None,
    {
        if MIN_DAY <= day_number && day_number <= MAX_DAY {
            Some(Date { day_number })
        } else {
            None
        }
    }

    /// The day number of this date.
    pub fn day_number(&self) -> (res: i32)
        ensures
            res == self.day(),
            MIN_DAY <= res <= MAX_DAY,
    {
        proof {
            use_type_invariant(self);
        }
        self.day_number
    }

    /// The date of a year, month and day; nothing for an invalid or out-of-range date.
    pub fn from_ymd_opt(year: i32, month: u32, day: u32) -> (res: Option<Date>)
        ensures
            res is Some <==> valid_ymd(year as int, month as int, day as int),
            res matches Some(d) ==> d.day() == ymd_day_number(
                year as int,
                month as int,
                day as int,
            ),
    {
        match chrono_from_ymd(year, month, day) {
            Some(n) => {
                Some(Date { day_number: n })
            },
            None => None,
        }
    }

    /// The date `n` days later; nothing past chrono's range.
    pub fn checked_add_days(&self, n: u64) -> (res: Option<Date>)
        ensures
            match day_plus(self.day(), n as int) {
                Some(m) => res is Some && res->0.day() == m,
                None => res is None,
            },
    {
        proof {
            use_type_invariant(self);
        }
        match chrono_add_days(self.day_number, n) {
            Some(m) => Some(Date { day_number: m }),
            None => None,
        }
    }

    /// The date `n` days earlier; nothing before chrono's range.
    pub fn checked_sub_days(&self, n: u64) -> (res: Option<Date>)
        ensures
            n <= i32::MAX && MIN_DAY <= self.day() - n ==> res is Some && res->0.day() == self.day()
                - n,
            !(n <= i32::MAX && MIN_DAY <= self.day() - n) ==> res is None,
    {
        proof {
            use_type_invariant(self);
        }
        match chrono_sub_days(self.day_number, n) {
            Some(m) => Some(Date { day_number: m }),
            None => None,
        }
    }

    /// The day of the week, from Monday as 0 to Sunday as 6.
    pub fn weekday(&self) -> (res: u32)
        ensures
            res == weekday_of(self.day()),
            res < 7,
    {
        proof {
            use_type_invariant(self);
        }
        chrono_weekday(self.day_number)
    }

    /// This date at `hour`:00 in the poll-line layout.
    pub fn format_at_hour(&self, hour: u32) -> (res: String)
        requires
            hour < 24,
        ensures
            res@ == date_time_text(self.day(), hour as int),
    {
        proof {
            use_type_invariant(self);
        }
        chrono_format_date_time(self.day_number, hour, DATE_TIME_FORMAT)
    }

    /// This date in the month/day layout.
    pub fn format_short(&self) -> (res: String)
        ensures
            res@ == short_date_text(self.day()),
    {
        proof {
            use_type_invariant(self);
        }
        chrono_format_date(self.day_number, SHORT_DATE_FORMAT)
    }

    /// The date that a user typed as `mm/dd/yy`, if chrono reads one.
    pub fn parse_input(text: &str) -> (res: Option<Date>)
        ensures
            match chrono_parsed_day(text@, INPUT_DATE_FORMAT@) {
                Some(n) => res is Some && res->0.day() == n,
                None => res is None,
            },
    {
        match chrono_parse_date(text, INPUT_DATE_FORMAT) {
            Some(n) => Some(Date { day_number: n }),
            None => None,
        }
    }
}

} // verus!
