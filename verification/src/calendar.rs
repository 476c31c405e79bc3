use chrono::{Datelike, NaiveDate};
use vstd::prelude::*;

verus! {

/// The day numbers (counted from 1 January of year 1 as day 1, in the
/// proleptic Gregorian calendar) of the first and the last date that
/// `chrono::NaiveDate` can represent: 1 January 262144 BCE and
/// 31 December 262142 CE.
pub const MIN_DAY: i32 = -95_746_129;
pub const MAX_DAY: i32 = 95_745_399;

/// The day number of the date `year-month-day`, or `None` when there is no
/// such date in the range `chrono` covers (as computed by
/// `chrono::NaiveDate::from_ymd_opt`).
pub uninterp spec fn ymd_day(year: int, month: int, day: int) -> Option<int>;

/// The month (1 to 12) of the date with the given day number, as computed by
/// `chrono`.
pub uninterp spec fn month_of_day(day: int) -> int;

/// The day of the month (1 to 31) of the date with the given day number, as
/// computed by `chrono`.
pub uninterp spec fn day_of_month(day: int) -> int;

/// The day number of the date written in `text` in the `%Y-%m-%d` format, or
/// `None` when `chrono::NaiveDate::parse_from_str` rejects it.
pub uninterp spec fn iso_date_day(text: Seq<char>) -> Option<int>;

/// Calls `chrono::NaiveDate::from_ymd_opt` and counts the days of the result
/// with `num_days_from_ce`; every date `chrono` gives lies in its range.
#[verifier::external_body]
fn day_from_ymd(year: i32, month: u32, day: u32) -> (r: Option<i32>)
    ensures
        r matches Some(n) ==> ymd_day(year as int, month as int, day as int) == Some(n as int),
        r is None ==> ymd_day(year as int, month as int, day as int) is None,
        r matches Some(n) ==> MIN_DAY <= n <= MAX_DAY,
{
    match NaiveDate::from_ymd_opt(year, month, day) {
        Some(date) => Some(date.num_days_from_ce()),
        None => None,
    }
}

/// Calls `chrono::NaiveDate::from_num_days_from_ce_opt` on a day number in
/// range, which always gives a date, and reads its `month`, which is 1 to 12.
#[verifier::external_body]
fn month_from_day(day: i32) -> (month: u32)
    requires
        MIN_DAY <= day <= MAX_DAY,
    ensures
        month as int == month_of_day(day as int),
        1 <= month <= 12,
{
    NaiveDate::from_num_days_from_ce_opt(day).unwrap().month()
}

/// Calls `chrono::NaiveDate::from_num_days_from_ce_opt` on a day number in
/// range, which always gives a date, and reads its `day`, which is 1 to 31.
#[verifier::external_body]
fn day_of_month_from_day(day: i32) -> (d: u32)
    requires
        MIN_DAY <= day <= MAX_DAY,
    ensures
        d as int == day_of_month(day as int),
        1 <= d <= 31,
{
    NaiveDate::from_num_days_from_ce_opt(day).unwrap().day()
}

/// Calls `chrono::NaiveDate::parse_from_str` with the format `%Y-%m-%d` and
/// counts the days of the result with `num_days_from_ce`.
#[verifier::external_body]
fn day_from_iso_text(text: &str) -> (r: Option<i32>)
    ensures
        r matches Some(n) ==> iso_date_day(text@) == Some(n as int),
        r is None ==> iso_date_day(text@) is None,
        r matches Some(n) ==> MIN_DAY <= n <= MAX_DAY,
{
    match NaiveDate::parse_from_str(text, "%Y-%m-%d") {
        Ok(date) => Some(date.num_days_from_ce()),
        Err(_) => None,
    }
}

/// A calendar date, held as its day number: 1 January of year 1 is day 1 and
/// consecutive dates have consecutive numbers.
#[derive(Clone, Copy, Debug, PartialEq, Eq, Structural)]
pub struct Date {
    days: i32,
}

impl Date {
    #[verifier::type_invariant]
    spec fn in_range(self) -> bool {
        MIN_DAY <= self.days <= MAX_DAY
    }

    /// The day number of the date.
    pub closed spec fn day(self) -> int {
        self.days as int
    }

    /// Every date has a day number in `chrono`'s range.
    pub fn day_number(&self) -> (n: i32)
        ensures
            n == self.day(),
            MIN_DAY <= n <= MAX_DAY,
    {
        proof {
            use_type_invariant(self);
        }
        self.days
    }

    /// The date with the given day number, if `chrono` can represent it.
    pub fn from_day_number(n: i32) -> (r: Option<Date>)
        ensures
            r matches Some(d) ==> d.day() == n,
            r is Some <==> MIN_DAY <= n <= MAX_DAY,
    {
        if MIN_DAY <= n && n <= MAX_DAY {
            Some(Date { days: n })
        } else {
            None
        }
    }

    /// The date `year-month-day`, if it exists.
    pub fn from_ymd(year: i32, month: u32, day: u32) -> (r: Option<Date>)
        ensures
            r matches Some(d) ==> ymd_day(year as int, month as int, day as int) == Some(d.day()),
            r is None ==> ymd_day(year as int, month as int, day as int) is None,
    {
        match day_from_ymd(year, month, day) {
            Some(n) => Some(Date { days: n }),
            None => None,
        }
    }

    /// The date written as `YYYY-MM-DD`, if it is one.
    pub fn parse_iso(text: &str) -> (r: Option<Date>)
        ensures
            r matches Some(d) ==> iso_date_day(text@) == Some(d.day()),
            r is None ==> iso_date_day(text@) is None,
    {
        match day_from_iso_text(text) {
            Some(n) => Some(Date { days: n }),
            None => None,
        }
    }

    /// The month of the date, 1 to 12.
    pub fn month(&self) -> (m: u32)
        ensures
            m == month_of_day(self.day()),
            1 <= m <= 12,
    {
        proof {
            use_type_invariant(self);
        }
        month_from_day(self.days)
    }

    /// The day of the month of the date, 1 to 31.
    pub fn month_day(&self) -> (d: u32)
        ensures
            d == day_of_month(self.day()),
            1 <= d <= 31,
    {
        proof {
            use_type_invariant(self);
        }
        day_of_month_from_day(self.days)
    }

    /// The day of the week counted from Sunday (0) to Saturday (6). Day 1 (1
    /// January of year 1) was a Monday, so this is the day number modulo 7.
    pub fn weekday_from_sunday(&self) -> (w: u32)
        ensures
            w as int == self.day() % 7,
            w < 7,
    {
        proof {
            use_type_invariant(self);
        }
        // 95_746_133 = 7 * 13_678_019 keeps the dividend non-negative.
        let shifted = (self.days as i64 + 95_746_133i64) as u64;
        proof {
            vstd::arithmetic::div_mod::lemma_mod_multiples_vanish(
                13_678_019,
                self.days as int,
                7,
            );
        }
        (shifted % 7) as u32
    }
}

} // verus!
