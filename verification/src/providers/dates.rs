//! Dates of release.

use vstd::prelude::*;

use crate::external::ReleaseDate;
use crate::text::cat;

verus! {

/// What `chrono::DateTime::parse_from_str` makes of a text with a format: the calendar date in UTC, or
/// nothing where the text does not fit the format.
pub uninterp spec fn date_time(s: Seq<char>, format: Seq<char>) -> Option<ReleaseDate>;

/// Calls `chrono::DateTime::parse_from_str` and gives the calendar date in UTC. The result is a function
/// of the text and the format.
#[verifier::external_body]
fn parse_date_time(s: &str, format: &str) -> (r: Option<ReleaseDate>)
    ensures
        r == date_time(s@, format@),
{
    let date = chrono::DateTime::parse_from_str(s, format).ok()?.with_timezone(&chrono::Utc);
    Some(
        ReleaseDate {
            year: chrono::Datelike::year(&date),
            month: chrono::Datelike::month(&date),
            day: chrono::Datelike::day(&date),
        },
    )
}

/// Leap years of the Gregorian calendar.
pub open spec fn is_leap(year: int) -> bool {
    year % 4 == 0 && (year % 100 != 0 || year % 400 == 0)
}

/// The number of days of a month.
pub open spec fn days_in(year: int, month: int) -> int {
    if month == 2 {
        if is_leap(year) {
            29
        } else {
            28
        }
    } else if month == 4 || month == 6 || month == 9 || month == 11 {
        30
    } else {
        31
    }
}

/// A day of the calendar, in the range of years that dates have.
pub open spec fn is_day(year: int, month: int, day: int) -> bool {
    -262143 <= year <= 262142 && 1 <= month <= 12 && 1 <= day <= days_in(year, month)
}

/// Calls `chrono::NaiveDate::from_ymd_opt`: a date where there is such a day in the proleptic Gregorian
/// calendar and the year is in range, else nothing.
#[verifier::external_body]
fn day_of_calendar(year: i32, month: u32, day: u32) -> (r: Option<ReleaseDate>)
    ensures
        r == if is_day(year as int, month as int, day as int) {
            Some(ReleaseDate { year, month, day })
        } else {
            None
        },
{
    let date = chrono::NaiveDate::from_ymd_opt(year, month, day)?;
    Some(
        ReleaseDate {
            year: chrono::Datelike::year(&date),
            month: chrono::Datelike::month(&date),
            day: chrono::Datelike::day(&date),
        },
    )
}

/// The date of a premiere, written as year, month and day with hyphens.
pub open spec fn premiere(premiered: Option<String>) -> Option<ReleaseDate> {
    match premiered {
        Some(date) => date_time(date@ + " 00:00:00 +0000"@, "%Y-%m-%d %H:%M:%S %z"@),
        None => None,
    }
}

/// Reads the date of a premiere.
pub fn parse_release_date(premiered: &Option<String>) -> (r: Option<ReleaseDate>)
    ensures
        r == premiere(*premiered),
{
    match premiered {
        Some(date) => {
            let s = cat(date.as_str(), " 00:00:00 +0000");
            parse_date_time(s.as_str(), "%Y-%m-%d %H:%M:%S %z")
        },
        None => None,
    }
}

/// A date of which parts can be missing.
#[derive(Clone, Copy, Debug, PartialEq, Eq, Structural)]
pub struct FuzzyDate {
    pub year: Option<i32>,
    pub month: Option<u32>,
    pub day: Option<u32>,
}

/// The number, or 1 where it is missing.
pub open spec fn or_first(n: Option<u32>) -> u32 {
    match n {
        Some(n) => n,
        None => 1,
    }
}

/// The first day that a date can be.
pub open spec fn first_day(date: Option<FuzzyDate>) -> Option<ReleaseDate> {
    match date {
        Some(FuzzyDate { year: Some(year), month, day }) => {
            let m = or_first(month);
            let d = or_first(day);
            if is_day(year as int, m as int, d as int) {
                Some(ReleaseDate { year, month: m, day: d })
            } else {
                None
            }
        },
        _ => None,
    }
}

/// Gives the first day that a date can be.
pub fn start_of(date: &Option<FuzzyDate>) -> (r: Option<ReleaseDate>)
    ensures
        r == first_day(*date),
{
    let date = match date {
        Some(date) => date,
        None => {
            return None;
        },
    };
    let year: i32 = match date.year {
        Some(year) => year,
        None => {
            return None;
        },
    };
    let month: u32 = match date.month {
        Some(month) => month,
        None => 1,
    };
    let day: u32 = match date.day {
        Some(day) => day,
        None => 1,
    };
    day_of_calendar(year, month, day)
}

/// The calendar: every fourth year is a leap year, but of the hundredth ones only every fourth is; the days of
/// the months make up the year.
pub proof fn law_years_have_their_days(year: int)
    ensures
        is_leap(year) ==> year % 4 == 0,
        year % 4 == 0 && year % 100 != 0 ==> is_leap(year),
        year % 100 == 0 ==> (is_leap(year) <==> year % 400 == 0),
        days_in(year, 1) + days_in(year, 2) + days_in(year, 3) + days_in(year, 4) + days_in(year, 5)
            + days_in(year, 6) + days_in(year, 7) + days_in(year, 8) + days_in(year, 9) + days_in(year, 10)
            + days_in(year, 11) + days_in(year, 12) == (if is_leap(year) {
            366int
        } else {
            365int
        }),
        days_in(year, 2) <= 29,
        forall|m: int|
            1 <= m <= 12 && m != 2 ==> 30 <= #[trigger] days_in(year, m) <= 31,
        days_in(year, 4) == 30 && days_in(year, 6) == 30 && days_in(year, 9) == 30 && days_in(year, 11) == 30,
{
}

/// A date with a year is the first day that it can be: a month or a day that is missing is the first. Without a
/// year, and where there is no such day, there is no date.
pub proof fn law_dates_are_filled_up(year: i32, month: u32, day: u32)
    requires
        -262143 <= year <= 262142,
    ensures
        first_day(Some((FuzzyDate { year: Some(year), month: None, day: None }))) == Some(
            (ReleaseDate { year, month: 1, day: 1 }),
        ),
        1 <= month <= 12 ==> first_day(
            Some((FuzzyDate { year: Some(year), month: Some(month), day: None })),
        ) == Some((ReleaseDate { year, month, day: 1 })),
        1 <= month <= 12 && 1 <= day <= 28 ==> first_day(
            Some((FuzzyDate { year: Some(year), month: Some(month), day: Some(day) })),
        ) == Some((ReleaseDate { year, month, day })),
        month > 12 || month == 0 || day == 0 || day > 31 ==> first_day(
            Some((FuzzyDate { year: Some(year), month: Some(month), day: Some(day) })),
        ) is None,
        first_day(Some((FuzzyDate { year: None, month: Some(month), day: Some(day) }))) is None,
        first_day(None) is None,
{
}

}
