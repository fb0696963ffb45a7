//! When a file was last written, as a calendar date.
//!
//! A day is a number, counted from the first of January 1970, and a date is the
//! year, the month and the day of the month that number stands for. What ties
//! the two together is [`day_number`]; everything else here is how one is got
//! from the other.

use vstd::prelude::*;
use vstd::string::*;

use crate::text::{padded, padded_decimal};

verus! {

/// Whether a year has a twenty-ninth of February.
pub open spec fn is_leap(year: int) -> bool {
    year % 4 == 0 && (year % 100 != 0 || year % 400 == 0)
}

/// How many days a month has.
pub open spec fn month_length(year: int, month: int) -> int {
    if month == 2 {
        if is_leap(year) {
            29
        } else {
            28
        }
    } else if month == 4 || month == 6 || month == 9 || month == 11 {
        30
    } else {
        31
    }
}

/// How many days a year has.
pub open spec fn year_length(year: int) -> int {
    if is_leap(year) {
        366
    } else {
        365
    }
}

/// The days of a year that come before one of its months.
pub open spec fn days_before_month(year: int, month: int) -> int
    decreases month,
{
    if month <= 1 {
        0
    } else {
        days_before_month(year, month - 1) + month_length(year, month - 1)
    }
}

/// The days from the first of January of the year nought to the first of
/// January of this one: 365 a year, and one more for each leap year between.
pub open spec fn days_before_year(year: int) -> int {
    365 * year + (year + 3) / 4 - (year + 99) / 100 + (year + 399) / 400
}

/// The number of a day, the first of January 1970 being nought.
pub open spec fn day_number(year: int, month: int, day: int) -> int {
    days_before_year(year) + days_before_month(year, month) + day - 1 - days_before_year(1970)
}

/// Whether a year, a month and a day of the month name a day there is.
pub open spec fn is_date(year: int, month: int, day: int) -> bool {
    1 <= month <= 12 && 1 <= day <= month_length(year, month)
}

/// A year is as long as its number of days says: the first of January of the
/// next year comes that many days after the first of January of this one.
pub proof fn years_follow_each_other(year: int)
    ensures
        days_before_year(year + 1) == days_before_year(year) + year_length(year),
{
    assert((year + 4) / 4 - (year + 3) / 4 == if year % 4 == 0 {
        1int
    } else {
        0
    });
    assert((year + 100) / 100 - (year + 99) / 100 == if year % 100 == 0 {
        1int
    } else {
        0
    });
    assert((year + 400) / 400 - (year + 399) / 400 == if year % 400 == 0 {
        1int
    } else {
        0
    });
}

/// The twelve months of a year add up to the year.
pub proof fn months_fill_the_year(year: int)
    ensures
        days_before_month(year, 12) + month_length(year, 12) == year_length(year),
{
    reveal_with_fuel(days_before_month, 13);
}

proof fn lemma_month_starts(year: int)
    ensures
        days_before_month(year, 1) == 0,
        days_before_month(year, 2) == 31,
        days_before_month(year, 3) == 31 + month_length(year, 2),
        days_before_month(year, 4) == 62 + month_length(year, 2),
        days_before_month(year, 5) == 92 + month_length(year, 2),
        days_before_month(year, 6) == 123 + month_length(year, 2),
        days_before_month(year, 7) == 153 + month_length(year, 2),
        days_before_month(year, 8) == 184 + month_length(year, 2),
        days_before_month(year, 9) == 215 + month_length(year, 2),
        days_before_month(year, 10) == 245 + month_length(year, 2),
        days_before_month(year, 11) == 276 + month_length(year, 2),
        days_before_month(year, 12) == 306 + month_length(year, 2),
{
    reveal_with_fuel(days_before_month, 13);
}

/// Where the March of a year begins within its era of four hundred years, the
/// years being counted from March.
spec fn march_start(year_of_era: int) -> int {
    365 * year_of_era + year_of_era / 4 - year_of_era / 100
}

/// The year of the era a day falls in: the last one whose March it is not
/// before.
proof fn lemma_year_of_era(day_of_era: int)
    requires
        0 <= day_of_era < 146097,
    ensures
        ({
            let year = (day_of_era - day_of_era / 1460 + day_of_era / 36524 - day_of_era / 146096)
                / 365;
            &&& 0 <= year < 400
            &&& march_start(year) <= day_of_era
            &&& day_of_era < march_start(year + 1) || (year == 399 && day_of_era == 146096)
        }),
{
    let century = day_of_era / 36524;
    assert(0 <= century <= 4);
    if century == 0 {
    } else if century == 1 {
    } else if century == 2 {
    } else if century == 3 {
    } else {
    }
}

/// The March of a year comes sixty days after the January of the year nought,
/// so many years on, and the January after it 306 days later.
proof fn lemma_march_of(era: int, year_of_era: int)
    requires
        0 <= year_of_era < 400,
    ensures
        ({
            let year = year_of_era + era * 400;
            let march = 146097 * era + march_start(year_of_era) + 60;
            &&& days_before_year(year) + 31 + month_length(year, 2) == march
            &&& days_before_year(year + 1) == march + 306
        }),
{
    let year = year_of_era + era * 400;
    lemma_shifted(year_of_era + 3, 100 * era, 4);
    lemma_shifted(year_of_era + 99, 4 * era, 100);
    lemma_shifted(year_of_era + 399, era, 400);
    lemma_same_leap(era, year_of_era);
    lemma_march_of_the_era(year_of_era);
    years_follow_each_other(year);
}

/// The same within the first era.
proof fn lemma_march_of_the_era(year: int)
    requires
        0 <= year < 400,
    ensures
        days_before_year(year) + 31 + month_length(year, 2) == march_start(year) + 60,
{
}

/// Adding a multiple of a number moves the quotient by it and leaves the remainder.
proof fn lemma_shifted(of: int, times: int, by: int)
    requires
        by > 0,
    ensures
        (of + times * by) / by == of / by + times,
        (of + times * by) % by == of % by,
{
    vstd::arithmetic::div_mod::lemma_fundamental_div_mod(of, by);
    let quotient = of / by + times;
    assert(of + times * by == quotient * by + of % by) by (nonlinear_arith)
        requires
            of == by * (of / by) + of % by,
            quotient == of / by + times,
    ;
    vstd::arithmetic::div_mod::lemma_fundamental_div_mod_converse(
        of + times * by,
        by,
        quotient,
        of % by,
    );
}

/// A year counted from March has a day 365 only where the February that ends it
/// has a twenty-ninth.
proof fn lemma_last_day(era: int, year_of_era: int, day_of_era: int)
    requires
        0 <= year_of_era < 400,
        march_start(year_of_era) <= day_of_era,
        day_of_era < march_start(year_of_era + 1) || (year_of_era == 399 && day_of_era == 146096),
    ensures
        ({
            let day_of_year = day_of_era - march_start(year_of_era);
            0 <= day_of_year < 337 + month_length(year_of_era + era * 400 + 1, 2)
        }),
{
    lemma_march_step(year_of_era);
    lemma_same_leap(era, year_of_era + 1);
}

/// From one March to the next is 365 days, and one more where a leap day stands
/// between them within the era.
proof fn lemma_march_step(year_of_era: int)
    requires
        0 <= year_of_era < 400,
    ensures
        march_start(year_of_era + 1) - march_start(year_of_era) == 365 + (if (year_of_era + 1) % 4
            == 0 {
            1int
        } else {
            0
        }) - (if (year_of_era + 1) % 100 == 0 {
            1int
        } else {
            0
        }),
{
}

/// Leap years come round every four hundred years.
proof fn lemma_same_leap(era: int, year: int)
    ensures
        is_leap(year + era * 400) == is_leap(year),
{
    lemma_shifted(year, 100 * era, 4);
    lemma_shifted(year, 4 * era, 100);
    lemma_shifted(year, era, 400);
}

/// The month and the day of the month that a day of a year counted from March
/// falls on.
proof fn lemma_month_of(day_of_year: int)
    requires
        0 <= day_of_year <= 365,
    ensures
        ({
            let month = (5 * day_of_year + 2) / 153;
            let start = (153 * month + 2) / 5;
            &&& 0 <= month <= 11
            &&& start <= day_of_year
            &&& day_of_year < (153 * (month + 1) + 2) / 5
        }),
{
}

/// Days since 1970-01-01 to a calendar date, by Howard Hinnant's method: the year
/// is shifted to start in March so a leap day falls at the end of it and every
/// four hundred years is one cycle of a fixed length.
pub fn civil_from_days(days: i64) -> (date: (i64, u32, u32))
    requires
        days + 719_468 <= i64::MAX,
    ensures
        is_date(date.0 as int, date.1 as int, date.2 as int),
        day_number(date.0 as int, date.1 as int, date.2 as int) == days,
{
    let shifted: i64 = days + 719_468;
    let era: i64 = shifted.checked_div_euclid(146_097).unwrap();
    let day_of_era: i64 = shifted.checked_rem_euclid(146_097).unwrap();
    proof {
        lemma_year_of_era(day_of_era as int);
    }
    let year_of_era: i64 = (day_of_era - day_of_era / 1460 + day_of_era / 36_524 - day_of_era
        / 146_096) / 365;
    let year: i64 = year_of_era + era * 400;
    let day_of_year: i64 = day_of_era - (365 * year_of_era + year_of_era / 4 - year_of_era / 100);
    proof {
        lemma_last_day(era as int, year_of_era as int, day_of_era as int);
        lemma_month_of(day_of_year as int);
    }
    let shifted_month: i64 = (5 * day_of_year + 2) / 153;
    let day: i64 = day_of_year - (153 * shifted_month + 2) / 5 + 1;
    let month: i64 = if shifted_month < 10 {
        shifted_month + 3
    } else {
        shifted_month - 9
    };
    let civil: i64 = if month <= 2 {
        year + 1
    } else {
        year
    };
    proof {
        lemma_civil(
            era as int,
            year_of_era as int,
            day_of_year as int,
            shifted_month as int,
        );
    }
    (civil, month as u32, day as u32)
}

/// The date that a month and a day counted from March name.
proof fn lemma_civil(era: int, year_of_era: int, day_of_year: int, shifted_month: int)
    requires
        0 <= year_of_era < 400,
        0 <= shifted_month <= 11,
        (153 * shifted_month + 2) / 5 <= day_of_year < (153 * (shifted_month + 1) + 2) / 5,
        day_of_year < 337 + month_length(year_of_era + era * 400 + 1, 2),
    ensures
        ({
            let year = year_of_era + era * 400;
            let day = day_of_year - (153 * shifted_month + 2) / 5 + 1;
            let month = if shifted_month < 10 {
                shifted_month + 3
            } else {
                shifted_month - 9
            };
            let civil = if month <= 2 {
                year + 1
            } else {
                year
            };
            &&& is_date(civil, month, day)
            &&& day_number(civil, month, day) == 146097 * era + march_start(year_of_era)
                + day_of_year - 719_468
        }),
{
    let year = year_of_era + era * 400;
    lemma_march_of(era, year_of_era);
    lemma_month_starts(year);
    lemma_month_starts(year + 1);
    assert(days_before_year(1970) == 719_528);
}

proof fn lemma_days_before_year_grows(one: int, other: int)
    requires
        one < other,
    ensures
        days_before_year(one) + year_length(one) <= days_before_year(other),
    decreases other - one,
{
    years_follow_each_other(one);
    if one + 1 < other {
        lemma_days_before_year_grows(one + 1, other);
    }
}

proof fn lemma_days_before_month_grows(year: int, one: int, other: int)
    requires
        1 <= one < other <= 12,
    ensures
        days_before_month(year, one) + month_length(year, one) <= days_before_month(year, other),
{
    lemma_month_starts(year);
}

proof fn lemma_within_year(year: int, month: int, day: int)
    requires
        is_date(year, month, day),
    ensures
        0 <= days_before_month(year, month) + day - 1 < year_length(year),
{
    lemma_month_starts(year);
}

/// Dates stand in the order of their numbers: of two dates the earlier, by year,
/// then by month, then by day, has the smaller number.
pub proof fn dates_stand_in_order(
    year: int,
    month: int,
    day: int,
    other_year: int,
    other_month: int,
    other_day: int,
)
    requires
        is_date(year, month, day),
        is_date(other_year, other_month, other_day),
        year < other_year || (year == other_year && (month < other_month || (month == other_month
            && day < other_day))),
    ensures
        day_number(year, month, day) < day_number(other_year, other_month, other_day),
{
    lemma_within_year(year, month, day);
    lemma_within_year(other_year, other_month, other_day);
    if year < other_year {
        lemma_days_before_year_grows(year, other_year);
    } else if month < other_month {
        lemma_days_before_month_grows(year, month, other_month);
    }
}

/// A day has one date: two dates with the same number are the same date.
pub proof fn a_day_has_one_date(
    year: int,
    month: int,
    day: int,
    other_year: int,
    other_month: int,
    other_day: int,
)
    requires
        is_date(year, month, day),
        is_date(other_year, other_month, other_day),
        day_number(year, month, day) == day_number(other_year, other_month, other_day),
    ensures
        year == other_year && month == other_month && day == other_day,
{
    if year < other_year || (year == other_year && (month < other_month || (month == other_month
        && day < other_day))) {
        dates_stand_in_order(year, month, day, other_year, other_month, other_day);
    } else if !(year == other_year && month == other_month && day == other_day) {
        dates_stand_in_order(other_year, other_month, other_day, year, month, day);
    }
}

/// The letters a stamp is shown as: `YYYY-MM-DD HH:MM` of the day and the minute
/// it falls in, a year being written with at least four letters.
pub open spec fn is_date_text(text: Seq<char>, stamp: int) -> bool {
    exists|year: int, month: int, day: int|
        #![trigger day_number(year, month, day)]
        is_date(year, month, day) && day_number(year, month, day) == stamp / 86_400 && text
            == date_letters(year, month, day, stamp % 86_400)
}

/// A date and the second of a day in the form they are shown in.
pub open spec fn date_letters(year: int, month: int, day: int, second: int) -> Seq<char> {
    padded(year, 4) + seq!['-'] + padded(month, 2) + seq!['-']
        + padded(day, 2) + seq![' '] + padded(second / 3600, 2) + seq![':']
        + padded((second % 3600) / 60, 2)
}

/// When a file was last written, as `YYYY-MM-DD HH:MM`, in UTC.
///
/// The stamp is whole seconds since the epoch, which is what the index stores.
/// Nothing here reads a date out of the picture's own metadata: most of the
/// formats this reads do not carry one.
pub fn file_date(mtime_seconds: i64) -> (text: String)
    ensures
        is_date_text(text@, mtime_seconds as int),
{
    let days: i64 = mtime_seconds.checked_div_euclid(86_400).unwrap();
    let rest: i64 = mtime_seconds.checked_rem_euclid(86_400).unwrap();
    let (year, month, day) = civil_from_days(days);
    proof {
        reveal_strlit("-");
        reveal_strlit(" ");
        reveal_strlit(":");
    }
    let text = padded_decimal(year, 4).concat("-").concat(
        padded_decimal(month as i64, 2).as_str(),
    ).concat("-").concat(padded_decimal(day as i64, 2).as_str()).concat(" ").concat(
        padded_decimal(rest / 3600, 2).as_str(),
    ).concat(":").concat(padded_decimal((rest % 3600) / 60, 2).as_str());
    assert("-"@ =~= seq!['-']);
    assert(" "@ =~= seq![' ']);
    assert(":"@ =~= seq![':']);
    assert(day_number(year as int, month as int, day as int) == mtime_seconds as int / 86_400);
    assert(text@ =~= date_letters(year as int, month as int, day as int, mtime_seconds as int % 86_400));
    text
}

} // verus!
