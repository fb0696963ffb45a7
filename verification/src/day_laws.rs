//! What holds of days and the numbers they have.

use vstd::prelude::*;

use crate::dates::{
    day_number, days_before_month, days_before_year, month_length, months_fill_the_year,
    year_length, years_follow_each_other,
};

verus! {

/// Days are counted from the first of January 1970, and the next day of a month has the
/// next number.
pub proof fn days_are_counted_one_by_one(year: int, month: int, day: int)
    ensures
        day_number(1970, 1, 1) == 0,
        day_number(year, month, day + 1) == day_number(year, month, day) + 1,
{
    assert(days_before_month(1970, 1) == 0);
}

/// The first of a month comes behind the last of the month before.
pub proof fn months_follow_each_other(year: int, month: int)
    requires
        1 <= month < 12,
    ensures
        day_number(year, month + 1, 1) == day_number(year, month, month_length(year, month)) + 1,
{
    assert(days_before_month(year, month + 1) == days_before_month(year, month) + month_length(
        year,
        month,
    ));
}

/// The first of January comes behind the last of December.
pub proof fn the_year_begins_behind_december(year: int)
    ensures
        day_number(year + 1, 1, 1) == day_number(year, 12, 31) + 1,
{
    years_follow_each_other(year);
    months_fill_the_year(year);
    assert(days_before_month(year + 1, 1) == 0);
    assert(month_length(year, 12) == 31);
    assert(days_before_year(year + 1) == days_before_year(year) + year_length(year));
}

/// Four months have thirty days, February has twenty-eight, or twenty-nine in a year that
/// four divides but not a hundred, or four hundred does, and the others thirty-one.
pub proof fn months_are_as_long_as_they_are(year: int, month: int)
    requires
        1 <= month <= 12,
    ensures
        month == 2 ==> (month_length(year, month) == 29 <==> year % 400 == 0 || (year % 4 == 0
            && year % 100 != 0)),
        month == 2 ==> month_length(year, month) == 28 || month_length(year, month) == 29,
        month == 4 || month == 6 || month == 9 || month == 11 ==> month_length(year, month) == 30,
        month != 2 && month != 4 && month != 6 && month != 9 && month != 11 ==> month_length(
            year,
            month,
        ) == 31,
{
}

} // verus!
