//! How dates are shown, one beside another.

use vstd::prelude::*;

use crate::dates::{
    a_day_has_one_date, date_letters, dates_stand_in_order, day_number, days_before_month, is_date,
    is_date_text,
};
use crate::text::{comes_before, digit, digits, padded, texts_stand_in_one_order};

verus! {

/// Whether some text is shaped as a date and a minute of a year of four letters:
/// `YYYY-MM-DD HH:MM`.
pub open spec fn is_shaped(text: Seq<char>) -> bool {
    &&& text.len() == 16
    &&& text[4] == '-' && text[7] == '-' && text[10] == ' ' && text[13] == ':'
    &&& forall|at: int|
        0 <= at < 16 && at != 4 && at != 7 && at != 10 && at != 13 ==> '0' as int <= (
        #[trigger] text[at]) as int <= '9' as int
}

/// Stamps of the years nought to 9999 are shown in one shape and in their own order:
/// the text of an earlier one never comes after that of a later one, and the two are
/// the same just where the stamps share a minute.
pub proof fn stamps_are_shown_in_order(
    stamp: int,
    text: Seq<char>,
    later_stamp: int,
    later_text: Seq<char>,
)
    requires
        -62_167_219_200 <= stamp <= later_stamp <= 253_402_300_799,
        is_date_text(text, stamp),
        is_date_text(later_text, later_stamp),
    ensures
        is_shaped(text),
        is_shaped(later_text),
        text == later_text <==> stamp / 60 == later_stamp / 60,
        text == later_text || comes_before(text, later_text),
{
    let (year, month, day) = choose|year: int, month: int, day: int|
        #![trigger day_number(year, month, day)]
        is_date(year, month, day) && day_number(year, month, day) == stamp / 86_400 && text
            == date_letters(year, month, day, stamp % 86_400);
    let (y, m, d) = choose|year: int, month: int, day: int|
        #![trigger day_number(year, month, day)]
        is_date(year, month, day) && day_number(year, month, day) == later_stamp / 86_400
            && later_text == date_letters(year, month, day, later_stamp % 86_400);
    lemma_four_letter_year(year, month, day);
    lemma_four_letter_year(y, m, d);
    let second = stamp % 86_400;
    let later = later_stamp % 86_400;
    lemma_minutes(stamp, later_stamp);
    lemma_shape(year, month, day, second);
    lemma_shape(y, m, d, later);
    if stamp / 86_400 == later_stamp / 86_400 {
        a_day_has_one_date(year, month, day, y, m, d);
    } else if !(year < y || (year == y && (month < m || (month == m && day < d)))) {
        if year == y && month == m && day == d {
            assert(false);
        }
        dates_stand_in_order(y, m, d, year, month, day);
        assert(false);
    }
    lemma_letters_in_order(year, month, day, second, y, m, d, later);
    texts_stand_in_one_order(text, later_text);
}

/// Two stamps share a minute just where they share a day and a minute of it.
proof fn lemma_minutes(stamp: int, later_stamp: int)
    requires
        stamp <= later_stamp,
    ensures
        stamp / 86_400 <= later_stamp / 86_400,
        stamp / 86_400 == later_stamp / 86_400 ==> stamp % 86_400 <= later_stamp % 86_400,
        stamp / 60 == later_stamp / 60 <==> stamp / 86_400 == later_stamp / 86_400 && (stamp
            % 86_400) / 60 == (later_stamp % 86_400) / 60,
        0 <= stamp % 86_400 < 86_400,
        0 <= later_stamp % 86_400 < 86_400,
{
    lemma_minute(stamp);
    lemma_minute(later_stamp);
}

proof fn lemma_minute(stamp: int)
    ensures
        stamp / 60 == 1440 * (stamp / 86_400) + (stamp % 86_400) / 60,
        0 <= (stamp % 86_400) / 60 < 1440,
{
}

/// A day between the first of the year nought and the last of 9999 is of one of
/// those years.
proof fn lemma_four_letter_year(year: int, month: int, day: int)
    requires
        is_date(year, month, day),
        -719_528 <= day_number(year, month, day) < 2_932_897,
    ensures
        0 <= year <= 9999,
        1 <= day <= 31,
{
    assert(days_before_month(0, 1) == 0);
    assert(days_before_month(10_000, 1) == 0);
    assert(day_number(0, 1, 1) == -719_528);
    assert(day_number(10_000, 1, 1) == 2_932_897);
    if year < 0 {
        dates_stand_in_order(year, month, day, 0, 1, 1);
    }
    if year > 9999 {
        if year == 10_000 && month == 1 && day == 1 {
        } else {
            dates_stand_in_order(10_000, 1, 1, year, month, day);
        }
    }
}

/// The letters of a number of two digits.
#[verifier::opaque]
spec fn two(n: int) -> Seq<char> {
    seq![digit((n / 10) as nat), digit((n % 10) as nat)]
}

proof fn lemma_padded(n: int)
    ensures
        0 <= n < 100 ==> padded(n, 2) == two(n),
        0 <= n < 10_000 ==> padded(n, 4) == two(n / 100) + two(n % 100),
{
    reveal(two);
    reveal_with_fuel(digits, 5);
    if 0 <= n < 100 {
        assert(padded(n, 2) =~= two(n));
    }
    if 0 <= n < 10_000 {
        assert(n / 10 / 10 == n / 100);
        assert(n / 10 / 10 / 10 == n / 1000);
        assert((n / 100) / 10 == n / 1000);
        assert((n % 100) / 10 == n / 10 % 10);
        assert((n % 100) % 10 == n % 10);
        if n < 10 {
            assert(digits(n as nat) =~= seq![digit(n as nat)]);
        } else if n < 100 {
            assert(digits(n as nat) =~= seq![digit((n / 10) as nat), digit((n % 10) as nat)]);
        } else if n < 1000 {
            assert(digits(n as nat) =~= seq![
                digit((n / 100) as nat),
                digit((n / 10 % 10) as nat),
                digit((n % 10) as nat),
            ]);
        } else {
            assert(digits(n as nat) =~= seq![
                digit((n / 1000) as nat),
                digit((n / 100 % 10) as nat),
                digit((n / 10 % 10) as nat),
                digit((n % 10) as nat),
            ]);
        }
        assert(padded(n, 4) =~= two(n / 100) + two(n % 100));
    }
}

/// The letters of the hour and the minute of a second of a day.
spec fn clock_of(second: int) -> Seq<char> {
    two(second / 3600) + (seq![':'] + two((second % 3600) / 60))
}

/// The letters of a date and a second, every number of two digits.
spec fn letters_of(year: int, month: int, day: int, second: int) -> Seq<char> {
    two(year / 100) + (two(year % 100) + (seq!['-'] + (two(month) + (seq!['-'] + (two(day) + (seq![
        ' ',
    ] + clock_of(second)))))))
}

proof fn lemma_shape(year: int, month: int, day: int, second: int)
    requires
        0 <= year <= 9999,
        is_date(year, month, day),
        0 <= second < 86_400,
    ensures
        date_letters(year, month, day, second) == letters_of(year, month, day, second),
        is_shaped(date_letters(year, month, day, second)),
{
    lemma_padded(year);
    lemma_padded(month);
    lemma_padded(day);
    lemma_padded(second / 3600);
    lemma_padded((second % 3600) / 60);
    lemma_parts(
        two(year / 100),
        two(year % 100),
        two(month),
        two(day),
        two(second / 3600),
        two((second % 3600) / 60),
    );
    lemma_digits(year / 100);
    lemma_digits(year % 100);
    lemma_digits(month);
    lemma_digits(day);
    lemma_digits(second / 3600);
    lemma_digits((second % 3600) / 60);
}

proof fn lemma_digits(n: int)
    requires
        0 <= n < 100,
    ensures
        are_digits(two(n)),
{
    reveal(two);
}

/// Two digits.
spec fn are_digits(part: Seq<char>) -> bool {
    &&& part.len() == 2
    &&& '0' as int <= part[0] as int <= '9' as int
    &&& '0' as int <= part[1] as int <= '9' as int
}

/// Twice two digits, and four times two more with marks between them, are in the
/// shape, however they are put together.
proof fn lemma_parts(
    century: Seq<char>,
    year: Seq<char>,
    month: Seq<char>,
    day: Seq<char>,
    hour: Seq<char>,
    minute: Seq<char>,
)
    ensures
        ({
            let text = (century + year) + seq!['-'] + month + seq!['-'] + day + seq![' '] + hour
                + seq![':'] + minute;
            &&& text == century + (year + (seq!['-'] + (month + (seq!['-'] + (day + (seq![' '] + (
            hour + (seq![':'] + minute))))))))
            &&& are_digits(century) && are_digits(year) && are_digits(month) && are_digits(day)
                && are_digits(hour) && are_digits(minute) ==> is_shaped(text)
        }),
{
    let clock = hour + (seq![':'] + minute);
    let dated = day + (seq![' '] + clock);
    let monthly = month + (seq!['-'] + dated);
    let yearly = year + (seq!['-'] + monthly);
    let start = (century + year) + seq!['-'];
    let with_month = start + month + seq!['-'];
    let with_day = with_month + day + seq![' '];
    let text = with_day + hour + seq![':'] + minute;
    assert(text =~= with_day + clock);
    assert(with_day + clock =~= with_month + dated);
    assert(with_month + dated =~= start + monthly);
    assert(start + monthly =~= century + yearly);
    if are_digits(century) && are_digits(year) && are_digits(month) && are_digits(day)
        && are_digits(hour) && are_digits(minute) {
        assert(start.len() == 5 && with_month.len() == 8 && with_day.len() == 11);
        assert forall|at: int|
            0 <= at < 16 && at != 4 && at != 7 && at != 10 && at != 13 implies '0' as int <= (
        #[trigger] text[at]) as int <= '9' as int by {
            if at < 4 {
                assert(text[at] == (century + year)[at]);
            } else if at < 7 {
                assert(text[at] == month[at - 5]);
            } else if at < 10 {
                assert(text[at] == day[at - 8]);
            } else if at < 13 {
                assert(text[at] == hour[at - 11]);
            } else {
                assert(text[at] == minute[at - 14]);
            }
        }
    }
}

/// Two texts that begin alike, or with one beginning before the other, stand as
/// what they go on with does, or as those beginnings do.
proof fn lemma_beginnings(one: Seq<char>, other: Seq<char>, rest: Seq<char>, other_rest: Seq<char>)
    requires
        one.len() == other.len(),
    ensures
        one == other ==> comes_before(one + rest, other + other_rest) == comes_before(
            rest,
            other_rest,
        ),
        comes_before(one, other) ==> comes_before(one + rest, other + other_rest),
    decreases one.len(),
{
    if one.len() == 0 {
        assert(one + rest =~= rest);
        assert(other + other_rest =~= other_rest);
    } else {
        assert((one + rest).drop_first() =~= one.drop_first() + rest);
        assert((other + other_rest).drop_first() =~= other.drop_first() + other_rest);
        lemma_beginnings(one.drop_first(), other.drop_first(), rest, other_rest);
    }
}

/// Numbers of two digits stand in their order.
proof fn lemma_two(n: int, more: int)
    requires
        0 <= n < more < 100,
    ensures
        comes_before(two(n), two(more)),
{
    reveal(two);
    let one = two(n);
    let other = two(more);
    reveal_with_fuel(comes_before, 3);
    if n / 10 == more / 10 {
        assert(one[0] == other[0]);
        assert((one.drop_first()[0] as int) < (other.drop_first()[0] as int));
    } else {
        assert((one[0] as int) < (other[0] as int));
    }
}

/// Texts that begin with numbers of two digits stand as the numbers do, or as what
/// follows them where those are the same.
proof fn lemma_field(n: int, more: int, mark: Seq<char>, rest: Seq<char>, other_rest: Seq<char>)
    requires
        0 <= n < 100,
        0 <= more < 100,
    ensures
        n < more ==> comes_before(two(n) + (mark + rest), two(more) + (mark + other_rest)),
        n == more && comes_before(rest, other_rest) ==> comes_before(
            two(n) + (mark + rest),
            two(more) + (mark + other_rest),
        ),
{
    lemma_digits(n);
    lemma_digits(more);
    lemma_beginnings(mark, mark, rest, other_rest);
    lemma_beginnings(two(n), two(more), mark + rest, mark + other_rest);
    if n < more {
        lemma_two(n, more);
    }
}

/// An hour and a minute stand as the minutes of the day do.
proof fn lemma_clock_in_order(second: int, later: int)
    requires
        0 <= second <= later < 86_400,
    ensures
        second / 60 == later / 60 ==> second / 3600 == later / 3600 && (second % 3600) / 60 == (later
            % 3600) / 60,
        second / 60 < later / 60 ==> comes_before(clock_of(second), clock_of(later)),
{
    let minute = (second % 3600) / 60;
    let minute_later = (later % 3600) / 60;
    assert(0 <= second / 3600 <= later / 3600 < 24);
    assert(0 <= minute < 60 && 0 <= minute_later < 60);
    assert(second / 60 == 60 * (second / 3600) + minute);
    assert(later / 60 == 60 * (later / 3600) + minute_later);
    lemma_field(second / 3600, later / 3600, seq![':'], two(minute), two(minute_later));
    if minute < minute_later {
        lemma_two(minute, minute_later);
    }
}

proof fn lemma_letters_in_order(
    year: int,
    month: int,
    day: int,
    second: int,
    y: int,
    m: int,
    d: int,
    later: int,
)
    requires
        0 <= year <= y <= 9999,
        1 <= month <= 12,
        1 <= m <= 12,
        1 <= day <= 31,
        1 <= d <= 31,
        0 <= second < 86_400,
        0 <= later < 86_400,
        year < y || (year == y && (month < m || (month == m && (day < d || (day == d && second
            <= later))))),
    ensures
        year == y && month == m && day == d && second / 60 == later / 60 ==> letters_of(
            year,
            month,
            day,
            second,
        ) == letters_of(y, m, d, later),
        !(year == y && month == m && day == d && second / 60 == later / 60) ==> comes_before(
            letters_of(year, month, day, second),
            letters_of(y, m, d, later),
        ),
{
    let date = two(day) + (seq![' '] + clock_of(second));
    let date_later = two(d) + (seq![' '] + clock_of(later));
    let of_year = two(month) + (seq!['-'] + date);
    let of_year_later = two(m) + (seq!['-'] + date_later);
    let of_century = two(year % 100) + (seq!['-'] + of_year);
    let of_century_later = two(y % 100) + (seq!['-'] + of_year_later);
    let none = Seq::<char>::empty();
    assert(none + of_century =~= of_century);
    assert(none + of_century_later =~= of_century_later);
    lemma_field(day, d, seq![' '], clock_of(second), clock_of(later));
    lemma_field(month, m, seq!['-'], date, date_later);
    lemma_field(year % 100, y % 100, seq!['-'], of_year, of_year_later);
    lemma_field(year / 100, y / 100, none, of_century, of_century_later);
    if year == y && month == m && day == d {
        lemma_clock_in_order(second, later);
    }
}

} // verus!
