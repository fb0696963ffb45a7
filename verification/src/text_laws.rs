//! What holds of numbers as words, of bare text and of the order of texts.

use vstd::prelude::*;

use crate::text::{
    comes_before, contains_text, counted_text, digit, digits, find_from, is_blank, padded, pieces_of, sign, size_of,
    stands_at, trim, trim_end, trim_start, zeros,
};

verus! {

/// The number some decimal letters stand for.
pub open spec fn number_in(letters: Seq<char>) -> int
    decreases letters.len(),
{
    if letters.len() == 0 {
        0
    } else {
        10 * number_in(letters.drop_last()) + (letters.last() as int - '0' as int)
    }
}

/// Whether some letters are all decimal ones.
pub open spec fn all_decimal(letters: Seq<char>) -> bool {
    forall|at: int|
        0 <= at < letters.len() ==> '0' as int <= #[trigger] letters[at] as int <= '9' as int
}

/// A number in decimal letters stands for that number, and begins with a nought only
/// where it is nought.
pub proof fn a_number_reads_back_from_its_letters(n: nat)
    ensures
        digits(n).len() > 0,
        all_decimal(digits(n)),
        number_in(digits(n)) == n,
        digits(n)[0] == '0' ==> n == 0,
    decreases n,
{
    reveal_with_fuel(number_in, 2);
    if n < 10 {
        assert(digits(n).drop_last() =~= Seq::<char>::empty());
        assert(digit(n) as int == 48 + n);
    } else {
        let before = digits(n / 10);
        a_number_reads_back_from_its_letters(n / 10);
        assert(digits(n) == before.push(digit(n % 10)));
        assert(digits(n).drop_last() =~= before);
        assert(digit(n % 10) as int == 48 + n % 10);
        assert(digits(n)[0] == before[0]);
        assert forall|at: int| 0 <= at < digits(n).len() implies '0' as int <= #[trigger] digits(
            n,
        )[at] as int <= '9' as int by {
            if at < before.len() {
                assert(digits(n)[at] == before[at]);
            }
        }
    }
}

/// A padded number is as wide as it was to be, or as wide as it is, stands for the
/// number, and begins with the sign where it is below nought.
pub proof fn a_padded_number_reads_back(n: int, width: nat)
    ensures
        padded(n, width).len() >= width,
        n >= 0 ==> all_decimal(padded(n, width)) && number_in(padded(n, width)) == n,
        n < 0 ==> padded(n, width)[0] == '-' && all_decimal(padded(n, width).drop_first())
            && number_in(padded(n, width).drop_first()) == -n,
        padded(n, width).len() > width ==> padded(n, width) == sign(n) + digits(size_of(n)),
{
    let bare = sign(n).len() + digits(size_of(n)).len();
    let missing = if bare < width {
        (width - bare) as nat
    } else {
        0
    };
    let written = zeros(missing) + digits(size_of(n));
    a_number_reads_back_from_its_letters(size_of(n));
    lemma_zeros(missing, digits(size_of(n)));
    if n >= 0 {
        assert(padded(n, width) =~= written);
    } else {
        assert(padded(n, width).drop_first() =~= written);
    }
    if missing == 0 {
        assert(padded(n, width) =~= sign(n) + digits(size_of(n)));
    }
}

proof fn lemma_zeros(many: nat, letters: Seq<char>)
    requires
        all_decimal(letters),
        letters.len() > 0,
    ensures
        all_decimal(zeros(many) + letters),
        number_in(zeros(many) + letters) == number_in(letters),
    decreases letters.len(),
{
    let all = zeros(many) + letters;
    assert forall|at: int| 0 <= at < all.len() implies '0' as int <= #[trigger] all[at] as int
        <= '9' as int by {
        if at >= many {
            assert(all[at] == letters[at - many]);
        }
    }
    assert(all.drop_last() =~= zeros(many) + letters.drop_last());
    assert(all.last() == letters.last());
    if letters.len() > 1 {
        let rest = letters.drop_last();
        assert forall|at: int| 0 <= at < rest.len() implies '0' as int <= #[trigger] rest[at] as int
            <= '9' as int by {
            assert(rest[at] == letters[at]);
        }
        lemma_zeros(many, rest);
    } else {
        assert(letters.drop_last() =~= Seq::<char>::empty());
        assert(zeros(many) + letters.drop_last() =~= zeros(many));
        lemma_only_zeros(many);
        assert(number_in(letters.drop_last()) == 0);
    }
}

proof fn lemma_only_zeros(many: nat)
    ensures
        number_in(zeros(many)) == 0,
    decreases many,
{
    if many > 0 {
        assert(zeros(many).drop_last() =~= zeros((many - 1) as nat));
        lemma_only_zeros((many - 1) as nat);
    }
}

/// How many there are is said in the singular of one thing alone.
pub proof fn one_thing_is_said_in_the_singular(how_many: nat, one: Seq<char>, more: Seq<char>)
    ensures
        how_many == 1 ==> counted_text(how_many, one, more) == digits(1) + seq![' '] + one,
        how_many != 1 ==> counted_text(how_many, one, more) == digits(how_many) + seq![' '] + more,
{
}

/// Looking for a letter finds the first there is from a place on, and the end where
/// there is none.
pub proof fn the_first_letter_is_found(text: Seq<char>, wanted: char, from: int)
    requires
        0 <= from <= text.len(),
    ensures
        ({
            let at = find_from(text, wanted, from);
            &&& from <= at <= text.len()
            &&& at < text.len() ==> text[at] == wanted
            &&& forall|before: int| from <= before < at ==> #[trigger] text[before] != wanted
        }),
    decreases text.len() - from,
{
    if from < text.len() && text[from] != wanted {
        the_first_letter_is_found(text, wanted, from + 1);
    }
}

/// Trimming takes off blank letters at either end and nothing else, until there is none.
pub proof fn trimming_takes_off_the_blank_ends(text: Seq<char>)
    ensures
        exists|from: int, to: int|
            0 <= from <= to <= text.len() && trim(text) == #[trigger] text.subrange(from, to) && (
            forall|at: int| 0 <= at < from ==> is_blank(#[trigger] text[at])) && (forall|at: int|
                to <= at < text.len() ==> is_blank(#[trigger] text[at])),
        trim(text).len() > 0 ==> !is_blank(trim(text)[0]) && !is_blank(trim(text).last()),
{
    lemma_trim_start(text);
    let start = trim_start(text);
    let from = choose|from: int|
        0 <= from <= text.len() && start == #[trigger] text.subrange(from, text.len() as int) && (
        forall|at: int| 0 <= at < from ==> is_blank(#[trigger] text[at]));
    lemma_trim_end(start);
    let kept = choose|kept: int|
        0 <= kept <= start.len() && trim_end(start) == #[trigger] start.subrange(0, kept) && (
        forall|at: int| kept <= at < start.len() ==> is_blank(#[trigger] start[at]));
    let to = from + kept;
    assert(text.subrange(from, to) =~= trim(text));
    assert forall|at: int| to <= at < text.len() implies is_blank(#[trigger] text[at]) by {
        assert(start[at - from] == text[at]);
    }
    if trim(text).len() > 0 {
        assert(trim(text)[0] == start[0]);
    }
}

proof fn lemma_trim_start(text: Seq<char>)
    ensures
        exists|from: int|
            0 <= from <= text.len() && trim_start(text) == #[trigger] text.subrange(
                from,
                text.len() as int,
            ) && (forall|at: int| 0 <= at < from ==> is_blank(#[trigger] text[at])),
        trim_start(text).len() > 0 ==> !is_blank(trim_start(text)[0]),
    decreases text.len(),
{
    if text.len() > 0 && is_blank(text[0]) {
        let rest = text.drop_first();
        lemma_trim_start(rest);
        let from = choose|from: int|
            0 <= from <= rest.len() && trim_start(rest) == #[trigger] rest.subrange(
                from,
                rest.len() as int,
            ) && (forall|at: int| 0 <= at < from ==> is_blank(#[trigger] rest[at]));
        assert(text.subrange(from + 1, text.len() as int) =~= rest.subrange(
            from,
            rest.len() as int,
        ));
        assert forall|at: int| 0 <= at < from + 1 implies is_blank(#[trigger] text[at]) by {
            if at > 0 {
                assert(rest[at - 1] == text[at]);
            }
        }
    } else {
        assert(text.subrange(0, text.len() as int) =~= text);
    }
}

proof fn lemma_trim_end(text: Seq<char>)
    ensures
        exists|kept: int|
            0 <= kept <= text.len() && trim_end(text) == #[trigger] text.subrange(0, kept) && (
            forall|at: int| kept <= at < text.len() ==> is_blank(#[trigger] text[at])),
        trim_end(text).len() > 0 ==> !is_blank(trim_end(text).last()),
    decreases text.len(),
{
    if text.len() > 0 && is_blank(text.last()) {
        let rest = text.drop_last();
        lemma_trim_end(rest);
        let kept = choose|kept: int|
            0 <= kept <= rest.len() && trim_end(rest) == #[trigger] rest.subrange(0, kept) && (
            forall|at: int| kept <= at < rest.len() ==> is_blank(#[trigger] rest[at]));
        assert(text.subrange(0, kept) =~= rest.subrange(0, kept));
        assert forall|at: int| kept <= at < text.len() implies is_blank(#[trigger] text[at]) by {
            if at < rest.len() {
                assert(rest[at] == text[at]);
            }
        }
    } else {
        assert(text.subrange(0, text.len() as int) =~= text);
    }
}

/// Text is cut at its commas, each piece without its blank ends: text without one is
/// one piece, and what stands before the first comma is a piece of its own before the
/// pieces of what stands behind it.
pub proof fn text_is_cut_at_its_commas(piece: Seq<char>, rest: Seq<char>)
    requires
        !piece.contains(','),
    ensures
        pieces_of(piece) == seq![trim(piece)],
        pieces_of(piece + seq![','] + rest) == seq![trim(piece)] + pieces_of(rest),
{
    the_first_letter_is_found(piece, ',', 0);
    if find_from(piece, ',', 0) < piece.len() {
        assert(piece.contains(piece[find_from(piece, ',', 0)]));
    }
    let all = piece + seq![','] + rest;
    the_first_letter_is_found(all, ',', 0);
    let end = find_from(all, ',', 0);
    assert(all[piece.len() as int] == ',');
    if end < piece.len() {
        assert(all[end] == piece[end]);
        assert(piece.contains(piece[end]));
    }
    assert(end == piece.len());
    assert(all.take(end) =~= piece);
    assert(all.skip(end + 1) =~= rest);
}

/// Of two texts that begin alike the one with the lower letter at the first place where
/// they differ comes first, and one that the other goes on from comes before it.
pub proof fn the_first_letter_that_differs_decides(one: Seq<char>, other: Seq<char>, at: int)
    requires
        0 <= at <= one.len(),
        at <= other.len(),
        forall|before: int| 0 <= before < at ==> #[trigger] one[before] == other[before],
    ensures
        at < one.len() && at < other.len() && (one[at] as int) < (other[at] as int)
            ==> comes_before(one, other),
        at < one.len() && at < other.len() && (one[at] as int) > (other[at] as int)
            ==> !comes_before(one, other),
        at == one.len() && at < other.len() ==> comes_before(one, other),
        at == other.len() ==> !comes_before(one, other),
    decreases at,
{
    if at > 0 {
        let rest = one.drop_first();
        let other_rest = other.drop_first();
        assert(one[0] == other[0]);
        assert forall|before: int| 0 <= before < at - 1 implies #[trigger] rest[before]
            == other_rest[before] by {
            assert(rest[before] == one[before + 1]);
            assert(other_rest[before] == other[before + 1]);
        }
        the_first_letter_that_differs_decides(rest, other_rest, at - 1);
        if at < one.len() && at < other.len() {
            assert(rest[at - 1] == one[at] && other_rest[at - 1] == other[at]);
        }
    }
}

/// A text holds another wherever it is that other with something before it and something
/// behind it.
pub proof fn a_text_holds_what_stands_in_it(before: Seq<char>, part: Seq<char>, after: Seq<char>)
    ensures
        contains_text(before + part + after, part),
        stands_at(before + part + after, part, before.len() as int),
{
    let all = before + part + after;
    assert(all.subrange(before.len() as int, before.len() + part.len() as int) =~= part);
    assert(stands_at(all, part, before.len() as int));
}

} // verus!
