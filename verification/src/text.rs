//! Numbers as words on screen: decimal digits, zero padding, and the choice
//! between one of a thing and several.

use vstd::prelude::*;
use vstd::string::*;

verus! {

/// The decimal digit for a number under ten.
pub open spec fn digit(d: nat) -> char {
    (48 + d) as char
}

/// A number in decimal, with no leading zero.
pub open spec fn digits(n: nat) -> Seq<char>
    decreases n,
{
    if n < 10 {
        seq![digit(n)]
    } else {
        digits(n / 10).push(digit(n % 10))
    }
}

/// So many zeros.
pub open spec fn zeros(n: nat) -> Seq<char> {
    Seq::new(n, |i: int| '0')
}

/// How far a number is from nothing.
pub open spec fn size_of(n: int) -> nat {
    if n < 0 {
        (-n) as nat
    } else {
        n as nat
    }
}

/// The sign a number is written with, which only a negative one has.
pub open spec fn sign(n: int) -> Seq<char> {
    if n < 0 {
        seq!['-']
    } else {
        Seq::empty()
    }
}

/// A number in decimal at least `width` letters long, the sign counted, filled
/// out with zeros between the sign and the digits.
pub open spec fn padded(n: int, width: nat) -> Seq<char> {
    let bare = sign(n).len() + digits(size_of(n)).len();
    let missing = if bare < width {
        (width - bare) as nat
    } else {
        0
    };
    sign(n) + zeros(missing) + digits(size_of(n))
}

fn digit_text(d: u128) -> (text: &'static str)
    requires
        d < 10,
    ensures
        text@ == seq![digit(d as nat)],
{
    proof {
        reveal_strlit("0");
        reveal_strlit("1");
        reveal_strlit("2");
        reveal_strlit("3");
        reveal_strlit("4");
        reveal_strlit("5");
        reveal_strlit("6");
        reveal_strlit("7");
        reveal_strlit("8");
        reveal_strlit("9");
    }
    match d {
        0 => "0",
        1 => "1",
        2 => "2",
        3 => "3",
        4 => "4",
        5 => "5",
        6 => "6",
        7 => "7",
        8 => "8",
        _ => "9",
    }
}

/// A number in decimal.
pub fn decimal(n: u128) -> (text: String)
    ensures
        text@ == digits(n as nat),
    decreases n,
{
    if n < 10 {
        String::from_str(digit_text(n))
    } else {
        let head = decimal(n / 10);
        head.concat(digit_text(n % 10))
    }
}

/// A number in decimal, at least `width` letters long.
pub fn padded_decimal(n: i64, width: usize) -> (text: String)
    ensures
        text@ == padded(n as int, width as nat),
{
    let size: u64 = if n < 0 {
        (-(n + 1)) as u64 + 1
    } else {
        n as u64
    };
    let body = decimal(size as u128);
    let mut text = if n < 0 {
        proof {
            reveal_strlit("-");
        }
        String::from_str("-")
    } else {
        String::new()
    };
    assert(text@ =~= sign(n as int));
    let ghost before = text@;
    let taken: usize = body.as_str().unicode_len();
    let signed: usize = if n < 0 {
        1
    } else {
        0
    };
    let room: usize = if width < signed {
        0
    } else {
        width - signed
    };
    let mut filled: usize = 0;
    while taken < room && filled < room - taken
        invariant
            text@ == before + zeros(filled as nat),
            filled as int <= if taken < room {
                room - taken
            } else {
                0
            },
        decreases room - taken - filled,
    {
        proof {
            reveal_strlit("0");
        }
        text.append("0");
        filled = filled + 1;
        assert(text@ =~= before + zeros(filled as nat));
    }
    text.append(body.as_str());
    text
}

/// `one` for a single thing, `more` for any other number of them, with the
/// number in front.
pub open spec fn counted_text(how_many: nat, one: Seq<char>, more: Seq<char>) -> Seq<char> {
    digits(how_many) + seq![' '] + (if how_many == 1 {
        one
    } else {
        more
    })
}

/// A number and the thing it counts, in the singular for one of it.
pub fn counted(how_many: u64, one: &str, more: &str) -> (text: String)
    ensures
        text@ == counted_text(how_many as nat, one@, more@),
{
    proof {
        reveal_strlit(" ");
    }
    let text = decimal(how_many as u128).concat(" ");
    assert(text@ =~= digits(how_many as nat) + seq![' ']);
    if how_many == 1 {
        text.concat(one)
    } else {
        text.concat(more)
    }
}

/// Whether two pieces of text are the same.
pub fn same_text(a: &str, b: &str) -> (same: bool)
    ensures
        same == (a@ == b@),
{
    String::from_str(a) == String::from_str(b)
}

/// The letters of a piece of text, one by one.
pub fn letters(text: &str) -> (found: Vec<char>)
    ensures
        found@ == text@,
{
    let mut found: Vec<char> = Vec::new();
    let ghost all = vstd::std_specs::iter::IteratorSpec::remaining(&vstd::string::spec_iter(text));
    for letter in walked: text.chars()
        invariant
            walked.seq() == all,
            found@ == all.take(walked.index() as int),
    {
        found.push(letter);
        assert(found@ =~= all.take(walked.index() + 1));
    }
    assert(found@ =~= text@);
    found
}

/// The number of a letter.
pub fn code_of(letter: char) -> (code: u32)
    ensures
        code == letter as int,
{
    letter as u32
}

/// The letters that are white space: those Unicode gives the property of that name.
pub open spec fn is_blank(letter: char) -> bool {
    let code = letter as int;
    ||| 0x9 <= code <= 0xd
    ||| code == 0x20
    ||| code == 0x85
    ||| code == 0xa0
    ||| code == 0x1680
    ||| 0x2000 <= code <= 0x200a
    ||| code == 0x2028
    ||| code == 0x2029
    ||| code == 0x202f
    ||| code == 0x205f
    ||| code == 0x3000
}

/// Whether a letter is white space.
pub fn blank(letter: char) -> (white: bool)
    ensures
        white == is_blank(letter),
{
    let code: u32 = code_of(letter);
    (0x9 <= code && code <= 0xd) || code == 0x20 || code == 0x85 || code == 0xa0 || code == 0x1680
        || (0x2000 <= code && code <= 0x200a) || code == 0x2028 || code == 0x2029 || code == 0x202f
        || code == 0x205f || code == 0x3000
}

/// Text without the white space in front of it.
pub open spec fn trim_start(text: Seq<char>) -> Seq<char>
    decreases text.len(),
{
    if text.len() > 0 && is_blank(text[0]) {
        trim_start(text.drop_first())
    } else {
        text
    }
}

/// Text without the white space behind it.
pub open spec fn trim_end(text: Seq<char>) -> Seq<char>
    decreases text.len(),
{
    if text.len() > 0 && is_blank(text.last()) {
        trim_end(text.drop_last())
    } else {
        text
    }
}

/// Text without the white space round it.
pub open spec fn trim(text: Seq<char>) -> Seq<char> {
    trim_end(trim_start(text))
}

/// Where the text between two places begins and ends without the white space
/// round it.
pub fn trimmed(found: &Vec<char>, from: usize, to: usize) -> (inner: (usize, usize))
    requires
        from <= to <= found@.len(),
    ensures
        from <= inner.0 <= inner.1 <= to,
        found@.subrange(inner.0 as int, inner.1 as int) == trim(
            found@.subrange(from as int, to as int),
        ),
{
    let ghost all = found@.subrange(from as int, to as int);
    let mut start: usize = from;
    while start < to && blank(found[start])
        invariant
            from <= start <= to <= found@.len(),
            all == found@.subrange(from as int, to as int),
            trim_start(all) == trim_start(found@.subrange(start as int, to as int)),
        decreases to - start,
    {
        assert(found@.subrange(start as int, to as int).drop_first() =~= found@.subrange(
            start + 1,
            to as int,
        ));
        start = start + 1;
    }
    assert(trim_start(all) == found@.subrange(start as int, to as int));
    let mut end: usize = to;
    while start < end && blank(found[end - 1])
        invariant
            from <= start <= end <= to <= found@.len(),
            trim(all) == trim_end(found@.subrange(start as int, end as int)),
        decreases end - start,
    {
        assert(found@.subrange(start as int, end as int).drop_last() =~= found@.subrange(
            start as int,
            end - 1,
        ));
        end = end - 1;
    }
    (start, end)
}

/// Text with no white space at either end has none to lose.
pub proof fn trimming_leaves_bare_text(text: Seq<char>)
    requires
        text.len() > 0 ==> !is_blank(text[0]) && !is_blank(text.last()),
    ensures
        trim(text) == text,
{
}

/// Where the first of a letter is, from a place on, or the end of the text.
pub open spec fn find_from(text: Seq<char>, wanted: char, from: int) -> int
    decreases text.len() - from,
{
    if from < 0 || from >= text.len() {
        text.len() as int
    } else if text[from] == wanted {
        from
    } else {
        find_from(text, wanted, from + 1)
    }
}

/// Where the first of a letter is between two places, or the second of them.
pub fn find(found: &Vec<char>, wanted: char, from: usize, to: usize) -> (at: usize)
    requires
        from <= to <= found@.len(),
    ensures
        from <= at <= to,
        at - from == find_from(found@.subrange(from as int, to as int), wanted, 0),
        at < to ==> found@[at as int] == wanted,
{
    let ghost all = found@.subrange(from as int, to as int);
    let mut at: usize = from;
    while at < to && found[at] != wanted
        invariant
            from <= at <= to <= found@.len(),
            all == found@.subrange(from as int, to as int),
            find_from(all, wanted, 0) == find_from(all, wanted, at - from),
        decreases to - at,
    {
        assert(all[at - from] == found@[at as int]);
        at = at + 1;
    }
    if at < to {
        assert(all[at - from] == found@[at as int]);
    }
    at
}

/// A letter that is not in a piece of text is first found in the text behind it.
pub proof fn lemma_find_behind(text: Seq<char>, rest: Seq<char>, wanted: char, from: int)
    requires
        0 <= from <= text.len(),
        !text.contains(wanted),
    ensures
        find_from(text + rest, wanted, from) == text.len() + find_from(rest, wanted, 0),
    decreases text.len() - from,
{
    let all = text + rest;
    if from < text.len() {
        assert(all[from] == text[from]);
        assert(text.contains(text[from]));
        lemma_find_behind(text, rest, wanted, from + 1);
    } else {
        lemma_find_shifted(text, rest, wanted, 0);
    }
}

proof fn lemma_find_shifted(text: Seq<char>, rest: Seq<char>, wanted: char, from: int)
    requires
        0 <= from <= rest.len(),
    ensures
        find_from(text + rest, wanted, text.len() + from) == text.len() + find_from(
            rest,
            wanted,
            from,
        ),
    decreases rest.len() - from,
{
    if from < rest.len() {
        assert((text + rest)[text.len() + from] == rest[from]);
        if rest[from] != wanted {
            lemma_find_shifted(text, rest, wanted, from + 1);
        }
    }
}

/// The pieces of a text between the commas in it, each without the white space
/// round it.
pub open spec fn pieces_of(text: Seq<char>) -> Seq<Seq<char>>
    decreases text.len(),
{
    let end = find_from(text, ',', 0);
    if 0 <= end < text.len() {
        seq![trim(text.take(end))] + pieces_of(text.skip(end + 1))
    } else {
        seq![trim(text)]
    }
}

/// The pieces of a text between the commas in it.
pub fn pieces(text: &str) -> (cut: Vec<String>)
    ensures
        cut.deep_view() == pieces_of(text@),
{
    let found = letters(text);
    let mut cut: Vec<String> = Vec::new();
    let mut from: usize = 0;
    assert(found@.skip(0) =~= found@);
    assert(cut.deep_view() + pieces_of(text@) =~= pieces_of(text@));
    loop
        invariant
            found@ == text@,
            from <= found@.len(),
            cut.deep_view() + pieces_of(found@.skip(from as int)) == pieces_of(text@),
        decreases found@.len() - from,
    {
        let end: usize = find(&found, ',', from, found.len());
        let ghost left = found@.skip(from as int);
        let ghost before = cut.deep_view();
        assert(left =~= found@.subrange(from as int, found@.len() as int));
        assert(left.take(end - from) =~= found@.subrange(from as int, end as int));
        let (start, stop) = trimmed(&found, from, end);
        let piece = text.substring_char(start, stop).to_owned();
        cut.push(piece);
        assert(cut.deep_view() =~= before.push(piece@));
        if end == found.len() {
            assert(left.take(end - from) =~= left);
            assert(cut.deep_view() =~= before + pieces_of(left));
            return cut;
        }
        assert(left.skip(end - from + 1) =~= found@.skip(end + 1));
        assert(cut.deep_view() + pieces_of(found@.skip(end + 1)) =~= before + pieces_of(left));
        from = end + 1;
    }
}

/// Whether a piece of text stands in another, from a place on.
pub open spec fn stands_at(text: Seq<char>, part: Seq<char>, at: int) -> bool {
    0 <= at && at + part.len() <= text.len() && text.subrange(at, at + part.len()) == part
}

/// Whether a piece of text stands somewhere in another.
pub open spec fn contains_text(text: Seq<char>, part: Seq<char>) -> bool {
    exists|at: int| #[trigger] stands_at(text, part, at)
}

/// Whether a piece of text stands somewhere in another.
pub fn contains(text: &Vec<char>, part: &str) -> (held: bool)
    ensures
        held == contains_text(text@, part@),
{
    let wanted = letters(part);
    if wanted.len() > text.len() {
        assert forall|at: int| !#[trigger] stands_at(text@, part@, at) by {}
        return false;
    }
    let last: usize = text.len() - wanted.len();
    let mut at: usize = 0;
    while at <= last
        invariant
            wanted@ == part@,
            last == text@.len() - wanted@.len(),
            at <= last + 1,
            forall|before: int| 0 <= before < at ==> !#[trigger] stands_at(text@, part@, before),
        decreases last + 1 - at,
    {
        if starts_at(text, &wanted, at) {
            assert(stands_at(text@, part@, at as int));
            return true;
        }
        if at == last {
            assert forall|place: int| !#[trigger] stands_at(text@, part@, place) by {}
            return false;
        }
        at = at + 1;
    }
    false
}

/// Whether a piece of text stands in another at a place.
pub fn starts_at(text: &Vec<char>, part: &Vec<char>, at: usize) -> (held: bool)
    requires
        at <= text@.len(),
    ensures
        held == stands_at(text@, part@, at as int),
{
    if part.len() > text.len() - at {
        return false;
    }
    let mut place: usize = 0;
    while place < part.len()
        invariant
            at + part@.len() <= text@.len(),
            text@.len() <= usize::MAX,
            place <= part@.len(),
            forall|before: int|
                0 <= before < place ==> text@[at + before] == #[trigger] part@[before],
        decreases part.len() - place,
    {
        if text[at + place] != part[place] {
            assert(text@.subrange(at as int, at + part@.len())[place as int] != part@[place as int]);
            return false;
        }
        place = place + 1;
    }
    assert(text@.subrange(at as int, at + part@.len()) =~= part@);
    true
}

/// Whether one piece of text comes before another, letter by letter: the first
/// letter they differ in decides, and a text comes before a longer one that begins
/// with it.
pub open spec fn comes_before(one: Seq<char>, other: Seq<char>) -> bool
    decreases one.len(),
{
    if other.len() == 0 {
        false
    } else if one.len() == 0 {
        true
    } else if one[0] != other[0] {
        (one[0] as int) < (other[0] as int)
    } else {
        comes_before(one.drop_first(), other.drop_first())
    }
}

/// Of two texts one comes before the other unless they are the same, and never
/// each before the other.
pub proof fn texts_stand_in_one_order(one: Seq<char>, other: Seq<char>)
    ensures
        comes_before(one, other) || comes_before(other, one) || one == other,
        !(comes_before(one, other) && comes_before(other, one)),
        !comes_before(one, one),
    decreases one.len(),
{
    if one.len() > 0 && other.len() > 0 && one[0] == other[0] {
        texts_stand_in_one_order(one.drop_first(), other.drop_first());
        if one.drop_first() == other.drop_first() {
            assert(one =~= seq![one[0]] + one.drop_first());
            assert(other =~= seq![other[0]] + other.drop_first());
        }
    }
    if one.len() > 0 {
        texts_stand_in_one_order(one.drop_first(), one.drop_first());
    }
    if one.len() == 0 && other.len() == 0 {
        assert(one =~= other);
    }
}

/// What comes before a text that comes before a third comes before that one.
pub proof fn order_carries_over(one: Seq<char>, other: Seq<char>, third: Seq<char>)
    requires
        comes_before(one, other),
        comes_before(other, third),
    ensures
        comes_before(one, third),
    decreases one.len(),
{
    if one.len() > 0 && one[0] == other[0] && other[0] == third[0] {
        order_carries_over(one.drop_first(), other.drop_first(), third.drop_first());
    }
}

/// Whether one piece of text comes before another.
pub fn before(one: &Vec<char>, other: &Vec<char>) -> (first: bool)
    ensures
        first == comes_before(one@, other@),
{
    let mut at: usize = 0;
    assert(one@.skip(0) =~= one@);
    assert(other@.skip(0) =~= other@);
    while at < one.len() && at < other.len()
        invariant
            at <= one@.len(),
            at <= other@.len(),
            comes_before(one@, other@) == comes_before(
                one@.skip(at as int),
                other@.skip(at as int),
            ),
        decreases one.len() - at,
    {
        let left: u32 = code_of(one[at]);
        let right: u32 = code_of(other[at]);
        if left != right {
            return left < right;
        }
        assert(one@.skip(at as int).drop_first() =~= one@.skip(at + 1));
        assert(other@.skip(at as int).drop_first() =~= other@.skip(at + 1));
        at = at + 1;
    }
    at < other.len()
}

} // verus!
