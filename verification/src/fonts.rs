//! Which letters a face can draw, and which of a machine's faces to ask for the ones
//! the window's own cannot.

use vstd::prelude::*;
use vstd::string::*;

use crate::faces::{bytes_have, face_in, face_of, Face};
use crate::folders::{lowercase, lowered};
use crate::text::{blank, code_of, contains, contains_text, decimal, digits, is_blank, letters};

verus! {

/// Whether a letter can be drawn, by the bundled face or by one found since.
pub open spec fn is_drawn(bundled: Seq<u8>, found: Seq<Seq<u8>>, letter: char) -> bool {
    ||| bytes_have(bundled, 0, letter)
    ||| exists|at: int| 0 <= at < found.len() && bytes_have(#[trigger] found[at], 0, letter)
}

/// Whether some letters stand in the order of their codes, each once.
pub open spec fn in_code_order(row: Seq<char>) -> bool {
    forall|i: int, j: int|
        0 <= i < j < row.len() ==> (#[trigger] row[i] as int) < (#[trigger] row[j] as int)
}

/// Where a letter is among letters in the order of their codes, or the place it
/// would have.
fn place_of(row: &Vec<char>, letter: char) -> (at: usize)
    requires
        in_code_order(row@),
    ensures
        at <= row@.len(),
        forall|i: int| 0 <= i < at ==> (#[trigger] row@[i] as int) < letter as int,
        forall|i: int| at <= i < row@.len() ==> letter as int <= (#[trigger] row@[i] as int),
{
    let wanted = code_of(letter);
    let mut low: usize = 0;
    let mut high: usize = row.len();
    while low < high
        invariant
            in_code_order(row@),
            wanted == letter as int,
            low <= high <= row@.len(),
            forall|i: int| 0 <= i < low ==> (#[trigger] row@[i] as int) < letter as int,
            forall|i: int| high <= i < row@.len() ==> letter as int <= (#[trigger] row@[i] as int),
        decreases high - low,
    {
        let middle: usize = low + (high - low) / 2;
        if code_of(row[middle]) < wanted {
            assert forall|i: int| 0 <= i < middle + 1 implies (#[trigger] row@[i] as int)
                < letter as int by {
                if i < middle {
                    assert((row@[i] as int) < (row@[middle as int] as int));
                }
            }
            low = middle + 1;
        } else {
            assert forall|i: int| middle <= i < row@.len() implies letter as int <= (
            #[trigger] row@[i] as int) by {
                if middle < i {
                    assert((row@[middle as int] as int) < (row@[i] as int));
                }
            }
            high = middle;
        }
    }
    low
}

/// The letters of a piece of text that have anything to draw, each once, in the
/// order of their codes.
pub fn letters_to_draw(text: &str) -> (row: Vec<char>)
    ensures
        in_code_order(row@),
        forall|letter: char| #[trigger]
            row@.contains(letter) <==> text@.contains(letter) && !is_blank(letter),
{
    let all = letters(text);
    let mut row: Vec<char> = Vec::new();
    for at in 0..all.len()
        invariant
            in_code_order(row@),
            forall|letter: char| #[trigger]
                row@.contains(letter) <==> all@.take(at as int).contains(letter) && !is_blank(
                    letter,
                ),
    {
        let letter = all[at];
        let ghost before = row@;
        let ghost seen = all@.take(at as int);
        let ghost now = all@.take(at + 1);
        proof {
            assert(now =~= seen.push(letter));
            assert forall|other: char| #[trigger] now.contains(other) <==> seen.contains(other)
                || other == letter by {
                lemma_pushed(seen, letter, other);
            }
        }
        if !blank(letter) {
            let place = place_of(&row, letter);
            if place < row.len() && code_of(row[place]) == code_of(letter) {
                assert(before[place as int] == letter);
                assert(before.contains(letter));
            } else {
                row.insert(place, letter);
                proof {
                    assert(row@ =~= before.insert(place as int, letter));
                    lemma_inserted_in_order(before, place as int, letter);
                    assert forall|other: char| #[trigger] row@.contains(other) <==> before.contains(
                        other,
                    ) || other == letter by {
                        lemma_inserted(before, place as int, letter, other);
                    }
                }
            }
        }
        assert forall|other: char| #[trigger] row@.contains(other) <==> now.contains(other)
            && !is_blank(other) by {
            assert(before.contains(other) <==> seen.contains(other) && !is_blank(other));
            assert(now.contains(other) <==> seen.contains(other) || other == letter);
        }
    }
    assert(all@.take(all@.len() as int) =~= all@);
    row
}

/// A letter put behind others is among them, and nothing else is besides those.
proof fn lemma_pushed(row: Seq<char>, letter: char, other: char)
    ensures
        row.push(letter).contains(other) <==> row.contains(other) || other == letter,
{
    let pushed = row.push(letter);
    assert(pushed[row.len() as int] == letter);
    if row.contains(other) {
        let at = choose|at: int| 0 <= at < row.len() && row[at] == other;
        assert(pushed[at] == other);
    }
    if pushed.contains(other) && other != letter {
        let at = choose|at: int| 0 <= at < pushed.len() && pushed[at] == other;
        assert(row[at] == other);
    }
}

/// A letter put among others is among them, and nothing else is besides those.
proof fn lemma_inserted(row: Seq<char>, place: int, letter: char, other: char)
    requires
        0 <= place <= row.len(),
    ensures
        row.insert(place, letter).contains(other) <==> row.contains(other) || other == letter,
{
    let inserted = row.insert(place, letter);
    assert(inserted[place] == letter);
    if row.contains(other) {
        let at = choose|at: int| 0 <= at < row.len() && row[at] == other;
        if at < place {
            assert(inserted[at] == other);
        } else {
            assert(inserted[at + 1] == other);
        }
    }
    if inserted.contains(other) && other != letter {
        let at = choose|at: int| 0 <= at < inserted.len() && inserted[at] == other;
        if at < place {
            assert(row[at] == other);
        } else {
            assert(row[at - 1] == other);
        }
    }
}

/// A letter put in its place leaves the letters in the order of their codes.
proof fn lemma_inserted_in_order(row: Seq<char>, place: int, letter: char)
    requires
        in_code_order(row),
        0 <= place <= row.len(),
        forall|i: int| 0 <= i < place ==> (#[trigger] row[i] as int) < letter as int,
        forall|i: int| place <= i < row.len() ==> (letter as int) < (#[trigger] row[i] as int),
    ensures
        in_code_order(row.insert(place, letter)),
{
    let inserted = row.insert(place, letter);
    assert forall|i: int, j: int| 0 <= i < j < inserted.len() implies (#[trigger] inserted[i] as int)
        < (#[trigger] inserted[j] as int) by {
        let left = if i < place {
            row[i]
        } else if i == place {
            letter
        } else {
            row[i - 1]
        };
        let right = if j < place {
            row[j]
        } else if j == place {
            letter
        } else {
            row[j - 1]
        };
        assert(inserted[i] == left);
        assert(inserted[j] == right);
    }
}

/// The letters that are not drawn, of some of which it is known whether each is.
pub open spec fn undrawn(row: Seq<char>, drawn: Seq<bool>) -> Seq<char>
    recommends
        row.len() == drawn.len(),
    decreases row.len(),
{
    if row.len() == 0 {
        Seq::empty()
    } else {
        let rest = undrawn(row.drop_last(), drawn.drop_last());
        if drawn.last() {
            rest
        } else {
            rest.push(row.last())
        }
    }
}

/// The letters that are not drawn, of some of which it is known whether each is.
pub fn left_undrawn(row: &Vec<char>, drawn: &Vec<bool>) -> (missing: Vec<char>)
    requires
        row@.len() == drawn@.len(),
    ensures
        missing@ == undrawn(row@, drawn@),
{
    let mut missing: Vec<char> = Vec::new();
    for at in 0..row.len()
        invariant
            row@.len() == drawn@.len(),
            missing@ == undrawn(row@.take(at as int), drawn@.take(at as int)),
    {
        proof {
            assert(row@.take(at + 1).drop_last() =~= row@.take(at as int));
            assert(drawn@.take(at + 1).drop_last() =~= drawn@.take(at as int));
        }
        if !drawn[at] {
            missing.push(row[at]);
        }
    }
    assert(row@.take(row@.len() as int) =~= row@);
    assert(drawn@.take(drawn@.len() as int) =~= drawn@);
    missing
}

/// What is left undrawn is in order where the letters are, and is those of them that
/// are not drawn.
proof fn lemma_undrawn(row: Seq<char>, drawn: Seq<bool>)
    requires
        in_code_order(row),
        row.len() == drawn.len(),
    ensures
        in_code_order(undrawn(row, drawn)),
        forall|letter: char| #[trigger]
            undrawn(row, drawn).contains(letter) <==> exists|at: int|
                0 <= at < row.len() && row[at] == letter && !#[trigger] drawn[at],
    decreases row.len(),
{
    if row.len() > 0 {
        let rest = undrawn(row.drop_last(), drawn.drop_last());
        let last = row.last();
        lemma_undrawn(row.drop_last(), drawn.drop_last());
        assert forall|letter: char| #[trigger] undrawn(row, drawn).contains(letter) <==> exists|
            at: int,
        |
            0 <= at < row.len() && row[at] == letter && !#[trigger] drawn[at] by {
            lemma_pushed(rest, last, letter);
            if rest.contains(letter) {
                let at = choose|at: int|
                    0 <= at < row.drop_last().len() && row.drop_last()[at] == letter
                        && !#[trigger] drawn.drop_last()[at];
                assert(row[at] == letter && !drawn[at]);
            }
            if exists|at: int| 0 <= at < row.len() && row[at] == letter && !#[trigger] drawn[at] {
                let at = choose|at: int|
                    0 <= at < row.len() && row[at] == letter && !#[trigger] drawn[at];
                if at < row.len() - 1 {
                    assert(row.drop_last()[at] == letter && !drawn.drop_last()[at]);
                }
            }
            if !drawn.last() && letter == last {
                assert(row[row.len() - 1] == letter && !drawn[row.len() - 1]);
            }
        }
        if !drawn.last() {
            assert forall|i: int, j: int| 0 <= i < j < undrawn(row, drawn).len() implies (
            #[trigger] undrawn(row, drawn)[i] as int) < (#[trigger] undrawn(row, drawn)[j] as int)
                by {
                if j == rest.len() {
                    assert(rest.contains(rest[i]));
                    let at = choose|at: int|
                        0 <= at < row.drop_last().len() && row.drop_last()[at] == rest[i]
                            && !#[trigger] drawn.drop_last()[at];
                    assert((row[at] as int) < (row[row.len() - 1] as int));
                }
            }
        }
    }
}

/// Whether a face, where there is one, has a letter.
fn face_has(face: &Option<Face<'_>>, letter: char) -> (drawn: bool)
    requires
        face matches Some(held) ==> held@.can_be_read(),
    ensures
        drawn == (face matches Some(held) && held@.has_letter(letter)),
{
    match face {
        Some(held) => held.has(letter),
        None => false,
    }
}

/// Whether a letter can be drawn, by the bundled face or by one found since.
fn can_draw(
    bundled: &Option<Face<'_>>,
    others: &Vec<Option<Face<'_>>>,
    letter: char,
    Ghost(bytes): Ghost<Seq<u8>>,
    Ghost(found): Ghost<Seq<Seq<u8>>>,
) -> (drawn: bool)
    requires
        is_held(*bundled, bytes),
        others@.len() == found.len(),
        forall|at: int| 0 <= at < found.len() ==> is_held(#[trigger] others@[at], found[at]),
    ensures
        drawn == is_drawn(bytes, found, letter),
{
    if face_has(bundled, letter) {
        return true;
    }
    for at in 0..others.len()
        invariant
            !bytes_have(bytes, 0, letter),
            others@.len() == found.len(),
            forall|i: int| 0 <= i < found.len() ==> is_held(#[trigger] others@[i], found[i]),
            forall|before: int|
                0 <= before < at ==> !bytes_have(#[trigger] found[before], 0, letter),
    {
        assert(is_held(others@[at as int], found[at as int]));
        if face_has(&others[at], letter) {
            assert(bytes_have(found[at as int], 0, letter));
            return true;
        }
    }
    false
}

/// Whether a face is the one that some bytes hold.
spec fn is_held(face: Option<Face<'_>>, bytes: Seq<u8>) -> bool {
    match face {
        Some(held) => face_in(bytes, 0) == Some(held@),
        None => face_in(bytes, 0) is None,
    }
}

/// The letters of a piece of text that neither the bundled face nor anything found
/// so far can draw. Read from the faces themselves rather than from the window, so
/// this answers before there is a window and cannot depend on one.
pub fn missing_from(bundled: &[u8], text: &str, found: &Vec<Vec<u8>>) -> (missing: Vec<char>)
    ensures
        in_code_order(missing@),
        forall|letter: char| #[trigger]
            missing@.contains(letter) <==> text@.contains(letter) && !is_blank(letter)
                && !is_drawn(bundled@, found.deep_view(), letter),
{
    let row = letters_to_draw(text);
    let ghost faces = found.deep_view();
    let own = face_of(bundled, 0);
    let mut others: Vec<Option<Face<'_>>> = Vec::new();
    for at in 0..found.len()
        invariant
            faces == found.deep_view(),
            others@.len() == at,
            forall|i: int| 0 <= i < at ==> is_held(#[trigger] others@[i], faces[i]),
    {
        let bytes: &[u8] = found[at].as_slice();
        assert(faces[at as int] =~= bytes@);
        others.push(face_of(bytes, 0));
    }
    let mut drawn: Vec<bool> = Vec::new();
    for at in 0..row.len()
        invariant
            faces == found.deep_view(),
            is_held(own, bundled@),
            others@.len() == faces.len(),
            forall|i: int| 0 <= i < faces.len() ==> is_held(#[trigger] others@[i], faces[i]),
            drawn@.len() == at,
            forall|i: int|
                0 <= i < at ==> #[trigger] drawn@[i] == is_drawn(
                    bundled@,
                    found.deep_view(),
                    row@[i],
                ),
    {
        drawn.push(can_draw(&own, &others, row[at], Ghost(bundled@), Ghost(faces)));
    }
    let missing = left_undrawn(&row, &drawn);
    proof {
        lemma_undrawn(row@, drawn@);
        assert forall|letter: char| #[trigger] missing@.contains(letter) <==> text@.contains(letter)
            && !is_blank(letter) && !is_drawn(bundled@, found.deep_view(), letter) by {
            if missing@.contains(letter) {
                let at = choose|at: int|
                    0 <= at < row@.len() && row@[at] == letter && !#[trigger] drawn@[at];
                assert(row@.contains(letter));
            }
            if row@.contains(letter) && !is_drawn(bundled@, found.deep_view(), letter) {
                let at = choose|at: int| 0 <= at < row@.len() && row@[at] == letter;
                assert(!drawn@[at]);
            }
        }
    }
    missing
}

/// The words that say a face is a sans serif: the interface faces of the three
/// platforms, and the usual names for one in the scripts that have their own word
/// for it.
pub open spec fn sans_words() -> Seq<Seq<char>> {
    seq![
        "sans"@,
        "gothic"@,
        "hei"@,
        "grotesk"@,
        "arial"@,
        "helvetica"@,
        "segoe ui"@,
        "verdana"@,
        "tahoma"@,
        "roboto"@,
        "inter"@,
        "ui"@,
    ]
}

/// The words that say a face is not one.
pub open spec fn serif_words() -> Seq<Seq<char>> {
    seq![
        "serif"@,
        "mincho"@,
        "song"@,
        "times"@,
        "georgia"@,
        "garamond"@,
        "script"@,
        "cursive"@,
    ]
}

/// Whether any of some words stands in a name.
pub open spec fn says_any(name: Seq<char>, words: Seq<Seq<char>>) -> bool {
    exists|at: int| 0 <= at < words.len() && contains_text(name, #[trigger] words[at])
}

/// Whether a name in lower case is that of a sans serif. A serif whose name also
/// holds a sans serif word is still a serif.
pub open spec fn is_sans(name: Seq<char>) -> bool {
    !says_any(name, serif_words()) && says_any(name, sans_words())
}

/// Whether any of some words stands in a name.
fn any_said(name: &Vec<char>, words: &Vec<&'static str>) -> (said: bool)
    ensures
        said == says_any(name@, words.deep_view()),
{
    for at in 0..words.len()
        invariant
            forall|before: int|
                0 <= before < at ==> !contains_text(name@, #[trigger] words.deep_view()[before]),
    {
        assert(words.deep_view()[at as int] == words@[at as int]@);
        if contains(name, words[at]) {
            return true;
        }
    }
    false
}

/// Whether a name in lower case is that of a sans serif.
pub fn named_sans(name: &str) -> (sans: bool)
    ensures
        sans == is_sans(name@),
{
    let name = letters(name);
    let mut serif: Vec<&'static str> = Vec::new();
    serif.push("serif");
    serif.push("mincho");
    serif.push("song");
    serif.push("times");
    serif.push("georgia");
    serif.push("garamond");
    serif.push("script");
    serif.push("cursive");
    assert(serif.deep_view() =~= serif_words());
    if any_said(&name, &serif) {
        return false;
    }
    let mut sans: Vec<&'static str> = Vec::new();
    sans.push("sans");
    sans.push("gothic");
    sans.push("hei");
    sans.push("grotesk");
    sans.push("arial");
    sans.push("helvetica");
    sans.push("segoe ui");
    sans.push("verdana");
    sans.push("tahoma");
    sans.push("roboto");
    sans.push("inter");
    sans.push("ui");
    assert(sans.deep_view() =~= sans_words());
    any_said(&name, &sans)
}

/// What a machine says about one of its faces.
pub struct FaceInfo {
    /// Its names, the one it goes by first.
    pub families: Vec<String>,
    /// Whether it is upright, of the usual weight, and of the usual width.
    pub upright: bool,
    pub regular: bool,
    pub unstretched: bool,
}

/// What a machine says about a face, as the contracts speak of it.
pub struct FaceInfoView {
    pub families: Seq<Seq<char>>,
    pub upright: bool,
    pub regular: bool,
    pub unstretched: bool,
}

impl DeepView for FaceInfo {
    type V = FaceInfoView;

    open spec fn deep_view(&self) -> FaceInfoView {
        FaceInfoView {
            families: self.families.deep_view(),
            upright: self.upright,
            regular: self.regular,
            unstretched: self.unstretched,
        }
    }
}

impl FaceInfoView {
    /// Whether it is the plain face of its family.
    pub open spec fn is_plain(self) -> bool {
        self.upright && self.regular && self.unstretched
    }

    /// Whether it says it is a sans serif, by the name it goes by.
    pub open spec fn says_sans(self) -> bool {
        is_sans(
            if self.families.len() == 0 {
                Seq::empty()
            } else {
                lowercase(self.families[0])
            },
        )
    }
}

/// Whether a face's name says it is a sans serif.
pub fn looks_sans_serif(face: &FaceInfo) -> (sans: bool)
    ensures
        sans == face.deep_view().says_sans(),
{
    if face.families.len() == 0 {
        let none = String::new();
        assert(none@ =~= Seq::<char>::empty());
        named_sans(none.as_str())
    } else {
        assert(face.deep_view().families[0] == face.families@[0]@);
        named_sans(lowered(face.families[0].as_str()).as_str())
    }
}

/// The plain faces among the first of some that are sans serifs, or that are not.
pub open spec fn plain_ones(faces: Seq<FaceInfoView>, sans: Seq<bool>, wanted: bool) -> Seq<usize>
    decreases faces.len(),
{
    if faces.len() == 0 {
        Seq::empty()
    } else {
        let before = plain_ones(faces.drop_last(), sans, wanted);
        let at = faces.len() - 1;
        if faces[at].is_plain() && sans[at] == wanted {
            before.push(at as usize)
        } else {
            before
        }
    }
}

/// The plain faces in the order they are tried in: sans serifs first, and each in
/// the order the machine has them in.
pub open spec fn tried(faces: Seq<FaceInfoView>, sans: Seq<bool>) -> Seq<usize> {
    plain_ones(faces, sans, true) + plain_ones(faces, sans, false)
}

/// The order some faces are tried in, it being known of each whether it is a sans
/// serif.
pub fn order_given(faces: &Vec<FaceInfo>, sans: &Vec<bool>) -> (order: Vec<usize>)
    requires
        sans@.len() == faces@.len(),
    ensures
        order@ == tried(faces.deep_view(), sans@),
{
    let ghost all = faces.deep_view();
    let mut order: Vec<usize> = Vec::new();
    let mut others: Vec<usize> = Vec::new();
    for at in 0..faces.len()
        invariant
            all == faces.deep_view(),
            sans@.len() == faces@.len(),
            order@ == plain_ones(all.take(at as int), sans@, true),
            others@ == plain_ones(all.take(at as int), sans@, false),
    {
        proof {
            assert(all.take(at + 1).drop_last() =~= all.take(at as int));
            assert(all[at as int] == faces@[at as int].deep_view());
        }
        let face = &faces[at];
        if face.upright && face.regular && face.unstretched {
            if sans[at] {
                order.push(at);
            } else {
                others.push(at);
            }
        }
    }
    assert(all.take(all.len() as int) =~= all);
    order.append(&mut others);
    order
}

/// The faces of a machine in the order they are tried in. Nothing says what kind of
/// face one is, so this goes on the name, which is what the names are for.
pub fn candidates(faces: &Vec<FaceInfo>) -> (order: Vec<usize>)
    ensures
        order@ == tried(
            faces.deep_view(),
            faces.deep_view().map_values(|face: FaceInfoView| face.says_sans()),
        ),
{
    let ghost says = faces.deep_view().map_values(|face: FaceInfoView| face.says_sans());
    let mut sans: Vec<bool> = Vec::new();
    for at in 0..faces.len()
        invariant
            says == faces.deep_view().map_values(|face: FaceInfoView| face.says_sans()),
            sans@ == says.take(at as int),
    {
        assert(faces.deep_view()[at as int] == faces@[at as int].deep_view());
        sans.push(looks_sans_serif(&faces[at]));
        assert(sans@ =~= says.take(at + 1));
    }
    assert(sans@ =~= says);
    order_given(faces, &sans)
}

/// Whether a face is taken for some letters, it being known whether it is one and of
/// each letter whether it has it: it is where it has all of them.
pub fn takes(parsed: bool, drawn: &Vec<bool>) -> (taken: bool)
    ensures
        taken == (parsed && forall|at: int| 0 <= at < drawn@.len() ==> #[trigger] drawn@[at]),
{
    if !parsed {
        return false;
    }
    for at in 0..drawn.len()
        invariant
            forall|before: int| 0 <= before < at ==> #[trigger] drawn@[before],
    {
        if !drawn[at] {
            return false;
        }
    }
    true
}

/// Whether some bytes hold a face at an index that has every one of some letters.
pub open spec fn has_all(face: Seq<u8>, index: u32, wanted: Seq<char>) -> bool {
    &&& face_in(face, index) is Some
    &&& forall|at: int|
        0 <= at < wanted.len() ==> bytes_have(face, index, #[trigger] wanted[at])
}

/// Whether a face has every one of some letters.
pub fn covers(face: &[u8], index: u32, wanted: &Vec<char>) -> (covered: bool)
    ensures
        covered == has_all(face@, index, wanted@),
{
    let held = face_of(face, index);
    let mut drawn: Vec<bool> = Vec::new();
    for at in 0..wanted.len()
        invariant
            match held {
                Some(held) => face_in(face@, index) == Some(held@),
                None => face_in(face@, index) is None,
            },
            drawn@.len() == at,
            forall|i: int|
                0 <= i < at ==> #[trigger] drawn@[i] == bytes_have(face@, index, wanted@[i]),
    {
        drawn.push(face_has(&held, wanted[at]));
    }
    let covered = takes(held.is_some(), &drawn);
    proof {
        if covered {
            assert forall|at: int| 0 <= at < wanted@.len() implies bytes_have(
                face@,
                index,
                #[trigger] wanted@[at],
            ) by {
                assert(drawn@[at]);
            }
        } else if held is Some {
            let at = choose|at: int| 0 <= at < drawn@.len() && !#[trigger] drawn@[at];
            assert(!bytes_have(face@, index, wanted@[at]));
        }
    }
    covered
}

/// The name one of the faces found goes by.
pub open spec fn found_name(at: nat) -> Seq<char> {
    "system"@ + digits(at)
}

/// The names the faces go by, the bundled one first and then those found for the
/// scripts it lacks. A letter missing from one face is looked for in the next.
pub open spec fn names_of_faces(found: nat) -> Seq<Seq<char>> {
    seq!["ui"@] + Seq::new(found, |at: int| found_name(at as nat))
}

/// The names the faces go by, in the order they are looked in.
pub fn face_names(found: usize) -> (names: Vec<String>)
    requires
        found < usize::MAX,
    ensures
        names.deep_view() == names_of_faces(found as nat),
{
    let mut names: Vec<String> = Vec::new();
    names.push(String::from_str("ui"));
    let ghost all = names_of_faces(found as nat);
    assert(names.deep_view() =~= all.take(1));
    for at in 0..found
        invariant
            found < usize::MAX,
            all == names_of_faces(found as nat),
            names.deep_view() == all.take(at + 1),
    {
        let ghost before = names.deep_view();
        names.push(String::from_str("system").concat(decimal(at as u128).as_str()));
        assert(names.deep_view() =~= before.push(found_name(at as nat)));
        assert(all[at + 1] == found_name(at as nat));
        assert(names.deep_view() =~= all.take(at + 2));
    }
    assert(all.take(found + 1) =~= all);
    names
}

/// A text whose letters the bundled face has sends nobody looking for another.
pub proof fn a_text_that_can_be_drawn_misses_nothing(
    bundled: Seq<u8>,
    found: Seq<Seq<u8>>,
    text: Seq<char>,
    missing: Seq<char>,
)
    requires
        forall|at: int|
            0 <= at < text.len() ==> is_blank(#[trigger] text[at]) || bytes_have(
                bundled,
                0,
                text[at],
            ),
        forall|letter: char| #[trigger]
            missing.contains(letter) <==> text.contains(letter) && !is_blank(letter) && !is_drawn(
                bundled,
                found,
                letter,
            ),
    ensures
        missing.len() == 0,
{
    if missing.len() > 0 {
        let letter = missing[0];
        assert(missing.contains(letter));
        let at = choose|at: int| 0 <= at < text.len() && text[at] == letter;
        assert(is_blank(text[at]) || bytes_have(bundled, 0, text[at]));
    }
}

/// Finding one more face never leaves a letter undrawn that could be drawn.
pub proof fn another_face_loses_no_letter(
    bundled: Seq<u8>,
    found: Seq<Seq<u8>>,
    another: Seq<u8>,
    letter: char,
)
    requires
        is_drawn(bundled, found, letter),
    ensures
        is_drawn(bundled, found.push(another), letter),
{
    if !bytes_have(bundled, 0, letter) {
        let at = choose|at: int| 0 <= at < found.len() && bytes_have(#[trigger] found[at], 0, letter);
        assert(found.push(another)[at] == found[at]);
    }
}

} // verus!
