//! What holds of the order faces are tried in and of the tables they are made of.

use vstd::prelude::*;

use crate::faces::{
    bytes_have, directory_fits, directory_of, face_in, long_at, map_fits, short_at, subtable_at,
    subtable_fits, table_in, tables_in, FaceView,
};
use crate::folders::lowercase;
use crate::fonts::{
    has_all, is_drawn, is_sans, names_of_faces, plain_ones, sans_words, says_any, serif_words, tried,
    undrawn, FaceInfoView,
};
use crate::text::{contains_text, digits};

verus! {

/// A face is tried exactly where it is upright, regular and unstretched, those without
/// serifs before the others, and within each of the two in the order they were found.
pub proof fn faces_without_serifs_are_tried_first(
    faces: Seq<FaceInfoView>,
    sans: Seq<bool>,
    at: usize,
    one: int,
    other: int,
)
    requires
        sans.len() == faces.len(),
        faces.len() <= usize::MAX,
    ensures
        ({
            let order = tried(faces, sans);
            &&& order.contains(at) <==> at < faces.len() && faces[at as int].upright
                && faces[at as int].regular && faces[at as int].unstretched
            &&& 0 <= one < other < order.len() ==> {
                ||| sans[order[one] as int] && !sans[order[other] as int]
                ||| sans[order[one] as int] == sans[order[other] as int] && order[one]
                    < order[other]
            }
        }),
{
    let order = tried(faces, sans);
    let first = plain_ones(faces, sans, true);
    let then = plain_ones(faces, sans, false);
    lemma_plain_ones(faces, sans, true);
    lemma_plain_ones(faces, sans, false);
    lemma_contains(faces, sans, true, at);
    lemma_contains(faces, sans, false, at);
    assert(order.contains(at) <==> first.contains(at) || then.contains(at)) by {
        if order.contains(at) {
            let place = choose|place: int| 0 <= place < order.len() && order[place] == at;
            if place < first.len() {
                assert(first[place] == at);
            } else {
                assert(then[place - first.len()] == at);
            }
        }
        if first.contains(at) {
            let place = choose|place: int| 0 <= place < first.len() && first[place] == at;
            assert(order[place] == at);
        }
        if then.contains(at) {
            let place = choose|place: int| 0 <= place < then.len() && then[place] == at;
            assert(order[first.len() + place] == at);
        }
    }
    if 0 <= one < other < order.len() {
        if other < first.len() {
            assert(order[one] == first[one] && order[other] == first[other]);
        } else if one < first.len() {
            assert(order[one] == first[one] && order[other] == then[other - first.len()]);
        } else {
            assert(order[one] == then[one - first.len()] && order[other] == then[other
                - first.len()]);
        }
    }
}

proof fn lemma_plain_ones(faces: Seq<FaceInfoView>, sans: Seq<bool>, wanted: bool)
    requires
        faces.len() <= sans.len(),
        faces.len() <= usize::MAX,
    ensures
        ({
            let order = plain_ones(faces, sans, wanted);
            &&& forall|place: int|
                0 <= place < order.len() ==> (#[trigger] order[place]) < faces.len()
                    && sans[order[place] as int] == wanted
            &&& forall|one: int, other: int|
                0 <= one < other < order.len() ==> #[trigger] order[one] < #[trigger] order[other]
        }),
    decreases faces.len(),
{
    if faces.len() > 0 {
        let rest = faces.drop_last();
        let before = plain_ones(rest, sans, wanted);
        let order = plain_ones(faces, sans, wanted);
        lemma_plain_ones(rest, sans, wanted);
        assert forall|place: int| 0 <= place < order.len() implies (#[trigger] order[place])
            < faces.len() && sans[order[place] as int] == wanted by {
            if place < before.len() {
                assert(order[place] == before[place]);
            }
        }
        assert forall|one: int, other: int|
            0 <= one < other < order.len() implies #[trigger] order[one]
            < #[trigger] order[other] by {
            assert(order[one] == before[one]);
            if other < before.len() {
                assert(order[other] == before[other]);
            }
        }
    }
}

proof fn lemma_contains(faces: Seq<FaceInfoView>, sans: Seq<bool>, wanted: bool, at: usize)
    requires
        faces.len() <= sans.len(),
        faces.len() <= usize::MAX,
    ensures
        plain_ones(faces, sans, wanted).contains(at) <==> at < faces.len() && sans[at as int]
            == wanted && faces[at as int].upright && faces[at as int].regular
            && faces[at as int].unstretched,
    decreases faces.len(),
{
    if faces.len() > 0 {
        let rest = faces.drop_last();
        let before = plain_ones(rest, sans, wanted);
        let order = plain_ones(faces, sans, wanted);
        let last = faces.len() - 1;
        lemma_contains(rest, sans, wanted, at);
        if order.contains(at) {
            let place = choose|place: int| 0 <= place < order.len() && order[place] == at;
            if place < before.len() {
                assert(before[place] == at);
            }
        }
        if before.contains(at) {
            let place = choose|place: int| 0 <= place < before.len() && before[place] == at;
            assert(order[place] == at);
        }
        if at == last && faces[last].is_plain() && sans[last] == wanted {
            assert(order[before.len() as int] == at);
        }
        if at < rest.len() {
            assert(rest[at as int] == faces[at as int]);
        }
    }
}

/// A name that says it has serifs is never taken for one without, whatever else it says.
pub proof fn a_name_with_serifs_is_not_without(name: Seq<char>)
    requires
        says_any(name, serif_words()),
    ensures
        !is_sans(name),
{
}

/// The letters that are left are those that could not be drawn, in their order.
pub proof fn letters_that_were_drawn_are_not_left(row: Seq<char>, drawn: Seq<bool>, letter: char)
    requires
        row.len() == drawn.len(),
    ensures
        undrawn(row, drawn).contains(letter) <==> exists|at: int|
            0 <= at < row.len() && #[trigger] row[at] == letter && !drawn[at],
        undrawn(row, drawn).len() <= row.len(),
    decreases row.len(),
{
    if row.len() > 0 {
        let rest = row.drop_last();
        let rest_drawn = drawn.drop_last();
        let before = undrawn(rest, rest_drawn);
        let left = undrawn(row, drawn);
        let last = row.len() - 1;
        letters_that_were_drawn_are_not_left(rest, rest_drawn, letter);
        if left.contains(letter) {
            let place = choose|place: int| 0 <= place < left.len() && left[place] == letter;
            if place < before.len() {
                assert(before[place] == letter);
                let at = choose|at: int|
                    0 <= at < rest.len() && #[trigger] rest[at] == letter && !rest_drawn[at];
                assert(row[at] == letter && !drawn[at]);
            } else {
                assert(row[last] == letter && !drawn[last]);
            }
        }
        if exists|at: int| 0 <= at < row.len() && #[trigger] row[at] == letter && !drawn[at] {
            let at = choose|at: int|
                0 <= at < row.len() && #[trigger] row[at] == letter && !drawn[at];
            if at < last {
                assert(rest[at] == letter && !rest_drawn[at]);
                let place = choose|place: int|
                    0 <= place < before.len() && before[place] == letter;
                assert(left[place] == letter);
            } else {
                assert(left[before.len() as int] == letter);
            }
        }
    }
}

/// Numbers in a face stand with their highest byte first.
pub proof fn numbers_stand_highest_byte_first(bytes: Seq<u8>, at: int)
    requires
        0 <= at,
        at + 4 <= bytes.len(),
    ensures
        short_at(bytes, at) == bytes[at] * 0x100 + bytes[at + 1],
        long_at(bytes, at) == bytes[at] * 0x100_0000 + bytes[at + 1] * 0x1_0000 + bytes[at + 2]
            * 0x100 + bytes[at + 3],
        0 <= long_at(bytes, at) <= u32::MAX,
{
}

/// A table is the bytes its record names, by the last record that has its tag, and there
/// is none where no record has it or the bytes are not all there.
pub proof fn a_table_is_the_bytes_its_record_names(
    face: Seq<u8>,
    records: Seq<(u32, u32, u32)>,
    tag: u32,
    at: int,
)
    ensures
        0 <= at < records.len() && records[at].0 == tag && (forall|after: int|
            at < after < records.len() ==> (#[trigger] records[after]).0 != tag) ==> {
            let from = records[at].1;
            let length = records[at].2;
            &&& from + length <= face.len() ==> table_in(face, records, tag) == Some(
                face.subrange(from as int, from + length),
            )
            &&& from + length > face.len() ==> table_in(face, records, tag) is None
        },
        (forall|place: int| 0 <= place < records.len() ==> (#[trigger] records[place]).0 != tag)
            ==> table_in(face, records, tag) is None,
    decreases records.len(),
{
    if records.len() > 0 {
        let rest = records.drop_last();
        let last = records.len() - 1;
        assert(records[last] == records.last());
        a_table_is_the_bytes_its_record_names(face, rest, tag, at);
        if forall|place: int| 0 <= place < records.len() ==> (#[trigger] records[place]).0 != tag {
            assert forall|place: int| 0 <= place < rest.len() implies (#[trigger] rest[place]).0
                != tag by {
                assert(rest[place] == records[place]);
            }
        }
        if 0 <= at < last && records[at].0 == tag && (forall|after: int|
            at < after < records.len() ==> (#[trigger] records[after]).0 != tag) {
            assert(rest[at] == records[at]);
            assert forall|after: int| at < after < rest.len() implies (#[trigger] rest[after]).0
                != tag by {
                assert(rest[after] == records[after]);
            }
        }
    }
}

/// The four tables about letters are found by their four tags, `head`, `hhea`, `maxp` and
/// `cmap` in the letters' own codes; the first three are no bytes where they are missing,
/// and the last is missing where it is.
pub proof fn tables_are_found_by_their_tags(face: Seq<u8>, records: Seq<(u32, u32, u32)>)
    ensures
        ({
            let tables = tables_in(face, records);
            &&& table_in(face, records, 0x6865_6164) matches Some(bytes) ==> tables.head == bytes
            &&& table_in(face, records, 0x6865_6164) is None ==> tables.head.len() == 0
            &&& table_in(face, records, 0x6868_6561) matches Some(bytes) ==> tables.hhea == bytes
            &&& table_in(face, records, 0x6868_6561) is None ==> tables.hhea.len() == 0
            &&& table_in(face, records, 0x6d61_7870) matches Some(bytes) ==> tables.maxp == bytes
            &&& table_in(face, records, 0x6d61_7870) is None ==> tables.maxp.len() == 0
            &&& tables.cmap == table_in(face, records, 0x636d_6170)
        }),
{
}

/// A face says that it is without serifs by the first of its families, in small letters.
pub proof fn a_face_is_known_by_its_first_family(face: FaceInfoView)
    ensures
        face.families.len() > 0 ==> face.says_sans() == is_sans(lowercase(face.families[0])),
        face.families.len() == 0 ==> face.says_sans() == is_sans(Seq::empty()),
        face.is_plain() <==> face.upright && face.regular && face.unstretched,
{
}

/// The faces are named one by one: the window's own first, and each that was found by its
/// place behind it.
pub proof fn faces_are_named_by_their_place(found: nat, at: int)
    ensures
        names_of_faces(found).len() == found + 1,
        names_of_faces(found)[0] == "ui"@,
        0 <= at < found ==> names_of_faces(found)[at + 1] == "system"@ + digits(at as nat),
{
}

/// A face has a letter where its map does, and none where it has no map; bytes that hold
/// no face have none.
pub proof fn a_face_without_a_map_has_no_letter(
    tables: FaceView,
    bytes: Seq<u8>,
    index: u32,
    letter: char,
)
    ensures
        tables.cmap is None ==> !tables.has_letter(letter),
        face_in(bytes, index) is None ==> !bytes_have(bytes, index, letter),
        face_in(bytes, index) matches Some(face) ==> (bytes_have(bytes, index, letter)
            <==> face.has_letter(letter)),
        face_in(bytes, index) is Some ==> directory_of(bytes, index) is Some,
{
}

/// A letter is drawn by the window's own face or by one of those that were found, and by
/// nothing else.
pub proof fn a_letter_is_drawn_by_one_of_the_faces(
    bundled: Seq<u8>,
    found: Seq<Seq<u8>>,
    another: Seq<u8>,
    letter: char,
)
    ensures
        is_drawn(bundled, Seq::empty(), letter) <==> bytes_have(bundled, 0, letter),
        is_drawn(bundled, found.push(another), letter) <==> is_drawn(bundled, found, letter)
            || bytes_have(another, 0, letter),
{
    let more = found.push(another);
    if is_drawn(bundled, more, letter) && !bytes_have(bundled, 0, letter) {
        let at = choose|at: int| 0 <= at < more.len() && bytes_have(#[trigger] more[at], 0, letter);
        if at < found.len() {
            assert(found[at] == more[at]);
        }
    }
    if is_drawn(bundled, found, letter) && !bytes_have(bundled, 0, letter) {
        let at = choose|at: int|
            0 <= at < found.len() && bytes_have(#[trigger] found[at], 0, letter);
        assert(more[at] == found[at]);
    }
    assert(more[found.len() as int] == another);
}

/// A name says it has serifs by one of these words, and none but them.
pub proof fn these_words_say_serifs(name: Seq<char>)
    ensures
        says_any(name, serif_words()) <==> contains_text(name, "serif"@) || contains_text(
            name,
            "mincho"@,
        ) || contains_text(name, "song"@) || contains_text(name, "times"@) || contains_text(
            name,
            "georgia"@,
        ) || contains_text(name, "garamond"@) || contains_text(name, "script"@) || contains_text(
            name,
            "cursive"@,
        ),
{
    let words = serif_words();
    assert(words[0] == "serif"@ && words[1] == "mincho"@ && words[2] == "song"@ && words[3]
        == "times"@);
    assert(words[4] == "georgia"@ && words[5] == "garamond"@ && words[6] == "script"@ && words[7]
        == "cursive"@);
    if says_any(name, words) {
        let at = choose|at: int| 0 <= at < words.len() && contains_text(name, #[trigger] words[at]);
        assert(at == 0 || at == 1 || at == 2 || at == 3 || at == 4 || at == 5 || at == 6 || at
            == 7);
    }
}

/// A name that does not say it has serifs is without them where it says one of these
/// words, and nowhere else.
pub proof fn these_words_say_no_serifs(name: Seq<char>)
    ensures
        says_any(name, sans_words()) <==> contains_text(name, "sans"@) || contains_text(
            name,
            "gothic"@,
        ) || contains_text(name, "hei"@) || contains_text(name, "grotesk"@) || contains_text(
            name,
            "arial"@,
        ) || contains_text(name, "helvetica"@) || contains_text(name, "segoe ui"@)
            || contains_text(name, "verdana"@) || contains_text(name, "tahoma"@) || contains_text(
            name,
            "roboto"@,
        ) || contains_text(name, "inter"@) || contains_text(name, "ui"@),
        !says_any(name, serif_words()) ==> (is_sans(name) <==> says_any(name, sans_words())),
{
    let words = sans_words();
    assert(words[0] == "sans"@ && words[1] == "gothic"@ && words[2] == "hei"@ && words[3]
        == "grotesk"@);
    assert(words[4] == "arial"@ && words[5] == "helvetica"@ && words[6] == "segoe ui"@ && words[7]
        == "verdana"@);
    assert(words[8] == "tahoma"@ && words[9] == "roboto"@ && words[10] == "inter"@ && words[11]
        == "ui"@);
    if says_any(name, words) {
        let at = choose|at: int| 0 <= at < words.len() && contains_text(name, #[trigger] words[at]);
        assert(at == 0 || at == 1 || at == 2 || at == 3 || at == 4 || at == 5 || at == 6 || at == 7
            || at == 8 || at == 9 || at == 10 || at == 11);
    }
}

/// Bytes can be asked for their tables where there are not too many of them and, where they
/// begin as a collection of faces does, the faces it counts end within what can be counted.
pub proof fn a_collection_ends_within_reach(face: Seq<u8>)
    requires
        face.len() <= 0x7fff_ffff,
    ensures
        face.len() < 12 ==> directory_fits(face),
        face.len() >= 12 && !(face[0] == 0x74 && face[1] == 0x74 && face[2] == 0x63 && face[3]
            == 0x66) ==> directory_fits(face),
        face.len() >= 12 && face[0] == 0x74 && face[1] == 0x74 && face[2] == 0x63 && face[3]
            == 0x66 ==> (directory_fits(face) <==> 12 + 4 * long_at(face, 8) <= u32::MAX),
{
    if face.len() >= 12 {
        numbers_stand_highest_byte_first(face, 0);
    }
}

/// A map of letters can be read where each of its tables ends within what can be counted:
/// the array of codes of one kind, the groups of two others and the selectors of a fourth,
/// each by its own count and the size of one; any other kind always does.
pub proof fn a_table_of_letters_ends_within_reach(map: Seq<u8>, at: int)
    requires
        0 <= at,
        at + 20 <= map.len(),
    ensures
        ({
            let format = short_at(map, at);
            &&& format == 10 ==> (subtable_fits(map, at) <==> 20 + 2 * long_at(map, at + 16)
                <= u32::MAX)
            &&& format == 12 || format == 13 ==> (subtable_fits(map, at) <==> 16 + 12 * long_at(
                map,
                at + 12,
            ) <= u32::MAX)
            &&& format == 14 ==> (subtable_fits(map, at) <==> 10 + 11 * long_at(map, at + 6)
                <= u32::MAX)
            &&& format != 10 && format != 12 && format != 13 && format != 14 ==> subtable_fits(
                map,
                at,
            )
        }),
{
}

/// A map of letters can be read exactly where each of the tables it counts can, the place
/// of each being written eight bytes behind the one before it.
pub proof fn a_map_can_be_read_where_its_tables_can(map: Seq<u8>)
    requires
        map.len() >= 4,
        4 + 8 * short_at(map, 2) <= map.len(),
    ensures
        map_fits(map) <==> forall|which: int|
            0 <= which < short_at(map, 2) ==> subtable_fits(
                map,
                #[trigger] long_at(map, 8 + 8 * which),
            ),
{
    if map_fits(map) {
        assert forall|which: int| 0 <= which < short_at(map, 2) implies subtable_fits(
            map,
            #[trigger] long_at(map, 8 + 8 * which),
        ) by {
            assert(subtable_fits(map, subtable_at(map, which)));
        }
    }
    if forall|which: int|
        0 <= which < short_at(map, 2) ==> subtable_fits(
            map,
            #[trigger] long_at(map, 8 + 8 * which),
        ) {
        assert forall|which: int| 0 <= which < short_at(map, 2) implies subtable_fits(
            map,
            #[trigger] subtable_at(map, which),
        ) by {
            assert(subtable_fits(map, long_at(map, 8 + 8 * which)));
        }
    }
}

/// A face covers some letters where it can be read and has every one of them: where there
/// are none to cover it has only to be read, and one more is covered where it has that too.
pub proof fn a_face_covers_what_it_has(face: Seq<u8>, index: u32, wanted: Seq<char>, letter: char)
    ensures
        has_all(face, index, Seq::empty()) <==> face_in(face, index) is Some,
        has_all(face, index, wanted.push(letter)) <==> has_all(face, index, wanted) && bytes_have(
            face,
            index,
            letter,
        ),
{
    let more = wanted.push(letter);
    assert(more[wanted.len() as int] == letter);
    assert forall|at: int| 0 <= at < wanted.len() implies #[trigger] wanted[at] == more[at] by {}
    if has_all(face, index, more) {
        assert forall|at: int| 0 <= at < wanted.len() implies bytes_have(
            face,
            index,
            #[trigger] wanted[at],
        ) by {
            assert(bytes_have(face, index, more[at]));
        }
    }
    if has_all(face, index, wanted) && bytes_have(face, index, letter) {
        assert forall|at: int| 0 <= at < more.len() implies bytes_have(
            face,
            index,
            #[trigger] more[at],
        ) by {
            if at < wanted.len() {
                assert(more[at] == wanted[at]);
            }
        }
    }
}

} // verus!
