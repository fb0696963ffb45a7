//! What the bytes of a face say: the tables it is made of, and which letters it has.
//!
//! A face is a directory of tables, and only four of them have to do with letters. Those
//! are handed over to be read; the others are left alone.

use vstd::prelude::*;
use vstd::slice::slice_subrange;

verus! {

/// What a collection of faces begins with.
pub const COLLECTION: u32 = 0x7474_6366;

/// The names of the tables that have to do with letters: `head`, `hhea`, `maxp` and
/// `cmap`.
pub const HEAD: u32 = 0x6865_6164;

pub const HHEA: u32 = 0x6868_6561;

pub const MAXP: u32 = 0x6d61_7870;

pub const CMAP: u32 = 0x636d_6170;

/// The most bytes a face is read from.
pub const MOST_BYTES: usize = 0x7fff_ffff;

/// The number that two bytes are.
pub open spec fn short_at(bytes: Seq<u8>, at: int) -> int {
    256 * bytes[at] + bytes[at + 1]
}

/// The number that four bytes are.
pub open spec fn long_at(bytes: Seq<u8>, at: int) -> int {
    65_536 * short_at(bytes, at) + short_at(bytes, at + 2)
}

fn read_short(bytes: &[u8], at: usize) -> (number: u32)
    requires
        at + 2 <= bytes@.len(),
    ensures
        number == short_at(bytes@, at as int),
        number < 65_536,
{
    256 * (bytes[at] as u32) + bytes[at + 1] as u32
}

fn read_long(bytes: &[u8], at: usize) -> (number: u32)
    requires
        at + 4 <= bytes.len(),
    ensures
        number == long_at(bytes@, at as int),
{
    65_536 * read_short(bytes, at) + read_short(bytes, at + 2)
}

/// Whether so many items of a size, behind so many bytes, end where a number of 32
/// bits still says. Any other count is not one of items that are there.
pub open spec fn ends_in_reach(count: int, size: int, from: int) -> bool {
    from + count * size <= u32::MAX
}

/// Whether the directory of some bytes can be read: there are not too many of them,
/// and where they are a collection the count of its faces is one that can be.
pub open spec fn directory_fits(face: Seq<u8>) -> bool {
    &&& face.len() <= MOST_BYTES
    &&& face.len() >= 12 && long_at(face, 0) == COLLECTION ==> ends_in_reach(
        long_at(face, 8),
        4,
        12,
    )
}

/// Where a subtable of a map of letters begins.
pub open spec fn subtable_at(map: Seq<u8>, which: int) -> int {
    long_at(map, 8 + 8 * which)
}

/// Whether a subtable of a map of letters can be read: the count of what is in it,
/// in the formats where that is a number of 32 bits, is one that can be.
pub open spec fn subtable_fits(map: Seq<u8>, at: int) -> bool {
    let room = map.len() - at;
    room >= 2 ==> {
        let format = short_at(map, at);
        &&& format == 10 && room >= 20 ==> ends_in_reach(long_at(map, at + 16), 2, 20)
        &&& (format == 12 || format == 13) && room >= 16 ==> ends_in_reach(
            long_at(map, at + 12),
            12,
            16,
        )
        &&& format == 14 && room >= 10 ==> ends_in_reach(long_at(map, at + 6), 11, 10)
    }
}

/// Whether a map of letters can be read.
pub open spec fn map_fits(map: Seq<u8>) -> bool {
    map.len() >= 4 && 4 + 8 * short_at(map, 2) <= map.len() ==> forall|which: int|
        0 <= which < short_at(map, 2) ==> subtable_fits(map, #[trigger] subtable_at(map, which))
}

/// Whether the directory of some bytes can be read.
pub fn fits(face: &[u8]) -> (fine: bool)
    ensures
        fine == directory_fits(face@),
{
    if face.len() > MOST_BYTES {
        return false;
    }
    if face.len() < 12 || read_long(face, 0) != COLLECTION {
        return true;
    }
    read_long(face, 8) as u64 * 4 + 12 <= u32::MAX as u64
}

/// Whether a subtable of a map of letters can be read.
fn subtable_can_be_read(map: &[u8], at: usize) -> (fine: bool)
    ensures
        fine == subtable_fits(map@, at as int),
{
    if at >= map.len() {
        return true;
    }
    let room: usize = map.len() - at;
    if room < 2 {
        return true;
    }
    let format = read_short(map, at);
    if format == 10 && room >= 20 {
        read_long(map, at + 16) as u64 * 2 + 20 <= u32::MAX as u64
    } else if (format == 12 || format == 13) && room >= 16 {
        read_long(map, at + 12) as u64 * 12 + 16 <= u32::MAX as u64
    } else if format == 14 && room >= 10 {
        read_long(map, at + 6) as u64 * 11 + 10 <= u32::MAX as u64
    } else {
        true
    }
}

/// Whether a map of letters can be read.
pub fn map_can_be_read(map: &[u8]) -> (fine: bool)
    ensures
        fine == map_fits(map@),
{
    if map.len() < 4 {
        return true;
    }
    let count = read_short(map, 2) as usize;
    if (map.len() - 4) / 8 < count {
        return true;
    }
    for which in 0..count
        invariant
            count == short_at(map@, 2),
            4 + 8 * count <= map@.len(),
            forall|before: int|
                0 <= before < which ==> subtable_fits(
                    map@,
                    #[trigger] subtable_at(map@, before),
                ),
    {
        let at = read_long(map, 8 + 8 * which) as usize;
        assert(at == subtable_at(map@, which as int));
        if !subtable_can_be_read(map, at) {
            return false;
        }
    }
    true
}

/// What the directory of some bytes says about the tables of the face at an index,
/// as `ttf_parser::RawFace::parse` finds: the name of each, where it begins, and how
/// long it is. Nothing where it finds no directory.
pub uninterp spec fn directory_of(face: Seq<u8>, index: u32) -> Option<Seq<(u32, u32, u32)>>;

/// Whether these are the tables of a face, as `ttf_parser::Face::from_raw_tables`
/// finds.
pub uninterp spec fn is_face(head: Seq<u8>, hhea: Seq<u8>, maxp: Seq<u8>) -> bool;

/// Whether a face made of these tables has a glyph for a letter, as
/// `ttf_parser::Face::glyph_index` finds.
pub uninterp spec fn has_glyph(
    head: Seq<u8>,
    hhea: Seq<u8>,
    maxp: Seq<u8>,
    cmap: Seq<u8>,
    letter: char,
) -> bool;

/// `ttf_parser::RawFace::parse`: the records of the directory it reads, in their
/// order, or nothing where it refuses the bytes. That follows from the bytes and the
/// index wherever every count it multiplies stays within 32 bits, which is what is
/// asked of the bytes.
#[verifier::external_body]
fn directory(face: &[u8], index: u32) -> (records: Option<Vec<(u32, u32, u32)>>)
    requires
        directory_fits(face@),
    ensures
        records.deep_view() == directory_of(face@, index),
{
    let raw = ttf_parser::RawFace::parse(face, index).ok()?;
    (0..raw.table_records.len())
        .map(|at| raw.table_records.get(at))
        .map(|record| record.map(|record| (record.tag.0, record.offset, record.length)))
        .collect()
}

/// `ttf_parser::Face::from_raw_tables`, given the three tables a face cannot be
/// without: whether it takes them for a face. It reads numbers at fixed places in
/// them, so that follows from the tables.
#[verifier::external_body]
fn parses(head: &[u8], hhea: &[u8], maxp: &[u8]) -> (fine: bool)
    ensures
        fine == is_face(head@, hhea@, maxp@),
{
    let tables = ttf_parser::RawFaceTables { head, hhea, maxp, ..Default::default() };
    ttf_parser::Face::from_raw_tables(tables).is_ok()
}

/// `ttf_parser::Face::glyph_index`, on the face that `Face::from_raw_tables` makes
/// of these tables: whether it finds a glyph for the letter. That follows from the
/// tables and the letter wherever every count in the map that it multiplies stays
/// within 32 bits, which is what is asked of the map. Tables that are no face's have
/// no glyph for any letter.
#[verifier::external_body]
fn draws(head: &[u8], hhea: &[u8], maxp: &[u8], cmap: &[u8], letter: char) -> (drawn: bool)
    requires
        map_fits(cmap@),
    ensures
        drawn == has_glyph(head@, hhea@, maxp@, cmap@, letter),
        drawn ==> is_face(head@, hhea@, maxp@),
{
    let cmap = Some(cmap);
    let tables = ttf_parser::RawFaceTables { head, hhea, maxp, cmap, ..Default::default() };
    match ttf_parser::Face::from_raw_tables(tables) {
        Ok(face) => face.glyph_index(letter).is_some(),
        Err(_) => false,
    }
}

/// The tables of a face that have to do with letters.
pub struct Face<'a> {
    pub head: &'a [u8],
    pub hhea: &'a [u8],
    pub maxp: &'a [u8],
    /// The map from letters to glyphs, where there is one.
    pub cmap: Option<&'a [u8]>,
}

/// The tables of a face, as the contracts speak of them.
#[verifier::ext_equal]
pub struct FaceView {
    pub head: Seq<u8>,
    pub hhea: Seq<u8>,
    pub maxp: Seq<u8>,
    pub cmap: Option<Seq<u8>>,
}

impl<'a> View for Face<'a> {
    type V = FaceView;

    open spec fn view(&self) -> FaceView {
        FaceView {
            head: self.head@,
            hhea: self.hhea@,
            maxp: self.maxp@,
            cmap: match self.cmap {
                Some(cmap) => Some(cmap@),
                None => None,
            },
        }
    }
}

/// A table some records name, which is where the last of them under its name says,
/// if that is within the bytes.
pub open spec fn table_in(face: Seq<u8>, records: Seq<(u32, u32, u32)>, tag: u32) -> Option<Seq<u8>>
    decreases records.len(),
{
    if records.len() == 0 {
        None
    } else {
        let (name, from, length) = records.last();
        if name != tag {
            table_in(face, records.drop_last(), tag)
        } else if from + length <= face.len() {
            Some(face.subrange(from as int, from + length))
        } else {
            None
        }
    }
}

/// A table that a face cannot be without: no bytes where it is missing.
pub open spec fn needed(table: Option<Seq<u8>>) -> Seq<u8> {
    match table {
        Some(table) => table,
        None => Seq::empty(),
    }
}

/// The tables some records name.
pub open spec fn tables_in(face: Seq<u8>, records: Seq<(u32, u32, u32)>) -> FaceView {
    FaceView {
        head: needed(table_in(face, records, HEAD)),
        hhea: needed(table_in(face, records, HHEA)),
        maxp: needed(table_in(face, records, MAXP)),
        cmap: table_in(face, records, CMAP),
    }
}

/// A table some records name.
pub fn table<'a>(face: &'a [u8], records: &Vec<(u32, u32, u32)>, tag: u32) -> (found: Option<
    &'a [u8],
>)
    ensures
        match found {
            Some(found) => table_in(face@, records@, tag) == Some(found@),
            None => table_in(face@, records@, tag) is None,
        },
{
    let mut left: usize = records.len();
    assert(records@.take(left as int) =~= records@);
    while left > 0
        invariant
            left <= records@.len(),
            table_in(face@, records@, tag) == table_in(face@, records@.take(left as int), tag),
        decreases left,
    {
        proof {
            assert(records@.take(left as int).drop_last() =~= records@.take(left - 1));
        }
        let (name, from, length) = records[left - 1];
        if name == tag {
            if from as u64 + length as u64 <= face.len() as u64 {
                return Some(slice_subrange(face, from as usize, from as usize + length as usize));
            }
            return None;
        }
        left = left - 1;
    }
    None
}

fn or_nothing<'a>(face: &'a [u8], table: Option<&'a [u8]>) -> (bytes: &'a [u8])
    ensures
        bytes@ == match table {
            Some(table) => table@,
            None => Seq::empty(),
        },
{
    match table {
        Some(table) => table,
        None => {
            let bytes = slice_subrange(face, 0, 0);
            assert(bytes@ =~= Seq::<u8>::empty());
            bytes
        },
    }
}

/// The tables of a face that have to do with letters, once its directory is known.
pub fn face_given<'a>(face: &'a [u8], records: &Vec<(u32, u32, u32)>) -> (tables: Face<'a>)
    ensures
        tables@ == tables_in(face@, records@),
{
    Face {
        head: or_nothing(face, table(face, records, HEAD)),
        hhea: or_nothing(face, table(face, records, HHEA)),
        maxp: or_nothing(face, table(face, records, MAXP)),
        cmap: table(face, records, CMAP),
    }
}

impl FaceView {
    /// Whether the map of letters, where there is one, can be read.
    pub open spec fn can_be_read(self) -> bool {
        match self.cmap {
            Some(cmap) => map_fits(cmap),
            None => true,
        }
    }

    /// Whether a face has a letter. One without a map of letters has none.
    pub open spec fn has_letter(self, letter: char) -> bool {
        match self.cmap {
            Some(cmap) => has_glyph(self.head, self.hhea, self.maxp, cmap, letter),
            None => false,
        }
    }
}

/// The face some bytes hold at an index. Bytes with a count in them that no face
/// has, where it would be read, hold none.
pub open spec fn face_in(face: Seq<u8>, index: u32) -> Option<FaceView> {
    if !directory_fits(face) {
        None
    } else {
        match directory_of(face, index) {
            None => None,
            Some(records) => {
                let tables = tables_in(face, records);
                if tables.can_be_read() && is_face(tables.head, tables.hhea, tables.maxp) {
                    Some(tables)
                } else {
                    None
                }
            },
        }
    }
}

/// Whether some bytes hold a face at an index that has a letter.
pub open spec fn bytes_have(face: Seq<u8>, index: u32, letter: char) -> bool {
    face_in(face, index) matches Some(tables) && tables.has_letter(letter)
}

/// The face some bytes hold at an index.
pub fn face_of<'a>(face: &'a [u8], index: u32) -> (held: Option<Face<'a>>)
    ensures
        match held {
            Some(held) => face_in(face@, index) == Some(held@),
            None => face_in(face@, index) is None,
        },
{
    if !fits(face) {
        return None;
    }
    let Some(records) = directory(face, index) else {
        return None;
    };
    assert(records.deep_view() =~= records@);
    let tables = face_given(face, &records);
    let readable = match tables.cmap {
        Some(cmap) => map_can_be_read(cmap),
        None => true,
    };
    if readable && parses(tables.head, tables.hhea, tables.maxp) {
        Some(tables)
    } else {
        None
    }
}

impl<'a> Face<'a> {
    /// Whether a face has a letter.
    pub fn has(&self, letter: char) -> (drawn: bool)
        requires
            self@.can_be_read(),
        ensures
            drawn == self@.has_letter(letter),
    {
        match self.cmap {
            Some(cmap) => draws(self.head, self.hhea, self.maxp, cmap, letter),
            None => false,
        }
    }
}

} // verus!
