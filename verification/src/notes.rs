//! What a folder's own index says about how it is scanned, searched and
//! reviewed.
//!
//! These are choices about a folder rather than about the program: a folder
//! scanned with its subfolders is scanned that way again, and a folder that is
//! searched one folder at a time keeps being. They live in the index's `meta`
//! table beside the schema version.
//!
//! Read in one place, so the names of the keys are written once. Nothing here
//! decides anything: the window takes these and applies them.

use vstd::prelude::*;
use vstd::string::*;

use crate::finding::{first, first_from};
use crate::text::same_text;

verus! {

/// Every choice an index holds, or nothing where the index has never been asked
/// about one. Nothing is a folder that has not said, which is not the same as a
/// folder that said no.
pub struct Notes {
    pub recurse: Option<bool>,
    pub disposal: Option<String>,
    pub move_dir: Option<String>,
    pub auto_mark: Option<bool>,
    pub match_whole_frame: Option<bool>,
    pub match_corners: Option<bool>,
    pub within_a_folder: Option<bool>,
    pub auto_rescan: Option<bool>,
    /// By the bits of the floating point number it is.
    pub sensitivity: Option<u64>,
    pub ignore_colour: Option<bool>,
}

/// The choices an index holds, as the contracts speak of them.
#[verifier::ext_equal]
pub struct NotesView {
    pub recurse: Option<bool>,
    pub disposal: Option<Seq<char>>,
    pub move_dir: Option<Seq<char>>,
    pub auto_mark: Option<bool>,
    pub match_whole_frame: Option<bool>,
    pub match_corners: Option<bool>,
    pub within_a_folder: Option<bool>,
    pub auto_rescan: Option<bool>,
    pub sensitivity: Option<u64>,
    pub ignore_colour: Option<bool>,
}

impl DeepView for Notes {
    type V = NotesView;

    open spec fn deep_view(&self) -> NotesView {
        NotesView {
            recurse: self.recurse,
            disposal: self.disposal.deep_view(),
            move_dir: self.move_dir.deep_view(),
            auto_mark: self.auto_mark,
            match_whole_frame: self.match_whole_frame,
            match_corners: self.match_corners,
            within_a_folder: self.within_a_folder,
            auto_rescan: self.auto_rescan,
            sensitivity: self.sensitivity,
            ignore_colour: self.ignore_colour,
        }
    }
}

/// The settings a search ran under, which is what its sets are the answer to.
/// Sets found under one of these are not the sets another gives.
///
/// This is what got used, not what somebody moved a control to. A slider moved
/// and left alone has changed nothing, and the index goes on holding the
/// settings the sets in it were found with.
#[derive(Debug, Clone, Copy, PartialEq, Eq, Structural)]
pub struct Search {
    pub sensitivity: u64,
    pub whole_frame: bool,
    pub corners: bool,
    pub ignore_colour: bool,
    pub within_a_folder: bool,
}

/// The keys the window writes and reads them under.
pub const RECURSE: &'static str = "recurse";
pub const DISPOSAL: &'static str = "disposal";
pub const MOVE_DIR: &'static str = "move_dir";
pub const AUTO_MARK: &'static str = "auto_mark";
pub const MATCH_WHOLE_FRAME: &'static str = "match_whole_frame";
pub const MATCH_CORNERS: &'static str = "match_corners";
pub const WITHIN_A_FOLDER: &'static str = "within_a_folder";
pub const AUTO_RESCAN: &'static str = "auto_rescan";
pub const SENSITIVITY: &'static str = "sensitivity";
pub const IGNORE_COLOUR: &'static str = "ignore_colour";

/// How a yes and a no are written.
pub open spec fn mark_text(on: bool) -> Seq<char> {
    if on {
        "1"@
    } else {
        "0"@
    }
}

/// How a yes and a no are written.
pub fn mark(on: bool) -> (text: &'static str)
    ensures
        text@ == mark_text(on),
{
    if on {
        "1"
    } else {
        "0"
    }
}

/// The entries under a key.
pub open spec fn under(key: Seq<char>) -> spec_fn((Seq<char>, Seq<char>)) -> bool {
    |entry: (Seq<char>, Seq<char>)| entry.0 == key
}

/// What an index holds under a key: the first value there is.
pub open spec fn held_under(held: Seq<(Seq<char>, Seq<char>)>, key: Seq<char>) -> Option<Seq<char>> {
    match first(held, under(key)) {
        Some(at) => Some(held[at].1),
        None => None,
    }
}

/// What an index says about a yes or a no.
pub open spec fn yes_or_no_under(held: Seq<(Seq<char>, Seq<char>)>, key: Seq<char>) -> Option<bool> {
    match held_under(held, key) {
        Some(value) => Some(value == "1"@),
        None => None,
    }
}

/// Everything an index has to say, the number under `sensitivity` read already.
pub open spec fn notes_in(held: Seq<(Seq<char>, Seq<char>)>, sensitivity: Option<u64>) -> NotesView {
    NotesView {
        recurse: yes_or_no_under(held, RECURSE@),
        disposal: held_under(held, DISPOSAL@),
        move_dir: held_under(held, MOVE_DIR@),
        auto_mark: yes_or_no_under(held, AUTO_MARK@),
        match_whole_frame: yes_or_no_under(held, MATCH_WHOLE_FRAME@),
        match_corners: yes_or_no_under(held, MATCH_CORNERS@),
        within_a_folder: yes_or_no_under(held, WITHIN_A_FOLDER@),
        auto_rescan: yes_or_no_under(held, AUTO_RESCAN@),
        sensitivity,
        ignore_colour: yes_or_no_under(held, IGNORE_COLOUR@),
    }
}

/// What an index holds under a key.
pub fn value(held: &Vec<(String, String)>, key: &str) -> (found: Option<String>)
    ensures
        found.deep_view() == held_under(held.deep_view(), key@),
{
    let ghost all = held.deep_view();
    let mut at: usize = 0;
    while at < held.len()
        invariant
            all == held.deep_view(),
            at <= all.len(),
            first(all, under(key@)) == first_from(all, at as int, under(key@)),
        decreases held.len() - at,
    {
        assert(all[at as int] == held@[at as int].deep_view());
        if same_text(held[at].0.as_str(), key) {
            return Some(held[at].1.clone());
        }
        at = at + 1;
    }
    None
}

fn yes_or_no(held: &Vec<(String, String)>, key: &str) -> (found: Option<bool>)
    ensures
        found == yes_or_no_under(held.deep_view(), key@),
{
    match value(held, key) {
        Some(text) => Some(same_text(text.as_str(), "1")),
        None => None,
    }
}

/// Everything an index has to say, out of the values it holds and the number the
/// one under `sensitivity` is.
pub fn read(held: &Vec<(String, String)>, sensitivity: Option<u64>) -> (notes: Notes)
    ensures
        notes.deep_view() == notes_in(held.deep_view(), sensitivity),
{
    Notes {
        recurse: yes_or_no(held, RECURSE),
        disposal: value(held, DISPOSAL),
        move_dir: value(held, MOVE_DIR),
        auto_mark: yes_or_no(held, AUTO_MARK),
        match_whole_frame: yes_or_no(held, MATCH_WHOLE_FRAME),
        match_corners: yes_or_no(held, MATCH_CORNERS),
        within_a_folder: yes_or_no(held, WITHIN_A_FOLDER),
        auto_rescan: yes_or_no(held, AUTO_RESCAN),
        sensitivity,
        ignore_colour: yes_or_no(held, IGNORE_COLOUR),
    }
}

/// What is written down about the settings a search ran under, in the order it is
/// written in.
pub open spec fn written_under(search: Search, sensitivity: Seq<char>) -> Seq<
    (Seq<char>, Seq<char>),
> {
    seq![
        (SENSITIVITY@, sensitivity),
        (MATCH_WHOLE_FRAME@, mark_text(search.whole_frame)),
        (MATCH_CORNERS@, mark_text(search.corners)),
        (IGNORE_COLOUR@, mark_text(search.ignore_colour)),
        (WITHIN_A_FOLDER@, mark_text(search.within_a_folder)),
    ]
}

fn entry(key: &str, value: &str) -> (pair: (String, String))
    ensures
        pair.deep_view() == (key@, value@),
{
    (String::from_str(key), String::from_str(value))
}

/// What to write down about the settings a search ran under, the sensitivity being
/// the text it is written as. Asked where one has run, and nowhere else.
pub fn ran_under(search: &Search, sensitivity: &str) -> (written: Vec<(String, String)>)
    ensures
        written.deep_view() == written_under(*search, sensitivity@),
{
    let mut written: Vec<(String, String)> = Vec::new();
    written.push(entry(SENSITIVITY, sensitivity));
    written.push(entry(MATCH_WHOLE_FRAME, mark(search.whole_frame)));
    written.push(entry(MATCH_CORNERS, mark(search.corners)));
    written.push(entry(IGNORE_COLOUR, mark(search.ignore_colour)));
    written.push(entry(WITHIN_A_FOLDER, mark(search.within_a_folder)));
    assert(written.deep_view() =~= written_under(*search, sensitivity@));
    written
}

/// Whether an index that held one thing holds another once some entries have been
/// written over it: what was written under a key that was written, and under every
/// other key what it held.
pub open spec fn is_written_over(
    after: Seq<(Seq<char>, Seq<char>)>,
    before: Seq<(Seq<char>, Seq<char>)>,
    written: Seq<(Seq<char>, Seq<char>)>,
) -> bool {
    forall|key: Seq<char>| #[trigger]
        held_under(after, key) == match held_under(written, key) {
            Some(value) => Some(value),
            None => held_under(before, key),
        }
}

/// What a search was run under is what the folder says it is searched with next
/// time, and everything else it says it says as it did before.
pub proof fn a_folder_is_searched_as_it_was(
    before: Seq<(Seq<char>, Seq<char>)>,
    after: Seq<(Seq<char>, Seq<char>)>,
    search: Search,
    sensitivity: Seq<char>,
)
    requires
        is_written_over(after, before, written_under(search, sensitivity)),
    ensures
        held_under(after, SENSITIVITY@) == Some(sensitivity),
        notes_in(after, Some(search.sensitivity)) == (NotesView {
            sensitivity: Some(search.sensitivity),
            match_whole_frame: Some(search.whole_frame),
            match_corners: Some(search.corners),
            ignore_colour: Some(search.ignore_colour),
            within_a_folder: Some(search.within_a_folder),
            ..notes_in(before, None)
        }),
        forall|key: Seq<char>|
            key != SENSITIVITY@ && key != MATCH_WHOLE_FRAME@ && key != MATCH_CORNERS@ && key
                != IGNORE_COLOUR@ && key != WITHIN_A_FOLDER@ ==> #[trigger] held_under(after, key)
                == held_under(before, key),
{
    reveal_strlit("0");
    reveal_strlit("1");
    assert("0"@[0] != "1"@[0]);
    lemma_keys();
    let written = written_under(search, sensitivity);
    assert forall|key: Seq<char>|
        key != SENSITIVITY@ && key != MATCH_WHOLE_FRAME@ && key != MATCH_CORNERS@ && key
            != IGNORE_COLOUR@ && key != WITHIN_A_FOLDER@ implies #[trigger] held_under(after, key)
        == held_under(before, key) by {
        reveal_with_fuel(first_from, 6);
        assert(held_under(written, key) is None);
    }
    reveal_with_fuel(first_from, 6);
    assert(held_under(written, SENSITIVITY@) == Some(sensitivity));
    assert(held_under(written, MATCH_WHOLE_FRAME@) == Some(mark_text(search.whole_frame)));
    assert(held_under(written, MATCH_CORNERS@) == Some(mark_text(search.corners)));
    assert(held_under(written, IGNORE_COLOUR@) == Some(mark_text(search.ignore_colour)));
    assert(held_under(written, WITHIN_A_FOLDER@) == Some(mark_text(search.within_a_folder)));
}

/// The keys are told apart.
proof fn lemma_keys()
    ensures
        forall|at: int, other: int|
            0 <= at < other < 10 ==> #[trigger] keys()[at] != #[trigger] keys()[other],
        SENSITIVITY@ == keys()[5],
        MATCH_WHOLE_FRAME@ == keys()[6],
        MATCH_CORNERS@ == keys()[7],
        IGNORE_COLOUR@ == keys()[8],
        WITHIN_A_FOLDER@ == keys()[9],
        RECURSE@ == keys()[0],
        DISPOSAL@ == keys()[1],
        MOVE_DIR@ == keys()[2],
        AUTO_MARK@ == keys()[3],
        AUTO_RESCAN@ == keys()[4],
{
    reveal_strlit("recurse");
    reveal_strlit("disposal");
    reveal_strlit("move_dir");
    reveal_strlit("auto_mark");
    reveal_strlit("auto_rescan");
    reveal_strlit("sensitivity");
    reveal_strlit("match_whole_frame");
    reveal_strlit("match_corners");
    reveal_strlit("ignore_colour");
    reveal_strlit("within_a_folder");
    assert(RECURSE@.len() == 7 && DISPOSAL@.len() == 8 && MOVE_DIR@.len() == 8);
    assert(AUTO_MARK@.len() == 9 && AUTO_RESCAN@.len() == 11 && SENSITIVITY@.len() == 11);
    assert(MATCH_WHOLE_FRAME@.len() == 17 && WITHIN_A_FOLDER@.len() == 15);
    assert(MATCH_CORNERS@.len() == 13 && IGNORE_COLOUR@.len() == 13);
    assert(MATCH_CORNERS@[0] != IGNORE_COLOUR@[0]);
    assert(DISPOSAL@[0] != MOVE_DIR@[0]);
    assert(AUTO_RESCAN@[0] != SENSITIVITY@[0]);
}

/// The keys the window writes and reads under.
spec fn keys() -> Seq<Seq<char>> {
    seq![
        RECURSE@,
        DISPOSAL@,
        MOVE_DIR@,
        AUTO_MARK@,
        AUTO_RESCAN@,
        SENSITIVITY@,
        MATCH_WHOLE_FRAME@,
        MATCH_CORNERS@,
        IGNORE_COLOUR@,
        WITHIN_A_FOLDER@,
    ]
}

} // verus!
