//! The small choices the window is made of, and where a cursor key moves to.

use vstd::prelude::*;

use crate::constants::{
    DELETE_PERMANENTLY_LABEL, DELETE_PERMANENTLY_NOTE, MOVE_TO_FOLDER_LABEL, MOVE_TO_FOLDER_NOTE,
    MOVE_VERB, PREVIOUS_SESSION_QUESTION, RECYCLE_BIN_LABEL, RECYCLE_BIN_NOTE, REMOVE_VERB,
};
use crate::text::same_text;

verus! {

/// The three pages of the window.
#[derive(Debug, Clone, Copy, PartialEq, Eq, Structural)]
pub enum Page {
    Scan,
    Review,
    Cleanup,
}

/// Why a folder with a saved review is being asked about rather than opened on
/// it.
///
/// One reason, and it is the only one there can be: a file was added, removed or
/// written since the review was saved, so the sets in it are not certainly the
/// sets of what is there now. Nothing having changed is not a question: the
/// review stands and is opened. A folder set to rescan itself is not a question
/// either: with something to bring up to date it is brought up to date, which is
/// what the box says, and with nothing to bring up to date the pass has no work.
#[derive(Debug, Clone, Copy, PartialEq, Eq, Structural)]
pub enum Question {
    TheFolderChanged,
}

impl Question {
    pub fn wording(self) -> (text: &'static str)
        ensures
            text@ == PREVIOUS_SESSION_QUESTION@,
    {
        match self {
            Question::TheFolderChanged => PREVIOUS_SESSION_QUESTION,
        }
    }
}

/// How one of the steps on the scan page went.
#[derive(Debug, Clone, Copy, PartialEq, Eq, Structural)]
pub enum Went {
    Happened,
    Waiting,
    Skipped,
}

/// Which way a cursor key moves the preview.
#[derive(Debug, Clone, Copy, PartialEq, Eq, Structural)]
pub enum Direction {
    Forward,
    Back,
    NextSet,
    PreviousSet,
}

impl Direction {
    /// The way that comes back from this one.
    pub open spec fn opposite(self) -> Direction {
        match self {
            Direction::Forward => Direction::Back,
            Direction::Back => Direction::Forward,
            Direction::NextSet => Direction::PreviousSet,
            Direction::PreviousSet => Direction::NextSet,
        }
    }
}

/// The smaller of two places.
pub open spec fn at_most(place: int, last: int) -> int {
    if place < last {
        place
    } else {
        last
    }
}

/// Whether there is a set at a place of the list, with a picture in it.
pub open spec fn stands(counts: Seq<usize>, set: int) -> bool {
    0 <= set < counts.len() && counts[set] > 0
}

/// Where a cursor key moves to from a set and a place in it.
///
/// Forward is the next picture of the set, or the first of the next set; back is
/// the picture before, or the last of the set before. A set at a time goes to the
/// same place of the next or the previous set, or to its last picture where it is
/// shorter. Nowhere at either end of the list, nor into or out of a set with no
/// picture in it.
pub open spec fn stepped(counts: Seq<usize>, set: int, member: int, direction: Direction) -> Option<
    (int, int),
> {
    if !stands(counts, set) {
        None
    } else {
        match direction {
            Direction::Forward => if member + 1 < counts[set] {
                Some((set, member + 1))
            } else if stands(counts, set + 1) {
                Some((set + 1, 0))
            } else {
                None
            },
            Direction::Back => if member > 0 {
                Some((set, member - 1))
            } else if stands(counts, set - 1) {
                Some((set - 1, counts[set - 1] - 1))
            } else {
                None
            },
            Direction::NextSet => if stands(counts, set + 1) {
                Some((set + 1, at_most(member, counts[set + 1] - 1)))
            } else {
                None
            },
            Direction::PreviousSet => if stands(counts, set - 1) {
                Some((set - 1, at_most(member, counts[set - 1] - 1)))
            } else {
                None
            },
        }
    }
}

/// A place in the list as the contracts speak of it.
pub open spec fn place(at: Option<(usize, usize)>) -> Option<(int, int)> {
    match at {
        Some((set, member)) => Some((set as int, member as int)),
        None => None,
    }
}

/// The place a cursor key moves to, given how many pictures each set on screen
/// holds. Nothing at either end of the list, rather than wrapping round.
///
/// Left and right run through the whole list, crossing into the next or previous
/// set at its edges. Up and down move a set at a time and stay at the same place
/// within it, or at the last picture when the set they arrive at is shorter.
pub fn step(counts: &Vec<usize>, at: (usize, usize), direction: Direction) -> (landed: Option<
    (usize, usize),
>)
    requires
        direction is Forward ==> at.1 < usize::MAX,
    ensures
        place(landed) == stepped(counts@, at.0 as int, at.1 as int, direction),
{
    let (set, member) = at;
    if set >= counts.len() || counts[set] == 0 {
        return None;
    }
    match direction {
        Direction::Forward => {
            if member + 1 < counts[set] {
                Some((set, member + 1))
            } else {
                let next: usize = set + 1;
                if next < counts.len() && counts[next] > 0 {
                    Some((next, 0))
                } else {
                    None
                }
            }
        },
        Direction::Back => {
            if member > 0 {
                Some((set, member - 1))
            } else if set > 0 && counts[set - 1] > 0 {
                Some((set - 1, counts[set - 1] - 1))
            } else {
                None
            }
        },
        Direction::NextSet => {
            let next: usize = set + 1;
            if next < counts.len() && counts[next] > 0 {
                let last: usize = counts[next] - 1;
                Some((next, if member < last { member } else { last }))
            } else {
                None
            }
        },
        Direction::PreviousSet => {
            if set > 0 && counts[set - 1] > 0 {
                let last: usize = counts[set - 1] - 1;
                Some((set - 1, if member < last { member } else { last }))
            } else {
                None
            }
        },
    }
}

/// A step lands on a picture there is.
pub proof fn a_step_lands_on_a_picture(
    counts: Seq<usize>,
    set: int,
    member: int,
    direction: Direction,
)
    requires
        stands(counts, set),
        0 <= member < counts[set],
    ensures
        match stepped(counts, set, member, direction) {
            Some((to, at)) => stands(counts, to) && 0 <= at < counts[to] && (to, at) != (set, member),
            None => true,
        },
{
}

/// Right and left undo each other wherever they move at all, and so do down and
/// up between sets where the one arrived at is no shorter than the place left.
pub proof fn the_opposite_step_comes_back(
    counts: Seq<usize>,
    set: int,
    member: int,
    direction: Direction,
)
    requires
        stands(counts, set),
        0 <= member < counts[set],
    ensures
        match stepped(counts, set, member, direction) {
            Some((to, at)) => (direction is Forward || direction is Back || at == member) ==> stepped(
                counts,
                to,
                at,
                direction.opposite(),
            ) == Some((set, member)),
            None => true,
        },
{
}

/// Where so many steps forward lead from the first picture of the list.
pub open spec fn after_steps(counts: Seq<usize>, steps: nat) -> Option<(int, int)>
    decreases steps,
{
    if steps == 0 {
        if stands(counts, 0) {
            Some((0, 0))
        } else {
            None
        }
    } else {
        match after_steps(counts, (steps - 1) as nat) {
            Some((set, member)) => stepped(counts, set, member, Direction::Forward),
            None => None,
        }
    }
}

/// How many pictures the first so many sets hold.
pub open spec fn pictures_before(counts: Seq<usize>, sets: int) -> nat
    decreases sets,
{
    if sets <= 0 {
        0
    } else {
        pictures_before(counts, sets - 1) + counts[sets - 1] as nat
    }
}

/// Whether a place is one of a picture there is.
pub open spec fn is_picture(counts: Seq<usize>, set: int, member: int) -> bool {
    0 <= set < counts.len() && 0 <= member < counts[set]
}

/// Whether one place stands before another: in a set before, or before it in the
/// same set.
pub open spec fn stands_before(one: (int, int), other: (int, int)) -> bool {
    one.0 < other.0 || (one.0 == other.0 && one.1 < other.1)
}

/// Stepping forward from the first picture visits every picture once, in order, and
/// then ends: each picture is reached after as many steps as there are pictures
/// before it, more steps lead further on, and after the last one there is nowhere
/// to go.
pub proof fn stepping_forward_visits_every_picture_once(counts: Seq<usize>)
    requires
        counts.len() > 0,
        forall|set: int| 0 <= set < counts.len() ==> #[trigger] counts[set] > 0,
    ensures
        forall|set: int, member: int| #[trigger]
            is_picture(counts, set, member) ==> pictures_before(counts, set) + member
                < pictures_before(counts, counts.len() as int) && after_steps(
                counts,
                (pictures_before(counts, set) + member) as nat,
            ) == Some((set, member)),
        forall|steps: nat|
            steps < pictures_before(counts, counts.len() as int) ==> {
                &&& #[trigger] after_steps(counts, steps) matches Some((set, member))
                &&& is_picture(counts, set, member)
            },
        forall|fewer: nat, more: nat|
            fewer < more < pictures_before(counts, counts.len() as int) ==> stands_before(
                (#[trigger] after_steps(counts, fewer))->0,
                (#[trigger] after_steps(counts, more))->0,
            ),
        forall|steps: nat|
            steps >= pictures_before(counts, counts.len() as int) ==> #[trigger] after_steps(
                counts,
                steps,
            ) is None,
{
    let whole = pictures_before(counts, counts.len() as int);
    assert forall|set: int, member: int| #[trigger] is_picture(counts, set, member) implies pictures_before(
        counts,
        set,
    ) + member < whole && after_steps(counts, (pictures_before(counts, set) + member) as nat)
        == Some((set, member)) by {
        let steps = (pictures_before(counts, set) + member) as nat;
        lemma_sets_further_on(counts, set, counts.len() as int);
        lemma_after_steps(counts, steps);
        let (to, at) = after_steps(counts, steps)->0;
        if to < set {
            lemma_sets_further_on(counts, to, set);
        } else if set < to {
            lemma_sets_further_on(counts, set, to);
        }
    }
    assert forall|steps: nat| steps < whole implies {
        &&& #[trigger] after_steps(counts, steps) matches Some((set, member))
        &&& is_picture(counts, set, member)
    } by {
        lemma_after_steps(counts, steps);
    }
    assert forall|fewer: nat, more: nat| fewer < more < whole implies stands_before(
        (#[trigger] after_steps(counts, fewer))->0,
        (#[trigger] after_steps(counts, more))->0,
    ) by {
        lemma_after_steps(counts, fewer);
        lemma_after_steps(counts, more);
        let one = after_steps(counts, fewer)->0;
        let other = after_steps(counts, more)->0;
        if other.0 < one.0 {
            lemma_sets_further_on(counts, other.0, one.0);
        }
    }
    assert forall|steps: nat| steps >= whole implies #[trigger] after_steps(counts, steps) is None by {
        lemma_after_steps(counts, steps);
    }
}

/// The sets before a later set hold all that an earlier set and those before it do.
proof fn lemma_sets_further_on(counts: Seq<usize>, set: int, later: int)
    requires
        0 <= set < later <= counts.len(),
    ensures
        pictures_before(counts, set) + counts[set] <= pictures_before(counts, later),
    decreases later - set,
{
    if set + 1 < later {
        lemma_sets_further_on(counts, set, later - 1);
    } else {
        assert(pictures_before(counts, later) == pictures_before(counts, set) + counts[set] as nat);
    }
}

/// So many steps lead to the picture with so many before it, and nowhere once there
/// are no more.
proof fn lemma_after_steps(counts: Seq<usize>, steps: nat)
    requires
        counts.len() > 0,
        forall|set: int| 0 <= set < counts.len() ==> #[trigger] counts[set] > 0,
    ensures
        match after_steps(counts, steps) {
            Some((set, member)) => is_picture(counts, set, member) && pictures_before(counts, set)
                + member == steps && steps < pictures_before(counts, counts.len() as int),
            None => steps >= pictures_before(counts, counts.len() as int),
        },
    decreases steps,
{
    let last = counts.len() as int;
    if steps == 0 {
        assert(counts[0] > 0);
        lemma_sets_further_on(counts, 0, last);
    } else {
        lemma_after_steps(counts, (steps - 1) as nat);
        match after_steps(counts, (steps - 1) as nat) {
            Some((set, member)) => {
                lemma_sets_further_on(counts, set, last);
                if member + 1 >= counts[set] {
                    assert(pictures_before(counts, set + 1) == pictures_before(counts, set)
                        + counts[set] as nat);
                    if set + 1 < last {
                        assert(counts[set + 1] > 0);
                        lemma_sets_further_on(counts, set + 1, last);
                    }
                }
            },
            None => {},
        }
    }
}

/// Where removed files go. Held as one value rather than three booleans, so the
/// three choices cannot all appear selected at once.
#[derive(Debug, Clone, Copy, PartialEq, Eq, Structural)]
pub enum Destination {
    Trash,
    MoveTo,
    Delete,
}

impl Destination {
    /// What the choice is called.
    pub open spec fn label_text(self) -> Seq<char> {
        match self {
            Destination::Trash => RECYCLE_BIN_LABEL@,
            Destination::MoveTo => MOVE_TO_FOLDER_LABEL@,
            Destination::Delete => DELETE_PERMANENTLY_LABEL@,
        }
    }

    /// What is said about the choice.
    pub open spec fn note_text(self) -> Seq<char> {
        match self {
            Destination::Trash => RECYCLE_BIN_NOTE@,
            Destination::MoveTo => MOVE_TO_FOLDER_NOTE@,
            Destination::Delete => DELETE_PERMANENTLY_NOTE@,
        }
    }

    /// What the choice is written down as.
    pub open spec fn name_text(self) -> Seq<char> {
        match self {
            Destination::Trash => "trash"@,
            Destination::MoveTo => "move"@,
            Destination::Delete => "delete"@,
        }
    }

    /// What carrying it out is called.
    pub open spec fn verb_text(self) -> Seq<char> {
        match self {
            Destination::MoveTo => MOVE_VERB@,
            _ => REMOVE_VERB@,
        }
    }

    pub fn label(self) -> (text: &'static str)
        ensures
            text@ == self.label_text(),
    {
        match self {
            Destination::Trash => RECYCLE_BIN_LABEL,
            Destination::MoveTo => MOVE_TO_FOLDER_LABEL,
            Destination::Delete => DELETE_PERMANENTLY_LABEL,
        }
    }

    pub fn note(self) -> (text: &'static str)
        ensures
            text@ == self.note_text(),
    {
        match self {
            Destination::Trash => RECYCLE_BIN_NOTE,
            Destination::MoveTo => MOVE_TO_FOLDER_NOTE,
            Destination::Delete => DELETE_PERMANENTLY_NOTE,
        }
    }

    pub fn name(self) -> (text: &'static str)
        ensures
            text@ == self.name_text(),
    {
        match self {
            Destination::Trash => "trash",
            Destination::MoveTo => "move",
            Destination::Delete => "delete",
        }
    }

    /// What the button that carries this out does, in the words for it. Moving a
    /// file to another folder is not removing it.
    pub fn verb(self) -> (text: &'static str)
        ensures
            text@ == self.verb_text(),
    {
        match self {
            Destination::Trash => REMOVE_VERB,
            Destination::Delete => REMOVE_VERB,
            Destination::MoveTo => MOVE_VERB,
        }
    }

    /// The choice a name stands for, if it stands for one.
    pub fn from_name(name: &str) -> (choice: Option<Destination>)
        ensures
            choice == named(name@),
    {
        if same_text(name, "trash") {
            Some(Destination::Trash)
        } else if same_text(name, "move") {
            Some(Destination::MoveTo)
        } else if same_text(name, "delete") {
            Some(Destination::Delete)
        } else {
            None
        }
    }
}

/// The choice that is written down under a name.
pub open spec fn named(name: Seq<char>) -> Option<Destination> {
    if name == "trash"@ {
        Some(Destination::Trash)
    } else if name == "move"@ {
        Some(Destination::MoveTo)
    } else if name == "delete"@ {
        Some(Destination::Delete)
    } else {
        None
    }
}

/// A choice is read back from the name it is written down under, and a name that
/// is read back as a choice is the name of that choice.
pub proof fn a_destination_is_read_back_from_its_name(choice: Destination, name: Seq<char>)
    ensures
        named(choice.name_text()) == Some(choice),
        named(name) == Some(choice) <==> name == choice.name_text(),
{
    reveal_strlit("trash");
    reveal_strlit("move");
    reveal_strlit("delete");
    assert("trash"@[0] != "move"@[0]);
    assert("trash"@[0] != "delete"@[0]);
    assert("move"@[0] != "delete"@[0]);
}

/// What one of the buttons under a set does.
#[derive(Debug, Clone, Copy, PartialEq, Eq, Structural)]
pub enum SetAction {
    KeepAll,
    KeepNone,
    Ignore,
    Unignore,
}

} // verus!
