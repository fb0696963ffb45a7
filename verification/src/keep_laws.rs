//! What holds of the entry a set has for its marks.

use vstd::prelude::*;

use crate::keep::{
    an_entry_marks_what_it_stands_for, marks_of, stands_for, with_one_more, without, Keep,
};
use crate::plan::{marks_by_set, marks_on};
use crate::review::{has_set, marks_together};
use crate::sets::{has_id, ids_of, in_sets, MemberView, SetView};

verus! {

/// One more picture marked is marked beside those that were, behind them, and nothing
/// changes where it was marked already.
pub proof fn marking_one_more_marks_that_too(marks: Seq<i64>, file_id: i64, other: i64)
    ensures
        with_one_more(marks, file_id).contains(other) <==> marks.contains(other) || other
            == file_id,
        marks.contains(file_id) ==> with_one_more(marks, file_id) == marks,
        !marks.contains(file_id) ==> with_one_more(marks, file_id).len() == marks.len() + 1
            && with_one_more(marks, file_id).last() == file_id
            && with_one_more(marks, file_id).drop_last() == marks,
{
    let now = marks.push(file_id);
    assert(now.drop_last() =~= marks);
    assert(now[marks.len() as int] == file_id);
    if now.contains(other) {
        let at = choose|at: int| 0 <= at < now.len() && now[at] == other;
        if at < marks.len() {
            assert(marks[at] == other);
        }
    }
    if marks.contains(other) {
        let at = choose|at: int| 0 <= at < marks.len() && marks[at] == other;
        assert(now[at] == other);
    }
}

/// A set with no entry marks nothing; one with an entry marks the one picture or the
/// several that the entry names.
pub proof fn an_entry_marks_the_pictures_it_names(one: i64, several: Vec<i64>, file_id: i64)
    ensures
        marks_of(None).len() == 0,
        marks_of(Some(&Keep::One(one))) == seq![one],
        marks_of(Some(&Keep::Several(several))).contains(file_id) <==> several@.contains(file_id),
{
}

/// No entry stands for no marks and for nothing else, and an entry that stands for some
/// marks the same pictures as they do, as one where they are all on one picture.
pub proof fn an_entry_stands_for_its_marks(entry: Keep, marks: Seq<i64>, file_id: i64)
    ensures
        stands_for(None, marks) <==> marks.len() == 0,
        stands_for(Some(entry), marks) ==> {
            &&& marks.len() > 0
            &&& entry@.contains(file_id) <==> marks.contains(file_id)
            &&& marks.len() == 1 ==> entry is One
        },
{
    an_entry_marks_what_it_stands_for(marks, file_id);
    if stands_for(Some(entry), marks) && marks.len() == 1 {
        assert(entry@.len() == 1);
    }
}

/// What a set marks is what its entry holds, and nothing where it has none.
pub proof fn a_set_marks_what_its_entry_holds(
    keep: Map<i64, Seq<i64>>,
    entries: Map<i64, Keep>,
    set_id: i64,
)
    ensures
        keep.contains_key(set_id) ==> marks_on(keep, set_id) == keep[set_id],
        !keep.contains_key(set_id) ==> marks_on(keep, set_id).len() == 0,
        marks_by_set(entries).contains_key(set_id) <==> entries.contains_key(set_id),
        entries.contains_key(set_id) ==> marks_by_set(entries)[set_id] == entries[set_id]@,
{
}

/// Leaving a picture out leaves the others as they stood, and leaves nothing out where it
/// is not among them.
pub proof fn leaving_one_out_keeps_the_order(marks: Seq<i64>, file_id: i64, last: i64)
    ensures
        without(Seq::empty(), file_id).len() == 0,
        without(marks.push(last), file_id) == if last == file_id {
            without(marks, file_id)
        } else {
            without(marks, file_id).push(last)
        },
{
    reveal(Seq::filter);
    assert(marks.push(last).drop_last() =~= marks);
}

/// The numbers of some pictures are theirs, place by place.
pub proof fn the_numbers_of_pictures_are_theirs(members: Seq<MemberView>, at: int)
    ensures
        ids_of(members).len() == members.len(),
        0 <= at < members.len() ==> ids_of(members)[at] == members[at].file_id,
{
}

/// The marks of some sets stand one set behind the other.
pub proof fn marks_of_sets_stand_one_behind_the_other(
    keep: Map<i64, Seq<i64>>,
    order: Seq<i64>,
    set_id: i64,
)
    ensures
        marks_together(keep, Seq::empty()).len() == 0,
        marks_together(keep, order.push(set_id)) == marks_together(keep, order) + keep[set_id],
{
    assert(order.push(set_id).drop_last() =~= order);
}

/// Some pictures hold one exactly where one of them has its number, some sets where one of
/// them holds it, and a number is that of a set exactly where one of the sets has it.
pub proof fn a_set_holds_the_pictures_in_it(
    members: Seq<MemberView>,
    sets: Seq<SetView>,
    file_id: i64,
    set_id: i64,
    at: int,
    place: int,
)
    ensures
        has_id(members, file_id) <==> exists|at: int|
            0 <= at < members.len() && (#[trigger] members[at]).file_id == file_id,
        0 <= at < sets.len() && 0 <= place < sets[at].members.len()
            && sets[at].members[place].file_id == file_id ==> in_sets(sets, file_id),
        in_sets(sets, file_id) ==> exists|at: int, place: int|
            0 <= at < sets.len() && 0 <= place < sets[at].members.len() && (
            #[trigger] sets[at].members[place]).file_id == file_id,
        has_set(sets, set_id) <==> exists|at: int|
            0 <= at < sets.len() && (#[trigger] sets[at]).set_id == set_id,
{
    if 0 <= at < sets.len() && 0 <= place < sets[at].members.len()
        && sets[at].members[place].file_id == file_id {
        assert(has_id(sets[at].members, file_id));
    }
    if in_sets(sets, file_id) {
        let at = choose|at: int|
            0 <= at < sets.len() && has_id((#[trigger] sets[at]).members, file_id);
        let place = choose|place: int|
            0 <= place < sets[at].members.len() && (#[trigger] sets[at].members[place]).file_id
                == file_id;
        assert(sets[at].members[place].file_id == file_id);
    }
}

} // verus!
