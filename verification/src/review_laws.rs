//! What holds of a review whatever is done to it.

use vstd::prelude::*;

use crate::finding::{first, the_first_is_the_first};
use crate::keep::{
    among, an_entry_marks_what_it_stands_for, another_picture_is_held_as_it_comes, held_as, is_entry,
    lemma_filter_holds, marking_only_adds, one_of, unmarking_takes_one_off,
    unmarking_undoes_marking, without,
};
use crate::plan::{
    a_set_kept_whole_loses_nothing, all_ignored, goes_from, marks_on,
    nothing_goes_where_no_set_loses_anything, RemovalView,
};
use crate::review::{
    best_copies, best_marked, has_set, kept_whole, left_alone, numbered, of_copies, pictures_of,
    set_left, sets_left, still_there, taken_up, ReviewView,
};
use crate::sets::{has_id, ids_of, in_sets, pair_of, pairs, pairs_are_of_two_pictures, SetView};
use crate::state::{Direction, SetAction};

verus! {

/// No two sets have the same number.
pub open spec fn told_apart(sets: Seq<SetView>) -> bool {
    forall|i: int, j: int|
        0 <= i < j < sets.len() ==> (#[trigger] sets[i]).set_id != (#[trigger] sets[j]).set_id
}

/// What a cleanup would take never comes to disagree with the marks, the sets and
/// the ignored pairs: whatever is done to a review of which it is true leaves it
/// true.
pub proof fn the_plan_never_disagrees(
    review: ReviewView,
    set_id: i64,
    at: int,
    action: SetAction,
    marks: Seq<i64>,
    kept: Set<i64>,
    gone: Seq<Seq<char>>,
    visible: Seq<usize>,
    direction: Direction,
)
    requires
        review.plan_agrees(),
    ensures
        review.ignoring(set_id).plan_agrees(),
        review.unignoring(set_id).plan_agrees(),
        review.taking_up(kept).plan_agrees(),
        review.unmarked().plan_agrees(),
        review.marked_whole().plan_agrees(),
        review.auto_marked().plan_agrees(),
        review.marking(set_id, marks).plan_agrees(),
        review.toggled().plan_agrees(),
        review.kept_alone().plan_agrees(),
        review.pressed(at, action).plan_agrees(),
        review.emptied().plan_agrees(),
        review.forgetting(gone).plan_agrees(),
        review.opened().plan_agrees(),
        review.walked(visible, direction).plan_agrees(),
{
}

/// Ignoring a set leaves its marks and the preview where they were, and from then
/// on nothing goes from it.
pub proof fn an_ignored_set_keeps_its_marks_and_loses_nothing(review: ReviewView, set_id: i64)
    requires
        first(review.sets, numbered(set_id)) is Some,
        review.sets[first(review.sets, numbered(set_id))->0].members.len() >= 2,
    ensures
        ({
            let after = review.ignoring(set_id);
            let set = review.sets[first(review.sets, numbered(set_id))->0];
            &&& after.sets == review.sets
            &&& after.keep == review.keep
            &&& after.selected == review.selected
            &&& all_ignored(set.members, after.ignored)
            &&& goes_from(set, after.keep, after.ignored).len() == 0
        }),
{
    let set = review.sets[first(review.sets, numbered(set_id))->0];
    let after = review.ignoring(set_id);
    let ids = ids_of(set.members);
    assert forall|i: int, j: int| 0 <= i < j < set.members.len() implies after.ignored.contains(
        pair_of((#[trigger] set.members[i]).file_id, (#[trigger] set.members[j]).file_id),
    ) by {
        let said = pair_of(ids[i], ids[j]);
        pairs_are_of_two_pictures(ids, said);
        assert(pairs(ids).to_set().contains(said));
    }
}

/// Taking it back makes a set of two or more pictures a set of copies again.
pub proof fn a_set_taken_back_is_a_set_of_copies(review: ReviewView, set_id: i64)
    requires
        first(review.sets, numbered(set_id)) is Some,
        review.sets[first(review.sets, numbered(set_id))->0].members.len() >= 2,
    ensures
        ({
            let after = review.unignoring(set_id);
            let set = review.sets[first(review.sets, numbered(set_id))->0];
            &&& after.sets == review.sets
            &&& after.keep == review.keep
            &&& after.selected == review.selected
            &&& !all_ignored(set.members, after.ignored)
        }),
{
    let set = review.sets[first(review.sets, numbered(set_id))->0];
    let ids = ids_of(set.members);
    let said = pair_of(ids[0], ids[1]);
    pairs_are_of_two_pictures(ids, said);
    assert(pairs(ids).to_set().contains(said));
    assert(said == pair_of(set.members[0].file_id, set.members[1].file_id));
}

/// Ignoring a set and taking it back gives back the review as it was, what the set
/// kept included, where none of its pairs had been separated before.
pub proof fn taking_back_undoes_ignoring(review: ReviewView, set_id: i64)
    requires
        review.plan_agrees(),
        forall|pair: (i64, i64)|
            review.pairs_in(set_id) is Some && #[trigger] review.pairs_in(set_id)->0.contains(pair)
                ==> !review.ignored.contains(pair),
    ensures
        review.ignoring(set_id).unignoring(set_id) == review,
{
    match review.pairs_in(set_id) {
        None => {},
        Some(said) => {
            let back = review.ignored.union(said.to_set()).difference(said.to_set());
            assert forall|pair: (i64, i64)|
                back.contains(pair) == review.ignored.contains(pair) by {
                if said.contains(pair) {
                    assert(review.pairs_in(set_id)->0.contains(pair));
                }
            }
            assert(back =~= review.ignored);
        },
    }
}

/// A review with every mark taken off loses nothing to a cleanup, and neither does
/// one with everything marked.
pub proof fn unmarking_and_marking_everything_keep_everything(review: ReviewView)
    requires
        told_apart(review.sets),
    ensures
        review.unmarked().plan == Seq::<RemovalView>::empty(),
        review.marked_whole().plan == Seq::<RemovalView>::empty(),
{
    let after = review.unmarked();
    assert forall|at: int| 0 <= at < after.sets.len() implies goes_from(
        #[trigger] after.sets[at],
        after.keep,
        after.ignored,
    ).len() == 0 by {
        let set = after.sets[at];
        if !all_ignored(set.members, after.ignored) && after.keep.contains_key(set.set_id) {
            assert(left_alone(review.sets, review.ignored, set.set_id));
            let other = choose|other: int|
                0 <= other < review.sets.len() && (#[trigger] review.sets[other]).set_id
                    == set.set_id && all_ignored(review.sets[other].members, review.ignored);
            assert(review.sets[at].set_id == review.sets[other].set_id);
            assert(false);
        }
    }
    nothing_goes_where_no_set_loses_anything(after.sets, after.keep, after.ignored);

    let whole = review.marked_whole();
    assert forall|at: int| 0 <= at < whole.sets.len() implies goes_from(
        #[trigger] whole.sets[at],
        whole.keep,
        whole.ignored,
    ).len() == 0 by {
        let set = whole.sets[at];
        if !all_ignored(set.members, review.ignored) && set.members.len() > 0 {
            lemma_kept_whole(review.sets, review.keep, review.ignored, at);
            let ids = ids_of(set.members);
            assert forall|place: int| 0 <= place < set.members.len() implies held_as(ids).contains(
                (#[trigger] set.members[place]).file_id,
            ) by {
                assert(ids[place] == set.members[place].file_id);
                an_entry_marks_what_it_stands_for(ids, ids[place]);
            }
            a_set_kept_whole_loses_nothing(set.members, held_as(ids));
        }
    }
    nothing_goes_where_no_set_loses_anything(whole.sets, whole.keep, whole.ignored);
}

proof fn lemma_kept_whole(
    sets: Seq<SetView>,
    keep: Map<i64, Seq<i64>>,
    ignored: Set<(i64, i64)>,
    at: int,
)
    requires
        told_apart(sets),
        0 <= at < sets.len(),
        !all_ignored(sets[at].members, ignored),
        sets[at].members.len() > 0,
    ensures
        marks_on(kept_whole(sets, keep, ignored).0, sets[at].set_id) == held_as(
            ids_of(sets[at].members),
        ),
    decreases sets.len(),
{
    let rest = sets.drop_last();
    if at < rest.len() {
        assert(told_apart(rest)) by {
            assert forall|i: int, j: int| 0 <= i < j < rest.len() implies (#[trigger] rest[i]).set_id
                != (#[trigger] rest[j]).set_id by {
                assert(rest[i] == sets[i] && rest[j] == sets[j]);
            }
        }
        assert(rest[at] == sets[at]);
        lemma_kept_whole(rest, keep, ignored, at);
        assert(sets[at].set_id != sets[sets.len() - 1].set_id);
    } else {
        assert(sets[at] == sets.last());
    }
}

/// Marking the best copies only ever adds: whatever a set marked it still marks,
/// and every set of copies with a best copy marks that.
pub proof fn auto_marking_only_adds(review: ReviewView, set_id: i64, file_id: i64)
    requires
        review.marks(set_id).contains(file_id),
    ensures
        review.auto_marked().marks(set_id).contains(file_id),
{
    lemma_best_marked_adds(review.sets, review.keep, review.ignored, set_id, file_id);
}

proof fn lemma_best_marked_adds(
    sets: Seq<SetView>,
    keep: Map<i64, Seq<i64>>,
    ignored: Set<(i64, i64)>,
    set_id: i64,
    file_id: i64,
)
    requires
        marks_on(keep, set_id).contains(file_id),
    ensures
        marks_on(best_marked(sets, keep, ignored).0, set_id).contains(file_id),
    decreases sets.len(),
{
    if sets.len() > 0 {
        let rest = sets.drop_last();
        lemma_best_marked_adds(rest, keep, ignored, set_id, file_id);
        let before = best_marked(rest, keep, ignored).0;
        let set = sets.last();
        if !all_ignored(set.members, ignored) {
            match first(set.members, best_copies()) {
                None => {},
                Some(at) => {
                    let best = set.members[at].file_id;
                    marking_only_adds(marks_on(before, set.set_id), best, file_id);
                },
            }
        }
    }
}

/// Once the best copies are marked, every set of copies that has one marks it.
pub proof fn auto_marking_marks_the_best(review: ReviewView, at: int)
    requires
        0 <= at < review.sets.len(),
        !all_ignored(review.sets[at].members, review.ignored),
        first(review.sets[at].members, best_copies()) is Some,
    ensures
        ({
            let set = review.sets[at];
            let best = set.members[first(set.members, best_copies())->0].file_id;
            review.auto_marked().marks(set.set_id).contains(best)
        }),
{
    lemma_best_is_marked(review.sets, review.keep, review.ignored, at);
}

proof fn lemma_best_is_marked(
    sets: Seq<SetView>,
    keep: Map<i64, Seq<i64>>,
    ignored: Set<(i64, i64)>,
    at: int,
)
    requires
        0 <= at < sets.len(),
        !all_ignored(sets[at].members, ignored),
        first(sets[at].members, best_copies()) is Some,
    ensures
        marks_on(best_marked(sets, keep, ignored).0, sets[at].set_id).contains(
            sets[at].members[first(sets[at].members, best_copies())->0].file_id,
        ),
    decreases sets.len(),
{
    let rest = sets.drop_last();
    let before = best_marked(rest, keep, ignored).0;
    let set = sets[at];
    let wanted = set.members[first(set.members, best_copies())->0].file_id;
    if at < rest.len() {
        assert(rest[at] == sets[at]);
        lemma_best_is_marked(rest, keep, ignored, at);
        let last = sets.last();
        if !all_ignored(last.members, ignored) {
            match first(last.members, best_copies()) {
                None => {},
                Some(place) => {
                    let best = last.members[place].file_id;
                    marking_only_adds(marks_on(before, last.set_id), best, wanted);
                },
            }
        }
    } else {
        assert(sets[at] == sets.last());
        marking_only_adds(marks_on(before, set.set_id), wanted, wanted);
    }
}

/// A mark put on by the toggle is taken off again by the toggle, and everything is
/// as it was.
pub proof fn the_toggle_undoes_itself(review: ReviewView)
    requires
        review.plan_agrees(),
        review.set_of_selected() is Some,
        ({
            let set = review.sets[review.set_of_selected()->0];
            &&& !review.marks(set.set_id).contains(review.selected->0)
            &&& review.keep.contains_key(set.set_id) ==> is_entry(review.keep[set.set_id])
        }),
    ensures
        review.toggled().toggled() == review,
{
    let set_id = review.sets[review.set_of_selected()->0].set_id;
    let file_id = review.selected->0;
    let marks = review.marks(set_id);
    let once = review.toggled();
    assert(once.sets == review.sets && once.ignored == review.ignored && once.selected
        == review.selected);
    assert(once.set_of_selected() == review.set_of_selected());
    marking_only_adds(marks, file_id, file_id);
    another_picture_is_held_as_it_comes(marks, file_id);
    assert(once.marks(set_id) == marks.push(file_id));
    unmarking_undoes_marking(marks, file_id);
    let twice = once.toggled();
    assert(twice.keep =~= review.keep);
}

/// Marking a picture alone leaves its set marking that picture and nothing else,
/// and doing it again changes nothing.
pub proof fn marking_alone_marks_one(review: ReviewView)
    requires
        review.set_of_selected() is Some,
    ensures
        ({
            let set_id = review.sets[review.set_of_selected()->0].set_id;
            &&& review.kept_alone().marks(set_id) == seq![review.selected->0]
            &&& review.kept_alone().kept_alone() == review.kept_alone()
        }),
{
    let once = review.kept_alone();
    assert(once.set_of_selected() == review.set_of_selected());
    assert(held_as(seq![review.selected->0]) =~= seq![review.selected->0]);
    assert(once.kept_alone().keep =~= once.keep);
}

/// Marking one picture with the toggle never touches another picture's mark: any
/// other picture is marked after exactly where it was before.
pub proof fn the_toggle_touches_one_mark(review: ReviewView, set_id: i64, other: i64)
    requires
        Some(other) != review.selected,
    ensures
        review.toggled().marks(set_id).contains(other) <==> review.marks(set_id).contains(other),
{
    if review.set_of_selected() is Some {
        let touched = review.sets[review.set_of_selected()->0].set_id;
        let file_id = review.selected->0;
        let marks = review.marks(touched);
        marking_only_adds(marks, file_id, other);
        an_entry_marks_what_it_stands_for(marks.push(file_id), other);
        an_entry_marks_what_it_stands_for(without(marks, file_id), other);
        unmarking_takes_one_off(marks, file_id, other);
        if marks.push(file_id).contains(other) {
            let more = marks.push(file_id);
            let i = choose|i: int| 0 <= i < more.len() && more[i] == other;
            assert(marks[i] == other);
        }
    }
}

/// Where every set has been said not to be a set of copies, a cleanup takes nothing
/// and a review opens on nothing.
pub proof fn a_review_of_ignored_sets_has_nothing_to_do(review: ReviewView)
    requires
        forall|at: int|
            0 <= at < review.sets.len() ==> all_ignored(
                (#[trigger] review.sets[at]).members,
                review.ignored,
            ),
    ensures
        review.planned().plan == Seq::<RemovalView>::empty(),
        review.opened().selected is None,
{
    nothing_goes_where_no_set_loses_anything(review.sets, review.keep, review.ignored);
    the_first_is_the_first(review.sets, 0, of_copies(review.ignored));
}

/// The marks a previous review left go back on every picture they were on that is
/// in a set, and on no other.
pub proof fn marks_go_back_where_their_pictures_are(review: ReviewView, kept: Set<i64>, at: int)
    requires
        told_apart(review.sets),
        review.keep == Map::<i64, Seq<i64>>::empty(),
        0 <= at < review.sets.len(),
    ensures
        forall|file_id: i64| #[trigger]
            review.taking_up(kept).marks(review.sets[at].set_id).contains(file_id) <==> has_id(
                review.sets[at].members,
                file_id,
            ) && kept.contains(file_id),
{
    let set = review.sets[at];
    let ids = ids_of(set.members);
    assert forall|file_id: i64| #[trigger]
        review.taking_up(kept).marks(set.set_id).contains(file_id) <==> has_id(set.members, file_id)
            && kept.contains(file_id) by {
        lemma_filter_holds(ids, one_of(kept), file_id);
        assert(ids.contains(file_id) <==> has_id(set.members, file_id)) by {
            if ids.contains(file_id) {
                let i = choose|i: int| 0 <= i < ids.len() && ids[i] == file_id;
                assert(set.members[i].file_id == file_id);
            }
            if has_id(set.members, file_id) {
                let i = choose|i: int|
                    0 <= i < set.members.len() && (#[trigger] set.members[i]).file_id == file_id;
                assert(ids[i] == file_id);
            }
        }
        if kept != Set::<i64>::empty() {
            lemma_taken_up(review.sets, kept, review.keep, at);
            an_entry_marks_what_it_stands_for(among(ids, kept), file_id);
        }
    }
}

proof fn lemma_taken_up(sets: Seq<SetView>, kept: Set<i64>, keep: Map<i64, Seq<i64>>, at: int)
    requires
        told_apart(sets),
        keep == Map::<i64, Seq<i64>>::empty(),
        0 <= at < sets.len(),
    ensures
        marks_on(taken_up(sets, kept, keep), sets[at].set_id) == held_as(
            among(ids_of(sets[at].members), kept),
        ),
    decreases sets.len(),
{
    let rest = sets.drop_last();
    let last = sets.last();
    if at < rest.len() {
        assert(told_apart(rest)) by {
            assert forall|i: int, j: int| 0 <= i < j < rest.len() implies (#[trigger] rest[i]).set_id
                != (#[trigger] rest[j]).set_id by {
                assert(rest[i] == sets[i] && rest[j] == sets[j]);
            }
        }
        assert(rest[at] == sets[at]);
        lemma_taken_up(rest, kept, keep, at);
        assert(sets[at].set_id != sets[sets.len() - 1].set_id);
    } else {
        lemma_not_taken_up(rest, kept, keep, last.set_id);
        assert(among(ids_of(last.members), kept).len() == 0 ==> among(ids_of(last.members), kept)
            =~= Seq::<i64>::empty());
    }
}

proof fn lemma_not_taken_up(
    sets: Seq<SetView>,
    kept: Set<i64>,
    keep: Map<i64, Seq<i64>>,
    set_id: i64,
)
    requires
        !keep.contains_key(set_id),
        forall|at: int| 0 <= at < sets.len() ==> (#[trigger] sets[at]).set_id != set_id,
    ensures
        !taken_up(sets, kept, keep).contains_key(set_id),
    decreases sets.len(),
{
    if sets.len() > 0 {
        let rest = sets.drop_last();
        assert forall|at: int| 0 <= at < rest.len() implies (#[trigger] rest[at]).set_id
            != set_id by {
            assert(rest[at] == sets[at]);
        }
        lemma_not_taken_up(rest, kept, keep, set_id);
        assert(sets[sets.len() - 1].set_id != set_id);
    }
}

/// Once the files that are gone are out of it, every set of a review holds two or
/// more pictures, none of them gone; every mark is on a picture that is there; and
/// the preview is on a picture that is there or on none.
pub proof fn forgetting_leaves_what_is_there(review: ReviewView, gone: Seq<Seq<char>>)
    requires
        gone.len() > 0,
    ensures
        ({
            let after = review.forgetting(gone);
            &&& forall|at: int|
                0 <= at < after.sets.len() ==> (#[trigger] after.sets[at]).members.len() > 1
            &&& forall|at: int, place: int|
                0 <= at < after.sets.len() && 0 <= place < after.sets[at].members.len()
                    ==> !gone.contains((#[trigger] after.sets[at].members[place]).rel_path)
            &&& forall|set_id: i64, file_id: i64|
                after.keep.contains_key(set_id) && #[trigger] after.keep[set_id].contains(file_id)
                    ==> has_set(after.sets, set_id) && in_sets(after.sets, file_id)
            &&& forall|set_id: i64|
                after.keep.contains_key(set_id) ==> (#[trigger] after.keep[set_id]).len() > 0
            &&& after.selected is Some ==> in_sets(after.sets, after.selected->0)
            &&& after.showing is Some ==> in_sets(after.sets, after.showing->0)
        }),
{
    let after = review.forgetting(gone);
    lemma_sets_left(review.sets, gone);
    assert forall|set_id: i64, file_id: i64|
        after.keep.contains_key(set_id) && #[trigger] after.keep[set_id].contains(
            file_id,
        ) implies has_set(after.sets, set_id) && in_sets(after.sets, file_id) by {
        lemma_filter_holds(review.keep[set_id], one_of(pictures_of(after.sets)), file_id);
        an_entry_marks_what_it_stands_for(
            among(review.keep[set_id], pictures_of(after.sets)),
            file_id,
        );
    }
}

proof fn lemma_sets_left(sets: Seq<SetView>, gone: Seq<Seq<char>>)
    ensures
        forall|at: int|
            0 <= at < sets_left(sets, gone).len() ==> (#[trigger] sets_left(
                sets,
                gone,
            )[at]).members.len() > 1,
        forall|at: int, place: int|
            0 <= at < sets_left(sets, gone).len() && 0 <= place < sets_left(
                sets,
                gone,
            )[at].members.len() ==> !gone.contains(
                (#[trigger] sets_left(sets, gone)[at].members[place]).rel_path,
            ),
    decreases sets.len(),
{
    if sets.len() > 0 {
        let rest = sets.drop_last();
        let before = sets_left(rest, gone);
        let left = set_left(sets.last(), gone);
        let after = sets_left(sets, gone);
        lemma_sets_left(rest, gone);
        assert forall|at: int, place: int|
            0 <= at < after.len() && 0 <= place < after[at].members.len() implies !gone.contains(
            (#[trigger] after[at].members[place]).rel_path,
        ) by {
            if at < before.len() {
                assert(after[at] == before[at]);
                assert(!gone.contains(before[at].members[place].rel_path));
            } else {
                assert(after[at] == left);
                sets.last().members.lemma_filter_pred(still_there(gone), place);
            }
        }
        assert forall|at: int| 0 <= at < after.len() implies (#[trigger] after[at]).members.len()
            > 1 by {
            if at < before.len() {
                assert(after[at] == before[at]);
            }
        }
    }
}

/// A press of keep all leaves a set losing nothing, and so does a press of keep
/// none.
pub proof fn keeping_all_or_none_loses_nothing(review: ReviewView, at: int)
    requires
        0 <= at < review.sets.len(),
    ensures
        ({
            let all = review.pressed(at, SetAction::KeepAll);
            let none = review.pressed(at, SetAction::KeepNone);
            &&& goes_from(review.sets[at], all.keep, all.ignored).len() == 0
            &&& goes_from(review.sets[at], none.keep, none.ignored).len() == 0
        }),
{
    let set = review.sets[at];
    let ids = ids_of(set.members);
    assert forall|place: int| 0 <= place < set.members.len() implies held_as(ids).contains(
        (#[trigger] set.members[place]).file_id,
    ) by {
        assert(ids[place] == set.members[place].file_id);
        an_entry_marks_what_it_stands_for(ids, ids[place]);
    }
    a_set_kept_whole_loses_nothing(set.members, held_as(ids));
}

} // verus!
