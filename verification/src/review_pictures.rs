//! What becomes of each picture of a review, and of the mark on it, whatever is done.

use vstd::prelude::*;

use crate::finding::{first, the_first_is_the_first};
use crate::keep::{
    among, an_entry_marks_what_it_stands_for, lemma_filter_holds, one_of, unmarking_takes_one_off,
    without,
};
use crate::plan::{
    a_cleanup_takes_what_is_not_marked, all_ignored, bytes_of, goes_from, is_taken, losses, marks_on,
    plan_of, removal_of, RemovalView,
};
use crate::review::{
    best_copies, best_marked, has_set, holding, kept_whole, numbered, of_copies, pictures_of,
    set_left, sets_left, still_there, with_marks, ReviewView,
};
use crate::review_laws::{auto_marking_marks_the_best, auto_marking_only_adds, told_apart};
use crate::sets::{has_id, ids_of, in_sets, pair_of, pairs, pairs_are_of_two_pictures, MemberView, SetView};
use crate::state::SetAction;

verus! {

/// Whether the set with a number marks a picture.
pub open spec fn is_marked(keep: Map<i64, Seq<i64>>, set_id: i64, file_id: i64) -> bool {
    keep.contains_key(set_id) && keep[set_id].contains(file_id)
}

/// Whether a picture of a set is the first of it that the search would keep.
pub open spec fn is_the_one_to_keep(set: SetView, place: int) -> bool {
    &&& 0 <= place < set.members.len()
    &&& set.members[place].auto_keep
    &&& forall|before: int| 0 <= before < place ==> !(#[trigger] set.members[before]).auto_keep
}

/// A set is ignored exactly where it holds two pictures or more and every two of them
/// have been separated, the lower number named first.
pub proof fn a_set_is_ignored_pair_by_pair(members: Seq<MemberView>, ignored: Set<(i64, i64)>)
    ensures
        all_ignored(members, ignored) <==> members.len() >= 2 && forall|one: int, other: int|
            0 <= one < members.len() && 0 <= other < members.len() && one != other && (
            #[trigger] members[one]).file_id <= (#[trigger] members[other]).file_id
                ==> ignored.contains((members[one].file_id, members[other].file_id)),
{
    if all_ignored(members, ignored) {
        assert forall|one: int, other: int|
            0 <= one < members.len() && 0 <= other < members.len() && one != other && (
            #[trigger] members[one]).file_id <= (
            #[trigger] members[other]).file_id implies ignored.contains(
            (members[one].file_id, members[other].file_id),
        ) by {
            if one < other {
                assert(ignored.contains(pair_of(members[one].file_id, members[other].file_id)));
            } else {
                assert(ignored.contains(pair_of(members[other].file_id, members[one].file_id)));
            }
        }
    }
    if members.len() >= 2 && forall|one: int, other: int|
        0 <= one < members.len() && 0 <= other < members.len() && one != other && (
        #[trigger] members[one]).file_id <= (#[trigger] members[other]).file_id
            ==> ignored.contains((members[one].file_id, members[other].file_id)) {
        assert forall|i: int, j: int| 0 <= i < j < members.len() implies ignored.contains(
            pair_of((#[trigger] members[i]).file_id, (#[trigger] members[j]).file_id),
        ) by {
            if members[i].file_id <= members[j].file_id {
                assert(ignored.contains((members[i].file_id, members[j].file_id)));
            } else {
                assert(ignored.contains((members[j].file_id, members[i].file_id)));
            }
        }
    }
}

/// Marking the best copies marks no picture that the search would not keep: each one
/// that has come to be marked is the first of a set of copies with that number for
/// which the search says to keep it.
pub proof fn auto_marking_marks_only_what_the_search_would_keep(
    review: ReviewView,
    set_id: i64,
    file_id: i64,
)
    requires
        is_marked(review.auto_marked().keep, set_id, file_id),
        !is_marked(review.keep, set_id, file_id),
    ensures
        exists|at: int, place: int|
            0 <= at < review.sets.len() && review.sets[at].set_id == set_id && !all_ignored(
                review.sets[at].members,
                review.ignored,
            ) && #[trigger] is_the_one_to_keep(review.sets[at], place)
                && review.sets[at].members[place].auto_keep
                && review.sets[at].members[place].file_id == file_id,
{
    lemma_newly_marked(review.sets, review.keep, review.ignored, set_id, file_id);
}

proof fn lemma_newly_marked(
    sets: Seq<SetView>,
    keep: Map<i64, Seq<i64>>,
    ignored: Set<(i64, i64)>,
    set_id: i64,
    file_id: i64,
)
    requires
        is_marked(best_marked(sets, keep, ignored).0, set_id, file_id),
        !is_marked(keep, set_id, file_id),
    ensures
        exists|at: int, place: int|
            0 <= at < sets.len() && sets[at].set_id == set_id && !all_ignored(
                sets[at].members,
                ignored,
            ) && #[trigger] is_the_one_to_keep(sets[at], place)
                && sets[at].members[place].file_id == file_id,
    decreases sets.len(),
{
    if sets.len() > 0 {
        let rest = sets.drop_last();
        let before = best_marked(rest, keep, ignored).0;
        if is_marked(before, set_id, file_id) {
            lemma_newly_marked(rest, keep, ignored, set_id, file_id);
            let (at, place) = choose|at: int, place: int|
                0 <= at < rest.len() && rest[at].set_id == set_id && !all_ignored(
                    rest[at].members,
                    ignored,
                ) && #[trigger] is_the_one_to_keep(rest[at], place)
                    && rest[at].members[place].file_id == file_id;
            assert(sets[at] == rest[at]);
            assert(is_the_one_to_keep(sets[at], place));
        } else {
            let last = sets.last();
            the_first_is_the_first(last.members, 0, best_copies());
            let place = first(last.members, best_copies())->0;
            let marks = marks_on(before, last.set_id);
            let now = marks.push(last.members[place].file_id);
            let found = choose|found: int| 0 <= found < now.len() && now[found] == file_id;
            if found < marks.len() {
                assert(marks[found] == file_id);
                assert(marks.contains(file_id));
            }
            assert(is_the_one_to_keep(sets[sets.len() - 1], place)) by {
                assert forall|earlier: int| 0 <= earlier < place implies !(
                #[trigger] last.members[earlier]).auto_keep by {
                    assert(!best_copies()(last.members[earlier]));
                }
            }
        }
    }
}

/// Once the best copies are marked, a set of copies marks the first of its pictures
/// for which the search says to keep it.
pub proof fn auto_marking_marks_the_first_the_search_would_keep(
    review: ReviewView,
    at: int,
    place: int,
)
    requires
        0 <= at < review.sets.len(),
        !all_ignored(review.sets[at].members, review.ignored),
        0 <= place < review.sets[at].members.len(),
        review.sets[at].members[place].auto_keep,
        forall|before: int|
            0 <= before < place ==> !(#[trigger] review.sets[at].members[before]).auto_keep,
    ensures
        is_marked(
            review.auto_marked().keep,
            review.sets[at].set_id,
            review.sets[at].members[place].file_id,
        ),
{
    lemma_first_to_keep(review.sets[at], place);
    auto_marking_marks_the_best(review, at);
}

proof fn lemma_first_to_keep(set: SetView, place: int)
    requires
        is_the_one_to_keep(set, place),
    ensures
        first(set.members, best_copies()) == Some(place),
{
    the_first_is_the_first(set.members, 0, best_copies());
    let found = first(set.members, best_copies());
    if found is None {
        assert(!best_copies()(set.members[place]));
    } else if found->0 < place {
        assert(best_copies()(set.members[found->0]));
        assert(!set.members[found->0].auto_keep);
    } else if found->0 > place {
        assert(!best_copies()(set.members[place]));
    }
}

/// Marking the best copies takes off no mark and moves nothing but marks and the plan.
pub proof fn auto_marking_takes_nothing_off(review: ReviewView, set_id: i64, file_id: i64)
    requires
        is_marked(review.keep, set_id, file_id),
    ensures
        is_marked(review.auto_marked().keep, set_id, file_id),
        review.auto_marked().sets == review.sets,
        review.auto_marked().ignored == review.ignored,
        review.auto_marked().selected == review.selected,
{
    auto_marking_only_adds(review, set_id, file_id);
}

/// With every mark taken off, what is still marked is what was marked in a set that is
/// not a set of copies.
pub proof fn unmarking_everything_leaves_only_ignored_marks(
    review: ReviewView,
    set_id: i64,
    file_id: i64,
)
    ensures
        is_marked(review.unmarked().keep, set_id, file_id) <==> is_marked(
            review.keep,
            set_id,
            file_id,
        ) && exists|at: int|
            0 <= at < review.sets.len() && (#[trigger] review.sets[at]).set_id == set_id
                && all_ignored(review.sets[at].members, review.ignored),
        review.unmarked().sets == review.sets,
        review.unmarked().ignored == review.ignored,
        review.unmarked().selected == review.selected,
{
}

/// With everything marked, a set of copies marks its pictures and nothing else, and a
/// set that is not one marks what it did.
pub proof fn marking_everything_marks_every_picture(review: ReviewView, at: int, file_id: i64)
    requires
        told_apart(review.sets),
        0 <= at < review.sets.len(),
        review.sets[at].members.len() > 0,
    ensures
        ({
            let set = review.sets[at];
            let after = review.marked_whole();
            &&& !all_ignored(set.members, review.ignored) ==> (is_marked(
                after.keep,
                set.set_id,
                file_id,
            ) <==> exists|place: int|
                0 <= place < set.members.len() && (#[trigger] set.members[place]).file_id == file_id)
            &&& all_ignored(set.members, review.ignored) ==> (is_marked(
                after.keep,
                set.set_id,
                file_id,
            ) <==> is_marked(review.keep, set.set_id, file_id))
            &&& after.sets == review.sets && after.ignored == review.ignored
            &&& after.selected == review.selected
        }),
{
    lemma_whole(review.sets, review.keep, review.ignored, at, file_id);
}

proof fn lemma_whole(
    sets: Seq<SetView>,
    keep: Map<i64, Seq<i64>>,
    ignored: Set<(i64, i64)>,
    at: int,
    file_id: i64,
)
    requires
        told_apart(sets),
        0 <= at < sets.len(),
        sets[at].members.len() > 0,
    ensures
        !all_ignored(sets[at].members, ignored) ==> (is_marked(
            kept_whole(sets, keep, ignored).0,
            sets[at].set_id,
            file_id,
        ) <==> has_id(sets[at].members, file_id)),
        all_ignored(sets[at].members, ignored) ==> (is_marked(
            kept_whole(sets, keep, ignored).0,
            sets[at].set_id,
            file_id,
        ) <==> is_marked(keep, sets[at].set_id, file_id)),
    decreases sets.len(),
{
    let rest = sets.drop_last();
    assert(told_apart(rest)) by {
        assert forall|i: int, j: int| 0 <= i < j < rest.len() implies (#[trigger] rest[i]).set_id
            != (#[trigger] rest[j]).set_id by {
            assert(rest[i] == sets[i] && rest[j] == sets[j]);
        }
    }
    if at < rest.len() {
        assert(rest[at] == sets[at]);
        lemma_whole(rest, keep, ignored, at, file_id);
        assert(sets[at].set_id != sets[sets.len() - 1].set_id);
    } else {
        let set = sets.last();
        assert(sets[at] == set);
        an_entry_marks_what_it_stands_for(ids_of(set.members), file_id);
        lemma_ids(set.members, file_id);
        assert forall|i: int| 0 <= i < rest.len() implies (#[trigger] rest[i]).set_id
            != set.set_id by {
            assert(rest[i] == sets[i] && sets[sets.len() - 1] == set);
        }
        lemma_other_sets_untouched(rest, keep, ignored, set.set_id);
    }
}

proof fn lemma_other_sets_untouched(
    sets: Seq<SetView>,
    keep: Map<i64, Seq<i64>>,
    ignored: Set<(i64, i64)>,
    set_id: i64,
)
    requires
        forall|at: int| 0 <= at < sets.len() ==> (#[trigger] sets[at]).set_id != set_id,
    ensures
        kept_whole(sets, keep, ignored).0.contains_key(set_id) <==> keep.contains_key(set_id),
        keep.contains_key(set_id) ==> kept_whole(sets, keep, ignored).0[set_id] == keep[set_id],
    decreases sets.len(),
{
    if sets.len() > 0 {
        let rest = sets.drop_last();
        assert forall|at: int| 0 <= at < rest.len() implies (#[trigger] rest[at]).set_id
            != set_id by {
            assert(rest[at] == sets[at]);
        }
        lemma_other_sets_untouched(rest, keep, ignored, set_id);
        assert(sets[sets.len() - 1].set_id != set_id);
    }
}

proof fn lemma_ids(members: Seq<MemberView>, file_id: i64)
    ensures
        ids_of(members).contains(file_id) <==> has_id(members, file_id),
{
    if ids_of(members).contains(file_id) {
        let at = choose|at: int| 0 <= at < ids_of(members).len() && ids_of(members)[at] == file_id;
        assert(members[at].file_id == file_id);
    }
    if has_id(members, file_id) {
        let at = choose|at: int|
            0 <= at < members.len() && (#[trigger] members[at]).file_id == file_id;
        assert(ids_of(members)[at] == file_id);
    }
}

/// Having a set mark some pictures leaves it marking those and no others, and leaves
/// the other sets marking what they did.
proof fn lemma_marking(keep: Map<i64, Seq<i64>>, set_id: i64, now: Seq<i64>, other: i64, file_id: i64)
    ensures
        is_marked(with_marks(keep, set_id, now), set_id, file_id) <==> now.contains(file_id),
        other != set_id ==> (is_marked(with_marks(keep, set_id, now), other, file_id) <==> is_marked(
            keep,
            other,
            file_id,
        )),
{
    an_entry_marks_what_it_stands_for(now, file_id);
}

/// The toggle turns the mark on the picture the preview shows over, in the first set
/// that holds it, and touches no other mark. In a set that is not a set of copies it
/// does nothing at all.
pub proof fn the_toggle_turns_one_mark_over(
    review: ReviewView,
    at: int,
    picture: i64,
    set_id: i64,
    file_id: i64,
)
    requires
        review.selected == Some(picture),
        0 <= at < review.sets.len(),
        has_id(review.sets[at].members, picture),
        forall|before: int|
            0 <= before < at ==> !has_id((#[trigger] review.sets[before]).members, picture),
    ensures
        ({
            let after = review.toggled();
            let own = review.sets[at].set_id;
            &&& all_ignored(review.sets[at].members, review.ignored) ==> after == review
            &&& !all_ignored(review.sets[at].members, review.ignored) ==> {
                &&& is_marked(after.keep, own, picture) <==> !is_marked(review.keep, own, picture)
                &&& set_id != own || file_id != picture ==> (is_marked(after.keep, set_id, file_id)
                    <==> is_marked(review.keep, set_id, file_id))
                &&& after.sets == review.sets && after.ignored == review.ignored
                &&& after.selected == review.selected && after.showing == review.showing
            }
        }),
{
    lemma_first_holding(review, at, picture);
    let own = review.sets[at].set_id;
    let marks = marks_on(review.keep, own);
    let now = if marks.contains(picture) {
        without(marks, picture)
    } else {
        marks.push(picture)
    };
    lemma_marking(review.keep, own, now, set_id, picture);
    lemma_marking(review.keep, own, now, set_id, file_id);
    unmarking_takes_one_off(marks, picture, file_id);
    unmarking_takes_one_off(marks, picture, picture);
    lemma_pushed(marks, picture, file_id);
    lemma_pushed(marks, picture, picture);
}

proof fn lemma_pushed(marks: Seq<i64>, one: i64, other: i64)
    ensures
        marks.push(one).contains(other) <==> marks.contains(other) || other == one,
{
    let now = marks.push(one);
    if now.contains(other) {
        let at = choose|at: int| 0 <= at < now.len() && now[at] == other;
        if at < marks.len() {
            assert(marks[at] == other);
        }
    }
    if marks.contains(other) {
        let at = choose|at: int| 0 <= at < marks.len() && marks[at] == other;
        assert(now[at] == other);
    }
    assert(now[marks.len() as int] == one);
}

proof fn lemma_first_holding(review: ReviewView, at: int, picture: i64)
    requires
        review.selected == Some(picture),
        0 <= at < review.sets.len(),
        has_id(review.sets[at].members, picture),
        forall|before: int|
            0 <= before < at ==> !has_id((#[trigger] review.sets[before]).members, picture),
    ensures
        first(review.sets, holding(picture)) == Some(at),
        all_ignored(review.sets[at].members, review.ignored) ==> review.set_of_selected() is None,
        !all_ignored(review.sets[at].members, review.ignored) ==> review.set_of_selected() == Some(
            at,
        ),
{
    the_first_is_the_first(review.sets, 0, holding(picture));
    let found = first(review.sets, holding(picture));
    if found is None {
        assert(!holding(picture)(review.sets[at]));
    } else if found->0 < at {
        assert(holding(picture)(review.sets[found->0]));
        assert(!has_id(review.sets[found->0].members, picture));
    } else if found->0 > at {
        assert(!holding(picture)(review.sets[at]));
    }
}

/// Keeping only the picture the preview shows leaves its set marking that picture and
/// no other, and the other sets marking what they did.
pub proof fn keeping_only_one_marks_that_one(
    review: ReviewView,
    at: int,
    picture: i64,
    set_id: i64,
    file_id: i64,
)
    requires
        review.selected == Some(picture),
        0 <= at < review.sets.len(),
        has_id(review.sets[at].members, picture),
        forall|before: int|
            0 <= before < at ==> !has_id((#[trigger] review.sets[before]).members, picture),
    ensures
        ({
            let after = review.kept_alone();
            let own = review.sets[at].set_id;
            &&& all_ignored(review.sets[at].members, review.ignored) ==> after == review
            &&& !all_ignored(review.sets[at].members, review.ignored) ==> {
                &&& is_marked(after.keep, own, file_id) <==> file_id == picture
                &&& set_id != own ==> (is_marked(after.keep, set_id, file_id) <==> is_marked(
                    review.keep,
                    set_id,
                    file_id,
                ))
                &&& after.sets == review.sets && after.ignored == review.ignored
                &&& after.selected == review.selected
            }
        }),
{
    lemma_first_holding(review, at, picture);
    lemma_marking(review.keep, review.sets[at].set_id, seq![picture], set_id, file_id);
    lemma_alone(picture, file_id);
}

proof fn lemma_alone(one: i64, other: i64)
    ensures
        seq![one].contains(other) <==> other == one,
{
    assert(seq![one][0] == one);
}

/// The same of the button over the preview, on the set and the picture it names.
pub proof fn the_button_over_the_preview_marks_that_one(
    review: ReviewView,
    own: i64,
    picture: i64,
    set_id: i64,
    file_id: i64,
)
    ensures
        ({
            let after = review.marking(own, seq![picture]);
            &&& is_marked(after.keep, own, file_id) <==> file_id == picture
            &&& set_id != own ==> (is_marked(after.keep, set_id, file_id) <==> is_marked(
                review.keep,
                set_id,
                file_id,
            ))
            &&& after.sets == review.sets && after.ignored == review.ignored
        }),
{
    lemma_marking(review.keep, own, seq![picture], set_id, file_id);
    lemma_alone(picture, file_id);
}

/// Keep all leaves a set marking every picture it holds and nothing else, keep none
/// leaves it marking nothing, and neither touches another set.
pub proof fn keep_all_and_keep_none_mark_all_and_none(
    review: ReviewView,
    at: int,
    set_id: i64,
    file_id: i64,
)
    requires
        0 <= at < review.sets.len(),
    ensures
        ({
            let own = review.sets[at].set_id;
            let all = review.pressed(at, SetAction::KeepAll);
            let none = review.pressed(at, SetAction::KeepNone);
            &&& is_marked(all.keep, own, file_id) <==> exists|place: int|
                0 <= place < review.sets[at].members.len() && (
                #[trigger] review.sets[at].members[place]).file_id == file_id
            &&& !is_marked(none.keep, own, file_id)
            &&& !none.keep.contains_key(own)
            &&& set_id != own ==> (is_marked(all.keep, set_id, file_id) <==> is_marked(
                review.keep,
                set_id,
                file_id,
            ))
            &&& set_id != own ==> (is_marked(none.keep, set_id, file_id) <==> is_marked(
                review.keep,
                set_id,
                file_id,
            ))
            &&& all.sets == review.sets && all.ignored == review.ignored
            &&& none.sets == review.sets && none.ignored == review.ignored
        }),
{
    let set = review.sets[at];
    lemma_marking(review.keep, set.set_id, ids_of(set.members), set_id, file_id);
    lemma_marking(review.keep, set.set_id, Seq::<i64>::empty(), set_id, file_id);
    lemma_ids(set.members, file_id);
}

/// Whether a pair is of two of a set's pictures, the lower number first.
pub open spec fn is_pair_of(members: Seq<MemberView>, pair: (i64, i64)) -> bool {
    exists|one: int, other: int|
        0 <= one < members.len() && 0 <= other < members.len() && one != other && (
        #[trigger] members[one]).file_id == pair.0 && (#[trigger] members[other]).file_id == pair.1
            && pair.0 <= pair.1
}

proof fn lemma_pairs(members: Seq<MemberView>, pair: (i64, i64))
    ensures
        pairs(ids_of(members)).contains(pair) <==> is_pair_of(members, pair),
{
    let ids = ids_of(members);
    pairs_are_of_two_pictures(ids, pair);
    if pairs(ids).contains(pair) {
        let (i, j) = choose|i: int, j: int|
            0 <= i < j < ids.len() && pair == pair_of(#[trigger] ids[i], #[trigger] ids[j]);
        if ids[i] <= ids[j] {
            assert(members[i].file_id == pair.0 && members[j].file_id == pair.1);
        } else {
            assert(members[j].file_id == pair.0 && members[i].file_id == pair.1);
        }
    }
    if is_pair_of(members, pair) {
        let (one, other) = choose|one: int, other: int|
            0 <= one < members.len() && 0 <= other < members.len() && one != other && (
            #[trigger] members[one]).file_id == pair.0 && (#[trigger] members[other]).file_id
                == pair.1 && pair.0 <= pair.1;
        if one < other {
            assert(pair == pair_of(ids[one], ids[other]));
        } else {
            assert(pair == pair_of(ids[other], ids[one]));
        }
    }
}

/// Ignoring a set separates every two of its pictures and no others, and taking it
/// back joins those and no others. The marks and the sets stay as they are.
pub proof fn ignoring_separates_the_pictures_of_a_set(
    review: ReviewView,
    at: int,
    pair: (i64, i64),
)
    requires
        0 <= at < review.sets.len(),
        forall|before: int|
            0 <= before < at ==> (#[trigger] review.sets[before]).set_id != review.sets[at].set_id,
    ensures
        ({
            let set = review.sets[at];
            let ignored = review.ignoring(set.set_id);
            let back = review.unignoring(set.set_id);
            &&& ignored.ignored.contains(pair) <==> review.ignored.contains(pair) || is_pair_of(
                set.members,
                pair,
            )
            &&& back.ignored.contains(pair) <==> review.ignored.contains(pair) && !is_pair_of(
                set.members,
                pair,
            )
            &&& review.pairs_in(set.set_id) is Some
            &&& review.pairs_in(set.set_id)->0.contains(pair) <==> is_pair_of(set.members, pair)
            &&& ignored.sets == review.sets && ignored.keep == review.keep
            &&& ignored.selected == review.selected
            &&& back.sets == review.sets && back.keep == review.keep
            &&& back.selected == review.selected
        }),
{
    let set = review.sets[at];
    the_first_is_the_first(review.sets, 0, numbered(set.set_id));
    let found = first(review.sets, numbered(set.set_id));
    if found is None {
        assert(!numbered(set.set_id)(review.sets[at]));
    } else if found->0 < at {
        assert(numbered(set.set_id)(review.sets[found->0]));
    } else if found->0 > at {
        assert(!numbered(set.set_id)(review.sets[at]));
    }
    lemma_pairs(set.members, pair);
}

/// A picture that is not gone stays, in a set of the same number, wherever another of
/// its set is not gone either.
pub proof fn a_picture_that_is_there_stays(
    review: ReviewView,
    gone: Seq<Seq<char>>,
    at: int,
    place: int,
    other: int,
)
    requires
        gone.len() > 0,
        0 <= at < review.sets.len(),
        0 <= place < review.sets[at].members.len(),
        0 <= other < review.sets[at].members.len(),
        place != other,
        !gone.contains(review.sets[at].members[place].rel_path),
        !gone.contains(review.sets[at].members[other].rel_path),
    ensures
        exists|left: int, there: int| #[trigger]
            stays_at(
                review.forgetting(gone).sets,
                left,
                there,
                review.sets[at].set_id,
                review.sets[at].members[place],
            ),
{
    let sets = review.sets;
    lemma_stays(sets, gone, at, place, other);
    let (left, there) = choose|left: int, there: int| #[trigger]
        stays_at(
            sets_left(sets, gone),
            left,
            there,
            sets[at].set_id,
            sets[at].members[place],
        );
    assert(stays_at(
        review.forgetting(gone).sets,
        left,
        there,
        sets[at].set_id,
        sets[at].members[place],
    ));
}

/// Whether a picture stands at a place of a set with a number.
pub open spec fn stays_at(
    sets: Seq<SetView>,
    at: int,
    place: int,
    set_id: i64,
    member: MemberView,
) -> bool {
    &&& 0 <= at < sets.len()
    &&& 0 <= place < sets[at].members.len()
    &&& sets[at].set_id == set_id
    &&& sets[at].members[place] == member
}

proof fn lemma_stays(
    sets: Seq<SetView>,
    gone: Seq<Seq<char>>,
    at: int,
    place: int,
    other: int,
)
    requires
        0 <= at < sets.len(),
        0 <= place < sets[at].members.len(),
        0 <= other < sets[at].members.len(),
        place != other,
        !gone.contains(sets[at].members[place].rel_path),
        !gone.contains(sets[at].members[other].rel_path),
    ensures
        exists|left: int, there: int| #[trigger]
            stays_at(
                sets_left(sets, gone),
                left,
                there,
                sets[at].set_id,
                sets[at].members[place],
            ),
    decreases sets.len(),
{
    let rest = sets.drop_last();
    let before = sets_left(rest, gone);
    let after = sets_left(sets, gone);
    if at < rest.len() {
        assert(rest[at] == sets[at]);
        lemma_stays(rest, gone, at, place, other);
        let (left, there) = choose|left: int, there: int| #[trigger]
            stays_at(before, left, there, sets[at].set_id, sets[at].members[place]);
        assert(after[left] == before[left]);
        assert(stays_at(after, left, there, sets[at].set_id, sets[at].members[place]));
    } else {
        let set = sets.last();
        let kept = set.members.filter(still_there(gone));
        lemma_filter_two(set.members, still_there(gone), place, other);
        let there = choose|there: int| 0 <= there < kept.len() && kept[there] == set.members[place];
        assert(set_left(set, gone).members == kept);
        assert(after == before.push(set_left(set, gone)));
        assert(stays_at(after, before.len() as int, there, set.set_id, set.members[place]));
    }
}

/// What is left of a row by a question holds whatever answers, and two places that
/// answer leave two.
proof fn lemma_filter_two(
    row: Seq<MemberView>,
    which: spec_fn(MemberView) -> bool,
    place: int,
    other: int,
)
    requires
        0 <= place < row.len(),
        0 <= other < row.len(),
        which(row[place]),
        which(row[other]),
    ensures
        row.filter(which).len() >= 1,
        place != other ==> row.filter(which).len() >= 2,
        row.filter(which).contains(row[place]),
    decreases row.len(),
{
    reveal(Seq::filter);
    let rest = row.drop_last();
    let last = row.len() - 1;
    let kept = rest.filter(which);
    if place < last && other < last {
        lemma_filter_two(rest, which, place, other);
        let at = choose|at: int| 0 <= at < kept.len() && kept[at] == row[place];
        assert(row.filter(which)[at] == row[place]);
    } else if place < last {
        lemma_filter_two(rest, which, place, place);
        let at = choose|at: int| 0 <= at < kept.len() && kept[at] == row[place];
        assert(row.filter(which)[at] == row[place]);
    } else {
        if other < last {
            lemma_filter_two(rest, which, other, other);
        }
        assert(row.filter(which)[kept.len() as int] == row[place]);
    }
}

/// Nothing comes into a review by forgetting: every picture left was in a set of the
/// same number. A mark stays exactly where its set and its picture do, and the preview
/// exactly where its picture does.
pub proof fn nothing_comes_in_by_forgetting(
    review: ReviewView,
    gone: Seq<Seq<char>>,
    left: int,
    there: int,
    set_id: i64,
    file_id: i64,
)
    requires
        gone.len() > 0,
    ensures
        ({
            let after = review.forgetting(gone);
            &&& 0 <= left < after.sets.len() && 0 <= there < after.sets[left].members.len()
                ==> exists|at: int, place: int| #[trigger]
                stays_at(
                    review.sets,
                    at,
                    place,
                    after.sets[left].set_id,
                    after.sets[left].members[there],
                )
            &&& is_marked(after.keep, set_id, file_id) <==> is_marked(review.keep, set_id, file_id)
                && has_set(after.sets, set_id) && in_sets(after.sets, file_id)
            &&& after.ignored == review.ignored
            &&& review.selected is None ==> after.selected is None
            &&& review.selected matches Some(shown) ==> after.selected == if in_sets(
                after.sets,
                shown,
            ) {
                Some(shown)
            } else {
                None
            }
            &&& review.showing is None ==> after.showing is None
            &&& review.showing matches Some(shown) ==> after.showing == if in_sets(
                after.sets,
                shown,
            ) {
                Some(shown)
            } else {
                None
            }
        }),
{
    let after = review.forgetting(gone);
    if 0 <= left < after.sets.len() && 0 <= there < after.sets[left].members.len() {
        lemma_came_from(review.sets, gone, left, there);
    }
    let here = pictures_of(after.sets);
    if review.keep.contains_key(set_id) {
        let cut = among(review.keep[set_id], here);
        lemma_filter_holds(
            review.keep[set_id],
            one_of(here),
            file_id,
        );
        an_entry_marks_what_it_stands_for(cut, file_id);
        if cut.contains(file_id) {
            assert(cut.len() > 0);
        }
    }
}

proof fn lemma_came_from(sets: Seq<SetView>, gone: Seq<Seq<char>>, left: int, there: int)
    requires
        0 <= left < sets_left(sets, gone).len(),
        0 <= there < sets_left(sets, gone)[left].members.len(),
    ensures
        exists|at: int, place: int| #[trigger]
            stays_at(
                sets,
                at,
                place,
                sets_left(sets, gone)[left].set_id,
                sets_left(sets, gone)[left].members[there],
            ),
    decreases sets.len(),
{
    let rest = sets.drop_last();
    let before = sets_left(rest, gone);
    let after = sets_left(sets, gone);
    if left < before.len() {
        lemma_came_from(rest, gone, left, there);
        assert(after[left] == before[left]);
        let (at, place) = choose|at: int, place: int| #[trigger]
            stays_at(rest, at, place, before[left].set_id, before[left].members[there]);
        assert(sets[at] == rest[at]);
        assert(stays_at(sets, at, place, after[left].set_id, after[left].members[there]));
    } else {
        let set = sets.last();
        assert(after[left] == set_left(set, gone));
        lemma_filtered_from(set.members, still_there(gone), there);
        let place = choose|place: int|
            0 <= place < set.members.len() && set.members[place] == after[left].members[there];
        assert(stays_at(
            sets,
            sets.len() - 1,
            place,
            after[left].set_id,
            after[left].members[there],
        ));
    }
}

proof fn lemma_filtered_from(row: Seq<MemberView>, which: spec_fn(MemberView) -> bool, at: int)
    requires
        0 <= at < row.filter(which).len(),
    ensures
        exists|place: int| 0 <= place < row.len() && row[place] == row.filter(which)[at],
    decreases row.len(),
{
    reveal(Seq::filter);
    let rest = row.drop_last();
    let kept = rest.filter(which);
    if at < kept.len() {
        lemma_filtered_from(rest, which, at);
        let place = choose|place: int| 0 <= place < rest.len() && rest[place] == kept[at];
        assert(row[place] == row.filter(which)[at]);
    } else {
        assert(row[row.len() - 1] == row.filter(which)[at]);
    }
}

/// Forgetting no files leaves a review as it is.
pub proof fn forgetting_nothing_changes_nothing(review: ReviewView)
    ensures
        review.forgetting(Seq::empty()) == review,
{
}

/// A review opens on the first picture marked in its first set of copies, or on that
/// set's first picture where it marks none.
pub proof fn a_review_opens_on_its_first_keeper(review: ReviewView, at: int)
    requires
        0 <= at < review.sets.len(),
        !all_ignored(review.sets[at].members, review.ignored),
        forall|before: int|
            0 <= before < at ==> all_ignored(
                (#[trigger] review.sets[before]).members,
                review.ignored,
            ),
        review.sets[at].members.len() > 0,
        review.keep.contains_key(review.sets[at].set_id)
            ==> review.keep[review.sets[at].set_id].len() > 0,
    ensures
        ({
            let set = review.sets[at];
            let after = review.opened();
            &&& review.keep.contains_key(set.set_id) ==> after.selected == Some(
                review.keep[set.set_id][0],
            )
            &&& !review.keep.contains_key(set.set_id) ==> after.selected == Some(
                set.members[0].file_id,
            )
            &&& after.showing is None
            &&& after.sets == review.sets && after.keep == review.keep
            &&& after.ignored == review.ignored && after.plan == review.plan
        }),
{
    the_first_is_the_first(review.sets, 0, of_copies(review.ignored));
    let found = first(review.sets, of_copies(review.ignored));
    if found is None {
        assert(!of_copies(review.ignored)(review.sets[at]));
    } else if found->0 < at {
        assert(of_copies(review.ignored)(review.sets[found->0]));
    } else if found->0 > at {
        assert(!of_copies(review.ignored)(review.sets[at]));
    }
}

/// Whether a picture is one a cleanup takes: its set marks something and not it, and
/// is a set of copies.
pub open spec fn is_going(review: ReviewView, at: int, place: int) -> bool {
    &&& 0 <= at < review.sets.len()
    &&& 0 <= place < review.sets[at].members.len()
    &&& !all_ignored(review.sets[at].members, review.ignored)
    &&& review.keep.contains_key(review.sets[at].set_id)
    &&& review.keep[review.sets[at].set_id].len() > 0
    &&& !review.keep[review.sets[at].set_id].contains(review.sets[at].members[place].file_id)
}

/// A cleanup takes a file exactly where it is a picture that is not marked, of a set
/// of copies that marks something, and takes it by its own number, path and size.
pub proof fn a_file_goes_where_others_of_its_set_are_kept(
    review: ReviewView,
    file_id: i64,
    rel_path: Seq<char>,
    size_bytes: i64,
)
    ensures
        review.planned().plan.contains(RemovalView { file_id, rel_path, size_bytes })
            <==> exists|at: int, place: int| #[trigger]
            is_going(review, at, place) && review.sets[at].members[place].file_id == file_id
                && review.sets[at].members[place].rel_path == rel_path
                && review.sets[at].members[place].size_bytes == size_bytes,
        review.planned().sets == review.sets,
        review.planned().keep == review.keep,
        review.planned().ignored == review.ignored,
        review.planned().selected == review.selected,
{
    let removal = RemovalView { file_id, rel_path, size_bytes };
    let plan = review.planned().plan;
    a_cleanup_takes_what_is_not_marked(
        review.sets,
        review.keep,
        review.ignored,
        removal,
    );
    if plan.contains(removal) {
        let (at, place) = choose|at: int, place: int|
            #[trigger] is_taken(
                review.sets,
                review.keep,
                review.ignored,
                at,
                place,
            ) && removal == removal_of(review.sets[at].members[place]);
        assert(is_going(review, at, place));
    }
    if exists|at: int, place: int| #[trigger]
        is_going(review, at, place) && review.sets[at].members[place].file_id == file_id
            && review.sets[at].members[place].rel_path == rel_path
            && review.sets[at].members[place].size_bytes == size_bytes {
        let (at, place) = choose|at: int, place: int| #[trigger]
            is_going(review, at, place) && review.sets[at].members[place].file_id == file_id
                && review.sets[at].members[place].rel_path == rel_path
                && review.sets[at].members[place].size_bytes == size_bytes;
        assert(is_taken(review.sets, review.keep, review.ignored, at, place));
        assert(removal == removal_of(review.sets[at].members[place]));
    }
}

/// What goes from two lists of sets is what goes from the one and behind it what goes
/// from the other, so it goes in the order the sets stand in, and once for each time a
/// picture stands in them.
pub proof fn the_plans_of_two_lists_stand_one_behind_the_other(
    one: Seq<SetView>,
    other: Seq<SetView>,
    keep: Map<i64, Seq<i64>>,
    ignored: Set<(i64, i64)>,
)
    ensures
        plan_of(one + other, keep, ignored) == plan_of(one, keep, ignored) + plan_of(
            other,
            keep,
            ignored,
        ),
    decreases other.len(),
{
    if other.len() == 0 {
        assert(one + other =~= one);
        assert(plan_of(one, keep, ignored) + plan_of(other, keep, ignored) =~= plan_of(
            one,
            keep,
            ignored,
        ));
    } else {
        let all = one + other;
        assert(all.drop_last() =~= one + other.drop_last());
        assert(all.last() == other.last());
        the_plans_of_two_lists_stand_one_behind_the_other(one, other.drop_last(), keep, ignored);
        assert(plan_of(all, keep, ignored) =~= plan_of(one, keep, ignored) + plan_of(
            other,
            keep,
            ignored,
        ));
    }
}

/// Of one set the pictures that are not marked go in their order: none goes from an
/// empty one, and one more picture behind the others goes behind theirs, or not at
/// all where it is marked.
pub proof fn pictures_go_in_their_order(
    members: Seq<MemberView>,
    member: MemberView,
    marks: Seq<i64>,
)
    ensures
        losses(Seq::empty(), marks).len() == 0,
        marks.contains(member.file_id) ==> losses(members.push(member), marks) == losses(
            members,
            marks,
        ),
        !marks.contains(member.file_id) ==> losses(members.push(member), marks) == losses(
            members,
            marks,
        ).push(
            RemovalView {
                file_id: member.file_id,
                rel_path: member.rel_path,
                size_bytes: member.size_bytes,
            },
        ),
{
    assert(members.push(member).drop_last() =~= members);
}

/// From one set there goes what its own marks leave, in a list of one as in any other.
pub proof fn one_set_loses_what_its_marks_leave(
    set: SetView,
    keep: Map<i64, Seq<i64>>,
    ignored: Set<(i64, i64)>,
)
    requires
        !all_ignored(set.members, ignored),
        keep.contains_key(set.set_id),
        keep[set.set_id].len() > 0,
    ensures
        plan_of(seq![set], keep, ignored) == losses(set.members, keep[set.set_id]),
        plan_of(Seq::empty(), keep, ignored).len() == 0,
{
    assert(seq![set].drop_last() =~= Seq::<SetView>::empty());
    assert(seq![set].last() == set);
    assert(plan_of(Seq::<SetView>::empty(), keep, ignored) =~= Seq::<RemovalView>::empty());
    assert(plan_of(seq![set], keep, ignored) =~= Seq::<RemovalView>::empty() + goes_from(
        set,
        keep,
        ignored,
    ));
    assert(plan_of(seq![set], keep, ignored) =~= losses(set.members, keep[set.set_id]));
}

/// The bytes of two lists of files are those of the one and those of the other, and of
/// one file its own.
pub proof fn bytes_add_up(one: Seq<RemovalView>, other: Seq<RemovalView>, removal: RemovalView)
    ensures
        bytes_of(Seq::empty()) == 0,
        bytes_of(seq![removal]) == removal.size_bytes,
        bytes_of(one + other) == bytes_of(one) + bytes_of(
            other,
        ),
    decreases other.len(),
{
    assert(seq![removal].drop_last() =~= Seq::<RemovalView>::empty());
    reveal_with_fuel(bytes_of, 2);
    if other.len() == 0 {
        assert(one + other =~= one);
    } else {
        assert((one + other).drop_last() =~= one + other.drop_last());
        assert((one + other).last() == other.last());
        bytes_add_up(one, other.drop_last(), removal);
    }
}

} // verus!
