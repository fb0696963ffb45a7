//! The marks on the screen are the marks in the folder's index: every change to the
//! one leaves the change to the other to be written, and nothing more.

use vstd::prelude::*;

use crate::app::{ActionView, AppView};
use crate::finding::{first, the_first_is_the_first};
use crate::keep::{
    an_entry_marks_what_it_stands_for, another_picture_is_held_as_it_comes, lemma_filter_holds, none_of,
    not_among, other_than, without,
};
use crate::plan::{all_ignored, marks_on};
use crate::review::{
    best_copies, best_marked, holding, kept_whole, left_alone, marks_together, names_the_unmarked,
    with_marks,
};
use crate::review_laws::told_apart;
use crate::sets::{has_id, ids_of, SetView};
use crate::state::SetAction;

verus! {

/// The marks an index holds once some of what is left to do has been done to it.
pub open spec fn kept_after(kept: Set<i64>, todo: Seq<ActionView>) -> Set<i64>
    decreases todo.len(),
{
    if todo.len() == 0 {
        kept
    } else {
        let before = kept_after(kept, todo.drop_last());
        match todo.last() {
            ActionView::KeepThese(ids) => before.union(ids.to_set()),
            ActionView::UnkeepThese(ids) => before.difference(ids.to_set()),
            ActionView::ClearKeep => Set::empty(),
            _ => before,
        }
    }
}

/// Whether a set marks a picture.
pub open spec fn marks_picture(keep: Map<i64, Seq<i64>>, set_id: i64, file_id: i64) -> bool {
    keep.contains_key(set_id) && keep[set_id].contains(file_id)
}

/// Every picture that is marked.
pub open spec fn marked_in(keep: Map<i64, Seq<i64>>) -> Set<i64> {
    Set::new(|file_id: i64| exists|set_id: i64| #[trigger] marks_picture(keep, set_id, file_id))
}

/// Whether the sets are told apart by their numbers and by their pictures, as the
/// sets a search finds are, and what each marks is in it.
pub open spec fn at_home(sets: Seq<SetView>, keep: Map<i64, Seq<i64>>) -> bool {
    &&& told_apart(sets)
    &&& forall|one: int, other: int, file_id: i64|
        0 <= one < sets.len() && 0 <= other < sets.len() && #[trigger] has_id(
            sets[one].members,
            file_id,
        ) && #[trigger] has_id(sets[other].members, file_id) ==> one == other
    &&& forall|set_id: i64, file_id: i64| #[trigger]
        marks_picture(keep, set_id, file_id) ==> exists|at: int|
            0 <= at < sets.len() && (#[trigger] sets[at]).set_id == set_id && has_id(
                sets[at].members,
                file_id,
            )
}

/// Whether the index of a window holds, or is about to hold, the marks that are on
/// its screen.
pub open spec fn is_written(app: AppView, kept: Set<i64>) -> bool {
    &&& at_home(app.review.sets, app.review.keep)
    &&& kept_after(kept, app.todo) == marked_in(app.review.keep)
}

/// One more thing to do changes the marks an index holds by that thing.
proof fn lemma_kept_after(kept: Set<i64>, app: AppView, action: ActionView)
    ensures
        kept_after(kept, app.does(action).todo) == match action {
            ActionView::KeepThese(ids) => kept_after(kept, app.todo).union(ids.to_set()),
            ActionView::UnkeepThese(ids) => kept_after(kept, app.todo).difference(ids.to_set()),
            ActionView::ClearKeep => Set::empty(),
            _ => kept_after(kept, app.todo),
        },
{
    assert(app.todo.push(action).drop_last() =~= app.todo);
}

/// Writing marks down changes the marks an index holds by those, however many.
proof fn lemma_wrote(kept: Set<i64>, app: AppView, ids: Seq<i64>, keeping: bool)
    requires
        app.db_path is Some,
    ensures
        kept_after(kept, app.wrote_marks(ids, keeping).todo) == if keeping {
            kept_after(kept, app.todo).union(ids.to_set())
        } else {
            kept_after(kept, app.todo).difference(ids.to_set())
        },
        app.wrote_marks(ids, keeping).db_path is Some,
        app.wrote_marks(ids, keeping).review == app.review,
{
    let before = kept_after(kept, app.todo);
    if ids.len() == 0 {
        assert(before.union(ids.to_set()) =~= before);
        assert(before.difference(ids.to_set()) =~= before);
    } else if keeping {
        lemma_kept_after(kept, app, ActionView::KeepThese(ids));
    } else {
        lemma_kept_after(kept, app, ActionView::UnkeepThese(ids));
    }
}

/// What a set marks is in it.
proof fn lemma_marks_are_in_their_set(
    sets: Seq<SetView>,
    keep: Map<i64, Seq<i64>>,
    at: int,
    file_id: i64,
)
    requires
        at_home(sets, keep),
        0 <= at < sets.len(),
        marks_on(keep, sets[at].set_id).contains(file_id),
    ensures
        has_id(sets[at].members, file_id),
        marked_in(keep).contains(file_id),
{
    let set_id = sets[at].set_id;
    assert(marks_picture(keep, set_id, file_id));
    let other = choose|other: int|
        0 <= other < sets.len() && (#[trigger] sets[other]).set_id == set_id && has_id(
            sets[other].members,
            file_id,
        );
    assert(sets[other].set_id == sets[at].set_id);
}

/// A picture of a set that is marked at all is marked by that set.
proof fn lemma_marked_by_its_set(
    sets: Seq<SetView>,
    keep: Map<i64, Seq<i64>>,
    at: int,
    file_id: i64,
)
    requires
        at_home(sets, keep),
        0 <= at < sets.len(),
        has_id(sets[at].members, file_id),
        marked_in(keep).contains(file_id),
    ensures
        marks_on(keep, sets[at].set_id).contains(file_id),
{
    let set_id = choose|set_id: i64| #[trigger] marks_picture(keep, set_id, file_id);
    let other = choose|other: int|
        0 <= other < sets.len() && (#[trigger] sets[other]).set_id == set_id && has_id(
            sets[other].members,
            file_id,
        );
    assert(has_id(sets[other].members, file_id) && has_id(sets[at].members, file_id));
}

/// Having a set mark other pictures of it takes off what it marked and puts on what
/// it marks, and touches nothing else.
proof fn lemma_one_set(sets: Seq<SetView>, keep: Map<i64, Seq<i64>>, at: int, now: Seq<i64>)
    requires
        at_home(sets, keep),
        0 <= at < sets.len(),
        forall|file_id: i64| #[trigger] now.contains(file_id) ==> has_id(sets[at].members, file_id),
    ensures
        at_home(sets, with_marks(keep, sets[at].set_id, now)),
        forall|file_id: i64| #[trigger]
            marked_in(with_marks(keep, sets[at].set_id, now)).contains(file_id) <==> now.contains(
                file_id,
            ) || (marked_in(keep).contains(file_id) && !marks_on(keep, sets[at].set_id).contains(
                file_id,
            )),
{
    let set_id = sets[at].set_id;
    let after = with_marks(keep, set_id, now);
    assert forall|other: i64, file_id: i64| #[trigger]
        marks_picture(after, other, file_id) implies exists|place: int|
        0 <= place < sets.len() && (#[trigger] sets[place]).set_id == other && has_id(
            sets[place].members,
            file_id,
        ) by {
        if other == set_id {
            an_entry_marks_what_it_stands_for(now, file_id);
            assert(now.contains(file_id));
            assert(sets[at].set_id == other);
        } else {
            assert(marks_picture(keep, other, file_id));
        }
    }
    assert forall|file_id: i64| #[trigger]
        marked_in(after).contains(file_id) <==> now.contains(file_id) || (marked_in(keep).contains(
            file_id,
        ) && !marks_on(keep, set_id).contains(file_id)) by {
        an_entry_marks_what_it_stands_for(now, file_id);
        if now.contains(file_id) {
            assert(marks_picture(after, set_id, file_id));
        }
        if marked_in(keep).contains(file_id) && !marks_on(keep, set_id).contains(file_id) {
            let other = choose|other: i64| #[trigger] marks_picture(keep, other, file_id);
            assert(marks_picture(after, other, file_id));
        }
        if marked_in(after).contains(file_id) && !now.contains(file_id) {
            let other = choose|other: i64| #[trigger] marks_picture(after, other, file_id);
            assert(other != set_id);
            assert(marks_picture(keep, other, file_id));
            if marks_on(keep, set_id).contains(file_id) {
                lemma_marks_are_in_their_set(sets, keep, at, file_id);
                let place = choose|place: int|
                    0 <= place < sets.len() && (#[trigger] sets[place]).set_id == other && has_id(
                        sets[place].members,
                        file_id,
                    );
                assert(has_id(sets[place].members, file_id) && has_id(sets[at].members, file_id));
                assert(false);
            }
        }
    }
}

/// The id of every picture of a set, and of no other, is among the set's ids.
proof fn lemma_ids(set: SetView, file_id: i64)
    ensures
        ids_of(set.members).contains(file_id) <==> has_id(set.members, file_id),
{
    let ids = ids_of(set.members);
    if has_id(set.members, file_id) {
        let at = choose|at: int|
            0 <= at < set.members.len() && (#[trigger] set.members[at]).file_id == file_id;
        assert(ids[at] == file_id);
    }
    if ids.contains(file_id) {
        let at = choose|at: int| 0 <= at < ids.len() && ids[at] == file_id;
        assert(set.members[at].file_id == file_id);
    }
}

/// Marking or unmarking the picture the preview is on is written down: the index
/// holds the marks that are on the screen after it as it did before.
pub proof fn a_toggled_mark_is_written(app: AppView, kept: Set<i64>)
    requires
        app.db_path is Some,
        is_written(app, kept),
    ensures
        is_written(app.mark_toggled(), kept),
{
    let review = app.review;
    if let Some(at) = review.set_of_selected() {
        let file_id = review.selected->0;
        let set_id = review.sets[at].set_id;
        let marks = review.marks(set_id);
        let was = marks.contains(file_id);
        let now = if was {
            without(marks, file_id)
        } else {
            marks.push(file_id)
        };
        the_first_is_the_first(review.sets, 0, holding(file_id));
        assert(has_id(review.sets[at].members, file_id));
        assert forall|other: i64| #[trigger]
            now.contains(other) <==> if was {
                marks.contains(other) && other != file_id
            } else {
                marks.contains(other) || other == file_id
            } by {
            lemma_filter_holds(marks, other_than(file_id), other);
            if !was {
                assert(now[marks.len() as int] == file_id);
                if marks.contains(other) {
                    let place = choose|place: int| 0 <= place < marks.len() && marks[place] == other;
                    assert(now[place] == other);
                }
            }
        }
        assert forall|other: i64| #[trigger] now.contains(other) implies has_id(
            review.sets[at].members,
            other,
        ) by {
            if marks.contains(other) {
                lemma_marks_are_in_their_set(review.sets, review.keep, at, other);
            }
        }
        lemma_one_set(review.sets, review.keep, at, now);
        lemma_wrote(kept, app.reviewing(review.toggled()), seq![file_id], !was);
        let after = app.mark_toggled();
        assert forall|other: i64|
            kept_after(kept, after.todo).contains(other) <==> marked_in(
                after.review.keep,
            ).contains(other) by {
            assert(seq![file_id].contains(other) <==> other == file_id) by {
                assert(seq![file_id][0] == file_id);
            }
            if marks.contains(other) {
                lemma_marks_are_in_their_set(review.sets, review.keep, at, other);
            }
            if marked_in(review.keep).contains(file_id) {
                lemma_marked_by_its_set(review.sets, review.keep, at, file_id);
            }
        }
        assert(kept_after(kept, after.todo) =~= marked_in(after.review.keep));
    }
}

/// Making a picture the one thing its set keeps is written down.
pub proof fn marking_one_alone_is_written(app: AppView, at: int, file_id: i64, kept: Set<i64>)
    requires
        app.db_path is Some,
        is_written(app, kept),
        0 <= at < app.review.sets.len(),
        has_id(app.review.sets[at].members, file_id),
    ensures
        is_written(app.marked_only(app.review.sets[at].set_id, file_id), kept),
{
    let review = app.review;
    let set_id = review.sets[at].set_id;
    let marks = review.marks(set_id);
    let now = seq![file_id];
    let off = without(marks, file_id);
    assert forall|other: i64| #[trigger] now.contains(other) <==> other == file_id by {
        assert(now[0] == file_id);
    }
    lemma_one_set(review.sets, review.keep, at, now);
    let marked = app.reviewing(review.marking(set_id, now));
    lemma_wrote(kept, marked, off, false);
    lemma_wrote(kept, marked.wrote_marks(off, false), now, true);
    let after = app.marked_only(set_id, file_id);
    assert forall|other: i64|
        kept_after(kept, after.todo).contains(other) <==> marked_in(after.review.keep).contains(
            other,
        ) by {
        lemma_filter_holds(marks, other_than(file_id), other);
        if marks.contains(other) {
            lemma_marks_are_in_their_set(review.sets, review.keep, at, other);
        }
    }
    assert(kept_after(kept, after.todo) =~= marked_in(after.review.keep));
}

/// Pressing a button under a set is written down.
pub proof fn a_pressed_button_is_written(app: AppView, at: int, action: SetAction, kept: Set<i64>)
    requires
        app.db_path is Some,
        is_written(app, kept),
        0 <= at < app.review.sets.len(),
    ensures
        is_written(app.set_button_pressed(at, action), kept),
{
    let review = app.review;
    let set = review.sets[at];
    let marks = review.marks(set.set_id);
    let all = ids_of(set.members);
    let after = app.set_button_pressed(at, action);
    match action {
        SetAction::KeepAll => {
            assert forall|other: i64| #[trigger] all.contains(other) <==> has_id(
                set.members,
                other,
            ) by {
                lemma_ids(set, other);
            }
            lemma_one_set(review.sets, review.keep, at, all);
            lemma_wrote(
                kept,
                app.reviewing(review.pressed(at, action)),
                not_among(all, marks),
                true,
            );
            assert forall|other: i64|
                kept_after(kept, after.todo).contains(other) <==> marked_in(
                    after.review.keep,
                ).contains(other) by {
                lemma_filter_holds(all, none_of(marks), other);
                if marks.contains(other) {
                    lemma_marks_are_in_their_set(review.sets, review.keep, at, other);
                }
            }
            assert(kept_after(kept, after.todo) =~= marked_in(after.review.keep));
        },
        SetAction::KeepNone => {
            lemma_one_set(review.sets, review.keep, at, Seq::empty());
            lemma_wrote(kept, app.reviewing(review.pressed(at, action)), marks, false);
            assert(kept_after(kept, after.todo) =~= marked_in(after.review.keep));
        },
        SetAction::Ignore => {
            if let Some(said) = review.pairs_in(set.set_id) {
                lemma_kept_after(
                    kept,
                    app.reviewing(review.ignoring(set.set_id)),
                    ActionView::Ignore(said),
                );
            }
        },
        SetAction::Unignore => {
            if let Some(said) = review.pairs_in(set.set_id) {
                lemma_kept_after(
                    kept,
                    app.reviewing(review.unignoring(set.set_id)),
                    ActionView::Unignore(said),
                );
            }
        },
    }
}

/// Marking sets whole, set after set, puts on what was not marked before and takes
/// nothing off.
proof fn lemma_kept_whole(
    sets: Seq<SetView>,
    part: int,
    keep: Map<i64, Seq<i64>>,
    ignored: Set<(i64, i64)>,
)
    requires
        at_home(sets, keep),
        0 <= part <= sets.len(),
    ensures
        at_home(sets, kept_whole(sets.take(part), keep, ignored).0),
        marked_in(kept_whole(sets.take(part), keep, ignored).0) == marked_in(keep).union(
            kept_whole(sets.take(part), keep, ignored).1.to_set(),
        ),
    decreases part,
{
    let (after, went_on) = kept_whole(sets.take(part), keep, ignored);
    if part == 0 {
        assert(marked_in(keep).union(went_on.to_set()) =~= marked_in(keep));
    } else {
        let at = part - 1;
        assert(sets.take(part).drop_last() =~= sets.take(at));
        lemma_kept_whole(sets, at, keep, ignored);
        let (before, earlier) = kept_whole(sets.take(at), keep, ignored);
        let set = sets[at];
        if !all_ignored(set.members, ignored) {
            let all = ids_of(set.members);
            let marks = marks_on(before, set.set_id);
            let more = not_among(all, marks);
            assert forall|other: i64| #[trigger] all.contains(other) <==> has_id(
                set.members,
                other,
            ) by {
                lemma_ids(set, other);
            }
            if all.len() > 0 {
                lemma_one_set(sets, before, at, all);
            }
            assert forall|other: i64|
                marked_in(after).contains(other) <==> marked_in(keep).union(
                    went_on.to_set(),
                ).contains(other) by {
                lemma_filter_holds(all, none_of(marks), other);
                lemma_joined(earlier, more, other);
                if marks.contains(other) {
                    lemma_marks_are_in_their_set(sets, before, at, other);
                }
            }
            assert(marked_in(after) =~= marked_in(keep).union(went_on.to_set()));
        }
    }
}

/// What is in two lists put together is in one of them.
proof fn lemma_joined(one: Seq<i64>, other: Seq<i64>, file_id: i64)
    ensures
        (one + other).contains(file_id) <==> one.contains(file_id) || other.contains(file_id),
{
    let both = one + other;
    if one.contains(file_id) {
        let at = choose|at: int| 0 <= at < one.len() && one[at] == file_id;
        assert(both[at] == file_id);
    }
    if other.contains(file_id) {
        let at = choose|at: int| 0 <= at < other.len() && other[at] == file_id;
        assert(both[one.len() + at] == file_id);
    }
    if both.contains(file_id) {
        let at = choose|at: int| 0 <= at < both.len() && both[at] == file_id;
        if at < one.len() {
            assert(one[at] == file_id);
        } else {
            assert(other[at - one.len()] == file_id);
        }
    }
}

/// Marking every picture is written down.
pub proof fn marking_everything_is_written(app: AppView, kept: Set<i64>)
    requires
        app.db_path is Some,
        is_written(app, kept),
    ensures
        is_written(app.all_marked(), kept),
{
    let review = app.review;
    let whole = review.sets.len() as int;
    assert(review.sets.take(whole) =~= review.sets);
    lemma_kept_whole(review.sets, whole, review.keep, review.ignored);
    lemma_wrote(
        kept,
        app.reviewing(review.marked_whole()),
        kept_whole(review.sets, review.keep, review.ignored).1,
        true,
    );
}

/// Marking the best copies, set after set, puts on what was not marked before and
/// takes nothing off.
proof fn lemma_best_marked(
    sets: Seq<SetView>,
    part: int,
    keep: Map<i64, Seq<i64>>,
    ignored: Set<(i64, i64)>,
)
    requires
        at_home(sets, keep),
        0 <= part <= sets.len(),
    ensures
        at_home(sets, best_marked(sets.take(part), keep, ignored).0),
        marked_in(best_marked(sets.take(part), keep, ignored).0) == marked_in(keep).union(
            best_marked(sets.take(part), keep, ignored).1.to_set(),
        ),
    decreases part,
{
    let (after, went_on) = best_marked(sets.take(part), keep, ignored);
    if part == 0 {
        assert(marked_in(keep).union(went_on.to_set()) =~= marked_in(keep));
    } else {
        let at = part - 1;
        assert(sets.take(part).drop_last() =~= sets.take(at));
        lemma_best_marked(sets, at, keep, ignored);
        let (before, earlier) = best_marked(sets.take(at), keep, ignored);
        let set = sets[at];
        let marks = marks_on(before, set.set_id);
        match first(set.members, best_copies()) {
            Some(place) => {
                the_first_is_the_first(set.members, 0, best_copies());
                let best = set.members[place].file_id;
                if !all_ignored(set.members, ignored) && !marks.contains(best) {
                    let now = marks.push(best);
                    assert forall|other: i64| #[trigger]
                        now.contains(other) <==> marks.contains(other) || other == best by {
                        lemma_joined(marks, seq![best], other);
                        assert(now =~= marks + seq![best]);
                        assert(seq![best][0] == best);
                    }
                    assert forall|other: i64| #[trigger] now.contains(other) implies has_id(
                        set.members,
                        other,
                    ) by {
                        if marks.contains(other) {
                            lemma_marks_are_in_their_set(sets, before, at, other);
                        }
                    }
                    another_picture_is_held_as_it_comes(marks, best);
                    lemma_one_set(sets, before, at, now);
                    assert forall|other: i64|
                        marked_in(after).contains(other) <==> marked_in(keep).union(
                            went_on.to_set(),
                        ).contains(other) by {
                        lemma_joined(earlier, seq![best], other);
                        assert(went_on =~= earlier + seq![best]);
                        assert(seq![best][0] == best);
                        if marks.contains(other) {
                            lemma_marks_are_in_their_set(sets, before, at, other);
                        }
                    }
                    assert(marked_in(after) =~= marked_in(keep).union(went_on.to_set()));
                }
            },
            None => {},
        }
    }
}

/// Marking the best copy of every set is written down.
pub proof fn marking_the_best_is_written(app: AppView, kept: Set<i64>)
    requires
        app.db_path is Some,
        is_written(app, kept),
    ensures
        is_written(app.best_ones_marked(), kept),
{
    let review = app.review;
    let whole = review.sets.len() as int;
    assert(review.sets.take(whole) =~= review.sets);
    lemma_best_marked(review.sets, whole, review.keep, review.ignored);
    lemma_wrote(
        kept,
        app.reviewing(review.auto_marked()),
        best_marked(review.sets, review.keep, review.ignored).1,
        true,
    );
}

/// The marks of some sets together are what each of them marks.
proof fn lemma_marks_together(keep: Map<i64, Seq<i64>>, order: Seq<i64>, file_id: i64)
    requires
        forall|set_id: i64| #[trigger] order.contains(set_id) ==> keep.contains_key(set_id),
    ensures
        marks_together(keep, order).contains(file_id) <==> exists|set_id: i64|
            order.contains(set_id) && #[trigger] marks_picture(keep, set_id, file_id),
    decreases order.len(),
{
    if order.len() > 0 {
        let rest = order.drop_last();
        let last = order.last();
        assert(order[order.len() - 1] == last);
        assert forall|set_id: i64| #[trigger] order.contains(set_id) <==> rest.contains(set_id)
            || set_id == last by {
            lemma_joined(rest, seq![last], set_id);
            assert(order =~= rest + seq![last]);
            assert(seq![last][0] == last);
        }
        assert(order.contains(last));
        assert forall|set_id: i64| #[trigger] rest.contains(set_id) implies keep.contains_key(
            set_id,
        ) by {
            assert(order.contains(set_id));
        }
        lemma_marks_together(keep, rest, file_id);
        lemma_joined(marks_together(keep, rest), keep[last], file_id);
        if marks_together(keep, order).contains(file_id) {
            if keep[last].contains(file_id) {
                assert(marks_picture(keep, last, file_id));
            }
        }
    }
}

/// Taking every mark off is written down, in whatever order the sets come.
pub proof fn unmarking_everything_is_written(app: AppView, order: Seq<i64>, kept: Set<i64>)
    requires
        app.db_path is Some,
        is_written(app, kept),
        names_the_unmarked(order, app.review.sets, app.review.keep, app.review.ignored),
    ensures
        is_written(app.all_unmarked(marks_together(app.review.keep, order)), kept),
{
    let review = app.review;
    let came_off = marks_together(review.keep, order);
    let after = app.all_unmarked(came_off);
    lemma_wrote(kept, app.reviewing(review.unmarked()), came_off, false);
    let left = after.review.keep;
    assert forall|set_id: i64, file_id: i64| #[trigger]
        marks_picture(left, set_id, file_id) implies exists|at: int|
        0 <= at < review.sets.len() && (#[trigger] review.sets[at]).set_id == set_id && has_id(
            review.sets[at].members,
            file_id,
        ) by {
        assert(marks_picture(review.keep, set_id, file_id));
    }
    assert forall|file_id: i64|
        kept_after(kept, after.todo).contains(file_id) <==> marked_in(left).contains(file_id) by {
        lemma_marks_together(review.keep, order, file_id);
        if marked_in(left).contains(file_id) {
            let set_id = choose|set_id: i64| #[trigger] marks_picture(left, set_id, file_id);
            assert(marks_picture(review.keep, set_id, file_id));
            if came_off.contains(file_id) {
                let other = choose|other: i64|
                    order.contains(other) && #[trigger] marks_picture(review.keep, other, file_id);
                lemma_one_home(review.sets, review.keep, set_id, other, file_id);
                assert(false);
            }
        }
        if kept_after(kept, after.todo).contains(file_id) {
            let set_id = choose|set_id: i64| #[trigger] marks_picture(review.keep, set_id, file_id);
            if !order.contains(set_id) {
                assert(left_alone(review.sets, review.ignored, set_id));
                assert(marks_picture(left, set_id, file_id));
            }
        }
    }
    assert(kept_after(kept, after.todo) =~= marked_in(left));
}

/// A picture is marked by one set.
proof fn lemma_one_home(
    sets: Seq<SetView>,
    keep: Map<i64, Seq<i64>>,
    one: i64,
    other: i64,
    file_id: i64,
)
    requires
        at_home(sets, keep),
        marks_picture(keep, one, file_id),
        marks_picture(keep, other, file_id),
    ensures
        one == other,
{
    let here = choose|at: int|
        0 <= at < sets.len() && (#[trigger] sets[at]).set_id == one && has_id(
            sets[at].members,
            file_id,
        );
    let there = choose|at: int|
        0 <= at < sets.len() && (#[trigger] sets[at]).set_id == other && has_id(
            sets[at].members,
            file_id,
        );
    assert(has_id(sets[here].members, file_id) && has_id(sets[there].members, file_id));
}

} // verus!
