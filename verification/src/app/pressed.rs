//! What pressing something on the review page does to the window, what it leaves to be
//! written, and what the pages show of it.

use vstd::prelude::*;

use crate::app::asked::nothing_scanned;
use crate::app::cleaning::{tidied, Tidying};
use crate::app::pages::{buttons_under, heading_text, last_failure, summary_text, tab_text};
use crate::app::searching::picture;
use crate::app::{ActionView, AppView, Flow};
use crate::finding::{first, the_first_is_the_first};
use crate::keep::{lemma_filter_holds, none_of, not_among, unmarking_takes_one_off, without};
use crate::plan::all_ignored;
use crate::review::{holding, ReviewView};
use crate::review_pictures::{
    auto_marking_marks_only_what_the_search_would_keep,
    auto_marking_marks_the_first_the_search_would_keep, auto_marking_takes_nothing_off,
    ignoring_separates_the_pictures_of_a_set, is_marked, is_pair_of, is_the_one_to_keep,
    keeping_only_one_marks_that_one, the_toggle_turns_one_mark_over,
};
use crate::sets::{has_id, ids_of, SetView};
use crate::state::{Destination, Page, SetAction};
use crate::text::digits;
use crate::walk::called;

verus! {

/// Whether a picture is in a set of a review and in none before it.
pub open spec fn is_at(review: ReviewView, at: int, file_id: i64) -> bool {
    &&& 0 <= at < review.sets.len()
    &&& has_id(review.sets[at].members, file_id)
    &&& forall|before: int|
        0 <= before < at ==> !has_id((#[trigger] review.sets[before]).members, file_id)
}

/// The space bar on a picture of a set of copies turns its mark over, and with an
/// index open writes down that one picture: as marked where it has come to be, as
/// unmarked where it was. In a set that is not one of copies it does nothing.
pub proof fn the_space_bar_turns_the_mark_over(app: AppView, at: int, file_id: i64)
    requires
        app.review.selected == Some(file_id),
        is_at(app.review, at, file_id),
    ensures
        ({
            let after = app.space_pressed(false);
            let set = app.review.sets[at];
            let was = is_marked(app.review.keep, set.set_id, file_id);
            &&& all_ignored(set.members, app.review.ignored) ==> after == app
            &&& !all_ignored(set.members, app.review.ignored) ==> {
                &&& is_marked(after.review.keep, set.set_id, file_id) <==> !was
                &&& after.todo == if app.db_path is None {
                    app.todo
                } else if was {
                    app.todo.push(ActionView::UnkeepThese(seq![file_id]))
                } else {
                    app.todo.push(ActionView::KeepThese(seq![file_id]))
                }
                &&& after == (AppView { review: after.review, todo: after.todo, ..app })
            }
        }),
{
    the_toggle_turns_one_mark_over(app.review, at, file_id, app.review.sets[at].set_id, file_id);
    lemma_found(app.review, at, file_id);
}

proof fn lemma_found(review: ReviewView, at: int, file_id: i64)
    requires
        review.selected == Some(file_id),
        is_at(review, at, file_id),
    ensures
        review.set_of_selected() == if all_ignored(review.sets[at].members, review.ignored) {
            None
        } else {
            Some(at)
        },
        first(review.sets, holding(file_id)) == Some(at),
{
    the_first_is_the_first(review.sets, 0, holding(file_id));
    let found = first(review.sets, holding(file_id));
    if found is None {
        assert(!holding(file_id)(review.sets[at]));
    } else if found->0 < at {
        assert(holding(file_id)(review.sets[found->0]));
        assert(!has_id(review.sets[found->0].members, file_id));
    } else if found->0 > at {
        assert(!holding(file_id)(review.sets[at]));
    }
}

/// Shift and the space bar leave the set of the picture marking it alone, and write
/// down first the others that came off, where any did, and then the picture.
pub proof fn shift_and_the_space_bar_mark_one_alone(
    app: AppView,
    at: int,
    file_id: i64,
    other: i64,
)
    requires
        app.db_path is Some,
        app.review.selected == Some(file_id),
        is_at(app.review, at, file_id),
        !all_ignored(app.review.sets[at].members, app.review.ignored),
    ensures
        ({
            let after = app.space_pressed(true);
            let set_id = app.review.sets[at].set_id;
            let last = after.todo.len() - 1;
            &&& is_marked(after.review.keep, set_id, other) <==> other == file_id
            &&& after.todo[last] == ActionView::KeepThese(seq![file_id])
            &&& is_marked(app.review.keep, set_id, other) && other != file_id
                ==> after.todo[last - 1] is UnkeepThese
                && after.todo[last - 1]->UnkeepThese_0.contains(other)
            &&& after.todo.len() == app.todo.len() + 1 || (after.todo.len() == app.todo.len() + 2
                && (after.todo[last - 1] matches ActionView::UnkeepThese(off) && (off.contains(
                other,
            ) ==> is_marked(app.review.keep, set_id, other) && other != file_id)))
            &&& after == (AppView { review: after.review, todo: after.todo, ..app })
        }),
{
    let set_id = app.review.sets[at].set_id;
    keeping_only_one_marks_that_one(app.review, at, file_id, set_id, other);
    lemma_found(app.review, at, file_id);
    let marks = app.review.marks(set_id);
    unmarking_takes_one_off(marks, file_id, other);
    let off = without(marks, file_id);
    if is_marked(app.review.keep, set_id, other) && other != file_id {
        assert(off.contains(other));
        assert(off.len() > 0);
    }
    assert(app.space_pressed(true) == app.marked_only(set_id, file_id));
    let reviewed = app.reviewing(app.review.marking(set_id, seq![file_id]));
    if off.len() == 0 {
        assert(app.marked_only(set_id, file_id) == reviewed.does(
            ActionView::KeepThese(seq![file_id]),
        ));
    } else {
        assert(app.marked_only(set_id, file_id) == reviewed.does(
            ActionView::UnkeepThese(off),
        ).does(ActionView::KeepThese(seq![file_id])));
    }
}

/// Clicking a picture twice is selecting it and pressing the space bar, with shift or
/// without.
pub proof fn a_double_click_is_the_space_bar_on_that_picture(
    app: AppView,
    file_id: i64,
    shift: bool,
)
    ensures
        app.selecting(file_id).review.selected == Some(file_id),
        app.selecting(file_id) == (AppView {
            review: ReviewView { selected: Some(file_id), ..app.review },
            ..app
        }),
        app.double_clicked(file_id, shift) == app.selecting(file_id).space_pressed(shift),
{
}

/// Ignoring a set says of every two of its pictures, and of no others, that they are
/// not copies, on the screen and, with an index open, in what is left to be written;
/// taking it back takes back the same.
pub proof fn ignoring_a_set_is_written_pair_by_pair(app: AppView, at: int, pair: (i64, i64))
    requires
        app.db_path is Some,
        0 <= at < app.review.sets.len(),
        forall|before: int|
            0 <= before < at ==> (#[trigger] app.review.sets[before]).set_id
                != app.review.sets[at].set_id,
    ensures
        ({
            let set = app.review.sets[at];
            let ignored = app.set_ignored(set.set_id);
            let back = app.set_unignored(set.set_id);
            &&& ignored.todo.drop_last() == app.todo
            &&& ignored.todo.last() matches ActionView::Ignore(said) && (said.contains(pair)
                <==> is_pair_of(set.members, pair))
            &&& ignored.review.ignored.contains(pair) <==> app.review.ignored.contains(pair)
                || is_pair_of(set.members, pair)
            &&& ignored == (AppView { review: ignored.review, todo: ignored.todo, ..app })
            &&& back.todo.drop_last() == app.todo
            &&& back.todo.last() matches ActionView::Unignore(said) && (said.contains(pair)
                <==> is_pair_of(set.members, pair))
            &&& back.review.ignored.contains(pair) <==> app.review.ignored.contains(pair)
                && !is_pair_of(set.members, pair)
            &&& back == (AppView { review: back.review, todo: back.todo, ..app })
        }),
{
    let set = app.review.sets[at];
    ignoring_separates_the_pictures_of_a_set(app.review, at, pair);
    assert(app.set_ignored(set.set_id).todo.drop_last() =~= app.todo);
    assert(app.set_unignored(set.set_id).todo.drop_last() =~= app.todo);
}

/// The buttons under a set do each its own: what keep all writes down is the pictures
/// of the set that were not marked, what keep none does is those that were, and the
/// other two ignore the set and take that back.
pub proof fn a_button_under_a_set_does_its_own(app: AppView, at: int, file_id: i64)
    requires
        app.db_path is Some,
        0 <= at < app.review.sets.len(),
    ensures
        ({
            let set = app.review.sets[at];
            let all = app.set_button_pressed(at, SetAction::KeepAll);
            let none = app.set_button_pressed(at, SetAction::KeepNone);
            &&& all.review == app.review.pressed(at, SetAction::KeepAll)
            &&& none.review == app.review.pressed(at, SetAction::KeepNone)
            &&& has_id(set.members, file_id) && !is_marked(app.review.keep, set.set_id, file_id)
                ==> all.todo.len() == app.todo.len() + 1 && (all.todo.last() matches
                ActionView::KeepThese(ids) && ids.contains(file_id))
            &&& all.todo.len() == app.todo.len() + 1 ==> (all.todo.last() matches
                ActionView::KeepThese(ids) && (ids.contains(file_id) ==> has_id(
                set.members,
                file_id,
            ) && !is_marked(app.review.keep, set.set_id, file_id)))
            &&& is_marked(app.review.keep, set.set_id, file_id) ==> none.todo.len()
                == app.todo.len() + 1 && (none.todo.last() matches ActionView::UnkeepThese(ids)
                && ids.contains(file_id))
            &&& none.todo.len() == app.todo.len() + 1 ==> (none.todo.last() matches
                ActionView::UnkeepThese(ids) && (ids.contains(file_id) ==> is_marked(
                app.review.keep,
                set.set_id,
                file_id,
            )))
            &&& app.set_button_pressed(at, SetAction::Ignore) == app.set_ignored(set.set_id)
            &&& app.set_button_pressed(at, SetAction::Unignore) == app.set_unignored(set.set_id)
        }),
{
    let set = app.review.sets[at];
    let marks = app.review.marks(set.set_id);
    let ids = ids_of(set.members);
    lemma_filter_holds(ids, none_of(marks), file_id);
    if has_id(set.members, file_id) {
        let place = choose|place: int|
            0 <= place < set.members.len() && (#[trigger] set.members[place]).file_id == file_id;
        assert(ids[place] == file_id);
    }
    if ids.contains(file_id) {
        let place = choose|place: int| 0 <= place < ids.len() && ids[place] == file_id;
        assert(set.members[place].file_id == file_id);
    }
    if not_among(ids, marks).contains(file_id) {
        assert(not_among(ids, marks).len() > 0);
    }
    if marks.contains(file_id) {
        assert(marks.len() > 0);
    }
}

/// Pressing the button that marks the best copies marks nothing that the search would
/// not keep, marks the first it would keep of every set of copies, and takes no mark
/// off.
pub proof fn the_button_marks_what_the_search_would_keep(
    app: AppView,
    at: int,
    place: int,
    set_id: i64,
    file_id: i64,
)
    ensures
        ({
            let after = app.best_ones_marked();
            &&& is_marked(after.review.keep, set_id, file_id) && !is_marked(
                app.review.keep,
                set_id,
                file_id,
            ) ==> exists|at: int, place: int|
                0 <= at < app.review.sets.len() && app.review.sets[at].set_id == set_id
                    && #[trigger] is_the_one_to_keep(app.review.sets[at], place)
                    && app.review.sets[at].members[place].auto_keep
                    && app.review.sets[at].members[place].file_id == file_id
            &&& 0 <= at < app.review.sets.len() && !all_ignored(
                app.review.sets[at].members,
                app.review.ignored,
            ) && is_the_one_to_keep(app.review.sets[at], place) ==> is_marked(
                after.review.keep,
                app.review.sets[at].set_id,
                app.review.sets[at].members[place].file_id,
            )
            &&& is_marked(app.review.keep, set_id, file_id) ==> is_marked(
                after.review.keep,
                set_id,
                file_id,
            )
            &&& after == (AppView { review: after.review, todo: after.todo, ..app })
        }),
{
    let after = app.best_ones_marked();
    assert(after.review == app.review.auto_marked());
    if is_marked(after.review.keep, set_id, file_id) && !is_marked(
        app.review.keep,
        set_id,
        file_id,
    ) {
        auto_marking_marks_only_what_the_search_would_keep(
            app.review,
            set_id,
            file_id,
        );
    }
    if 0 <= at < app.review.sets.len() && !all_ignored(
        app.review.sets[at].members,
        app.review.ignored,
    ) && is_the_one_to_keep(app.review.sets[at], place) {
        auto_marking_marks_the_first_the_search_would_keep(
            app.review,
            at,
            place,
        );
    }
    if is_marked(app.review.keep, set_id, file_id) {
        auto_marking_takes_nothing_off(app.review, set_id, file_id);
    }
}

/// Marking and unmarking everything change the review and what is left to be written,
/// and nothing else.
pub proof fn marking_everything_stays_on_the_review(app: AppView, came_off: Seq<i64>)
    ensures
        ({
            let all = app.all_marked();
            let none = app.all_unmarked(came_off);
            &&& all.review == app.review.marked_whole()
            &&& all == (AppView { review: all.review, todo: all.todo, ..app })
            &&& none.review == app.review.unmarked()
            &&& none == (AppView { review: none.review, todo: none.todo, ..app })
        }),
{
}

/// A picture is the first with its number in the first set that holds one, and there
/// is none exactly where no set holds one.
pub proof fn a_picture_is_looked_up_by_its_number(sets: Seq<SetView>, file_id: i64)
    ensures
        match picture(sets, file_id) {
            Some(member) => exists|at: int, place: int|
                #[trigger] stands_first(sets, at, place, file_id)
                    && sets[at].members[place] == member,
            None => forall|at: int, place: int|
                0 <= at < sets.len() && 0 <= place < sets[at].members.len() ==> (
                #[trigger] sets[at].members[place]).file_id != file_id,
        },
{
    the_first_is_the_first(sets, 0, holding(file_id));
    match first(sets, holding(file_id)) {
        None => {
            assert forall|at: int, place: int|
                0 <= at < sets.len() && 0 <= place < sets[at].members.len() implies (
            #[trigger] sets[at].members[place]).file_id != file_id by {
                assert(!holding(file_id)(sets[at]));
            }
        },
        Some(set) => {
            let members = sets[set].members;
            assert(holding(file_id)(sets[set]));
            the_first_is_the_first(members, 0, called(file_id));
            match first(members, called(file_id)) {
                None => {
                    let place = choose|place: int|
                        0 <= place < members.len() && (#[trigger] members[place]).file_id
                            == file_id;
                    assert(!called(file_id)(members[place]));
                },
                Some(place) => {
                    assert forall|before: int| 0 <= before < set implies !has_id(
                        (#[trigger] sets[before]).members,
                        file_id,
                    ) by {
                        assert(!holding(file_id)(sets[before]));
                    }
                    assert forall|before: int| 0 <= before < place implies (
                    #[trigger] members[before]).file_id != file_id by {
                        assert(!called(file_id)(members[before]));
                    }
                    assert(called(file_id)(members[place]));
                    assert(stands_first(sets, set, place, file_id));
                },
            }
        },
    }
}

/// Whether a place is the first of a picture with a number: no set before holds one,
/// and none stands before it in its set.
pub open spec fn stands_first(sets: Seq<SetView>, at: int, place: int, file_id: i64) -> bool {
    &&& 0 <= at < sets.len()
    &&& 0 <= place < sets[at].members.len()
    &&& sets[at].members[place].file_id == file_id
    &&& forall|before: int|
        0 <= before < at ==> !has_id((#[trigger] sets[before]).members, file_id)
    &&& forall|before: int|
        0 <= before < place ==> (#[trigger] sets[at].members[before]).file_id != file_id
}

/// The picture the preview opens on is asked for by its number and its path, before
/// the thumbnails, where a folder is open.
pub proof fn the_preview_is_asked_for_first(app: AppView)
    ensures
        app.folder is None ==> app.primed() == app,
        app.folder is Some ==> app.primed().todo == (match app.review.selected {
            Some(file_id) => match picture(app.review.sets, file_id) {
                Some(member) => app.todo.push(
                    ActionView::PrimePreview { file_id, rel_path: member.rel_path },
                ),
                None => app.todo,
            },
            None => app.todo,
        }).push(ActionView::PrimeThumbnails),
{
}

/// A picture fills the window until it is put away, or until no folder is open for it
/// to be in or no set holds it.
pub proof fn a_picture_fills_the_window_while_it_is_there(app: AppView)
    ensures
        app.picture_put_away().review.filling_the_window is None,
        app.picture_put_away() == (AppView {
            review: ReviewView { filling_the_window: None, ..app.review },
            ..app
        }),
        app.review.filling_the_window is None ==> app.filled() == app,
        app.review.filling_the_window matches Some(file_id) ==> {
            let there = app.folder is Some && exists|at: int|
                0 <= at < app.review.sets.len() && has_id(
                    (#[trigger] app.review.sets[at]).members,
                    file_id,
                );
            &&& there ==> app.filled() == app
            &&& !there ==> app.filled() == app.picture_put_away()
        },
{
    match app.review.filling_the_window {
        None => {},
        Some(file_id) => {
            let sets = app.review.sets;
            a_picture_is_looked_up_by_its_number(sets, file_id);
            if picture(sets, file_id) is Some {
                let (at, place) = choose|at: int, place: int|
                    #[trigger] stands_first(sets, at, place, file_id);
                assert(has_id(sets[at].members, file_id));
            } else if exists|at: int|
                0 <= at < sets.len() && has_id((#[trigger] sets[at]).members, file_id) {
                let at = choose|at: int|
                    0 <= at < sets.len() && has_id((#[trigger] sets[at]).members, file_id);
                let place = choose|place: int|
                    0 <= place < sets[at].members.len() && (
                    #[trigger] sets[at].members[place]).file_id == file_id;
                assert(sets[at].members[place].file_id == file_id);
            }
        },
    }
}

/// The scan page can always be gone to, the review where there is a set, and the
/// cleanup where there is a set of copies.
pub proof fn a_tab_leads_where_there_is_something(app: AppView)
    ensures
        app.tab_leads(Page::Scan),
        app.tab_leads(Page::Review) <==> app.review.sets.len() > 0,
        app.tab_leads(Page::Cleanup) <==> exists|at: int|
            0 <= at < app.review.sets.len() && !all_ignored(
                (#[trigger] app.review.sets[at]).members,
                app.review.ignored,
            ),
{
}

/// A picture is drawn as kept exactly where its set is one of copies and marks it, and
/// as shown exactly where its set is one of copies and the preview is on it.
pub proof fn a_picture_is_drawn_as_it_is_marked(app: AppView, set: SetView, file_id: i64)
    ensures
        app.drawn(set, file_id).kept <==> !all_ignored(set.members, app.review.ignored)
            && is_marked(app.review.keep, set.set_id, file_id),
        app.drawn(set, file_id).showing <==> !all_ignored(set.members, app.review.ignored)
            && app.review.selected == Some(file_id),
{
}

/// The bars are on the page while a pass or a search runs, once there is a total, and
/// once something has ended, and at no other time.
pub proof fn progress_is_shown_where_there_is_any(app: AppView)
    ensures
        app.has_progress() <==> app.flow.running || app.flow.searching || app.scan.total > 0
            || app.scan.finished is Some,
        app.is_busy() <==> app.flow.running || app.flow.searching || app.flow.removing,
{
}

/// The bar of a cleanup says that the index is being tidied once it is, and else
/// whether files move or are removed, and how many of how many; a bar is never out of
/// nothing.
pub proof fn the_bar_of_a_cleanup_says_how_far_it_is(app: AppView)
    ensures
        app.flow.tidying ==> app.removal_text() == "tidying the index"@,
        !app.flow.tidying && app.destination == Destination::MoveTo ==> app.removal_text()
            == "moving"@ + " "@ + digits(app.flow.removed_so_far as nat) + " of "@ + digits(
            app.out_of() as nat,
        ),
        !app.flow.tidying && app.destination != Destination::MoveTo ==> app.removal_text()
            == "removing"@ + " "@ + digits(app.flow.removed_so_far as nat) + " of "@ + digits(
            app.out_of() as nat,
        ),
        app.flow.to_remove > 0 ==> app.out_of() == app.flow.to_remove,
        app.flow.to_remove == 0 ==> app.out_of() == 1,
{
}

/// What is said about a file that would not go is the last that was said of it, and
/// nothing is said about one of which nothing was.
pub proof fn the_last_reason_is_the_one_given(
    failures: Seq<(Seq<char>, Seq<char>)>,
    path: Seq<char>,
    at: int,
)
    ensures
        0 <= at < failures.len() && failures[at].0 == path && (forall|after: int|
            at < after < failures.len() ==> (#[trigger] failures[after]).0 != path)
            ==> last_failure(failures, path) == Some(failures[at].1),
        (forall|place: int|
            0 <= place < failures.len() ==> (#[trigger] failures[place]).0 != path)
            ==> last_failure(failures, path) is None,
    decreases failures.len(),
{
    if failures.len() > 0 {
        let rest = failures.drop_last();
        the_last_reason_is_the_one_given(rest, path, at);
        assert(failures[failures.len() - 1] == failures.last());
        if forall|place: int|
            0 <= place < failures.len() ==> (#[trigger] failures[place]).0 != path {
            assert forall|place: int| 0 <= place < rest.len() implies (#[trigger] rest[place]).0
                != path by {
                assert(rest[place] == failures[place]);
            }
        }
        if 0 <= at < rest.len() && failures[at].0 == path && (forall|after: int|
            at < after < failures.len() ==> (#[trigger] failures[after]).0 != path) {
            assert(rest[at] == failures[at]);
            assert forall|after: int| at < after < rest.len() implies (#[trigger] rest[after]).0
                != path by {
                assert(rest[after] == failures[after]);
            }
        }
    }
}

/// The line of a file begins with its path, and is no more than that where nothing was
/// said about it; where something was, the reason stands behind it and the line is
/// marked.
pub proof fn a_line_says_why_a_file_would_not_go(app: AppView, at: int)
    requires
        0 <= at < app.review.plan.len(),
    ensures
        ({
            let path = app.review.plan[at].rel_path;
            let (text, failed) = app.removal_line(at);
            &&& failed <==> last_failure(app.cleanup_failures, path) is Some
            &&& !failed ==> text == path
            &&& failed ==> text == path + "  "@ + last_failure(app.cleanup_failures, path)->0
        }),
{
}

/// Throwing an index away leaves it to be deleted and the thumbnails to be let go of,
/// and nothing on screen that came out of it.
pub proof fn an_index_thrown_away_leaves_nothing(app: AppView)
    ensures
        ({
            let after = app.index_thrown_away();
            &&& after.todo == app.todo.push(ActionView::DiscardIndex).push(
                ActionView::ForgetThumbnails,
            )
            &&& after.review.sets.len() == 0 && after.review.selected is None
            &&& after.review.ignored == app.review.ignored
            &&& nothing_scanned(after.scan)
            &&& after == (AppView {
                todo: after.todo,
                review: after.review,
                scan: after.scan,
                ..app
            })
        }),
{
}

/// A box can be ticked only while nothing is under way, and one that depends on another
/// only while that one is ticked.
pub proof fn a_box_can_be_ticked_where_it_means_something(app: AppView)
    ensures
        ({
            let usable = app.boxes_usable();
            let idle = !app.flow.running && !app.flow.searching && !app.flow.removing;
            &&& usable.recurse <==> idle
            &&& usable.keep_index <==> idle
            &&& usable.within_a_folder <==> idle && app.choices.recurse
            &&& usable.auto_rescan <==> idle && app.choices.keep_index
            &&& usable.auto_mark <==> idle && app.choices.keep_index && app.choices.auto_rescan
        }),
{
}

/// Scanning can be asked for where a folder is open and looking for duplicates where an
/// index is, both only while nothing is under way; and work can be cancelled exactly
/// while a pass or a search runs, which a removal is not.
pub proof fn a_button_can_be_pressed_where_it_does_something(app: AppView)
    ensures
        ({
            let buttons = app.runnable();
            let idle = !app.flow.running && !app.flow.searching && !app.flow.removing;
            &&& buttons.scan <==> idle && app.folder is Some
            &&& buttons.find_duplicates <==> idle && app.db_path is Some
            &&& buttons.cancel <==> app.flow.running || app.flow.searching
            &&& app.can_be_cancelled() <==> app.flow.running || app.flow.searching
            &&& app.can_clean_up() <==> idle && app.folder is Some && app.review.plan.len() > 0
            &&& app.has_sets() <==> app.review.sets.len() != 0
        }),
{
}

/// The buttons under a set are keep all, keep none and ignore, in that order, each doing
/// what it says. The first two can be pressed where the set is not ignored; the third
/// always, and where the set is ignored it is the way back.
pub proof fn a_button_under_a_set_does_what_it_says(ignored: bool)
    ensures
        ({
            let buttons = buttons_under(ignored);
            &&& buttons.len() == 3
            &&& buttons[0].label@ == "keep all"@ && buttons[0].action == SetAction::KeepAll
            &&& buttons[0].usable <==> !ignored
            &&& buttons[1].label@ == "keep none"@ && buttons[1].action == SetAction::KeepNone
            &&& buttons[1].usable <==> !ignored
            &&& buttons[2].usable
            &&& ignored ==> buttons[2].label@ == "unignore"@ && buttons[2].action
                == SetAction::Unignore
            &&& !ignored ==> buttons[2].label@ == "ignore"@ && buttons[2].action
                == SetAction::Ignore
        }),
{
}

/// A tab that leads somewhere goes there and one that does not stays, and the review's
/// button goes to the cleanup exactly where something would go.
pub proof fn going_to_a_page_changes_the_page_alone(app: AppView, page: Page)
    ensures
        app.tab_leads(page) ==> app.tab_opened(page) == (AppView { page, ..app }),
        !app.tab_leads(page) ==> app.tab_opened(page) == app,
        app.review.plan.len() > 0 ==> app.gone_to_cleanup() == (AppView {
            page: Page::Cleanup,
            ..app
        }),
        app.review.plan.len() == 0 ==> app.gone_to_cleanup() == app,
        tab_text(Page::Scan) == "1  Scan"@,
        tab_text(Page::Review) == "2  Review"@,
        tab_text(Page::Cleanup) == "3  Clean up"@,
{
}

/// The button over the preview can be pressed exactly where the picture is not marked.
pub proof fn a_marked_picture_is_not_marked_again(app: AppView, set_id: i64, file_id: i64)
    ensures
        app.can_be_kept(set_id, file_id) <==> !is_marked(app.review.keep, set_id, file_id),
{
}

/// What a cleanup is called follows from where files go: moving where they are moved, and
/// removing where they go to the recycle bin or for good; and its button says how many.
pub proof fn a_cleanup_is_called_what_it_does(app: AppView)
    ensures
        app.destination == Destination::MoveTo ==> app.cleanup_label() == "Move"@ + " "@ + digits(
            app.review.plan.len(),
        ) + " files"@ && summary_text(app.destination) == "Files moved"@ && heading_text(
            app.destination,
        ) == "Files that will be moved"@,
        app.destination != Destination::MoveTo ==> app.cleanup_label() == "Remove"@ + " "@
            + digits(app.review.plan.len()) + " files"@ && summary_text(app.destination)
            == "Files removed"@ && heading_text(app.destination) == "Files that will be removed"@,
{
}

/// Forgetting the folders that were scanned leaves none to be offered and writes that.
pub proof fn forgetting_folders_leaves_none(app: AppView)
    ensures
        ({
            let after = app.previous_forgotten();
            &&& after.previous.len() == 0
            &&& after.todo == app.todo.push(ActionView::SaveSettings)
            &&& after == (AppView { previous: after.previous, todo: after.todo, ..app })
        }),
{
}

/// Choosing where files go changes that and writes both down as they then are, and so does
/// choosing the folder they are moved to.
pub proof fn a_choice_of_destination_is_kept(app: AppView, choice: Destination, folder: Seq<char>)
    ensures
        app.destination_chosen(choice).destination == choice,
        app.destination_chosen(choice).move_dir == app.move_dir,
        app.move_dir_chosen(folder).move_dir == folder,
        app.move_dir_chosen(folder).destination == app.destination,
        app.db_path is Some ==> app.destination_chosen(choice).todo == app.todo.push(
            ActionView::SetMeta(
                seq![("disposal"@, choice.name_text()), ("move_dir"@, app.move_dir)],
            ),
        ),
        app.db_path is Some ==> app.move_dir_chosen(folder).todo == app.todo.push(
            ActionView::SetMeta(
                seq![("disposal"@, app.destination.name_text()), ("move_dir"@, folder)],
            ),
        ),
        app.destination_chosen(choice).choices == app.choices,
        app.move_dir_chosen(folder).choices == app.choices,
{
}

/// An index that nobody asked to keep is deleted, and one that is kept never is: it loses
/// rows exactly where files went.
pub proof fn an_index_is_deleted_where_it_is_not_kept(keep_index: bool, removed: usize)
    ensures
        tidied(keep_index, removed) == Tidying::DeleteIndex <==> !keep_index,
        tidied(keep_index, removed) == Tidying::DropRows <==> keep_index && removed > 0,
        tidied(keep_index, removed) == Tidying::Nothing <==> keep_index && removed == 0,
{
}

/// The folder a window opened on is asked about itself once: asking again does nothing. A
/// pass that could not be started is not running and says why.
pub proof fn what_was_left_open_is_asked_once(
    app: AppView,
    message: Seq<char>,
    now: u128,
    later: u128,
)
    ensures
        !app.flow.scan_on_open ==> app.left_open_asked(now) == app,
        !app.left_open_asked(now).flow.scan_on_open,
        app.left_open_asked(now).left_open_asked(later) == app.left_open_asked(now),
        app.flow.scan_on_open && app.db_path is Some ==> app.left_open_asked(now).flow.asking
            && app.left_open_asked(now).todo.last() == (ActionView::AskTheIndex {
            db_path: app.db_path->0,
        }),
        ({
            let after = app.pass_not_started(message);
            &&& !after.flow.running && !after.flow.comparing
            &&& after.error == Some(message)
            &&& after.flow == (Flow { running: false, comparing: false, ..app.flow })
            &&& after == (AppView { flow: after.flow, error: after.error, ..app })
        }),
{
}

} // verus!
