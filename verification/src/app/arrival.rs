//! What is on the window once sets have arrived.

use vstd::prelude::*;

use crate::app::searching::picture;
use crate::app::{ActionView, AppView, Flow};
use crate::lamps::Lamp;
use crate::plan::all_ignored;
use crate::progress::{Doing, SearchState};
use crate::review::ReviewView;
use crate::review_laws::{marks_go_back_where_their_pictures_are, told_apart};
use crate::review_pictures::{
    a_review_opens_on_its_first_keeper, auto_marking_marks_only_what_the_search_would_keep,
    auto_marking_marks_the_first_the_search_would_keep, auto_marking_takes_nothing_off, is_marked,
    is_the_one_to_keep,
};
use crate::sets::{has_id, SetView};
use crate::state::Page;

verus! {

/// A search that found sets leaves the window on the review, at the top of the list,
/// with the search done and what the pass asked to have marked on arrival no longer
/// asked for. The folder, the index and the controls stay.
pub proof fn finding_sets_opens_the_review(app: AppView, sets: Seq<SetView>, now: u128)
    requires
        sets.len() > 0,
    ensures
        ({
            let after = app.sets_found(sets, now);
            &&& after.page == Page::Review
            &&& after.review.sets == sets
            &&& after.review.list_to_top
            &&& after.review.showing is None
            &&& after.review.ignored == app.review.ignored
            &&& !after.flow.mark_on_arrival
            &&& after.flow == (Flow { mark_on_arrival: false, ..app.flow })
            &&& after.search.done && after.search.stage == Some(Doing::Finished)
            &&& after.choices == app.choices && after.folder == app.folder
            &&& after.db_path == app.db_path && after.kept_before == app.kept_before
            &&& after.lit.times.contains_key(Lamp::FinishedFindingDuplicates)
        }),
{
    let ready = AppView {
        search: SearchState { stage: Some(Doing::Finished), done: true, ..app.search },
        ..app.lighting(Lamp::FinishedFindingDuplicates, now)
    };
    lemma_accepted(ready, sets);
}

/// Sets that were stored are taken as sets that were found are, but nothing is written
/// about them, and the search counts as done only where it is said to.
pub proof fn stored_sets_open_the_review(app: AppView, sets: Seq<SetView>, search_done: bool)
    ensures
        sets.len() == 0 ==> app.stored_review_opened(sets, search_done) == app,
        sets.len() > 0 ==> {
            let after = app.stored_review_opened(sets, search_done);
            &&& after.page == Page::Review
            &&& after.review.sets == sets
            &&& after.search == (SearchState { done: search_done || app.search.done, ..app.search })
            &&& after.choices == app.choices
        },
{
    if sets.len() > 0 {
        lemma_accepted(app, sets);
    }
}

/// Sets that are marked on arrival are marked as the button would mark them, and only
/// where a pass asked for it; it is asked for once.
pub proof fn what_arrives_is_marked_where_that_was_asked(app: AppView)
    ensures
        !app.flow.mark_on_arrival ==> app.marked_on_arrival() == app,
        app.flow.mark_on_arrival ==> app.marked_on_arrival() == (AppView {
            flow: Flow { mark_on_arrival: false, ..app.flow },
            ..app.best_ones_marked()
        }),
{
}

/// A picture of sets that have arrived is marked exactly where the last review marked
/// it, or where the sets were to be marked and it is the first of a set of copies that
/// the search would keep.
pub proof fn marks_come_back_on_arrival(app: AppView, sets: Seq<SetView>, at: int, file_id: i64)
    requires
        told_apart(sets),
        0 <= at < sets.len(),
    ensures
        is_marked(app.accepting(sets).review.keep, sets[at].set_id, file_id) <==> (has_id(
            sets[at].members,
            file_id,
        ) && app.kept_before.contains(file_id)) || (app.flow.mark_on_arrival && !all_ignored(
            sets[at].members,
            app.review.ignored,
        ) && exists|place: int| #[trigger]
            is_the_one_to_keep(sets[at], place) && sets[at].members[place].file_id == file_id),
{
    let begun = app.review_begun();
    let taken = begun.sets_taken(sets);
    let marked = taken.marked_on_arrival();
    let opened = marked.review_opened();
    let primed = opened.primed();
    lemma_begun(app);
    lemma_taken(begun, sets);
    lemma_primed(opened);
    assert(app.accepting(sets).review.keep == marked.review.keep);
    let bare = ReviewView {
        sets,
        keep: Map::empty(),
        selected: None,
        showing: None,
        ..app.review
    };
    assert(taken.review == bare.taking_up(app.kept_before));
    marks_go_back_where_their_pictures_are(bare, app.kept_before, at);
    let set_id = sets[at].set_id;
    let back = bare.taking_up(app.kept_before);
    assert(back.marks(set_id).contains(file_id) <==> is_marked(taken.review.keep, set_id, file_id));
    if app.flow.mark_on_arrival {
        assert(marked.review.keep == taken.review.auto_marked().keep);
        if is_marked(taken.review.keep, set_id, file_id) {
            auto_marking_takes_nothing_off(taken.review, set_id, file_id);
        } else if is_marked(marked.review.keep, set_id, file_id) {
            auto_marking_marks_only_what_the_search_would_keep(taken.review, set_id, file_id);
            let (found, place) = choose|found: int, place: int|
                0 <= found < sets.len() && sets[found].set_id == set_id && !all_ignored(
                    sets[found].members,
                    app.review.ignored,
                ) && #[trigger] is_the_one_to_keep(sets[found], place)
                    && sets[found].members[place].auto_keep && sets[found].members[place].file_id
                    == file_id;
            assert(found == at);
        }
        if !all_ignored(sets[at].members, app.review.ignored) && exists|place: int| #[trigger]
            is_the_one_to_keep(sets[at], place) && sets[at].members[place].file_id == file_id {
            let place = choose|place: int| #[trigger]
                is_the_one_to_keep(sets[at], place) && sets[at].members[place].file_id == file_id;
            auto_marking_marks_the_first_the_search_would_keep(taken.review, at, place);
        }
    } else {
        assert(marked == taken);
    }
}

/// Sets that have arrived open on the first picture marked in the first set of copies,
/// or on its first picture where it marks none.
pub proof fn the_review_opens_on_its_first_keeper(app: AppView, sets: Seq<SetView>, at: int)
    requires
        0 <= at < sets.len(),
        sets[at].members.len() > 0,
        !all_ignored(sets[at].members, app.review.ignored),
        forall|before: int|
            0 <= before < at ==> all_ignored((#[trigger] sets[before]).members, app.review.ignored),
    ensures
        ({
            let after = app.accepting(sets).review;
            &&& after.keep.contains_key(sets[at].set_id) && after.keep[sets[at].set_id].len() > 0
                ==> after.selected == Some(after.keep[sets[at].set_id][0])
            &&& !after.keep.contains_key(sets[at].set_id) ==> after.selected == Some(
                sets[at].members[0].file_id,
            )
        }),
{
    let begun = app.review_begun();
    let taken = begun.sets_taken(sets);
    let marked = taken.marked_on_arrival();
    let opened = marked.review_opened();
    let primed = opened.primed();
    lemma_begun(app);
    lemma_taken(begun, sets);
    lemma_marked_on_arrival(taken);
    lemma_primed(opened);
    let ready = marked.review.planned();
    assert(opened.review == ready.opened());
    assert(app.accepting(sets).review.selected == ready.opened().selected);
    assert(app.accepting(sets).review.keep == ready.keep);
    if !ready.keep.contains_key(sets[at].set_id) || ready.keep[sets[at].set_id].len() > 0 {
        a_review_opens_on_its_first_keeper(ready, at);
    }
}

/// Whether two windows differ in nothing but what is in the review, what is left to
/// do, and what is asked to be marked on arrival.
spec fn differs_in_the_review(app: AppView, after: AppView) -> bool {
    &&& after.page == app.page
    &&& after.search == app.search && after.lit == app.lit && after.scan == app.scan
    &&& after.choices == app.choices && after.folder == app.folder
    &&& after.db_path == app.db_path && after.kept_before == app.kept_before
    &&& after.sets_before == app.sets_before && after.destination == app.destination
    &&& after.error == app.error
    &&& after.flow == (Flow { mark_on_arrival: after.flow.mark_on_arrival, ..app.flow })
}

proof fn lemma_begun(app: AppView)
    ensures
        differs_in_the_review(app, app.review_begun()),
        app.review_begun() == (AppView { todo: app.review_begun().todo, ..app }),
{
    if app.db_path is Some {
        assert(app.review_begun() == (AppView {
            todo: app.todo.push(ActionView::BeginReview).push(ActionView::ForgetThumbnails),
            ..app
        }));
    } else {
        assert(app.review_begun() == (AppView {
            todo: app.todo.push(ActionView::ForgetThumbnails),
            ..app
        }));
    }
}

proof fn lemma_taken(app: AppView, sets: Seq<SetView>)
    ensures
        ({
            let after = app.sets_taken(sets);
            &&& differs_in_the_review(app, after)
            &&& after.flow == app.flow
            &&& after.review.sets == sets && after.review.ignored == app.review.ignored
        }),
{
}

proof fn lemma_marked_on_arrival(app: AppView)
    ensures
        ({
            let after = app.marked_on_arrival();
            &&& differs_in_the_review(app, after)
            &&& !after.flow.mark_on_arrival
            &&& after.review.sets == app.review.sets
            &&& after.review.ignored == app.review.ignored
        }),
{
}

proof fn lemma_opened(app: AppView)
    ensures
        ({
            let after = app.review_opened();
            &&& differs_in_the_review(app, after)
            &&& after.flow == app.flow
            &&& after.review.sets == app.review.sets
            &&& after.review.ignored == app.review.ignored
            &&& after.review.showing is None
        }),
{
}

proof fn lemma_primed(app: AppView)
    ensures
        differs_in_the_review(app, app.primed()),
        app.primed() == (AppView { todo: app.primed().todo, ..app }),
{
    if app.folder is Some {
        match app.review.selected {
            None => {
                assert(app.primed() == app.does(ActionView::PrimeThumbnails));
            },
            Some(file_id) => match picture(app.review.sets, file_id) {
                None => {
                    assert(app.primed() == app.does(ActionView::PrimeThumbnails));
                },
                Some(member) => {
                    assert(app.primed() == app.does(
                        ActionView::PrimePreview { file_id, rel_path: member.rel_path },
                    ).does(ActionView::PrimeThumbnails));
                },
            },
        }
    }
}

proof fn lemma_on_the_review(app: AppView)
    ensures
        ({
            let after = app.on_the_review();
            &&& differs_in_the_review(AppView { page: Page::Review, ..app }, after)
            &&& after.flow == app.flow
            &&& after.review.sets == app.review.sets
            &&& after.review.ignored == app.review.ignored
            &&& after.review.showing == app.review.showing
            &&& after.review.list_to_top
        }),
{
}

proof fn lemma_accepted(app: AppView, sets: Seq<SetView>)
    requires
        sets.len() > 0,
    ensures
        ({
            let after = app.accepting(sets);
            &&& differs_in_the_review(AppView { page: Page::Review, ..app }, after)
            &&& !after.flow.mark_on_arrival
            &&& after.review.sets == sets
            &&& after.review.list_to_top
            &&& after.review.showing is None
            &&& after.review.ignored == app.review.ignored
        }),
{
    let begun = app.review_begun();
    let taken = begun.sets_taken(sets);
    let marked = taken.marked_on_arrival();
    let opened = marked.review_opened();
    let primed = opened.primed();
    lemma_begun(app);
    lemma_taken(begun, sets);
    lemma_marked_on_arrival(taken);
    lemma_opened(marked);
    lemma_primed(opened);
    lemma_on_the_review(primed);
    assert(app.accepting(sets) == primed.on_the_review());
}

} // verus!
