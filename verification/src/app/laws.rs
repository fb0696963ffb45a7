//! What holds of the window whatever happens to it.

use vstd::prelude::*;

use crate::app::cleaning::{OutcomeView, RemovedView};
use crate::app::opening::OpenedView;
use crate::app::pages::Boxes;
use crate::app::searching::FoundView;
use crate::app::{opened_on, ActionView, AppView, Choices};
use crate::indexer::UpdateView;
use crate::notes::NotesView;
use crate::plan::{all_ignored, goes_from, nothing_goes_where_no_set_loses_anything, RemovalView};
use crate::progress::{no_scan, no_search};
use crate::review_laws::the_plan_never_disagrees;
use crate::sets::SetView;
use crate::settings::SettingsView;
use crate::state::{Direction, Page, Question, SetAction};

verus! {

/// Whether every box that is ticked has what it depends on ticked too: matching
/// within folders needs subfolders, rescanning on opening needs an index, and
/// marking needs the rescan.
pub open spec fn is_settled(choices: Choices) -> bool {
    &&& choices.within_a_folder ==> choices.recurse
    &&& choices.auto_rescan ==> choices.keep_index
    &&& choices.auto_mark ==> choices.auto_rescan
}

/// Whether some boxes can be what is ticked next: a box that goes on is one that can
/// be ticked.
pub open spec fn can_follow(was: Choices, boxes: Boxes) -> bool {
    &&& boxes.within_a_folder && !was.within_a_folder ==> was.recurse
    &&& boxes.auto_rescan && !was.auto_rescan ==> was.keep_index
    &&& boxes.auto_mark && !was.auto_mark ==> was.keep_index && was.auto_rescan
}

/// Settling the boxes leaves none ticked without what it depends on, takes off no
/// box that has it, and settling them again changes nothing.
pub proof fn settling_takes_off_what_depends_on_nothing(choices: Choices)
    ensures
        is_settled(choices.settled()),
        is_settled(choices) ==> choices.settled() == choices,
        choices.settled().settled() == choices.settled(),
{
}

/// A box cannot be ticked without what it depends on: whichever boxes that can be
/// ticked are ticked, and whichever are taken off, they are left settled.
pub proof fn boxes_stay_settled(app: AppView, boxes: Boxes)
    requires
        is_settled(app.choices),
        can_follow(app.choices, boxes),
    ensures
        is_settled(app.boxes_ticked(boxes).choices),
{
}

/// Ticking the box that keeps an index ticks the one that rescans on opening, and
/// taking it off takes that one off, and the one about marking, throws the index
/// away, and leaves nothing on screen that came out of it.
pub proof fn the_index_box_carries_the_others(app: AppView, boxes: Boxes)
    requires
        boxes.keep_index != app.choices.keep_index,
    ensures
        ({
            let after = app.boxes_ticked(boxes);
            &&& after.choices.keep_index == boxes.keep_index
            &&& boxes.keep_index ==> after.choices.auto_rescan
            &&& !boxes.keep_index ==> {
                &&& !after.choices.auto_rescan
                &&& !after.choices.auto_mark
                &&& after.todo.contains(ActionView::DiscardIndex)
                &&& after.review.sets.len() == 0
                &&& after.scan == no_scan()
            }
        }),
{
    if !boxes.keep_index {
        let without = app.does(ActionView::DiscardIndex);
        assert(without.todo.last() == ActionView::DiscardIndex);
        let after = app.boxes_ticked(boxes);
        assert(after.todo[app.todo.len() as int] == ActionView::DiscardIndex);
    }
}

/// Boxes that are ticked as they were before change nothing and write nothing.
pub proof fn ticking_nothing_changes_nothing(app: AppView)
    ensures
        app.boxes_ticked(app.choices.boxes()) == app,
{
}

/// Once a folder has said what it is set to, a pass over it does not put the boxes
/// back: what they say is what the person at the window set them to.
pub proof fn a_pass_does_not_put_the_boxes_back(app: AppView, notes: NotesView, now: u128)
    requires
        app.flow.noted,
    ensures
        app.told_by_pass(UpdateView::Settings(notes), now).choices == app.choices,
        app.told_by_pass(UpdateView::Settings(notes), now).destination == app.destination,
        app.told_by_pass(UpdateView::Settings(notes), now).move_dir == app.move_dir,
{
}

/// Nothing a pass says after it has said that it is over is taken.
pub proof fn a_pass_that_is_over_says_nothing_more(
    app: AppView,
    said: Seq<UpdateView>,
    late: Seq<UpdateView>,
    now: u128,
)
    requires
        exists|at: int| 0 <= at < said.len() && #[trigger] said[at] is Finished,
    ensures
        app.told_all_by_pass(said + late, now) == app.told_all_by_pass(said, now),
    decreases said.len(),
{
    let at = choose|at: int| 0 <= at < said.len() && #[trigger] said[at] is Finished;
    assert((said + late)[0] == said[0]);
    if !(said[0] is Finished) {
        assert(said.drop_first()[at - 1] is Finished);
        assert((said + late).drop_first() =~= said.drop_first() + late);
        a_pass_that_is_over_says_nothing_more(
            app.told_by_pass(said[0], now),
            said.drop_first(),
            late,
            now,
        );
    }
}

/// A folder that is opened with a review saved for it, and that has changed since, is
/// asked about and nothing else, unless it says that it is rescanned on opening:
/// what was saved is still there, and no pass and no search is started.
pub proof fn a_saved_review_is_asked_about(app: AppView, now: u128)
    requires
        app.sets_before.len() > 0,
        !app.choices.auto_rescan,
    ensures
        ({
            let after = app.opening_decided(true, now);
            &&& after.flow.question == Some(Question::TheFolderChanged)
            &&& after.todo == app.todo
            &&& after.sets_before == app.sets_before
            &&& after.kept_before == app.kept_before
            &&& after.flow.searching == app.flow.searching
        }),
{
}

/// A folder in which nothing has moved is not scanned on being opened, whatever its
/// boxes say: the review it was left in is opened where there is one, and it is
/// searched where there is none.
pub proof fn a_folder_that_has_not_changed_is_not_scanned(app: AppView, now: u128)
    requires
        app.flow.images,
        app.db_path is Some,
        !app.flow.searching,
    ensures
        ({
            let after = app.opening_decided(false, now);
            let asked = after.todo.last();
            &&& after.todo.drop_last() == app.todo
            &&& app.sets_before.len() > 0 ==> asked == (ActionView::BuildStoredSets {
                search_done: true,
            })
            &&& app.sets_before.len() == 0 ==> asked == ActionView::StartSearch(app.thresholds())
                && after.flow.searching
        }),
{
    let after = app.opening_decided(false, now);
    assert(after.todo.drop_last() =~= app.todo);
}

/// Answering the question puts it away. Finishing the review keeps what was saved;
/// the other answer throws it away and scans. The marks stay either way: they are
/// about files, and the files are still there.
pub proof fn the_question_is_answered_once(app: AppView, finish: bool)
    requires
        app.flow.question is Some,
    ensures
        ({
            let after = app.question_answered(finish);
            &&& after.flow.question is None
            &&& after.question_answered(true) == after
            &&& after.question_answered(false) == after
            &&& after.kept_before == app.kept_before
            &&& finish ==> after.sets_before == app.sets_before
            &&& !finish ==> after.sets_before.len() == 0 && after.todo.last() == ActionView::Scan
        }),
{
}

/// The pictures read as a folder is opened are not taken once a pass has started
/// since: the pass hands over its own, newer copy.
pub proof fn older_pictures_are_not_taken(app: AppView, now: u128)
    requires
        app.flow.scanned_since_asking,
    ensures
        app.pictures_read(now).flow == app.flow,
        app.pictures_read(now).todo == app.todo,
{
}

/// A pass starts from nothing: no sets, no pictures, no numbers and no saved review
/// are left from before it. What was marked in the last review is still known, so
/// the search after it can put the marks back.
pub proof fn a_pass_starts_from_nothing(
    app: AppView,
    there: bool,
    known: bool,
    offered: Seq<Seq<char>>,
    now: u128,
)
    requires
        app.folder is Some,
        app.db_path is Some,
    ensures
        ({
            let after = app.scan_started(there, known, offered, now);
            &&& after.flow.running
            &&& !after.flow.images
            &&& after.review.sets.len() == 0
            &&& after.review.plan == Seq::<RemovalView>::empty()
            &&& after.scan == no_scan()
            &&& after.search == no_search()
            &&& after.sets_before.len() == 0
            &&& after.kept_before == app.kept_before
            &&& after.review.ignored == app.review.ignored
        }),
{
}

/// Cancelling stops the pass and the search and leaves nothing of them: no sets, no
/// pictures, no numbers, no lamps and no problem. The folder, what it is set to and
/// what was marked in it before stay. A removal is not stopped by it.
pub proof fn cancelling_leaves_nothing_of_the_work(app: AppView)
    ensures
        ({
            let after = app.work_cancelled();
            &&& !after.flow.running && !after.flow.comparing
            &&& !after.flow.searching && !after.flow.images
            &&& after.flow.removing == app.flow.removing
            &&& after.is_busy() == app.flow.removing
            &&& after.review.sets.len() == 0
            &&& after.review.plan == Seq::<RemovalView>::empty()
            &&& after.scan == no_scan()
            &&& after.search == no_search()
            &&& after.lit == app.lit.out()
            &&& after.error is None
            &&& after.folder == app.folder
            &&& after.choices == app.choices
            &&& after.kept_before == app.kept_before
            &&& after.sets_before == app.sets_before
        }),
{
}

/// What is taken for the comparison a folder is opened with is a pass that runs:
/// whatever is heard of one, and however it ends, none is taken for it once it is
/// over.
pub proof fn the_comparison_is_a_pass_that_runs(
    app: AppView,
    update: UpdateView,
    said: OpenedView,
    there: bool,
    known: bool,
    offered: Seq<Seq<char>>,
    now: u128,
)
    requires
        app.flow.comparing ==> app.flow.running,
    ensures
        ({
            let after = app.work_cancelled();
            after.flow.comparing ==> after.flow.running
        }),
        ({
            let after = app.folder_looked_at();
            after.flow.comparing ==> after.flow.running
        }),
        ({
            let after = app.scan_started(there, known, offered, now);
            after.flow.comparing ==> after.flow.running
        }),
        ({
            let after = app.told_by_pass(update, now);
            after.flow.comparing ==> after.flow.running
        }),
        ({
            let after = app.told_by_index(said, now);
            after.flow.comparing ==> after.flow.running
        }),
{
    lemma_heard_of_a_pass(app, update, now);
    lemma_heard_of_an_index(app, said, now);
}

proof fn lemma_heard_of_a_pass(app: AppView, update: UpdateView, now: u128)
    requires
        app.flow.comparing ==> app.flow.running,
    ensures
        ({
            let after = app.told_by_pass(update, now);
            after.flow.comparing ==> after.flow.running
        }),
{
}

proof fn lemma_heard_of_an_index(app: AppView, said: OpenedView, now: u128)
    requires
        app.flow.comparing ==> app.flow.running,
    ensures
        ({
            let after = app.told_by_index(said, now);
            after.flow.comparing ==> after.flow.running
        }),
{
}

/// A review holding nothing but sets that are not sets of copies has nothing for a
/// cleanup to do: its page cannot be reached, and there would be nothing to take.
pub proof fn ignored_sets_leave_nothing_to_clean(app: AppView)
    requires
        app.review.plan_agrees(),
        forall|at: int|
            0 <= at < app.review.sets.len() ==> all_ignored(
                (#[trigger] app.review.sets[at]).members,
                app.review.ignored,
            ),
    ensures
        !app.tab_leads(Page::Cleanup),
        app.review.plan == Seq::<RemovalView>::empty(),
{
    assert forall|at: int| 0 <= at < app.review.sets.len() implies goes_from(
        #[trigger] app.review.sets[at],
        app.review.keep,
        app.review.ignored,
    ).len() == 0 by {}
    nothing_goes_where_no_set_loses_anything(
        app.review.sets,
        app.review.keep,
        app.review.ignored,
    );
}

/// A cleanup that took everything it was to ends on the scan page with no sets left,
/// and one that did not leaves the page and the failures where they can be read.
pub proof fn a_cleanup_ends_where_it_can_be_read(
    app: AppView,
    outcome: OutcomeView,
    forgotten: usize,
)
    ensures
        ({
            let after = app.cleanup_finished(outcome, forgotten);
            &&& after.cleanup_failures == outcome.failed
            &&& outcome.failed.len() == 0 ==> after.page == Page::Scan && after.review.sets.len()
                == 0
            &&& outcome.failed.len() > 0 ==> after.page == app.page && after.review
                == app.review.forgetting(outcome.removed)
            &&& app.choices.keep_index ==> after.sets_before.len() == 0 && after.kept_before
                == Set::<i64>::empty()
        }),
{
}

/// What a cleanup would take is what the review says, from the moment the window
/// opens.
pub proof fn the_plan_agrees_at_first(
    saved: SettingsView,
    db_path: Option<Seq<char>>,
    offered: Seq<Seq<char>>,
    now: u128,
)
    ensures
        opened_on(saved, db_path, offered, now).review.plan_agrees(),
{
}

/// What a cleanup would take is what the review says after whatever is pressed on
/// the review page.
pub proof fn the_plan_agrees_after_marking(
    app: AppView,
    set_id: i64,
    file_id: i64,
    at: int,
    action: SetAction,
    shift: bool,
    came_off: Seq<i64>,
    visible: Seq<usize>,
    direction: Direction,
)
    requires
        app.review.plan_agrees(),
    ensures
        app.mark_toggled().review.plan_agrees(),
        app.selected_marked_only().review.plan_agrees(),
        app.marked_only(set_id, file_id).review.plan_agrees(),
        app.all_unmarked(came_off).review.plan_agrees(),
        app.all_marked().review.plan_agrees(),
        app.best_ones_marked().review.plan_agrees(),
        app.set_button_pressed(at, action).review.plan_agrees(),
        app.double_clicked(file_id, shift).review.plan_agrees(),
        app.reviewing(app.review.walked(visible, direction)).review.plan_agrees(),
        app.filled().review.plan_agrees(),
{
    the_plan_never_disagrees(
        app.review,
        set_id,
        at,
        action,
        seq![file_id],
        Set::empty(),
        Seq::empty(),
        visible,
        direction,
    );
}

/// What a cleanup would take is what the review says after whatever is pressed on
/// the other pages, and after a folder has been opened.
pub proof fn the_plan_agrees_after_pressing(
    app: AppView,
    boxes: Boxes,
    there: bool,
    known: bool,
    offered: Seq<Seq<char>>,
    folder: Seq<char>,
    db_path: Seq<char>,
    has_index: bool,
    elsewhere: bool,
    finish: bool,
    now: u128,
)
    requires
        app.review.plan_agrees(),
    ensures
        app.work_cancelled().review.plan_agrees(),
        app.boxes_ticked(boxes).review.plan_agrees(),
        app.scan_started(there, known, offered, now).review.plan_agrees(),
        app.folder_opened(folder, db_path, has_index, elsewhere, now).review.plan_agrees(),
        app.folder_dropped(folder, db_path, has_index, elsewhere, now).review.plan_agrees(),
        app.index_asked(now).review.plan_agrees(),
        app.duplicates_wanted(now).review.plan_agrees(),
        app.question_answered(finish).review.plan_agrees(),
        app.cleanup_started().review.plan_agrees(),
        app.closed().review.plan_agrees(),
{
}

/// What a cleanup would take is what the review says once sets have been built into
/// it.
pub proof fn the_plan_agrees_on_new_sets(app: AppView, sets: Seq<SetView>)
    requires
        app.review.plan_agrees(),
    ensures
        app.accepting(sets).review.plan_agrees(),
        app.stored_review_opened(sets, true).review.plan_agrees(),
        app.stored_review_opened(sets, false).review.plan_agrees(),
{
}

/// What a cleanup would take is what the review says after whatever the search has
/// said.
pub proof fn the_plan_agrees_after_a_search(app: AppView, found: Seq<FoundView>, now: u128)
    requires
        app.review.plan_agrees(),
    ensures
        app.search_heard(found, now).review.plan_agrees(),
        app.told_all_by_search(found, now).review.plan_agrees(),
    decreases found.len(),
{
    if found.len() > 0 {
        let told = app.told_by_search(found[0], now);
        assert(told.review.plan_agrees()) by {
            match found[0] {
                FoundView::Sets(sets) => {
                    let ready = app.lighting(crate::lamps::Lamp::FinishedFindingDuplicates, now);
                    the_plan_agrees_on_new_sets(
                        AppView {
                            search: crate::progress::SearchState {
                                stage: Some(crate::progress::Doing::Finished),
                                done: true,
                                ..app.search
                            },
                            ..ready
                        },
                        sets,
                    );
                },
                _ => {},
            }
        }
        the_plan_agrees_after_a_search(told, found.drop_first(), now);
    }
}

/// What a cleanup would take is what the review says after whatever the opening of
/// an index has said.
pub proof fn the_plan_agrees_after_an_index(
    app: AppView,
    said: Seq<OpenedView>,
    over: bool,
    now: u128,
)
    requires
        app.review.plan_agrees(),
    ensures
        app.index_heard(said, over, now).review.plan_agrees(),
        app.told_all_by_index(said, now).review.plan_agrees(),
    decreases said.len(),
{
    if said.len() > 0 {
        let told = app.told_by_index(said[0], now);
        assert(told.review.plan_agrees());
        the_plan_agrees_after_an_index(told, said.drop_first(), over, now);
    }
}

/// What a cleanup would take is what the review says after whatever a pass has said.
pub proof fn the_plan_agrees_after_a_pass(app: AppView, updates: Seq<UpdateView>, now: u128)
    requires
        app.review.plan_agrees(),
    ensures
        app.pass_heard(updates, now).review.plan_agrees(),
        app.told_all_by_pass(updates, now).review.plan_agrees(),
    decreases updates.len(),
{
    if updates.len() > 0 {
        let told = app.told_by_pass(updates[0], now);
        assert(told.review.plan_agrees());
        the_plan_agrees_after_a_pass(told, updates.drop_first(), now);
    }
}

/// What a cleanup would take is what the review says after whatever a removal has
/// said.
pub proof fn the_plan_agrees_after_a_cleanup(app: AppView, steps: Seq<RemovedView>)
    requires
        app.review.plan_agrees(),
    ensures
        app.removal_heard(steps).review.plan_agrees(),
        app.told_all_by_removal(steps).review.plan_agrees(),
    decreases steps.len(),
{
    if steps.len() > 0 {
        let told = app.told_by_removal(steps[0]);
        assert(told.review.plan_agrees());
        the_plan_agrees_after_a_cleanup(told, steps.drop_first());
    }
}

} // verus!
