//! What is on the window once a pass, a search or a removal has reported something.

use vstd::prelude::*;

use crate::app::asked::nothing_scanned;
use crate::app::cleaning::{OutcomeView, RemovedView};
use crate::app::opening::OpenedView;
use crate::app::searching::FoundView;
use crate::app::{ActionView, AppView, Flow};
use crate::indexer::UpdateView;
use crate::lamps::{lamp_of, Lamp, Step};
use crate::notes::NotesView;
use crate::plan::RemovalView;
use crate::progress::{Doing, Progress, ScanView, SearchState};
use crate::sets::SetView;
use crate::state::{Page, Question};
use crate::text::digits;

verus! {

/// The bars follow the stages a pass says it is in, each its own, and no number moves
/// with them.
pub proof fn a_bar_follows_its_own_stage(scan: ScanView, step: Step)
    ensures
        ({
            let after = scan.told(UpdateView::Reached(step));
            &&& step is StartedReadingNewFiles ==> after.reading is Running
            &&& step is FinishedReadingNewFiles ==> after.reading is Over
            &&& !(step is StartedReadingNewFiles) && !(step is FinishedReadingNewFiles)
                ==> after.reading == scan.reading
            &&& step is StartedIndexingNewFiles ==> after.writing is Running
            &&& step is FinishedIndexingNewFiles ==> after.writing is Over
            &&& !(step is StartedIndexingNewFiles) && !(step is FinishedIndexingNewFiles)
                ==> after.writing == scan.writing
            &&& after == (ScanView { reading: after.reading, writing: after.writing, ..scan })
        }),
{
}

/// The listing counts the files it has found, and knows of how many where the pass
/// does; it moves no bar. When it is over nothing has been read yet, and a folder with
/// nothing in it says so and shows nothing else.
pub proof fn a_listing_is_counted_apart(scan: ScanView, found: u64, of: Option<u64>, total: u64)
    ensures
        ({
            let listed = scan.told(UpdateView::Walking { found, of });
            let started = scan.told(UpdateView::Start { total });
            &&& listed.listing == Some(found)
            &&& of matches Some(all) ==> listed.total == all
            &&& of is None ==> listed.total == scan.total
            &&& listed == (ScanView { listing: listed.listing, total: listed.total, ..scan })
            &&& total == 0 ==> {
                &&& started.finished == Some("No images found in this folder"@)
                &&& nothing_scanned(ScanView { finished: None, ..started })
            }
            &&& total > 0 ==> {
                &&& started.total == total && started.done == 0 && started.listing is None
                &&& started.indexed == 0 && started.to_index == 0
                &&& started == (ScanView {
                    total: started.total,
                    done: started.done,
                    listing: started.listing,
                    indexed: started.indexed,
                    to_index: started.to_index,
                    ..scan
                })
            }
        }),
{
}

/// What has been read is shown as it was counted, and the reading is under way from
/// then on unless it is over.
pub proof fn what_was_read_is_shown_as_counted(
    scan: ScanView,
    done: u64,
    per_sec: u64,
    unchanged: u64,
    removed: u64,
    ignored: u64,
)
    ensures
        ({
            let after = scan.told(
                UpdateView::Progress { done, per_sec, unchanged, removed, ignored },
            );
            &&& after.done == done && after.per_sec == per_sec && after.unchanged == unchanged
            &&& after.removed == removed && after.ignored == ignored
            &&& scan.reading is Over ==> after.reading is Over
            &&& !(scan.reading is Over) ==> after.reading is Running
            &&& after == (ScanView {
                done,
                per_sec,
                unchanged,
                removed,
                ignored,
                reading: after.reading,
                ..scan
            })
        }),
{
}

/// What has been written is shown as it was counted. The reading is over once all of
/// it has been read and the writing once all of it is written, and each is under way
/// until then unless it was over before.
pub proof fn what_was_written_is_shown_as_counted(
    scan: ScanView,
    done: u64,
    total: u64,
    read: u64,
    unchanged: u64,
    ignored: u64,
)
    ensures
        ({
            let after = scan.told(
                UpdateView::Indexed { done, total, read, unchanged, ignored },
            );
            &&& after.indexed == done && after.to_index == total && after.done == read
            &&& after.unchanged == unchanged && after.ignored == ignored
            &&& after.reading is Over <==> read >= total || scan.reading is Over
            &&& after.writing is Over <==> done >= total || scan.writing is Over
            &&& !(after.reading is Waiting) && !(after.writing is Waiting)
            &&& after == (ScanView {
                indexed: done,
                to_index: total,
                done: read,
                unchanged,
                ignored,
                reading: after.reading,
                writing: after.writing,
                ..scan
            })
        }),
{
}

/// A file that could not be read joins those that could not, behind them, with what
/// was said about it. A pass that has done everything leaves both bars over where the
/// folder held anything, and says how it ended.
pub proof fn a_failure_is_listed_and_an_ending_said(
    scan: ScanView,
    path: Seq<char>,
    message: Seq<char>,
    indexed: u64,
    removed: u64,
    failed: u64,
    elapsed: Seq<char>,
)
    ensures
        ({
            let listed = scan.told(UpdateView::Failed { path, message });
            let done = scan.told(UpdateView::Done { indexed, removed, failed, elapsed });
            &&& listed.failures.len() == scan.failures.len() + 1
            &&& listed.failures.drop_last() == scan.failures
            &&& listed.failures.last() == (path, message)
            &&& listed == (ScanView { failures: listed.failures, ..scan })
            &&& done.finished == Some(
                "indexed "@ + digits(indexed as nat) + ", removed "@ + digits(removed as nat)
                    + ", failed "@ + digits(failed as nat) + ", in "@ + elapsed + "s"@,
            )
            &&& scan.total > 0 ==> done.reading is Over && done.writing is Over
            &&& scan.total == 0 ==> done.reading == scan.reading && done.writing == scan.writing
            &&& done == (ScanView {
                finished: done.finished,
                reading: done.reading,
                writing: done.writing,
                ..scan
            })
        }),
{
    assert(scan.told(UpdateView::Failed { path, message }).failures.drop_last()
        =~= scan.failures);
}

/// The pictures a pass hands over are held. A folder with nothing in it puts the lamps
/// out and stops the search's bar. Something has moved exactly where the pass indexed
/// or removed something. A step turns its lamp green.
pub proof fn what_a_pass_says_moves_its_own(
    app: AppView,
    total: u64,
    indexed: u64,
    removed: u64,
    failed: u64,
    elapsed: Seq<char>,
    step: Step,
    now: u128,
)
    ensures
        app.told_by_pass(UpdateView::Images, now) == (AppView {
            flow: Flow { images: true, ..app.flow },
            ..app
        }),
        ({
            let after = app.told_by_pass(UpdateView::Start { total }, now);
            &&& total > 0 ==> after == (AppView { scan: after.scan, ..app })
            &&& total == 0 ==> {
                &&& forall|lamp: Lamp| !(#[trigger] after.lit.times.contains_key(lamp))
                &&& after.lit.started == app.lit.started
                &&& after.search.stage is None && !after.search.done
                &&& after == (AppView {
                    scan: after.scan,
                    lit: after.lit,
                    search: after.search,
                    ..app
                })
            }
        }),
        ({
            let after = app.told_by_pass(
                UpdateView::Done { indexed, removed, failed, elapsed },
                now,
            );
            &&& after.flow.something_moved <==> indexed > 0 || removed > 0
            &&& after.flow == (Flow { something_moved: after.flow.something_moved, ..app.flow })
            &&& after == (AppView { scan: after.scan, flow: after.flow, ..app })
        }),
        ({
            let after = app.told_by_pass(UpdateView::Reached(step), now);
            &&& after.lit.times.contains_key(lamp_of(step))
            &&& forall|lamp: Lamp|
                lamp != lamp_of(step) ==> (#[trigger] after.lit.times.contains_key(lamp)
                    <==> app.lit.times.contains_key(lamp))
            &&& after == (AppView { scan: after.scan, lit: after.lit, ..app })
        }),
{
}

/// Whatever a pass counts is on the scan screen as the screen takes it, and what is only
/// counted touches nothing else. The end of a pass is what follows a pass.
pub proof fn what_a_pass_counts_is_on_the_screen(app: AppView, update: UpdateView, now: u128)
    ensures
        !(update is Finished) && !(update is Settings) ==> app.told_by_pass(update, now).scan
            == app.scan.told(update),
        update is Walking || update is Progress || update is Indexed || update is Failed
            ==> app.told_by_pass(update, now) == (AppView { scan: app.scan.told(update), ..app }),
        update matches UpdateView::Finished { cancelled, error } ==> app.told_by_pass(update, now)
            == app.pass_over(cancelled, error, now),
        update is Images || update is Settings || update is Finished ==> app.scan.told(update)
            == app.scan,
{
}

/// A pass that is over is not running and is no comparison. With an error that is
/// shown and nothing follows; cancelled, that is said and nothing follows; the
/// comparison decides what opening the folder does by whether anything moved; a folder
/// with nothing in it is left at that; and any other is searched, the sets to be
/// marked as they arrive exactly where that box is ticked.
pub proof fn what_follows_a_pass(
    app: AppView,
    cancelled: bool,
    error: Option<Seq<char>>,
    now: u128,
)
    ensures
        ({
            let after = app.pass_over(cancelled, error, now);
            let stopped = AppView {
                flow: Flow { running: false, comparing: false, ..app.flow },
                ..app
            };
            &&& !after.flow.running && !after.flow.comparing
            &&& error is Some ==> after == (AppView { error, ..stopped })
            &&& error is None && cancelled ==> after == (AppView {
                scan: ScanView { finished: Some("cancelled"@), ..app.scan },
                ..stopped
            })
            &&& error is None && !cancelled && app.flow.comparing ==> after
                == stopped.opening_decided(app.flow.something_moved, now)
            &&& error is None && !cancelled && !app.flow.comparing && app.scan.total == 0
                ==> after == stopped
            &&& error is None && !cancelled && !app.flow.comparing && app.scan.total > 0
                ==> after == (AppView {
                flow: Flow { mark_on_arrival: app.choices.auto_mark, ..stopped.flow },
                ..stopped
            }).search_started(now)
        }),
{
}

/// Opening a folder that has changed scans it where the box says so or there is no
/// saved review to protect, and asks where there is one. Opening one that has not
/// goes back to the saved review, or searches where there is none. Nothing is both
/// asked and done.
pub proof fn what_opening_a_folder_does(app: AppView, moved: bool, now: u128)
    ensures
        ({
            let after = app.opening_decided(moved, now);
            let saved = app.sets_before.len() > 0;
            &&& moved && (app.choices.auto_rescan || !saved) ==> after == (AppView {
                todo: app.todo.push(ActionView::Scan),
                ..app
            })
            &&& moved && !app.choices.auto_rescan && saved ==> after == (AppView {
                flow: Flow { question: Some(Question::TheFolderChanged), ..app.flow },
                ..app
            })
            &&& !moved && saved && app.flow.images ==> after == (AppView {
                todo: app.todo.push(ActionView::BuildStoredSets { search_done: true }),
                ..app
            })
            &&& !moved && saved && !app.flow.images ==> after == app
            &&& !moved && !saved ==> after == app.search_started(now)
        }),
{
}

/// A question that stands is answered once: finishing goes back to the stored sets
/// where they can be built, and giving up throws them away and scans.
pub proof fn what_an_answer_does(app: AppView, finish: bool)
    ensures
        ({
            let after = app.question_answered(finish);
            let quiet = Flow { question: None, ..app.flow };
            &&& app.flow.question is None ==> after == app
            &&& app.flow.question is Some ==> after.flow == quiet
            &&& app.flow.question is Some && finish ==> after == (AppView {
                flow: quiet,
                todo: if app.flow.images && app.sets_before.len() > 0 {
                    app.todo.push(ActionView::BuildStoredSets { search_done: false })
                } else {
                    app.todo
                },
                ..app
            })
            &&& app.flow.question is Some && !finish ==> {
                &&& after.sets_before.len() == 0
                &&& after.kept_before == app.kept_before
                &&& after.todo == (if app.db_path is Some {
                    app.todo.push(ActionView::ClearSets)
                } else {
                    app.todo
                }).push(ActionView::Scan)
                &&& after == (AppView {
                    flow: quiet,
                    sets_before: after.sets_before,
                    todo: after.todo,
                    ..app
                })
            }
        }),
{
}

/// What a search reports is held as it was counted: each report says the stage it is
/// from and moves its own two numbers. The pictures read are never out of fewer than
/// there are, and grouping means that everything has been compared.
pub proof fn a_search_is_shown_as_it_counts(search: SearchState, done: u64, total: u64)
    ensures
        search.told(Progress::Loading { done, total }) == (SearchState {
            stage: Some(Doing::ReadingTheIndex),
            reads_the_index: true,
            loaded: done,
            to_load: total,
            ..search
        }),
        ({
            let after = search.told(Progress::Loaded { images: done });
            &&& after.stage == Some(Doing::Comparing)
            &&& after.loaded == done
            &&& after.to_load >= done && after.to_load >= search.to_load
            &&& after.to_load == done || after.to_load == search.to_load
            &&& after == (SearchState {
                stage: after.stage,
                loaded: after.loaded,
                to_load: after.to_load,
                ..search
            })
        }),
        search.told(Progress::Shortlisting { done, total }) == (SearchState {
            stage: Some(Doing::Shortlisting),
            shortlisted: done,
            to_shortlist: total,
            ..search
        }),
        search.told(Progress::Comparing { done, total }) == (SearchState {
            stage: Some(Doing::Comparing),
            compared: done,
            pairs: total,
            ..search
        }),
        search.told(Progress::Grouping) == (SearchState {
            stage: Some(Doing::Grouping),
            compared: search.pairs,
            ..search
        }),
{
}

/// The lamps about the index in memory turn as it is read and once it has been, and no
/// other report of a search turns one.
pub proof fn reading_the_index_turns_its_lamps(app: AppView, progress: Progress, now: u128)
    ensures
        ({
            let after = app.noting(progress, now);
            &&& progress is Loading ==> after.lit.times.contains_key(
                Lamp::StartedBuildingTheMemoryIndex,
            )
            &&& progress is Loaded ==> after.lit.times.contains_key(
                Lamp::FinishedBuildingTheMemoryIndex,
            )
            &&& forall|lamp: Lamp|
                (lamp != Lamp::StartedBuildingTheMemoryIndex || !(progress is Loading)) && (lamp
                    != Lamp::FinishedBuildingTheMemoryIndex || !(progress is Loaded)) ==> (
                #[trigger] after.lit.times.contains_key(lamp) <==> app.lit.times.contains_key(lamp))
            &&& after.search == app.search.told(progress)
            &&& after == (AppView { search: after.search, lit: after.lit, ..app })
        }),
{
}

/// A search that was cancelled says so and one that failed shows why, and neither
/// changes anything else; what is found is taken.
pub proof fn a_search_that_stopped_says_so(app: AppView, message: Seq<char>, now: u128)
    ensures
        app.told_by_search(FoundView::Cancelled, now) == (AppView {
            scan: ScanView { finished: Some("cancelled"@), ..app.scan },
            ..app
        }),
        app.told_by_search(FoundView::Failed(message), now) == (AppView {
            error: Some(message),
            ..app
        }),
{
}

/// What each of the threads sends that is not an end is taken by what takes it: progress
/// by the bar of the search, sets by the review, what a folder says by the controls, the
/// pictures by the comparison, and an outcome by the end of the cleanup.
pub proof fn what_is_sent_is_taken_where_it_belongs(
    app: AppView,
    progress: Progress,
    sets: Seq<SetView>,
    notes: NotesView,
    outcome: OutcomeView,
    forgotten: usize,
    now: u128,
)
    ensures
        app.told_by_search(FoundView::Progress(progress), now) == app.noting(progress, now),
        app.told_by_search(FoundView::Sets(sets), now) == app.sets_found(sets, now),
        app.told_by_index(OpenedView::Reading(progress), now) == app.noting(progress, now),
        app.told_by_index(OpenedView::Notes(notes), now) == app.notes_taken(notes),
        app.told_by_index(OpenedView::Index, now) == app.pictures_read(now),
        app.told_by_removal(RemovedView::Done(outcome, forgotten)) == app.cleanup_finished(
            outcome,
            forgotten,
        ),
{
}

/// What a cleanup came to is said in numbers: how many files went, how much that freed,
/// how many would not go, and what became of the index.
pub proof fn a_cleanup_says_what_it_came_to(app: AppView, outcome: OutcomeView, forgotten: usize)
    ensures
        app.outcome_noted(outcome, forgotten).cleanup_result == Some(
            "removed "@ + digits(outcome.removed.len()) + " files, freed "@ + outcome.freed
                + " MB, "@ + digits(outcome.failed.len()) + " failed, "@ + (
            if app.choices.keep_index {
                digits(forgotten as nat) + " dropped from the index"@
            } else {
                "the index was deleted"@
            }),
        ),
        app.outcome_noted(outcome, forgotten).cleanup_failures == outcome.failed,
        app.cleanup_finished(outcome, forgotten).cleanup_result == app.outcome_noted(
            outcome,
            forgotten,
        ).cleanup_result,
{
}

/// A search is over exactly once something has come from it that is not progress, and
/// nothing is heard from one that is not running.
pub proof fn a_search_is_over_once_it_has_answered(
    app: AppView,
    found: Seq<FoundView>,
    at: int,
    now: u128,
)
    ensures
        !app.flow.searching ==> app.search_heard(found, now) == app,
        app.flow.searching && 0 <= at < found.len() && !(found[at] is Progress)
            ==> app.search_heard(found, now) == (AppView {
            flow: Flow { searching: false, ..app.told_all_by_search(found, now).flow },
            ..app.told_all_by_search(found, now)
        }),
        app.flow.searching && (forall|at: int|
            0 <= at < found.len() ==> (#[trigger] found[at]) is Progress) ==> app.search_heard(
            found,
            now,
        ) == app.told_all_by_search(found, now),
{
}

/// What a search sends in two frames is heard as if it had come in one, and what is
/// sent first is taken first.
pub proof fn a_search_is_heard_in_order(
    app: AppView,
    first: Seq<FoundView>,
    then: Seq<FoundView>,
    now: u128,
)
    ensures
        app.told_all_by_search(first + then, now) == app.told_all_by_search(
            first,
            now,
        ).told_all_by_search(then, now),
    decreases first.len(),
{
    if first.len() == 0 {
        assert(first + then =~= then);
    } else {
        let told = app.told_by_search(first[0], now);
        assert((first + then).drop_first() =~= first.drop_first() + then);
        assert((first + then)[0] == first[0]);
        a_search_is_heard_in_order(told, first.drop_first(), then, now);
        assert(app.told_all_by_search(first + then, now) == told.told_all_by_search(
            first.drop_first() + then,
            now,
        ));
        assert(app.told_all_by_search(first, now) == told.told_all_by_search(
            first.drop_first(),
            now,
        ));
    }
}

/// A frame in which a search has sent nothing changes nothing, and one in which it has
/// sent one thing takes that.
pub proof fn a_search_is_heard_one_by_one(app: AppView, one: FoundView, now: u128)
    ensures
        app.told_all_by_search(Seq::empty(), now) == app,
        app.told_all_by_search(seq![one], now) == app.told_by_search(one, now),
{
    let told = app.told_by_search(one, now);
    assert(seq![one].drop_first() =~= Seq::<FoundView>::empty());
    assert(told.told_all_by_search(Seq::empty(), now) == told);
    assert(app.told_all_by_search(seq![one], now) == told.told_all_by_search(
        seq![one].drop_first(),
        now,
    ));
}

/// What an index says in two frames is heard as if it had come in one, and what it
/// says first is taken first.
pub proof fn an_index_is_heard_in_order(
    app: AppView,
    one: OpenedView,
    first: Seq<OpenedView>,
    then: Seq<OpenedView>,
    now: u128,
)
    ensures
        app.told_all_by_index(Seq::empty(), now) == app,
        app.told_all_by_index(seq![one], now) == app.told_by_index(one, now),
        app.told_all_by_index(first + then, now) == app.told_all_by_index(
            first,
            now,
        ).told_all_by_index(then, now),
    decreases first.len(),
{
    let only = seq![one];
    assert(only.drop_first() =~= Seq::<OpenedView>::empty());
    reveal_with_fuel(AppView::told_all_by_index, 2);
    if first.len() == 0 {
        assert(first + then =~= then);
    } else {
        assert((first + then).drop_first() =~= first.drop_first() + then);
        an_index_is_heard_in_order(
            app.told_by_index(first[0], now),
            one,
            first.drop_first(),
            then,
            now,
        );
    }
}

/// Nothing is heard from an index that is not being asked, and one that has no more to
/// say is not being asked any longer.
pub proof fn an_index_is_asked_until_it_is_through(
    app: AppView,
    said: Seq<OpenedView>,
    over: bool,
    now: u128,
)
    ensures
        !app.flow.asking ==> app.index_heard(said, over, now) == app,
        app.flow.asking && over ==> app.index_heard(said, over, now) == (AppView {
            flow: Flow { asking: false, ..app.told_all_by_index(said, now).flow },
            ..app.told_all_by_index(said, now)
        }),
        app.flow.asking && !over ==> app.index_heard(said, over, now) == app.told_all_by_index(
            said,
            now,
        ),
{
}

/// What a pass says is taken in order up to the end it says of itself, and nothing
/// behind that is.
pub proof fn a_pass_is_heard_up_to_its_end(
    app: AppView,
    first: Seq<UpdateView>,
    end: UpdateView,
    then: Seq<UpdateView>,
    now: u128,
)
    requires
        forall|at: int| 0 <= at < first.len() ==> !((#[trigger] first[at]) is Finished),
    ensures
        app.told_all_by_pass(Seq::empty(), now) == app,
        app.told_all_by_pass(first + then, now) == app.told_all_by_pass(
            first,
            now,
        ).told_all_by_pass(then, now),
        end is Finished ==> app.told_all_by_pass(seq![end] + then, now) == app.told_by_pass(end, now),
    decreases first.len(),
{
    assert((seq![end] + then)[0] == end);
    if first.len() == 0 {
        assert(first + then =~= then);
    } else {
        assert((first + then).drop_first() =~= first.drop_first() + then);
        assert((first + then)[0] == first[0]);
        assert forall|at: int| 0 <= at < first.drop_first().len() implies !((
        #[trigger] first.drop_first()[at]) is Finished) by {
            assert(first.drop_first()[at] == first[at + 1]);
        }
        a_pass_is_heard_up_to_its_end(
            app.told_by_pass(first[0], now),
            first.drop_first(),
            end,
            then,
            now,
        );
    }
}

/// Nothing is heard from a pass that is not running, and everything it says is heard
/// from one that is.
pub proof fn only_a_running_pass_is_heard(app: AppView, updates: Seq<UpdateView>, now: u128)
    ensures
        !app.flow.running ==> app.pass_heard(updates, now) == app,
        app.flow.running ==> app.pass_heard(updates, now) == app.told_all_by_pass(updates, now),
{
}

/// How far a removal has got, that the index is being tidied and why it failed are
/// held as they are said, and nothing else moves with them.
pub proof fn a_removal_is_shown_as_it_goes(app: AppView, done: usize, message: Seq<char>)
    ensures
        app.told_by_removal(RemovedView::Progress(done)) == (AppView {
            flow: Flow { removed_so_far: done, ..app.flow },
            ..app
        }),
        app.told_by_removal(RemovedView::Tidying) == (AppView {
            flow: Flow { tidying: true, ..app.flow },
            ..app
        }),
        app.told_by_removal(RemovedView::Failed(message)) == (AppView {
            error: Some(message),
            ..app
        }),
{
}

/// A removal is over exactly once it has an outcome or has failed, and nothing is
/// heard from one that is not running.
pub proof fn a_removal_is_over_once_it_has_an_outcome(
    app: AppView,
    steps: Seq<RemovedView>,
    at: int,
)
    ensures
        !app.flow.removing ==> app.removal_heard(steps) == app,
        app.flow.removing && 0 <= at < steps.len() && (steps[at] is Done || steps[at] is Failed)
            ==> app.removal_heard(steps) == (AppView {
            flow: Flow {
                removing: false,
                tidying: false,
                ..app.told_all_by_removal(steps).flow
            },
            ..app.told_all_by_removal(steps)
        }),
        app.flow.removing && (forall|at: int|
            0 <= at < steps.len() ==> (#[trigger] steps[at]) is Progress || steps[at] is Tidying)
            ==> app.removal_heard(steps) == app.told_all_by_removal(steps),
{
}

/// What a removal sends in two frames is heard as if it had come in one.
pub proof fn a_removal_is_heard_in_order(
    app: AppView,
    first: Seq<RemovedView>,
    then: Seq<RemovedView>,
)
    ensures
        app.told_all_by_removal(first + then) == app.told_all_by_removal(
            first,
        ).told_all_by_removal(then),
    decreases first.len(),
{
    if first.len() == 0 {
        assert(first + then =~= then);
    } else {
        let told = app.told_by_removal(first[0]);
        assert((first + then).drop_first() =~= first.drop_first() + then);
        assert((first + then)[0] == first[0]);
        a_removal_is_heard_in_order(told, first.drop_first(), then);
        assert(app.told_all_by_removal(first + then) == told.told_all_by_removal(
            first.drop_first() + then,
        ));
        assert(app.told_all_by_removal(first) == told.told_all_by_removal(first.drop_first()));
    }
}

/// A frame in which a removal has sent nothing changes nothing, and one in which it has
/// sent one thing takes that.
pub proof fn a_removal_is_heard_one_by_one(app: AppView, one: RemovedView)
    ensures
        app.told_all_by_removal(Seq::empty()) == app,
        app.told_all_by_removal(seq![one]) == app.told_by_removal(one),
{
    let told = app.told_by_removal(one);
    assert(seq![one].drop_first() =~= Seq::<RemovedView>::empty());
    assert(told.told_all_by_removal(Seq::empty()) == told);
    assert(app.told_all_by_removal(seq![one]) == told.told_all_by_removal(
        seq![one].drop_first(),
    ));
}

/// What would not go is listed as it was said, what is gone leaves the pictures held
/// in memory, and the review written down is over exactly where the index it is
/// written in is kept.
pub proof fn a_cleanup_leaves_out_what_is_gone(
    app: AppView,
    outcome: OutcomeView,
    forgotten: usize,
)
    requires
        outcome.failed.len() > 0,
    ensures
        ({
            let after = app.cleanup_finished(outcome, forgotten);
            let over = app.choices.keep_index && app.db_path is Some;
            &&& after.cleanup_failures == outcome.failed
            &&& after.cleanup_result is Some
            &&& after.review == app.review.forgetting(outcome.removed)
            &&& after.page == app.page && after.scan == app.scan
            &&& after.choices == app.choices && after.flow == app.flow
            &&& after.folder == app.folder && after.db_path == app.db_path
            &&& after.todo == app.todo + (if app.flow.images {
                seq![ActionView::LeaveOutOfImages(outcome.removed)]
            } else {
                Seq::empty()
            }) + (if over {
                seq![ActionView::ClearSets, ActionView::ClearKeep]
            } else {
                Seq::empty()
            })
            &&& app.choices.keep_index ==> after.sets_before.len() == 0 && forall|file_id: i64|
                !(#[trigger] after.kept_before.contains(file_id))
            &&& !app.choices.keep_index ==> after.sets_before == app.sets_before
                && after.kept_before == app.kept_before
        }),
{
    let after = app.cleanup_finished(outcome, forgotten);
    let left = app.outcome_noted(outcome, forgotten).pictures_left_out(outcome.removed);
    let out = if app.flow.images {
        seq![ActionView::LeaveOutOfImages(outcome.removed)]
    } else {
        Seq::<ActionView>::empty()
    };
    assert(left.todo =~= app.todo + out);
    assert(after == left.review_over_if_kept());
    if app.choices.keep_index && app.db_path is Some {
        assert(after.todo =~= left.todo.push(ActionView::ClearSets).push(ActionView::ClearKeep));
        assert(after.todo =~= app.todo + out + seq![ActionView::ClearSets, ActionView::ClearKeep]);
    } else {
        assert(after.todo =~= app.todo + out + Seq::<ActionView>::empty());
    }
}

/// A cleanup with nothing that would not go ends on the scan page with no sets, saying
/// that it is done; with the index gone too, the numbers of the pass go with it.
pub proof fn a_cleanup_that_took_everything_ends_on_the_scan_page(
    app: AppView,
    outcome: OutcomeView,
    forgotten: usize,
)
    requires
        outcome.failed.len() == 0,
    ensures
        ({
            let after = app.cleanup_finished(outcome, forgotten);
            &&& after.page == Page::Scan
            &&& after.review.sets.len() == 0 && after.review.plan.len() == 0
            &&& after.review.selected is None && after.review.showing is None
            &&& after.scan.finished == Some("cleanup done."@)
            &&& app.choices.keep_index ==> after.scan == (ScanView {
                finished: after.scan.finished,
                ..app.scan
            })
            &&& !app.choices.keep_index ==> nothing_scanned(
                ScanView { finished: None, ..after.scan },
            ) && after.todo.last() == ActionView::ForgetThumbnails
            &&& after.cleanup_failures.len() == 0
            &&& after.choices == app.choices && after.flow == app.flow
        }),
{
    let after = app.cleanup_finished(outcome, forgotten);
    assert(after.review.plan =~= Seq::<RemovalView>::empty());
}

/// What a cleanup that took everything leaves to do is to take the files out of the
/// pictures held in memory, to throw away the review that was written where its index is
/// kept, and to let go of the thumbnails where it is not.
pub proof fn what_a_cleanup_leaves_to_do(app: AppView, outcome: OutcomeView, forgotten: usize)
    requires
        outcome.failed.len() == 0,
        app.db_path is Some,
    ensures
        ({
            let after = app.cleanup_finished(outcome, forgotten);
            &&& after.todo == app.todo + (if app.flow.images {
                seq![ActionView::LeaveOutOfImages(outcome.removed)]
            } else {
                Seq::empty()
            }) + (if app.choices.keep_index {
                seq![ActionView::ClearSets, ActionView::ClearKeep]
            } else {
                seq![ActionView::ForgetThumbnails]
            })
            &&& app.choices.keep_index ==> after.sets_before.len() == 0
            &&& !app.choices.keep_index ==> after.sets_before == app.sets_before
        }),
{
    let left = app.outcome_noted(outcome, forgotten).pictures_left_out(outcome.removed);
    let out = if app.flow.images {
        seq![ActionView::LeaveOutOfImages(outcome.removed)]
    } else {
        Seq::<ActionView>::empty()
    };
    assert(left.todo =~= app.todo + out);
    let over = left.review_over_if_kept();
    let after = app.cleanup_finished(outcome, forgotten);
    assert(after == over.cleanup_done());
    if app.choices.keep_index {
        assert(over.todo =~= left.todo.push(ActionView::ClearSets).push(ActionView::ClearKeep));
        assert(after.todo == over.todo);
        assert(after.todo =~= app.todo + out + seq![ActionView::ClearSets, ActionView::ClearKeep]);
    } else {
        assert(over == left);
        assert(after.todo == left.todo.push(ActionView::ForgetThumbnails));
        assert(after.todo =~= app.todo + out + seq![ActionView::ForgetThumbnails]);
    }
}

/// Work that is cancelled is stopped, whichever of the two was on, and nothing of it
/// is left: no pass, no search, no picture held, no number, no lamp, no set, no
/// problem. The controls, the folder and what the index said stay.
pub proof fn cancelling_stops_what_was_on(app: AppView)
    ensures
        ({
            let after = app.work_cancelled();
            &&& after.todo == app.todo + (if app.flow.running {
                seq![ActionView::CancelPass]
            } else {
                Seq::empty()
            }) + (if app.flow.searching {
                seq![ActionView::StopSearch]
            } else {
                Seq::empty()
            }) + seq![ActionView::ForgetThumbnails]
            &&& after.flow == (Flow {
                running: false,
                comparing: false,
                searching: false,
                images: false,
                ..app.flow
            })
            &&& nothing_scanned(after.scan)
            &&& after.search.stage is None && !after.search.done
            &&& forall|lamp: Lamp| !(#[trigger] after.lit.times.contains_key(lamp))
            &&& after.review.sets.len() == 0
            &&& after.error is None
            &&& after.choices == app.choices && after.folder == app.folder
            &&& after.db_path == app.db_path && after.kept_before == app.kept_before
            &&& after.sets_before == app.sets_before && after.page == app.page
        }),
{
    let after = app.work_cancelled();
    assert(after.todo =~= app.todo + (if app.flow.running {
        seq![ActionView::CancelPass]
    } else {
        Seq::empty()
    }) + (if app.flow.searching {
        seq![ActionView::StopSearch]
    } else {
        Seq::empty()
    }) + seq![ActionView::ForgetThumbnails]);
}

/// A search that found nothing says which of the two it was: nothing to compare, or
/// nothing alike. The window stays on its page.
pub proof fn finding_nothing_says_which(app: AppView, now: u128)
    ensures
        ({
            let after = app.sets_found(Seq::empty(), now);
            &&& after.scan.finished == Some(
                if app.scan.total == 0 {
                    "No files in this folder"@
                } else {
                    "No duplicates found for current settings"@
                },
            )
            &&& after.page == app.page
            &&& after.review.sets.len() == 0
            &&& after.search.done && after.search.stage == Some(Doing::Finished)
        }),
{
}

} // verus!
