//! What is left to be done outside says what the controls say, each of them in its
//! own place.

use vstd::prelude::*;

use crate::app::opening::tells_apart;
use crate::app::searching::{names_of, paths_of};
use crate::app::{ActionView, AppView, Choices, DisposalView, Flow};
use crate::folders::{is_common, steps};
use crate::indexer::UpdateView;
use crate::lamps::Lamp;
use crate::plan::RemovalView;
use crate::progress::{Doing, ScanView, SearchState};
use crate::review::ReviewView;
use crate::sets::{MemberView, SetView};
use crate::state::{Destination, Page};
use crate::strictness::{Limit, Thresholds};

verus! {

/// Whether what a search is asked for is what the controls say.
pub open spec fn asks_as_set(asked: Thresholds, choices: Choices) -> bool {
    &&& asked.limit == Limit::At(choices.sensitivity)
    &&& asked.ignore_colour == choices.ignore_colour
    &&& asked.ways is Some
    &&& asked.ways->0.whole_frame == choices.match_whole_frame
    &&& asked.ways->0.corners == choices.match_corners
    &&& asked.ways->0.within_a_folder == choices.within_a_folder
}

/// Whether every search among what has come to be left to do is for what the
/// controls say.
pub open spec fn searches_as_set(app: AppView, after: AppView) -> bool {
    &&& after.choices == app.choices
    &&& app.todo.len() <= after.todo.len()
    &&& forall|at: int|
        0 <= at < app.todo.len() ==> #[trigger] after.todo[at] == app.todo[at]
    &&& forall|at: int|
        app.todo.len() <= at < after.todo.len() ==> (#[trigger] after.todo[at] matches
            ActionView::StartSearch(asked) ==> asks_as_set(asked, app.choices))
}

/// Whether a scan screen shows no number, no bar, no failure and no ending.
pub open spec fn nothing_scanned(scan: ScanView) -> bool {
    &&& scan.total == 0 && scan.done == 0 && scan.indexed == 0 && scan.to_index == 0
    &&& scan.per_sec == 0 && scan.unchanged == 0 && scan.removed == 0 && scan.ignored == 0
    &&& scan.reading is Waiting && scan.writing is Waiting
    &&& scan.failures.len() == 0
    &&& scan.finished is None && scan.listing is None
}

/// Whether a search has counted nothing and has not ended.
pub open spec fn nothing_counted(search: SearchState) -> bool {
    &&& search.loaded == 0 && search.to_load == 0 && search.shortlisted == 0
    &&& search.to_shortlist == 0 && search.compared == 0 && search.pairs == 0
    &&& !search.reads_the_index && !search.done
}

/// Whether a review holds no set, no mark and no picture, and takes nothing, having
/// held on to what was said about pairs.
pub open spec fn nothing_reviewed(was: ReviewView, review: ReviewView) -> bool {
    &&& review.sets.len() == 0
    &&& forall|set_id: i64| !(#[trigger] review.keep.contains_key(set_id))
    &&& review.plan.len() == 0
    &&& review.selected is None && review.showing is None
    &&& review.ignored == was.ignored
    &&& review.scroll_to == was.scroll_to && review.list_to_top == was.list_to_top
    &&& review.show_selected == was.show_selected
    &&& review.filling_the_window == was.filling_the_window
}

/// A search is asked for where an index is open, its pictures are held and no search
/// is running, and what it is asked for is what the controls say: as alike as the
/// slider stands, with colour left out as that box stands, and by the whole frame,
/// by the corners and within a folder each as its own box stands. It starts from
/// nothing counted. Anywhere else nothing happens.
pub proof fn a_search_is_for_what_the_controls_say(app: AppView, now: u128)
    ensures
        ({
            let after = app.search_started(now);
            if app.db_path is Some && app.flow.images && !app.flow.searching {
                &&& after.todo.len() == app.todo.len() + 1
                &&& after.todo.drop_last() == app.todo
                &&& after.todo.last() matches ActionView::StartSearch(asked) && {
                    &&& asked.limit == Limit::At(app.choices.sensitivity)
                    &&& asked.ignore_colour == app.choices.ignore_colour
                    &&& asked.ways matches Some(ways) && {
                        &&& ways.whole_frame == app.choices.match_whole_frame
                        &&& ways.corners == app.choices.match_corners
                        &&& ways.within_a_folder == app.choices.within_a_folder
                    }
                }
                &&& after.flow.searching
                &&& after.flow == (Flow { searching: true, ..app.flow })
                &&& after.search.stage == Some(Doing::Starting)
                &&& nothing_counted(after.search)
                &&& after.scan.finished is None
                &&& after.scan == (ScanView { finished: None, ..app.scan })
                &&& after.error is None
                &&& after == (AppView {
                    todo: after.todo,
                    flow: after.flow,
                    search: after.search,
                    scan: after.scan,
                    error: after.error,
                    lit: after.lit,
                    ..app
                })
            } else {
                after == app
            }
        }),
{
    let after = app.search_started(now);
    if app.db_path is Some && app.flow.images && !app.flow.searching {
        assert(after.todo.drop_last() =~= app.todo);
    }
}

/// Whatever starts a search, it is for what the controls say: the decision on
/// opening a folder, the end of a pass, anything else a pass says, and the button.
pub proof fn every_search_is_for_what_the_controls_say(
    app: AppView,
    moved: bool,
    cancelled: bool,
    error: Option<Seq<char>>,
    now: u128,
)
    ensures
        searches_as_set(app, app.search_started(now)),
        searches_as_set(app, app.duplicates_wanted(now)),
        searches_as_set(app, app.opening_decided(moved, now)),
        searches_as_set(app, app.pass_over(cancelled, error, now)),
        searches_as_set(
            app,
            app.told_by_pass(UpdateView::Finished { cancelled, error }, now),
        ),
{
    lemma_opening_searches_as_set(app, moved, now);
    lemma_a_pass_searches_as_set(app, cancelled, error, now);
    assert(app.told_by_pass(UpdateView::Finished { cancelled, error }, now) == app.pass_over(
        cancelled,
        error,
        now,
    ));
}

proof fn lemma_searches_as_set(app: AppView, now: u128)
    ensures
        searches_as_set(app, app.search_started(now)),
{
    if app.db_path is Some && app.flow.images && !app.flow.searching {
        assert(app.search_started(now).todo == app.todo.push(
            ActionView::StartSearch(app.thresholds()),
        ));
        assert(asks_as_set(app.thresholds(), app.choices));
    }
}

proof fn lemma_opening_searches_as_set(app: AppView, moved: bool, now: u128)
    ensures
        searches_as_set(app, app.search_started(now)),
        searches_as_set(app, app.duplicates_wanted(now)),
        searches_as_set(app, app.opening_decided(moved, now)),
{
    lemma_searches_as_set(app, now);
    assert(app.opening_decided(moved, now) == app.search_started(now) || app.opening_decided(
        moved,
        now,
    ).todo == app.todo || app.opening_decided(moved, now).todo == app.todo.push(ActionView::Scan)
        || app.opening_decided(moved, now).todo == app.todo.push(
        ActionView::BuildStoredSets { search_done: true },
    ));
    assert(app.opening_decided(moved, now).choices == app.choices);
}

proof fn lemma_a_pass_searches_as_set(
    app: AppView,
    cancelled: bool,
    error: Option<Seq<char>>,
    now: u128,
)
    ensures
        searches_as_set(app, app.pass_over(cancelled, error, now)),
{
    let after = app.pass_over(cancelled, error, now);
    let stopped = AppView { flow: Flow { running: false, comparing: false, ..app.flow }, ..app };
    if error is None && !cancelled && app.flow.comparing {
        assert(after == stopped.opening_decided(app.flow.something_moved, now));
        lemma_opening_searches_as_set(stopped, app.flow.something_moved, now);
    } else if error is None && !cancelled && app.scan.total > 0 {
        let ready = AppView {
            flow: Flow { mark_on_arrival: app.choices.auto_mark, ..stopped.flow },
            ..stopped
        };
        assert(after == ready.search_started(now));
        lemma_searches_as_set(ready, now);
    } else {
        assert(after.todo == app.todo && after.choices == app.choices);
    }
}

/// Whether every search among what has come to be left to do is for what the controls say
/// in the end.
pub open spec fn searches_as_left(app: AppView, after: AppView) -> bool {
    &&& app.todo.len() <= after.todo.len()
    &&& forall|at: int|
        app.todo.len() <= at < after.todo.len() ==> (#[trigger] after.todo[at] matches
            ActionView::StartSearch(asked) ==> asks_as_set(asked, after.choices))
}

/// However much a pass says in a frame, a search that follows it is for what the controls
/// say once it has all been heard, what the folder says among it.
pub proof fn a_search_after_a_pass_is_for_what_the_controls_say(
    app: AppView,
    updates: Seq<UpdateView>,
    now: u128,
)
    ensures
        searches_as_left(app, app.pass_heard(updates, now)),
        searches_as_left(app, app.told_all_by_pass(updates, now)),
    decreases updates.len(),
{
    if updates.len() > 0 {
        let told = app.told_by_pass(updates[0], now);
        match updates[0] {
            UpdateView::Finished { cancelled, error } => {
                lemma_a_pass_searches_as_set(app, cancelled, error, now);
                assert(told == app.pass_over(cancelled, error, now));
                assert(app.told_all_by_pass(updates, now) == told);
            },
            _ => {
                lemma_only_its_end_leaves_anything_to_do(app, updates[0], now);
                a_search_after_a_pass_is_for_what_the_controls_say(
                    told,
                    updates.drop_first(),
                    now,
                );
                assert(app.told_all_by_pass(updates, now) == told.told_all_by_pass(
                    updates.drop_first(),
                    now,
                ));
            },
        }
    }
}

proof fn lemma_only_its_end_leaves_anything_to_do(app: AppView, update: UpdateView, now: u128)
    requires
        !(update is Finished),
    ensures
        app.told_by_pass(update, now).todo == app.todo,
{
}

/// The sets a search has found are written down, where an index is open, picture by
/// picture in the order they were found, and under the very settings a search would
/// be started with as the window stands.
pub proof fn sets_are_remembered_under_what_they_were_searched_by(
    app: AppView,
    sets: Seq<SetView>,
    now: u128,
    asked: Thresholds,
)
    requires
        app.db_path is Some,
        app.flow.images,
        !app.flow.searching,
        app.search_started(now).todo.last() == ActionView::StartSearch(asked),
    ensures
        ({
            let after = app.sets_found(sets, now);
            let last = after.todo.len() - 1;
            &&& last >= app.todo.len() + 1
            &&& after.todo[last] == ActionView::CoverText(names_of(sets))
            &&& after.todo[last - 1] matches ActionView::RememberTheSets { sets: written, under } && {
                &&& under.sensitivity == app.choices.sensitivity
                &&& under.whole_frame == app.choices.match_whole_frame
                &&& under.corners == app.choices.match_corners
                &&& under.ignore_colour == app.choices.ignore_colour
                &&& under.within_a_folder == app.choices.within_a_folder
                &&& asked.limit == Limit::At(under.sensitivity)
                &&& asked.ignore_colour == under.ignore_colour
                &&& asked.ways is Some
                &&& asked.ways->0.whole_frame == under.whole_frame
                &&& asked.ways->0.corners == under.corners
                &&& asked.ways->0.within_a_folder == under.within_a_folder
                &&& written.len() == sets.len()
                &&& forall|at: int|
                    0 <= at < sets.len() ==> (#[trigger] written[at]).0 == sets[at].set_id
                        && written[at].1.len() == sets[at].members.len()
                &&& forall|at: int, place: int|
                    0 <= at < sets.len() && 0 <= place < sets[at].members.len()
                        ==> #[trigger] written[at].1[place] == sets[at].members[place].file_id
            }
        }),
{
    let ready = AppView {
        search: SearchState { stage: Some(Doing::Finished), done: true, ..app.search },
        ..app.lighting(Lamp::FinishedFindingDuplicates, now)
    };
    lemma_accepting(ready, sets);
}

/// With no index open the sets found are not written down anywhere.
pub proof fn sets_are_not_remembered_where_no_index_is_open(
    app: AppView,
    sets: Seq<SetView>,
    now: u128,
    at: int,
)
    requires
        app.db_path is None,
        app.todo.len() <= at < app.sets_found(sets, now).todo.len(),
    ensures
        !(app.sets_found(sets, now).todo[at] is RememberTheSets),
{
    let ready = AppView {
        search: SearchState { stage: Some(Doing::Finished), done: true, ..app.search },
        ..app.lighting(Lamp::FinishedFindingDuplicates, now)
    };
    lemma_accepting(ready, sets);
}

/// Taking sets puts them in the review and leaves the controls and the index alone,
/// and none of what it leaves to do writes sets down.
proof fn lemma_accepting(app: AppView, sets: Seq<SetView>)
    ensures
        app.accepting(sets).review.sets == sets,
        app.accepting(sets).choices == app.choices,
        app.accepting(sets).db_path == app.db_path,
        app.accepting(sets).folder == app.folder,
        app.accepting(sets).todo.len() >= app.todo.len() + 1,
        forall|at: int|
            app.todo.len() <= at < app.accepting(sets).todo.len() ==> !(#[trigger] app.accepting(
                sets,
            ).todo[at] is RememberTheSets),
{
    let begun = app.review_begun();
    if sets.len() == 0 {
        assert(begun.found_nothing().review.sets =~= sets);
    } else {
        let taken = begun.sets_taken(sets);
        assert(taken.review.sets == sets);
        let marked = taken.marked_on_arrival();
        assert(marked.review.sets == sets);
        let opened = marked.review_opened();
        assert(opened.review.sets == sets);
        let primed = opened.primed();
        assert(primed.review.sets == sets);
        assert(primed.on_the_review().review.sets == sets);
    }
}

/// The text a window makes sure it can draw once sets are found has every path of
/// every picture in it.
pub proof fn every_path_is_covered(sets: Seq<SetView>, set: int, member: int)
    requires
        0 <= set < sets.len(),
        0 <= member < sets[set].members.len(),
    ensures
        ({
            let path = sets[set].members[member].rel_path;
            exists|from: int| #[trigger] reads_at(names_of(sets), from, path)
        }),
    decreases sets.len(),
{
    let path = sets[set].members[member].rel_path;
    let before = names_of(sets.drop_last());
    let last = paths_of(sets.last().members);
    if set == sets.len() - 1 {
        lemma_path_of_a_member(sets.last().members, member);
        let from = choose|from: int| #[trigger] reads_at(last, from, path);
        assert((before + last).subrange(before.len() + from, before.len() + from + path.len())
            =~= last.subrange(from, from + path.len()));
        assert(reads_at(names_of(sets), before.len() + from, path));
    } else {
        every_path_is_covered(sets.drop_last(), set, member);
        let from = choose|from: int| #[trigger] reads_at(before, from, path);
        assert((before + last).subrange(from, from + path.len()) =~= before.subrange(
            from,
            from + path.len(),
        ));
        assert(reads_at(names_of(sets), from, path));
    }
}

/// Whether a text reads like this from a place on.
pub open spec fn reads_at(text: Seq<char>, from: int, words: Seq<char>) -> bool {
    &&& 0 <= from
    &&& from + words.len() <= text.len()
    &&& text.subrange(from, from + words.len()) == words
}

proof fn lemma_path_of_a_member(members: Seq<MemberView>, member: int)
    requires
        0 <= member < members.len(),
    ensures
        exists|from: int| #[trigger] reads_at(paths_of(members), from, members[member].rel_path),
    decreases members.len(),
{
    let path = members[member].rel_path;
    let before = paths_of(members.drop_last());
    let last = members.last().rel_path;
    if member == members.len() - 1 {
        assert((before + last).subrange(before.len() as int, (before.len() + path.len()) as int)
            =~= path);
        assert(reads_at(paths_of(members), before.len() as int, path));
    } else {
        lemma_path_of_a_member(members.drop_last(), member);
        let from = choose|from: int| #[trigger] reads_at(before, from, path);
        assert((before + last).subrange(from, from + path.len()) =~= before.subrange(
            from,
            from + path.len(),
        ));
        assert(reads_at(paths_of(members), from, path));
    }
}

/// Removed files go where it was chosen that they go. A cleanup starts where a folder
/// is open and none is running, on that folder, and what becomes of the files is the
/// recycle bin exactly where that was chosen, deletion for good exactly where that
/// was, and a move exactly where that was, to the folder that was chosen for it. The
/// index stays exactly where its box is ticked.
pub proof fn nothing_is_deleted_for_good_unless_that_was_chosen(app: AppView)
    requires
        app.review.plan.len() <= usize::MAX,
    ensures
        app.disposal_set() is Trash <==> app.destination is Trash,
        app.disposal_set() is Delete <==> app.destination is Delete,
        app.disposal_set() is MoveTo <==> app.destination is MoveTo,
        app.disposal_set() matches DisposalView::MoveTo(folder) ==> folder == app.move_dir,
        ({
            let after = app.cleanup_started();
            if app.folder is Some && !app.flow.removing {
                &&& after.todo.len() == app.todo.len() + 1
                &&& after.todo.drop_last() == app.todo
                &&& after.todo.last() matches ActionView::StartCleanup {
                    root,
                    disposal,
                    keep_index,
                } && {
                    &&& Some(root) == app.folder
                    &&& keep_index == app.choices.keep_index
                    &&& disposal is Trash <==> app.destination == Destination::Trash
                    &&& disposal is Delete <==> app.destination == Destination::Delete
                    &&& disposal is MoveTo <==> app.destination == Destination::MoveTo
                    &&& disposal matches DisposalView::MoveTo(folder) ==> folder == app.move_dir
                }
                &&& after.flow == (Flow {
                    removing: true,
                    tidying: false,
                    removed_so_far: 0,
                    to_remove: after.flow.to_remove,
                    ..app.flow
                })
                &&& after.flow.to_remove == app.review.plan.len()
                &&& after.cleanup_failures.len() == 0
                &&& after == (AppView {
                    todo: after.todo,
                    flow: after.flow,
                    cleanup_failures: after.cleanup_failures,
                    ..app
                })
            } else {
                after == app
            }
        }),
{
    let after = app.cleanup_started();
    if app.folder is Some && !app.flow.removing {
        assert(after.todo.drop_last() =~= app.todo);
    }
}

/// A scan is of the folder that is open, into the index that is open, with its
/// subfolders exactly where that box is ticked, and over the whole of it. The pass is
/// the last thing left to do; before it the sets written down are thrown away and the
/// thumbnails let go of, and the settings written where the folder was not among
/// those scanned yet. With no folder open nothing happens.
pub proof fn a_scan_takes_the_folder_as_the_box_stands(
    app: AppView,
    there: bool,
    known: bool,
    offered: Seq<Seq<char>>,
    now: u128,
)
    ensures
        ({
            let after = app.scan_started(there, known, offered, now);
            if app.folder is Some && app.db_path is Some {
                &&& after.todo.last() matches ActionView::StartPass {
                    folder,
                    db_path,
                    recurse,
                    compare_only,
                } && {
                    &&& Some(folder) == app.folder
                    &&& Some(db_path) == app.db_path
                    &&& recurse == app.choices.recurse
                    &&& !compare_only
                }
                &&& after.todo.drop_last() == app.todo + seq![
                    ActionView::ClearSets,
                    ActionView::ForgetThumbnails,
                ] + (if known {
                    Seq::empty()
                } else {
                    seq![ActionView::SaveSettings]
                })
                &&& after.choices.recurse == app.choices.recurse
            } else {
                after == app
            }
        }),
{
    if app.folder is Some && app.db_path is Some {
        let ready = app.clock_started(now).cleared_for_a_pass();
        lemma_cleared_for_a_pass(app.clock_started(now));
        assert(ready.todo == app.todo.push(ActionView::ClearSets).push(
            ActionView::ForgetThumbnails,
        ));
        let after = app.scan_started(there, known, offered, now);
        if known {
            assert(after.todo.drop_last() =~= ready.todo);
            assert(ready.todo =~= app.todo + seq![
                ActionView::ClearSets,
                ActionView::ForgetThumbnails,
            ] + Seq::<ActionView>::empty());
        } else {
            assert(after.todo.drop_last() =~= ready.todo.push(ActionView::SaveSettings));
            assert(ready.todo.push(ActionView::SaveSettings) =~= app.todo + seq![
                ActionView::ClearSets,
                ActionView::ForgetThumbnails,
            ] + seq![ActionView::SaveSettings]);
        }
    }
}

/// What a pass makes untrue goes: the sets, stored and on screen, the marks on
/// screen, the numbers and the bars, the problem shown and the pictures held.
proof fn lemma_cleared_for_a_pass(app: AppView)
    requires
        app.db_path is Some,
    ensures
        ({
            let after = app.cleared_for_a_pass();
            &&& after.todo == app.todo.push(ActionView::ClearSets).push(
                ActionView::ForgetThumbnails,
            )
            &&& after.flow == (Flow { images: false, scanned_since_asking: true, ..app.flow })
            &&& after.sets_before.len() == 0
            &&& nothing_reviewed(app.review, after.review)
            &&& nothing_scanned(after.scan)
            &&& nothing_counted(after.search) && after.search.stage is None
            &&& after.error is None
            &&& after == (AppView {
                todo: after.todo,
                flow: after.flow,
                sets_before: after.sets_before,
                review: after.review,
                scan: after.scan,
                search: after.search,
                error: after.error,
                ..app
            })
        }),
{
    let after = app.cleared_for_a_pass();
    assert(after.review.plan =~= Seq::<RemovalView>::empty());
}

/// A scan starts with nothing on screen but the controls: no set, no mark, no number,
/// no problem, and no pictures held. The marks of the last review are held on to.
pub proof fn a_scan_starts_with_nothing_on_screen(
    app: AppView,
    there: bool,
    known: bool,
    offered: Seq<Seq<char>>,
    now: u128,
)
    requires
        app.folder is Some,
        app.db_path is Some,
    ensures
        ({
            let after = app.scan_started(there, known, offered, now);
            &&& after.sets_before.len() == 0
            &&& after.kept_before == app.kept_before
            &&& nothing_reviewed(app.review, after.review)
            &&& nothing_scanned(after.scan)
            &&& nothing_counted(after.search) && after.search.stage is None
            &&& after.error is None
        }),
{
    lemma_cleared_for_a_pass(app.clock_started(now));
}

/// A scan leaves the controls as they are but that an index that is there is kept.
pub proof fn a_scan_leaves_the_controls_alone(
    app: AppView,
    there: bool,
    known: bool,
    offered: Seq<Seq<char>>,
    now: u128,
)
    requires
        app.folder is Some,
        app.db_path is Some,
    ensures
        ({
            let after = app.scan_started(there, known, offered, now);
            &&& after.choices.keep_index == (there || app.choices.keep_index)
            &&& after.choices == (Choices {
                keep_index: after.choices.keep_index,
                ..app.choices
            })
        }),
{
    let timed = app.clock_started(now);
    let ready = timed.cleared_for_a_pass().lighting(Lamp::CheckedForIndexFile, now);
    lemma_cleared_for_a_pass(timed);
    assert(ready.choices == app.choices);
    let kept = AppView {
        choices: Choices { keep_index: there || ready.choices.keep_index, ..ready.choices },
        ..ready
    };
    let offering = kept.folder_offered(known, offered);
    assert(offering.choices == kept.choices) by {
        if known {
            assert(offering == kept);
        }
    }
    assert(app.scan_started(there, known, offered, now).choices == offering.choices);
}

/// A scan puts the folder among those that were scanned where it was not one of them,
/// and leaves them as they are where it was.
pub proof fn a_scan_puts_the_folder_among_those_scanned(
    app: AppView,
    there: bool,
    known: bool,
    offered: Seq<Seq<char>>,
    now: u128,
)
    requires
        app.folder is Some,
        app.db_path is Some,
    ensures
        ({
            let after = app.scan_started(there, known, offered, now);
            after.previous == if known {
                app.previous
            } else {
                offered
            }
        }),
{
    let timed = app.clock_started(now);
    let ready = timed.cleared_for_a_pass();
    lemma_cleared_for_a_pass(timed);
    assert(ready.previous == app.previous);
}

/// Once a scan has started a pass is under way, the pictures are no longer held, and
/// those read before are not to be taken; nothing else under way is touched.
pub proof fn a_scan_is_under_way_once_started(
    app: AppView,
    there: bool,
    known: bool,
    offered: Seq<Seq<char>>,
    now: u128,
)
    requires
        app.folder is Some,
        app.db_path is Some,
    ensures
        ({
            let after = app.scan_started(there, known, offered, now);
            after.flow == Flow {
                running: true,
                images: false,
                scanned_since_asking: true,
                ..app.flow
            }
        }),
{
    let timed = app.clock_started(now);
    let ready = timed.cleared_for_a_pass().lighting(Lamp::CheckedForIndexFile, now);
    lemma_cleared_for_a_pass(timed);
    assert(timed.flow == app.flow);
    assert(ready.flow == (Flow { images: false, scanned_since_asking: true, ..app.flow }));
    let after = app.scan_started(there, known, offered, now);
    assert(after.flow == (Flow { running: true, ..ready.flow }));
}

/// A scan leaves the page, the folder, the destination, what the last cleanup came to
/// and the measurements of the window as they are.
pub proof fn a_scan_stays_where_it_was_started(
    app: AppView,
    there: bool,
    known: bool,
    offered: Seq<Seq<char>>,
    now: u128,
)
    requires
        app.folder is Some,
        app.db_path is Some,
    ensures
        ({
            let after = app.scan_started(there, known, offered, now);
            &&& after.page == app.page && after.folder == app.folder
            &&& after.db_path == app.db_path && after.covered == app.covered
            &&& after.destination == app.destination && after.move_dir == app.move_dir
            &&& after.cleanup_failures == app.cleanup_failures
            &&& after.cleanup_result == app.cleanup_result
            &&& after.window == app.window && after.preview_width == app.preview_width
        }),
{
}

/// The lamps are out when a scan starts, but for the one about looking for the index,
/// and timed from then, unless the folder is still being opened: it is timed from the
/// moment it was opened.
pub proof fn a_scan_is_timed_from_its_start(
    app: AppView,
    there: bool,
    known: bool,
    offered: Seq<Seq<char>>,
    now: u128,
)
    requires
        app.folder is Some,
        app.db_path is Some,
    ensures
        ({
            let after = app.scan_started(there, known, offered, now);
            &&& after.lit.times.contains_key(Lamp::CheckedForIndexFile)
            &&& after.lit.started == if app.flow.asking {
                app.lit.started
            } else {
                now
            }
            &&& forall|lamp: Lamp|
                lamp != Lamp::CheckedForIndexFile ==> (#[trigger] after.lit.times.contains_key(lamp)
                    <==> app.flow.asking && app.lit.times.contains_key(lamp))
        }),
{
}

/// A folder is compared with its index where it arrived with one and nothing is under
/// way, and then it is that folder with that index, with its subfolders as the box
/// stands, and compared only.
pub proof fn a_comparison_takes_the_folder_as_the_box_stands(app: AppView)
    ensures
        ({
            let after = app.folder_looked_at();
            if app.folder is Some && app.db_path is Some && app.flow.opened_with_an_index
                && !app.flow.running && !app.flow.searching && !app.flow.removing {
                &&& after.todo.drop_last() == app.todo
                &&& after.todo.last() matches ActionView::StartPass {
                    folder,
                    db_path,
                    recurse,
                    compare_only,
                } && {
                    &&& Some(folder) == app.folder
                    &&& Some(db_path) == app.db_path
                    &&& recurse == app.choices.recurse
                    &&& compare_only
                }
                &&& after.flow == (Flow { running: true, comparing: true, ..app.flow })
                &&& after == (AppView { todo: after.todo, flow: after.flow, ..app })
            } else {
                after == app
            }
        }),
{
    assert(app.folder_looked_at().todo.drop_last() =~= app.todo || app.folder_looked_at() == app);
}

/// Pressing the button that looks for duplicates searches where the pictures are
/// held, and scans the folder first where they are not.
pub proof fn duplicates_are_looked_for_in_what_was_read(app: AppView, now: u128)
    requires
        app.db_path is Some,
        !app.flow.searching,
    ensures
        app.flow.images ==> app.duplicates_wanted(now).todo.last() is StartSearch
            && app.duplicates_wanted(now).flow.searching,
        !app.flow.images ==> app.duplicates_wanted(now) == (AppView {
            todo: app.todo.push(ActionView::Scan),
            ..app
        }),
{
}

/// Where removed files go is written down, where an index is open, under the two
/// names it is read back by, and in the words for it.
pub proof fn where_files_go_is_written_down(app: AppView)
    ensures
        app.db_path is None ==> app.disposal_remembered() == app,
        app.db_path is Some ==> app.disposal_remembered() == (AppView {
            todo: app.todo.push(
                ActionView::SetMeta(
                    seq![
                        (
                            "disposal"@,
                            match app.destination {
                                Destination::Trash => "trash"@,
                                Destination::MoveTo => "move"@,
                                Destination::Delete => "delete"@,
                            },
                        ),
                        ("move_dir"@, app.move_dir),
                    ],
                ),
            ),
            ..app
        }),
{
}

/// What a folder does on being opened is written down, where an index is open, under
/// the two names it is read back by, a tick as `1` and none as `0`.
pub proof fn what_opening_does_is_written_down(app: AppView)
    ensures
        app.db_path is None ==> app.ways_remembered() == app,
        app.db_path is Some ==> app.ways_remembered() == (AppView {
            todo: app.todo.push(
                ActionView::SetMeta(
                    seq![
                        (
                            "auto_rescan"@,
                            if app.choices.auto_rescan {
                                "1"@
                            } else {
                                "0"@
                            },
                        ),
                        (
                            "auto_mark"@,
                            if app.choices.auto_mark {
                                "1"@
                            } else {
                                "0"@
                            },
                        ),
                    ],
                ),
            ),
            ..app
        }),
{
}

/// A folder that is chosen is asked about itself at its own index, is on screen, and
/// has nothing on screen with it that was about another; the settings are written
/// before it is asked. One that is dropped is scanned behind that, from the scan
/// page.
pub proof fn a_folder_that_is_chosen_is_asked_about_itself(
    app: AppView,
    folder: Seq<char>,
    db_path: Seq<char>,
    has_index: bool,
    elsewhere: bool,
    now: u128,
)
    ensures
        ({
            let after = app.folder_opened(folder, db_path, has_index, elsewhere, now);
            let dropped = app.folder_dropped(folder, db_path, has_index, elsewhere, now);
            &&& after.folder == Some(folder)
            &&& after.db_path == Some(db_path)
            &&& after.todo == app.todo + seq![
                ActionView::ForgetThumbnails,
                ActionView::SaveSettings,
                ActionView::AskTheIndex { db_path },
            ]
            &&& after.flow.asking && !after.flow.noted && !after.flow.scanned_since_asking
            &&& after.flow == (Flow {
                asking: true,
                noted: false,
                scanned_since_asking: false,
                images: app.flow.images && !elsewhere,
                ..app.flow
            })
            &&& after.review.sets.len() == 0 && after.review.plan.len() == 0
            &&& after.review.selected is None && after.review.showing is None
            &&& forall|pair: (i64, i64)| !(#[trigger] after.review.ignored.contains(pair))
            &&& forall|set_id: i64| !(#[trigger] after.review.keep.contains_key(set_id))
            &&& forall|file_id: i64| !(#[trigger] after.kept_before.contains(file_id))
            &&& after.sets_before.len() == 0
            &&& nothing_scanned(after.scan)
            &&& after.error is None
            &&& after.lit.started == now
            &&& forall|lamp: Lamp| !(#[trigger] after.lit.times.contains_key(lamp))
            &&& after.page == app.page && after.previous == app.previous
            &&& after.window == app.window && after.preview_width == app.preview_width
            &&& after.covered == app.covered && after.search == app.search
            &&& after.cleanup_failures == app.cleanup_failures
            &&& after.cleanup_result == app.cleanup_result
            &&& dropped == (AppView {
                page: Page::Scan,
                todo: after.todo.push(ActionView::Scan),
                ..after
            })
        }),
{
    let set = app.set_for(elsewhere, has_index);
    assert(set.flow == (Flow { images: app.flow.images && !elsewhere, ..app.flow }));
    assert(set.todo == app.todo && set.review == app.review);
    let cleared = set.cleared_for(folder, db_path);
    assert(cleared.todo == app.todo.push(ActionView::ForgetThumbnails));
    let saved = cleared.does(ActionView::SaveSettings);
    let after = app.folder_opened(folder, db_path, has_index, elsewhere, now);
    assert(after == saved.index_asked(now));
    assert(after.todo =~= app.todo + seq![
        ActionView::ForgetThumbnails,
        ActionView::SaveSettings,
        ActionView::AskTheIndex { db_path },
    ]);
    assert(after.review.plan =~= Seq::<RemovalView>::empty());
    lemma_dropped(app, folder, db_path, has_index, elsewhere, now);
}

/// A folder that is dropped is opened from the scan page and scanned behind that.
proof fn lemma_dropped(
    app: AppView,
    folder: Seq<char>,
    db_path: Seq<char>,
    has_index: bool,
    elsewhere: bool,
    now: u128,
)
    ensures
        ({
            let after = app.folder_opened(folder, db_path, has_index, elsewhere, now);
            app.folder_dropped(folder, db_path, has_index, elsewhere, now) == (AppView {
                page: Page::Scan,
                todo: after.todo.push(ActionView::Scan),
                ..after
            })
        }),
{
    let there = AppView { page: Page::Scan, ..app };
    let set = app.set_for(elsewhere, has_index);
    assert(there.set_for(elsewhere, has_index) == (AppView { page: Page::Scan, ..set }));
}

/// A folder that is another than the one before starts from what a first look at a
/// folder starts from: no subfolders, both ways of matching, colour counting, fifteen
/// per cent, nothing run on opening, the index as it was found to be there or not,
/// and the recycle bin. The same folder again keeps what it was set to.
pub proof fn another_folder_starts_afresh(
    app: AppView,
    folder: Seq<char>,
    db_path: Seq<char>,
    has_index: bool,
    elsewhere: bool,
    now: u128,
)
    ensures
        ({
            let after = app.folder_opened(folder, db_path, has_index, elsewhere, now);
            if elsewhere {
                &&& after.choices == (Choices {
                    recurse: false,
                    ignore_colour: false,
                    match_whole_frame: true,
                    match_corners: true,
                    within_a_folder: false,
                    keep_index: has_index,
                    auto_rescan: false,
                    auto_mark: app.choices.auto_mark,
                    sensitivity: 0x402E_0000_0000_0000,
                })
                &&& after.destination == Destination::Trash
                &&& after.move_dir.len() == 0
                &&& !after.flow.images
            } else {
                &&& after.choices == app.choices
                &&& after.destination == app.destination
                &&& after.move_dir == app.move_dir
                &&& after.flow.images == app.flow.images
            }
        }),
{
    reveal_strlit("");
}

/// Marks are written down where an index is open and there are any, as put on or as
/// taken off.
pub proof fn marks_are_written_as_they_changed(app: AppView, ids: Seq<i64>, keeping: bool)
    ensures
        app.wrote_marks(ids, keeping) == if app.db_path is Some && ids.len() > 0 {
            AppView {
                todo: app.todo.push(
                    if keeping {
                        ActionView::KeepThese(ids)
                    } else {
                        ActionView::UnkeepThese(ids)
                    },
                ),
                ..app
            }
        } else {
            app
        },
{
}

/// A review that is given up loses the sets written down for it and keeps the marks;
/// one that is over loses both, the sets first.
pub proof fn a_review_given_up_keeps_its_marks(app: AppView)
    ensures
        ({
            let given = app.saved_review_given_up();
            let over = app.review_over();
            &&& given.sets_before.len() == 0
            &&& given.kept_before == app.kept_before
            &&& given.todo == if app.db_path is Some {
                app.todo.push(ActionView::ClearSets)
            } else {
                app.todo
            }
            &&& given == (AppView { sets_before: given.sets_before, todo: given.todo, ..app })
            &&& over.sets_before.len() == 0
            &&& forall|file_id: i64| !(#[trigger] over.kept_before.contains(file_id))
            &&& over.todo == if app.db_path is Some {
                app.todo.push(ActionView::ClearSets).push(ActionView::ClearKeep)
            } else {
                app.todo
            }
            &&& over == (AppView {
                sets_before: over.sets_before,
                kept_before: over.kept_before,
                todo: over.todo,
                ..app
            })
        }),
{
}

/// The sets that were stored are asked for where there are any and the pictures to
/// build them from, and the window is not otherwise touched.
pub proof fn stored_sets_are_asked_for_where_they_can_be_built(app: AppView, search_done: bool)
    ensures
        app.stored_review_wanted(search_done) == if app.flow.images && app.sets_before.len() > 0 {
            AppView {
                todo: app.todo.push(ActionView::BuildStoredSets { search_done }),
                ..app
            }
        } else {
            app
        },
{
}

/// Closing a window writes its settings first and closes the index last, stopping a
/// pass that is running in between.
pub proof fn closing_writes_the_settings_and_closes_the_index(app: AppView)
    ensures
        ({
            let after = app.closed();
            &&& after.todo == app.todo + (if app.flow.running {
                seq![ActionView::SaveSettings, ActionView::CancelPass, ActionView::CloseIndex]
            } else {
                seq![ActionView::SaveSettings, ActionView::CloseIndex]
            })
            &&& after == (AppView {
                todo: after.todo,
                flow: Flow { running: false, ..app.flow },
                ..app
            })
        }),
{
    let after = app.closed();
    assert(after.todo =~= app.todo + (if app.flow.running {
        seq![ActionView::SaveSettings, ActionView::CancelPass, ActionView::CloseIndex]
    } else {
        seq![ActionView::SaveSettings, ActionView::CloseIndex]
    }));
}

/// The letters of the folder that is open are made sure of, and it is held as the one
/// they were made sure of for.
pub proof fn the_open_folder_is_the_one_covered(app: AppView)
    ensures
        ({
            let after = app.covering();
            &&& after.covered == app.folder
            &&& after.todo == match app.folder {
                Some(folder) => app.todo.push(ActionView::CoverText(folder)),
                None => app.todo,
            }
            &&& after == (AppView { covered: after.covered, todo: after.todo, ..app })
        }),
{
}

/// A search that starts turns its lamp green and no other.
pub proof fn a_search_that_starts_turns_its_lamp(app: AppView, lamp: Lamp, now: u128)
    requires
        app.db_path is Some,
        app.flow.images,
        !app.flow.searching,
    ensures
        ({
            let after = app.search_started(now);
            &&& after.lit.times.contains_key(Lamp::StartedFindingDuplicates)
            &&& lamp != Lamp::StartedFindingDuplicates ==> (after.lit.times.contains_key(lamp)
                <==> app.lit.times.contains_key(lamp))
            &&& after.lit.started == app.lit.started
        }),
{
}

/// Asking an index puts away whatever the last one said, and asks where there is an index
/// to ask: that one, with the lamps out and timed from then. Where there is none, nothing
/// is being asked.
pub proof fn an_index_is_asked_about_itself(app: AppView, now: u128)
    ensures
        ({
            let after = app.index_asked(now);
            &&& after.sets_before.len() == 0
            &&& forall|file_id: i64| !(#[trigger] after.kept_before.contains(file_id))
            &&& forall|pair: (i64, i64)| !(#[trigger] after.review.ignored.contains(pair))
            &&& after.review.sets == app.review.sets && after.review.keep == app.review.keep
            &&& after.review.selected == app.review.selected
            &&& !after.flow.scanned_since_asking
            &&& after.flow.asking <==> app.db_path is Some
            &&& after.flow == (Flow {
                asking: after.flow.asking,
                scanned_since_asking: false,
                ..app.flow
            })
            &&& app.db_path is None ==> after.todo == app.todo && after.lit == app.lit
            &&& app.db_path matches Some(db_path) ==> after.todo == app.todo.push(
                ActionView::AskTheIndex { db_path },
            ) && after.lit.started == now
            &&& after.choices == app.choices && after.folder == app.folder
            &&& after.db_path == app.db_path && after.page == app.page
            &&& after.scan == app.scan && after.search == app.search && after.error == app.error
        }),
{
    match app.db_path {
        None => {},
        Some(db_path) => {
            assert(app.index_asked(now).todo == app.todo.push(ActionView::AskTheIndex { db_path }));
        },
    }
}

/// Whatever a folder is opened with, it is another than the one that was open where none
/// was, and not another where it is the same path.
pub proof fn a_folder_is_told_from_the_one_that_was_open(
    there: Option<Seq<char>>,
    folder: Seq<char>,
    elsewhere: bool,
)
    requires
        tells_apart(there, folder, elsewhere),
    ensures
        there is None ==> elsewhere,
        there == Some(folder) ==> !elsewhere,
        there matches Some(open) ==> is_common(open) && is_common(folder) ==> (elsewhere <==> steps(
            open,
        ) != steps(folder)),
{
}

} // verus!
