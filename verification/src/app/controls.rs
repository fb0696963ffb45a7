//! The controls are set by what a folder says and by what is pressed, each by its own
//! and by nothing else.

use vstd::prelude::*;

use crate::app::opening::OpenedView;
use crate::app::pages::{Boxes, Matching, Place};
use crate::app::{
    opened_on, Action, ActionView, App, AppView, Choices, Disposal, DisposalView, Flow,
};
use crate::indexer::UpdateView;
use crate::lamps::Lamp;
use crate::notes::{
    a_folder_is_searched_as_it_was, is_written_over, notes_in, written_under, NotesView, Search,
};
use crate::sets::Member;
use crate::settings::{SettingsView, Window};
use crate::state::{Destination, Page};

verus! {

/// A folder is set as it says it is: whatever it gives a value for has that value,
/// and whatever it does not is as it was, but that a box comes off where what it
/// depends on is off. The box about keeping the index is not something a folder says.
pub proof fn a_folder_is_set_as_it_says(app: AppView, notes: NotesView)
    ensures
        ({
            let was = app.choices;
            let now = app.notes_taken(notes).choices;
            &&& notes.sensitivity matches Some(said) ==> now.sensitivity == said
            &&& notes.sensitivity is None ==> now.sensitivity == was.sensitivity
            &&& notes.ignore_colour matches Some(said) ==> now.ignore_colour == said
            &&& notes.ignore_colour is None ==> now.ignore_colour == was.ignore_colour
            &&& notes.match_whole_frame matches Some(said) ==> now.match_whole_frame == said
            &&& notes.match_whole_frame is None ==> now.match_whole_frame == was.match_whole_frame
            &&& notes.match_corners matches Some(said) ==> now.match_corners == said
            &&& notes.match_corners is None ==> now.match_corners == was.match_corners
            &&& notes.recurse matches Some(said) ==> now.recurse == said
            &&& notes.recurse is None ==> now.recurse == was.recurse
            &&& !now.recurse ==> !now.within_a_folder
            &&& now.recurse ==> (notes.within_a_folder matches Some(said) ==> now.within_a_folder
                == said)
            &&& now.recurse && notes.within_a_folder is None ==> now.within_a_folder
                == was.within_a_folder
            &&& now.keep_index == was.keep_index
            &&& !now.keep_index ==> !now.auto_rescan
            &&& now.keep_index ==> (notes.auto_rescan matches Some(said) ==> now.auto_rescan == said)
            &&& now.keep_index && notes.auto_rescan is None ==> now.auto_rescan == was.auto_rescan
            &&& !now.auto_rescan ==> !now.auto_mark
            &&& now.auto_rescan ==> (notes.auto_mark matches Some(said) ==> now.auto_mark == said)
            &&& now.auto_rescan && notes.auto_mark is None ==> now.auto_mark == was.auto_mark
        }),
{
}

/// A folder says where its removed files go by one of three words, and any other word
/// and no word leave that as it was; it says which folder they are moved to as it is.
/// Once it has said anything it has been asked, and nothing else is touched.
pub proof fn a_folder_says_where_its_files_go(app: AppView, notes: NotesView)
    ensures
        ({
            let after = app.notes_taken(notes);
            &&& notes.disposal == Some("trash"@) ==> after.destination == Destination::Trash
            &&& notes.disposal == Some("move"@) ==> after.destination == Destination::MoveTo
            &&& notes.disposal == Some("delete"@) ==> after.destination == Destination::Delete
            &&& notes.disposal != Some("trash"@) && notes.disposal != Some("move"@)
                && notes.disposal != Some("delete"@) ==> after.destination == app.destination
            &&& notes.move_dir matches Some(said) ==> after.move_dir == said
            &&& notes.move_dir is None ==> after.move_dir == app.move_dir
            &&& after.flow == (Flow { noted: true, ..app.flow })
            &&& after == (AppView {
                destination: after.destination,
                move_dir: after.move_dir,
                choices: after.choices,
                flow: after.flow,
                ..app
            })
        }),
{
    reveal_strlit("trash");
    reveal_strlit("move");
    reveal_strlit("delete");
    assert("trash"@[0] == 't');
    assert("move"@[0] == 'm');
    assert("delete"@[0] == 'd');
}

/// What a search ran under, written over whatever a folder said before and read back
/// when it is opened again, is what the window is set to search for, wherever
/// searching within a folder has the subfolders it depends on.
pub proof fn a_window_is_set_to_the_search_that_was_written(
    app: AppView,
    before: Seq<(Seq<char>, Seq<char>)>,
    after: Seq<(Seq<char>, Seq<char>)>,
    search: Search,
    text: Seq<char>,
)
    requires
        is_written_over(after, before, written_under(search, text)),
        search.within_a_folder ==> app.notes_taken(
            notes_in(after, Some(search.sensitivity)),
        ).choices.recurse,
    ensures
        ({
            let notes = notes_in(after, Some(search.sensitivity));
            let set = app.notes_taken(notes).search_set();
            &&& set == search
            &&& set.sensitivity == search.sensitivity
            &&& set.whole_frame == search.whole_frame
            &&& set.corners == search.corners
            &&& set.ignore_colour == search.ignore_colour
            &&& set.within_a_folder == search.within_a_folder
        }),
{
    a_folder_is_searched_as_it_was(before, after, search, text);
    a_folder_is_set_as_it_says(app, notes_in(after, Some(search.sensitivity)));
}

/// What the window is set to search for is what its controls say, each in its place.
pub proof fn what_is_searched_for_is_what_the_controls_say(app: AppView)
    ensures
        app.search_set().sensitivity == app.choices.sensitivity,
        app.search_set().whole_frame == app.choices.match_whole_frame,
        app.search_set().corners == app.choices.match_corners,
        app.search_set().ignore_colour == app.choices.ignore_colour,
        app.search_set().within_a_folder == app.choices.within_a_folder,
{
}

/// Whether the index is there is what the box about keeping it says, and what the
/// window holds of how the folder arrived; the boxes that depend on it come off where
/// it is not. The other controls are not touched.
pub proof fn the_index_box_says_whether_an_index_was_found(app: AppView, there: bool, now: u128)
    ensures
        ({
            let was = app.choices;
            let after = app.told_by_index(OpenedView::Found(there), now);
            &&& after.choices.keep_index == there
            &&& after.flow.opened_with_an_index == there
            &&& after.choices.auto_rescan == (was.auto_rescan && there)
            &&& after.choices.auto_mark == (was.auto_mark && was.auto_rescan && there)
            &&& after.choices.within_a_folder == (was.within_a_folder && was.recurse)
            &&& after.choices == (Choices {
                keep_index: after.choices.keep_index,
                auto_rescan: after.choices.auto_rescan,
                auto_mark: after.choices.auto_mark,
                within_a_folder: after.choices.within_a_folder,
                ..was
            })
            &&& after.flow == (Flow { opened_with_an_index: there, ..app.flow })
            &&& after.lit.times.contains_key(Lamp::CheckedForIndexFile)
            &&& after == (AppView {
                choices: after.choices,
                flow: after.flow,
                lit: after.lit,
                ..app
            })
        }),
{
}

/// What the opening of an index says is held where it belongs: pairs with the pairs,
/// marks with the marks, sets in place of the sets, and a failure as the problem
/// shown. Nothing else on screen follows from it but what a cleanup would take.
pub proof fn what_an_index_says_is_held_where_it_belongs(
    app: AppView,
    pairs: Seq<(i64, i64)>,
    marks: Seq<i64>,
    sets: Seq<(i64, Seq<i64>)>,
    message: Seq<char>,
    now: u128,
)
    ensures
        ({
            let ignored = app.told_by_index(OpenedView::Ignored(pairs), now);
            let kept = app.told_by_index(OpenedView::Kept(marks), now);
            &&& forall|pair: (i64, i64)|
                #[trigger] ignored.review.ignored.contains(pair) <==> app.review.ignored.contains(
                    pair,
                ) || pairs.contains(pair)
            &&& ignored.review.sets == app.review.sets && ignored.review.keep == app.review.keep
            &&& ignored == (AppView { review: ignored.review, ..app })
            &&& forall|file_id: i64|
                #[trigger] kept.kept_before.contains(file_id) <==> app.kept_before.contains(file_id)
                    || marks.contains(file_id)
            &&& kept == (AppView { kept_before: kept.kept_before, ..app })
            &&& app.told_by_index(OpenedView::Sets(sets), now) == (AppView {
                sets_before: sets,
                ..app
            })
            &&& app.told_by_index(OpenedView::Failed(message), now) == (AppView {
                error: Some(message),
                ..app
            })
        }),
{
}

/// The pictures an index holds are held once read, and the folder is compared then,
/// unless a pass has started in the meantime; either way the bar that measured the
/// reading goes back to nothing and the lamp for it is green.
pub proof fn pictures_are_held_once_read(app: AppView, now: u128)
    ensures
        ({
            let after = app.pictures_read(now);
            let lit = app.lighting(Lamp::LoadedIndexIntoMemory, now);
            &&& after.search.stage is None && !after.search.done && !after.search.reads_the_index
            &&& after.search.loaded == 0 && after.search.to_load == 0
            &&& after.search.shortlisted == 0 && after.search.to_shortlist == 0
            &&& after.search.compared == 0 && after.search.pairs == 0
            &&& after.lit.times.contains_key(Lamp::LoadedIndexIntoMemory)
            &&& app.flow.scanned_since_asking ==> after == (AppView { search: after.search, ..lit })
            &&& !app.flow.scanned_since_asking ==> {
                let held = AppView { flow: Flow { images: true, ..app.flow }, ..lit };
                after == (AppView { search: after.search, ..held.folder_looked_at() })
            }
        }),
{
}

/// Ticking the boxes about the folder sets each to what it was ticked to, but that
/// keeping an index where none was kept brings the folder up to date on opening too,
/// and that a box comes off where what it depends on does. The controls about what
/// counts as a duplicate stay as they are.
#[verifier::rlimit(40)]
pub proof fn a_box_is_what_it_was_ticked_to(app: AppView, boxes: Boxes)
    ensures
        ({
            let was = app.choices;
            let now = app.boxes_ticked(boxes).choices;
            let rescan = boxes.auto_rescan || (boxes.keep_index && !was.keep_index);
            let moved = boxes.recurse != was.recurse || boxes.keep_index != was.keep_index
                || boxes.auto_rescan != was.auto_rescan;
            &&& now.recurse == boxes.recurse
            &&& now.keep_index == boxes.keep_index
            &&& now.within_a_folder == (boxes.within_a_folder && (moved ==> boxes.recurse))
            &&& now.auto_rescan == (rescan && (moved ==> boxes.keep_index))
            &&& now.auto_mark == (boxes.auto_mark && (moved ==> rescan && boxes.keep_index))
            &&& now.sensitivity == was.sensitivity
            &&& now.ignore_colour == was.ignore_colour
            &&& now.match_whole_frame == was.match_whole_frame
            &&& now.match_corners == was.match_corners
        }),
{
}

/// The index goes, and with it everything on screen that came out of it, exactly where
/// the box that keeps it comes off. What opening does is written down where any of
/// the boxes moved and an index is open, as the boxes then stand, and the settings
/// where one about what is scanned or kept did.
pub proof fn what_ticking_a_box_leaves_to_do(app: AppView, boxes: Boxes)
    requires
        app.db_path is Some,
    ensures
        ({
            let was = app.choices;
            let after = app.boxes_ticked(boxes);
            let gone = was.keep_index && !boxes.keep_index;
            let moved = boxes.recurse != was.recurse || boxes.within_a_folder
                != was.within_a_folder || boxes.keep_index != was.keep_index || boxes.auto_rescan
                != was.auto_rescan || boxes.auto_mark != was.auto_mark;
            let saved = boxes.recurse != was.recurse || boxes.within_a_folder
                != was.within_a_folder || boxes.keep_index != was.keep_index;
            &&& after.todo == app.todo + (if gone {
                seq![ActionView::DiscardIndex, ActionView::ForgetThumbnails]
            } else {
                Seq::empty()
            }) + (if moved {
                seq![
                    ActionView::SetMeta(
                        seq![
                            ("auto_rescan"@, one_or_none(after.choices.auto_rescan)),
                            ("auto_mark"@, one_or_none(after.choices.auto_mark)),
                        ],
                    ),
                ]
            } else {
                Seq::empty()
            }) + (if saved {
                seq![ActionView::SaveSettings]
            } else {
                Seq::empty()
            })
            &&& gone ==> after.review.sets.len() == 0 && after.scan.total == 0
                && after.scan.finished is None
            &&& !gone ==> after.review == app.review && after.scan == app.scan
            &&& after.flow == app.flow && after.page == app.page && after.folder == app.folder
            &&& after.db_path == app.db_path && after.destination == app.destination
            &&& after.kept_before == app.kept_before && after.sets_before == app.sets_before
        }),
{
    let after = app.boxes_ticked(boxes);
    let was = app.choices;
    let ticked = AppView { choices: was.ticked(boxes), ..app };
    let gone = was.keep_index && !boxes.keep_index;
    let discarded = if gone {
        seq![ActionView::DiscardIndex, ActionView::ForgetThumbnails]
    } else {
        Seq::<ActionView>::empty()
    };
    let without = if gone {
        ticked.index_thrown_away()
    } else {
        ticked
    };
    assert(without.todo =~= app.todo + discarded);
    let moved = boxes.recurse != was.recurse || boxes.within_a_folder != was.within_a_folder
        || boxes.keep_index != was.keep_index || boxes.auto_rescan != was.auto_rescan
        || boxes.auto_mark != was.auto_mark;
    let meta = ActionView::SetMeta(
        seq![
            ("auto_rescan"@, one_or_none(after.choices.auto_rescan)),
            ("auto_mark"@, one_or_none(after.choices.auto_mark)),
        ],
    );
    let saved = boxes.recurse != was.recurse || boxes.within_a_folder != was.within_a_folder
        || boxes.keep_index != was.keep_index;
    if saved {
        assert(after.todo =~= without.todo.push(meta).push(ActionView::SaveSettings));
    } else if moved {
        assert(after.todo =~= without.todo.push(meta));
    } else {
        assert(after.todo =~= without.todo);
    }
}

/// How a tick and none are written.
pub open spec fn one_or_none(on: bool) -> Seq<char> {
    if on {
        "1"@
    } else {
        "0"@
    }
}

/// The controls about what counts as a duplicate are what they were set to and the
/// boxes about the folder stay as they are. What opening does is written down where a
/// way of matching was switched, and the settings where anything was moved but
/// nothing else is touched.
pub proof fn a_control_is_what_it_was_set_to(app: AppView, matching: Matching, moved: bool)
    requires
        app.db_path is Some,
    ensures
        ({
            let was = app.choices;
            let after = app.matching_set(matching, moved);
            let now = after.choices;
            let switched = matching.match_whole_frame != was.match_whole_frame
                || matching.match_corners != was.match_corners;
            &&& now.sensitivity == matching.sensitivity
            &&& now.match_whole_frame == matching.match_whole_frame
            &&& now.match_corners == matching.match_corners
            &&& now.ignore_colour == matching.ignore_colour
            &&& now.recurse == was.recurse && now.within_a_folder == was.within_a_folder
            &&& now.keep_index == was.keep_index && now.auto_rescan == was.auto_rescan
            &&& now.auto_mark == was.auto_mark
            &&& after.todo == app.todo + (if switched {
                seq![
                    ActionView::SetMeta(
                        seq![
                            ("auto_rescan"@, one_or_none(was.auto_rescan)),
                            ("auto_mark"@, one_or_none(was.auto_mark)),
                        ],
                    ),
                ]
            } else {
                Seq::empty()
            }) + (if switched || moved || matching.ignore_colour != was.ignore_colour {
                seq![ActionView::SaveSettings]
            } else {
                Seq::empty()
            })
            &&& after == (AppView { choices: now, todo: after.todo, ..app })
        }),
{
    let was = app.choices;
    let after = app.matching_set(matching, moved);
    let switched = matching.match_whole_frame != was.match_whole_frame || matching.match_corners
        != was.match_corners;
    let meta = ActionView::SetMeta(
        seq![
            ("auto_rescan"@, one_or_none(was.auto_rescan)),
            ("auto_mark"@, one_or_none(was.auto_mark)),
        ],
    );
    if switched {
        assert(after.todo =~= app.todo.push(meta).push(ActionView::SaveSettings));
        assert(app.todo.push(meta).push(ActionView::SaveSettings) =~= app.todo + seq![meta] + seq![
            ActionView::SaveSettings,
        ]);
    } else if moved || matching.ignore_colour != was.ignore_colour {
        assert(after.todo =~= app.todo.push(ActionView::SaveSettings));
        assert(after.todo =~= app.todo + Seq::<ActionView>::empty() + seq![
            ActionView::SaveSettings,
        ]);
    } else {
        assert(after.todo =~= app.todo + Seq::<ActionView>::empty() + Seq::<ActionView>::empty());
    }
}

/// A pass over a folder that has not said anything about itself is told as the folder
/// says; one that has been asked keeps its controls, whatever the pass says.
pub proof fn a_pass_tells_only_a_folder_that_was_not_asked(
    app: AppView,
    notes: NotesView,
    now: u128,
)
    ensures
        app.flow.noted ==> app.told_by_pass(UpdateView::Settings(notes), now) == app,
        !app.flow.noted ==> app.told_by_pass(UpdateView::Settings(notes), now)
            == app.notes_taken(notes),
{
}

/// A window opens on the scan page with its folder, its subfolders, colour, window
/// and pane as they were left, with every other control where a first look leaves it,
/// with nothing found, marked or under way but the folder to be asked about, and with
/// removed files going to the recycle bin.
pub proof fn a_window_opens_with_nothing_under_way(
    saved: SettingsView,
    db_path: Option<Seq<char>>,
    offered: Seq<Seq<char>>,
    now: u128,
)
    ensures
        ({
            let app = opened_on(saved, db_path, offered, now);
            &&& app.page == Page::Scan
            &&& app.folder == saved.folder && app.db_path == db_path && app.previous == offered
            &&& app.window == saved.window && app.preview_width == saved.preview_width
            &&& app.choices == (Choices {
                recurse: saved.recurse,
                ignore_colour: saved.ignore_colour,
                match_whole_frame: true,
                match_corners: true,
                within_a_folder: false,
                keep_index: false,
                auto_rescan: false,
                auto_mark: false,
                sensitivity: 0x402E_0000_0000_0000,
            })
            &&& app.flow == (Flow {
                opened_with_an_index: false,
                comparing: false,
                something_moved: false,
                question: None,
                mark_on_arrival: false,
                asking: false,
                scanned_since_asking: false,
                noted: false,
                running: false,
                searching: false,
                removing: false,
                removed_so_far: 0,
                to_remove: 0,
                tidying: false,
                scan_on_open: saved.folder is Some,
                images: false,
            })
            &&& app.destination == Destination::Trash && app.move_dir.len() == 0
            &&& app.review.sets.len() == 0 && app.review.plan.len() == 0
            &&& app.review.selected is None && app.review.filling_the_window is None
            &&& app.sets_before.len() == 0 && app.todo.len() == 0
            &&& app.cleanup_failures.len() == 0 && app.cleanup_result is None
            &&& app.error is None && app.covered is None
            &&& app.scan.total == 0 && app.scan.finished is None && app.search.stage is None
            &&& app.lit.started == now
            &&& forall|lamp: Lamp| #[trigger]
                app.lit.times.contains_key(lamp) <==> saved.folder is Some && lamp
                    == Lamp::CheckedForIndexFile
        }),
{
    reveal_strlit("");
}

/// What a window leaves for the next is what is on it: its folder, its subfolders,
/// the folders that were scanned, colour, where it is and how wide the pane is.
pub proof fn what_is_left_set_is_what_is_on_screen(app: AppView)
    ensures
        app.settings_left().folder == app.folder,
        app.settings_left().recurse == app.choices.recurse,
        app.settings_left().previous == app.previous,
        app.settings_left().ignore_colour == app.choices.ignore_colour,
        app.settings_left().window == app.window,
        app.settings_left().preview_width == app.preview_width,
{
}

/// Where a window is is taken down as it is measured, unless it is maximized: then
/// what it was before stays, marked as maximized, and nothing is made up where there
/// was nothing.
pub proof fn a_maximized_window_keeps_its_measurements(
    app: AppView,
    maximized: bool,
    place: Option<Place>,
)
    ensures
        ({
            let after = app.placed(maximized, place);
            &&& after == (AppView { window: after.window, ..app })
            &&& maximized ==> (after.window is Some <==> app.window is Some)
            &&& maximized && app.window is Some ==> after.window->0 == (Window {
                maximized: true,
                ..app.window->0
            })
            &&& !maximized && place is None ==> after.window == app.window
            &&& !maximized ==> (place matches Some(place) ==> {
                &&& after.window is Some
                &&& after.window->0.x == place.x && after.window->0.y == place.y
                &&& after.window->0.width == place.width && after.window->0.height == place.height
                &&& !after.window->0.maximized
            })
        }),
{
}

/// What the laws speak of is the window itself: every choice, everything under way and
/// every measurement as it is, and every text by its letters.
pub proof fn the_laws_speak_of_the_window_itself(app: App)
    ensures
        app@.page == app.page && app@.choices == app.choices && app@.flow == app.flow,
        app@.destination == app.destination && app@.window == app.window,
        app@.preview_width == app.preview_width && app@.search == app.search,
        app.folder is Some <==> app@.folder is Some,
        app.folder matches Some(folder) ==> app@.folder == Some(folder@),
        app.db_path matches Some(db_path) ==> app@.db_path == Some(db_path@),
        app.db_path is Some <==> app@.db_path is Some,
        app@.move_dir == app.move_dir@,
        app@.kept_before == app.kept_before@,
        app@.review.ignored == app.review.ignored@,
        app@.review.selected == app.review.selected,
        app@.review.showing == app.review.showing,
        app@.review.filling_the_window == app.review.filling_the_window,
        app@.review.sets.len() == app.review.sets@.len(),
        app@.scan.total == app.scan.total && app@.scan.done == app.scan.done,
        app@.scan.reading == app.scan.reading && app@.scan.writing == app.scan.writing,
        app@.scan.indexed == app.scan.indexed && app@.scan.to_index == app.scan.to_index,
        app@.todo.len() == app.todo@.len(),
        forall|at: int|
            0 <= at < app.todo@.len() ==> #[trigger] app@.todo[at] == app.todo@[at].deep_view(),
{
}

/// What is left to be done is shown as it is left: each thing as itself, with its own
/// texts, ticks and numbers.
pub proof fn what_is_left_to_do_is_shown_as_it_is(action: Action)
    ensures
        action matches Action::StartPass { folder, db_path, recurse, compare_only } ==> (
        action.deep_view() matches ActionView::StartPass {
            folder: f,
            db_path: d,
            recurse: r,
            compare_only: c,
        } && f == folder@ && d == db_path@ && r == recurse && c == compare_only),
        action matches Action::StartSearch(asked) ==> action.deep_view() == ActionView::StartSearch(
            asked,
        ),
        action matches Action::StartCleanup { root, disposal, keep_index } ==> (
        action.deep_view() matches ActionView::StartCleanup {
            root: r,
            disposal: d,
            keep_index: k,
        } && r == root@ && k == keep_index && (disposal is Trash <==> d is Trash) && (disposal is
            Delete <==> d is Delete) && (disposal matches Disposal::MoveTo(folder) ==> d
            == DisposalView::MoveTo(folder@))),
        action matches Action::AskTheIndex { db_path } ==> action.deep_view() == (
        ActionView::AskTheIndex { db_path: db_path@ }),
        action matches Action::RememberTheSets { sets, under } ==> (action.deep_view() matches
            ActionView::RememberTheSets { sets: s, under: u } && s == sets.deep_view() && u
            == under),
        action matches Action::KeepThese(ids) ==> action.deep_view() == ActionView::KeepThese(ids@),
        action matches Action::UnkeepThese(ids) ==> action.deep_view() == ActionView::UnkeepThese(
            ids@,
        ),
        action matches Action::Ignore(pairs) ==> action.deep_view() == ActionView::Ignore(pairs@),
        action matches Action::Unignore(pairs) ==> action.deep_view() == ActionView::Unignore(
            pairs@,
        ),
        action matches Action::SetMeta(values) ==> action.deep_view() == ActionView::SetMeta(
            values.deep_view(),
        ),
        action matches Action::LeaveOutOfImages(paths) ==> action.deep_view()
            == ActionView::LeaveOutOfImages(paths.deep_view()),
        action matches Action::PrimePreview { file_id, rel_path } ==> action.deep_view() == (
        ActionView::PrimePreview { file_id, rel_path: rel_path@ }),
        action matches Action::CoverText(text) ==> action.deep_view() == ActionView::CoverText(
            text@,
        ),
        action matches Action::BuildStoredSets { search_done } ==> action.deep_view() == (
        ActionView::BuildStoredSets { search_done }),
        action is SaveSettings <==> action.deep_view() is SaveSettings,
        action is ForgetThumbnails <==> action.deep_view() is ForgetThumbnails,
        action is PrimeThumbnails <==> action.deep_view() is PrimeThumbnails,
        action is CancelPass <==> action.deep_view() is CancelPass,
        action is StopSearch <==> action.deep_view() is StopSearch,
        action is Scan <==> action.deep_view() is Scan,
        action is BeginReview <==> action.deep_view() is BeginReview,
        action is ClearSets <==> action.deep_view() is ClearSets,
        action is ClearKeep <==> action.deep_view() is ClearKeep,
        action is DiscardIndex <==> action.deep_view() is DiscardIndex,
        action is CloseIndex <==> action.deep_view() is CloseIndex,
{
}

/// A picture is shown as it is: its number, its path, its size both ways, and whether the
/// search would keep it.
pub proof fn a_picture_is_spoken_of_as_it_is(member: Member)
    ensures
        member.deep_view().file_id == member.file_id,
        member.deep_view().rel_path == member.rel_path@,
        member.deep_view().width == member.width && member.deep_view().height == member.height,
        member.deep_view().format == member.format@,
        member.deep_view().size_bytes == member.size_bytes,
        member.deep_view().mtime_seconds == member.mtime_seconds,
        member.deep_view().auto_keep == member.auto_keep,
{
}

} // verus!
