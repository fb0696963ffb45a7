use imgdedupe::app::cleaning::{tidying, worth_rebuilding, Outcome, Removed, Tidying};
use imgdedupe::app::opening::Opened;
use imgdedupe::app::pages::{duplicate_count, Boxes, Matching, Place, RunButtons};
use imgdedupe::app::searching::Found;
use imgdedupe::app::{Action, App, Disposal};
use imgdedupe::indexer::Update;
use imgdedupe::lamps::{Lamp, Step};
use imgdedupe::notes::{read, Notes};
use imgdedupe::progress::{Progress, Stage};
use imgdedupe::sets::{DuplicateSet, Member};
use imgdedupe::settings::Settings;
use imgdedupe::state::{Destination, Direction, Page, Question, SetAction};
use imgdedupe::strictness::Limit;

fn picture(file_id: i64, best: bool) -> Member {
    Member {
        file_id,
        rel_path: format!("{file_id}.png"),
        width: 640,
        height: 480,
        format: String::from("png"),
        size_bytes: 1000 * file_id,
        mtime_seconds: 0,
        auto_keep: best,
    }
}

fn set(set_id: i64, ids: &[i64]) -> DuplicateSet {
    DuplicateSet {
        set_id,
        members: ids
            .iter()
            .enumerate()
            .map(|(at, id)| picture(*id, at == 0))
            .collect(),
    }
}

fn notes(said: &[(&str, &str)]) -> Notes {
    let held = said
        .iter()
        .map(|(key, value)| (String::from(*key), String::from(*value)))
        .collect();
    read(&held, None)
}

/// A word for each thing that is left to be done.
fn done(app: &mut App) -> Vec<String> {
    app.take_todo()
        .into_iter()
        .map(|action| match action {
            Action::SaveSettings => String::from("save"),
            Action::ForgetThumbnails => String::from("forget thumbnails"),
            Action::PrimePreview { file_id, rel_path } => format!("preview {file_id} {rel_path}"),
            Action::PrimeThumbnails => String::from("thumbnails"),
            Action::CoverText(text) => format!("cover {text}"),
            Action::AskTheIndex { db_path } => format!("ask {db_path}"),
            Action::StartPass { folder, compare_only, .. } => {
                format!("{} {folder}", if compare_only { "compare" } else { "pass" })
            }
            Action::CancelPass => String::from("cancel"),
            Action::StopSearch => String::from("stop"),
            Action::Scan => String::from("scan"),
            Action::StartSearch(asked) => match asked.limit {
                Limit::At(bits) => format!("search {}", f64::from_bits(bits)),
                Limit::Preset(preset) => format!("search {}", preset.label()),
            },
            Action::BuildStoredSets { search_done } => format!("build {search_done}"),
            Action::LeaveOutOfImages(paths) => format!("leave out {paths:?}"),
            Action::BeginReview => String::from("begin"),
            Action::RememberTheSets { sets, .. } => format!("remember {sets:?}"),
            Action::ClearSets => String::from("clear sets"),
            Action::ClearKeep => String::from("clear keep"),
            Action::Ignore(pairs) => format!("ignore {pairs:?}"),
            Action::Unignore(pairs) => format!("unignore {pairs:?}"),
            Action::KeepThese(ids) => format!("keep {ids:?}"),
            Action::UnkeepThese(ids) => format!("unkeep {ids:?}"),
            Action::SetMeta(values) => {
                let said: Vec<String> =
                    values.iter().map(|(key, value)| format!("{key}={value}")).collect();
                format!("meta {}", said.join(" "))
            }
            Action::DiscardIndex => String::from("discard"),
            Action::StartCleanup { root, disposal, keep_index } => {
                let to = match disposal {
                    Disposal::Trash => String::from("trash"),
                    Disposal::Delete => String::from("nowhere"),
                    Disposal::MoveTo(folder) => folder,
                };
                format!("clean {root} to {to} {keep_index}")
            }
            Action::CloseIndex => String::from("close"),
        })
        .collect()
}

/// A window on a folder, with nothing left to do.
fn window() -> App {
    let saved = Settings { folder: Some(String::from("/pictures")), ..Settings::default() };
    let mut app = App::from_settings(saved, 0);
    app.flow.scan_on_open = false;
    app.take_todo();
    app
}

/// A window with a review open.
fn reviewing(sets: Vec<DuplicateSet>) -> App {
    let mut app = window();
    app.accept_sets(sets);
    app.take_todo();
    app
}

#[test]
fn a_window_opens_on_the_folder_it_was_left_on() {
    let saved = Settings { folder: Some(String::from("/pictures")), recurse: true, ..Settings::default() };
    let mut app = App::from_settings(saved, 40);
    assert_eq!(app.db_path.as_deref(), Some("/pictures/imgdedupe.sqlite"));
    assert!(app.choices.recurse && app.flow.scan_on_open);
    assert_eq!(app.lit.at(Lamp::CheckedForIndexFile), Some(0));
    app.open_what_was_left_open(60);
    assert_eq!(done(&mut app), ["ask /pictures/imgdedupe.sqlite"]);
    assert!(app.flow.asking && !app.flow.scan_on_open);
    app.open_what_was_left_open(70);
    assert!(done(&mut app).is_empty());
    assert_eq!(app.settings().folder.as_deref(), Some("/pictures"));
}

#[test]
fn another_folder_starts_as_a_first_look_does() {
    let mut app = window();
    app.choices.recurse = true;
    app.choices.sensitivity = 3f64.to_bits();
    app.destination = Destination::Delete;
    app.open_folder(String::from("/other"), true, 10);
    assert!(!app.choices.recurse && app.choices.keep_index);
    assert_eq!(f64::from_bits(app.choices.sensitivity), 15.0);
    assert_eq!(app.destination, Destination::Trash);
    assert_eq!(
        done(&mut app),
        ["forget thumbnails", "save", "ask /other/imgdedupe.sqlite"]
    );
    // The same folder again keeps what it is set to.
    app.choices.recurse = true;
    app.open_folder(String::from("/other"), true, 20);
    assert!(app.choices.recurse);
}

#[test]
fn a_dropped_folder_is_opened_and_scanned() {
    let mut app = window();
    app.page = Page::Cleanup;
    app.take_dropped_folder(String::from("/dropped"), false, 5);
    assert_eq!(app.page, Page::Scan);
    assert_eq!(app.folder.as_deref(), Some("/dropped"));
    assert_eq!(done(&mut app).last().unwrap(), "scan");
    app.flow.running = true;
    app.take_dropped_folder(String::from("/busy"), false, 5);
    assert_eq!(app.folder.as_deref(), Some("/dropped"));
}

#[test]
fn a_folder_with_an_index_is_compared_with_it() {
    let mut app = window();
    app.flow.asking = true;
    app.hear_the_index(
        vec![
            Opened::Found(true),
            Opened::Sets(vec![(1, vec![1, 2])]),
            Opened::Notes(notes(&[("recurse", "1"), ("auto_rescan", "1")])),
            Opened::Ignored(vec![(1, 2)]),
            Opened::Kept(vec![2]),
            Opened::Index,
        ],
        true,
        90,
    );
    assert!(app.choices.recurse && app.choices.auto_rescan && app.choices.keep_index);
    assert!(app.flow.images && app.flow.comparing && app.flow.running && !app.flow.asking);
    assert!(app.review.ignored.contains((1, 2)));
    assert!(app.kept_before.contains(&2));
    assert_eq!(done(&mut app), ["compare /pictures"]);
}

#[test]
fn a_folder_without_an_index_says_nothing_of_rescanning() {
    let mut app = window();
    app.flow.asking = true;
    app.hear_the_index(
        vec![Opened::Found(false), Opened::Notes(notes(&[("auto_rescan", "1"), ("auto_mark", "1")]))],
        false,
        90,
    );
    assert!(!app.choices.auto_rescan && !app.choices.auto_mark && !app.choices.keep_index);
    assert!(app.flow.asking);
    app.hear_the_index(vec![Opened::Failed(String::from("locked"))], true, 91);
    assert_eq!(app.error.as_deref(), Some("locked"));
}

#[test]
fn pictures_older_than_a_pass_are_not_taken() {
    let mut app = window();
    app.flow.asking = true;
    app.flow.opened_with_an_index = true;
    app.flow.scanned_since_asking = true;
    app.hear_the_index(vec![Opened::Index], false, 3);
    assert!(!app.flow.images && !app.flow.running);
    assert!(done(&mut app).is_empty());
}

#[test]
fn a_changed_folder_with_a_saved_review_is_asked_about() {
    let mut app = window();
    app.flow.images = true;
    app.sets_before = vec![(1, vec![1, 2])];
    app.decide_what_opening_the_folder_does(true, 0);
    assert_eq!(app.flow.question, Some(Question::TheFolderChanged));
    assert!(done(&mut app).is_empty());
    app.answer_the_question(true);
    assert_eq!(app.flow.question, None);
    assert_eq!(done(&mut app), ["build false"]);

    app.flow.question = Some(Question::TheFolderChanged);
    app.answer_the_question(false);
    assert_eq!(done(&mut app), ["clear sets", "scan"]);
    assert!(app.sets_before.is_empty());
    app.answer_the_question(false);
    assert!(done(&mut app).is_empty());
}

#[test]
fn opening_a_folder_does_what_it_says() {
    let mut app = window();
    app.flow.images = true;
    app.choices.auto_rescan = true;
    app.sets_before = vec![(1, vec![1, 2])];
    app.decide_what_opening_the_folder_does(true, 0);
    assert_eq!(done(&mut app), ["scan"]);
    app.decide_what_opening_the_folder_does(false, 0);
    assert_eq!(done(&mut app), ["build true"]);
    app.sets_before.clear();
    app.decide_what_opening_the_folder_does(false, 0);
    assert_eq!(done(&mut app), ["search 15"]);
    assert!(app.flow.searching);
}

#[test]
fn a_scan_starts_from_nothing() {
    let mut app = reviewing(vec![set(1, &[1, 2])]);
    app.kept_before.insert(2);
    app.flow.images = true;
    app.start_scan(true, 7);
    assert!(app.flow.running && !app.flow.images && app.choices.keep_index);
    assert!(app.review.sets.is_empty() && app.kept_before.contains(&2));
    assert_eq!(app.previous, ["/pictures"]);
    assert_eq!(
        done(&mut app),
        ["clear sets", "forget thumbnails", "save", "pass /pictures"]
    );
    app.flow.running = false;
    app.start_scan(false, 8);
    assert_eq!(done(&mut app), ["clear sets", "forget thumbnails", "pass /pictures"]);
}

#[test]
fn a_pass_is_followed_by_a_search() {
    let mut app = window();
    app.flow.running = true;
    app.choices.auto_mark = true;
    app.pump_indexer(
        vec![
            Update::Reached(Step::StartedReadingNewFiles),
            Update::Walking { found: 3, of: None },
            Update::Start { total: 4 },
            Update::Progress { done: 2, per_sec: 9, unchanged: 1, removed: 0, ignored: 0 },
            Update::Indexed { done: 4, total: 4, read: 4, unchanged: 1, ignored: 0 },
            Update::Failed { path: String::from("x"), message: String::from("y") },
            Update::Images,
            Update::Done { indexed: 3, removed: 0, failed: 1, elapsed: String::from("0.1") },
            Update::Finished { cancelled: false, error: None },
            Update::Walking { found: 99, of: None },
        ],
        50,
    );
    assert_eq!(app.scan.reading, Stage::Over);
    assert_eq!(app.scan.writing, Stage::Over);
    assert_eq!(app.scan.listing, None);
    assert_eq!(app.scan.failures.len(), 1);
    assert!(app.flow.something_moved && app.flow.mark_on_arrival && app.flow.searching);
    assert!(!app.flow.running);
    assert_eq!(done(&mut app), ["search 15"]);
}

#[test]
fn an_empty_folder_lights_nothing() {
    let mut app = window();
    app.flow.running = true;
    app.pump_indexer(
        vec![
            Update::Reached(Step::ListedTheFolder),
            Update::Start { total: 0 },
            Update::Finished { cancelled: false, error: None },
        ],
        50,
    );
    assert_eq!(app.lit.at(Lamp::ListedTheFolder), None);
    assert_eq!(app.scan.finished.as_deref(), Some("No images found in this folder"));
    assert!(!app.flow.searching && done(&mut app).is_empty());
}

#[test]
fn a_pass_that_fails_or_is_cancelled_says_so() {
    let mut app = window();
    app.flow.running = true;
    app.pump_indexer(vec![Update::Finished { cancelled: true, error: None }], 0);
    assert_eq!(app.scan.finished.as_deref(), Some("cancelled"));
    app.flow.running = true;
    app.pump_indexer(
        vec![Update::Finished { cancelled: false, error: Some(String::from("no disk")) }],
        0,
    );
    assert_eq!(app.error.as_deref(), Some("no disk"));
    app.dismiss_error();
    assert_eq!(app.error, None);
    app.pass_did_not_start(String::from("no thread"));
    assert_eq!(app.error.as_deref(), Some("no thread"));
}

#[test]
fn a_pass_does_not_put_the_boxes_back() {
    let mut app = window();
    app.flow.running = true;
    app.flow.noted = true;
    app.pump_indexer(vec![Update::Settings(notes(&[("recurse", "1")]))], 0);
    assert!(!app.choices.recurse);
    app.flow.noted = false;
    app.pump_indexer(vec![Update::Settings(notes(&[("recurse", "1")]))], 0);
    assert!(app.choices.recurse && app.flow.noted);
}

#[test]
fn the_comparison_decides_what_happens_next() {
    let mut app = window();
    app.flow.running = true;
    app.flow.comparing = true;
    app.flow.images = true;
    app.pump_indexer(
        vec![
            Update::Done { indexed: 0, removed: 1, failed: 0, elapsed: String::from("0.0") },
            Update::Finished { cancelled: false, error: None },
        ],
        0,
    );
    assert_eq!(done(&mut app), ["scan"]);
    assert!(!app.flow.comparing);
}

#[test]
fn found_sets_are_marked_written_down_and_shown() {
    let mut app = window();
    app.flow.searching = true;
    app.flow.mark_on_arrival = true;
    app.kept_before.insert(5);
    app.pump_search(
        vec![
            Found::Progress(Progress::Comparing { done: 1, total: 2 }),
            Found::Sets(vec![set(1, &[1, 2]), set(2, &[4, 5])]),
        ],
        30,
    );
    assert!(!app.flow.searching && app.search.done);
    assert_eq!(app.page, Page::Review);
    assert_eq!(app.review.selected, Some(1));
    assert_eq!(
        done(&mut app),
        [
            "begin",
            "forget thumbnails",
            "keep [1, 4]",
            "preview 1 1.png",
            "thumbnails",
            "remember [(1, [1, 2]), (2, [4, 5])]",
            "cover 1.png2.png4.png5.png",
        ]
    );
    assert!(app.take_list_to_top() && !app.take_list_to_top());
}

#[test]
fn nothing_to_compare_and_nothing_found_are_different_answers() {
    let mut app = window();
    app.accept_sets(Vec::new());
    assert_eq!(app.scan.finished.as_deref(), Some("No files in this folder"));
    app.scan.total = 3;
    app.accept_sets(Vec::new());
    assert_eq!(app.scan.finished.as_deref(), Some("No duplicates found for current settings"));
    app.flow.searching = true;
    app.pump_search(vec![Found::Cancelled], 0);
    assert_eq!(app.scan.finished.as_deref(), Some("cancelled"));
    app.flow.searching = true;
    app.pump_search(vec![Found::Failed(String::from("torn"))], 0);
    assert_eq!(app.error.as_deref(), Some("torn"));
}

#[test]
fn a_stored_review_is_opened_again() {
    let mut app = window();
    assert!(!app.open_the_stored_review(Vec::new(), true));
    assert!(app.open_the_stored_review(vec![set(1, &[1, 2])], true));
    assert!(app.search.done);
    assert_eq!(app.page, Page::Review);
}

#[test]
fn marks_are_written_as_they_change() {
    let mut app = reviewing(vec![set(1, &[1, 2, 3]), set(2, &[4, 5])]);
    app.double_click(2, false);
    app.double_click(3, false);
    app.press_space(false);
    app.double_click(1, true);
    assert_eq!(
        done(&mut app),
        ["keep [2]", "keep [3]", "unkeep [3]", "unkeep [2]", "keep [1]"]
    );
    app.press(0, SetAction::KeepAll);
    app.press(0, SetAction::KeepNone);
    app.press(1, SetAction::Ignore);
    app.press(1, SetAction::Unignore);
    assert_eq!(
        done(&mut app),
        ["keep [2, 3]", "unkeep [1, 2, 3]", "ignore [(4, 5)]", "unignore [(4, 5)]"]
    );
    app.keep_this_one(1, 2);
    app.auto_mark_to_keep();
    app.keep_everything();
    assert_eq!(done(&mut app), ["keep [2]", "keep [1, 4]", "keep [3, 5]"]);
    app.unmark_everything();
    let left = done(&mut app);
    assert_eq!(left.len(), 1);
    assert!(left[0].starts_with("unkeep ["));
}

#[test]
fn marks_are_written_nowhere_without_an_index() {
    let mut app = reviewing(vec![set(1, &[1, 2])]);
    app.db_path = None;
    app.double_click(2, false);
    app.press(0, SetAction::Ignore);
    assert!(done(&mut app).is_empty());
    assert!(app.tile(0, 2).kept == false);
}

#[test]
fn an_ignored_set_shows_nothing_as_kept() {
    let mut app = reviewing(vec![set(1, &[1, 2])]);
    app.double_click(2, false);
    let tile = app.tile(0, 2);
    assert!(tile.kept && tile.showing);
    assert!(!app.can_keep(1, 2) && app.can_keep(1, 1));
    assert_eq!(app.selected_for_removal(), (1, 1000));
    assert!(app.tab_usable(Page::Cleanup));
    app.press(0, SetAction::Ignore);
    let tile = app.tile(0, 2);
    assert!(!tile.kept && !tile.showing);
    assert_eq!(app.selected_for_removal(), (0, 0));
    assert!(app.tab_usable(Page::Review) && !app.tab_usable(Page::Cleanup));
    app.open_tab(Page::Cleanup);
    assert_eq!(app.page, Page::Review);
    app.go_to_cleanup();
    assert_eq!(app.page, Page::Review);
}

#[test]
fn the_preview_is_walked_and_scrolled_to() {
    let mut app = reviewing(vec![set(1, &[1, 2]), set(2, &[4, 5])]);
    app.select(2);
    app.walk(&vec![0, 1], Direction::Forward);
    assert_eq!(app.review.selected, Some(4));
    assert_eq!(app.take_scroll_to(), Some(1));
    assert_eq!(app.take_scroll_to(), None);
    assert!(!app.take_show_selected(0));
    assert!(app.take_show_selected(1));
    assert!(!app.take_show_selected(1));
    app.show_selected_picture();
    assert_eq!(app.review.showing, Some(4));
    let (set_id, member) = app.picture_called(Some(5)).unwrap();
    assert_eq!((set_id, member.file_id), (2, 5));
    assert!(app.picture_called(None).is_none() && app.picture_called(Some(99)).is_none());
}

#[test]
fn a_picture_fills_the_window_while_it_is_there() {
    let mut app = reviewing(vec![set(1, &[1, 2])]);
    assert!(app.filling_the_window().is_none());
    app.fill_the_window(2);
    assert_eq!(app.filling_the_window().unwrap().rel_path, "2.png");
    app.put_picture_away();
    assert!(app.filling_the_window().is_none());
    app.fill_the_window(9);
    assert!(app.filling_the_window().is_none());
    assert_eq!(app.review.filling_the_window, None);
}

#[test]
fn a_scan_after_a_cancelled_comparison_is_searched() {
    let mut app = reviewing(vec![set(1, &[1, 2])]);
    app.flow.running = true;
    app.flow.comparing = true;
    app.cancel_work();
    assert!(!app.flow.running && !app.flow.comparing);
    app.flow.running = true;
    app.flow.images = true;
    app.scan.total = 2;
    app.take_todo();
    app.pump_indexer(vec![Update::Finished { cancelled: false, error: None }], 9);
    assert!(app.flow.searching);
    assert!(app.take_todo().iter().any(|action| matches!(action, Action::StartSearch(_))));
}

#[test]
fn cancelling_leaves_nothing_of_the_work() {
    let mut app = reviewing(vec![set(1, &[1, 2])]);
    app.flow.running = true;
    app.flow.searching = true;
    app.flow.images = true;
    app.scan.total = 9;
    app.error = Some(String::from("torn"));
    assert!(app.can_cancel() && app.busy());
    app.cancel_work();
    assert!(!app.busy() && !app.flow.images);
    assert!(app.review.sets.is_empty() && app.error.is_none());
    assert_eq!(app.scan.total, 0);
    assert_eq!(done(&mut app), ["cancel", "stop", "forget thumbnails"]);
    assert_eq!(app.folder.as_deref(), Some("/pictures"));
}

#[test]
fn the_index_box_carries_the_others() {
    let mut app = window();
    let off = Boxes {
        recurse: false,
        within_a_folder: false,
        keep_index: false,
        auto_rescan: false,
        auto_mark: false,
    };
    app.tick(off);
    assert!(done(&mut app).is_empty());
    app.tick(Boxes { keep_index: true, ..off });
    assert!(app.choices.auto_rescan);
    assert_eq!(done(&mut app), ["meta auto_rescan=1 auto_mark=0", "save"]);
    app.tick(Boxes { keep_index: true, auto_rescan: true, auto_mark: true, ..off });
    assert_eq!(done(&mut app), ["meta auto_rescan=1 auto_mark=1"]);
    app.tick(Boxes { auto_rescan: true, auto_mark: true, ..off });
    assert!(!app.choices.auto_rescan && !app.choices.auto_mark);
    assert_eq!(
        done(&mut app),
        ["discard", "forget thumbnails", "meta auto_rescan=0 auto_mark=0", "save"]
    );
}

#[test]
fn matching_within_folders_needs_subfolders() {
    let mut app = window();
    assert!(!app.usable_boxes().within_a_folder && app.usable_boxes().recurse);
    let boxes = Boxes {
        recurse: true,
        within_a_folder: true,
        keep_index: false,
        auto_rescan: false,
        auto_mark: false,
    };
    app.tick(boxes);
    assert!(app.choices.within_a_folder && app.usable_boxes().within_a_folder);
    app.tick(Boxes { recurse: false, ..boxes });
    assert!(!app.choices.within_a_folder);
    assert!(!app.usable_boxes().auto_rescan && !app.usable_boxes().auto_mark);
    app.flow.running = true;
    assert!(!app.usable_boxes().recurse && !app.usable_boxes().keep_index);
}

#[test]
fn what_counts_as_a_duplicate_is_saved_where_it_changes() {
    let mut app = window();
    let matching = Matching {
        sensitivity: app.choices.sensitivity,
        match_whole_frame: true,
        match_corners: true,
        ignore_colour: false,
    };
    app.set_matching(matching, false);
    assert!(done(&mut app).is_empty());
    app.set_matching(Matching { sensitivity: 5f64.to_bits(), ..matching }, true);
    assert_eq!(done(&mut app), ["save"]);
    app.set_matching(Matching { match_corners: false, ..matching }, false);
    assert_eq!(done(&mut app), ["meta auto_rescan=0 auto_mark=0", "save"]);
    app.set_matching(Matching { match_corners: false, ignore_colour: true, ..matching }, false);
    assert_eq!(done(&mut app), ["save"]);
    assert!(app.search_settings().ignore_colour && !app.search_settings().corners);
}

#[test]
fn the_buttons_wait_for_what_they_need() {
    let mut app = App::from_settings(Settings::default(), 0);
    assert_eq!(
        app.run_buttons(),
        RunButtons { scan: false, cancel: false, find_duplicates: false }
    );
    app.open_folder(String::from("/pictures"), false, 1);
    assert_eq!(app.run_buttons(), RunButtons { scan: true, cancel: false, find_duplicates: true });
    app.flow.searching = true;
    assert_eq!(app.run_buttons(), RunButtons { scan: false, cancel: true, find_duplicates: false });
    assert!(app.shows_progress());
    app.flow.searching = false;
    assert!(!app.shows_progress());
    app.take_todo();
    app.find_duplicates(2);
    assert_eq!(done(&mut app), ["scan"]);
    app.flow.images = true;
    app.find_duplicates(2);
    assert_eq!(done(&mut app), ["search 15"]);
    assert!(app.choices.sensitivity == 15f64.to_bits());
}

#[test]
fn a_maximized_window_keeps_the_size_it_had() {
    let mut app = window();
    app.note_window(true, None);
    assert!(app.window.is_none());
    let place = Place { x: 1, y: 2, width: 3, height: 4 };
    app.note_window(false, Some(place));
    app.note_window(true, Some(Place { x: 0, y: 0, width: 9, height: 9 }));
    let window = app.window.unwrap();
    assert_eq!((window.x, window.width, window.maximized), (1, 3, true));
    app.note_window(false, None);
    assert!(app.window.unwrap().maximized);
    app.note_preview(7);
    assert_eq!(app.settings().preview_width, Some(7));
}

#[test]
fn the_letters_of_a_folder_are_covered_once() {
    let mut app = window();
    app.cover_folder();
    assert_eq!(done(&mut app), ["cover /pictures"]);
    app.cover_folder();
    assert!(done(&mut app).is_empty());
    app.folder = Some(String::from("/写真"));
    app.cover_folder();
    assert_eq!(done(&mut app), ["cover /写真"]);
    app.cover_folder_given(false);
    assert_eq!(done(&mut app), ["cover /写真"]);
}

#[test]
fn previous_folders_are_forgotten_together() {
    let mut app = window();
    app.previous = vec![String::from("/a")];
    app.forget_previous();
    assert!(app.previous.is_empty());
    assert_eq!(done(&mut app), ["save"]);
}

#[test]
fn a_cleanup_goes_where_it_was_told() {
    let mut app = reviewing(vec![set(1, &[1, 2])]);
    assert!(!app.cleanup_ready());
    app.double_click(2, false);
    assert!(app.cleanup_ready());
    assert_eq!(app.cleanup_button(), "Remove 1 files");
    app.take_todo();
    app.choose_destination(Destination::MoveTo);
    app.choose_move_dir(String::from("/away"));
    assert_eq!(app.cleanup_button(), "Move 1 files");
    app.run_cleanup();
    assert_eq!(
        done(&mut app),
        [
            "meta disposal=move move_dir=",
            "meta disposal=move move_dir=/away",
            "clean /pictures to /away false",
        ]
    );
    assert!(app.flow.removing && app.busy() && !app.can_cancel() && !app.cleanup_ready());
    assert_eq!(app.removal_bar(), (String::from("moving 0 of 1"), 0, 1));
    app.run_cleanup();
    assert!(done(&mut app).is_empty());
    app.pump_cleanup(vec![Removed::Progress(1), Removed::Tidying]);
    assert_eq!(app.removal_bar(), (String::from("tidying the index"), 1, 1));
}

#[test]
fn a_cleanup_that_takes_everything_ends_on_the_scan_page() {
    let mut app = reviewing(vec![set(1, &[1, 2])]);
    app.double_click(2, false);
    app.choices.keep_index = true;
    app.flow.images = true;
    app.run_cleanup();
    app.take_todo();
    let outcome = Outcome {
        removed: vec![String::from("1.png")],
        failed: Vec::new(),
        freed: String::from("0.0"),
    };
    app.pump_cleanup(vec![Removed::Done(outcome, 1)]);
    assert_eq!(
        app.cleanup_result.as_deref(),
        Some("removed 1 files, freed 0.0 MB, 0 failed, 1 dropped from the index")
    );
    assert_eq!(app.page, Page::Scan);
    assert_eq!(app.scan.finished.as_deref(), Some("cleanup done."));
    assert!(app.review.sets.is_empty() && !app.flow.removing);
    assert_eq!(done(&mut app), ["leave out [\"1.png\"]", "clear sets", "clear keep"]);
}

#[test]
fn what_would_not_go_stays_with_its_reason() {
    let mut app = reviewing(vec![set(1, &[1, 2, 3])]);
    app.double_click(3, false);
    app.page = Page::Cleanup;
    app.run_cleanup();
    let outcome = Outcome {
        removed: vec![String::from("1.png")],
        failed: vec![(String::from("2.png"), String::from("read only"))],
        freed: String::from("1.0"),
    };
    app.pump_cleanup(vec![Removed::Done(outcome, 0)]);
    assert_eq!(
        app.cleanup_result.as_deref(),
        Some("removed 1 files, freed 1.0 MB, 1 failed, the index was deleted")
    );
    assert_eq!(app.page, Page::Cleanup);
    assert_eq!(app.review.sets[0].ids(), [2, 3]);
    assert_eq!(app.removal_line(0), (String::from("2.png  read only"), true));
    app.cleanup_failures.clear();
    assert_eq!(app.removal_line(0), (String::from("2.png"), false));
    app.run_cleanup();
    app.pump_cleanup(vec![Removed::Failed(String::from("no bin"))]);
    assert_eq!(app.error.as_deref(), Some("no bin"));
    assert!(!app.flow.removing);
}

#[test]
fn an_index_is_tidied_where_something_went() {
    assert_eq!(tidying(false, 0), Tidying::DeleteIndex);
    assert_eq!(tidying(true, 0), Tidying::Nothing);
    assert_eq!(tidying(true, 3), Tidying::DropRows);
    assert!(worth_rebuilding(1) && !worth_rebuilding(0));
}

#[test]
fn closing_saves_and_waits_for_the_index() {
    let mut app = window();
    app.on_exit();
    assert_eq!(done(&mut app), ["save", "close"]);
    app.flow.running = true;
    app.on_exit();
    assert_eq!(done(&mut app), ["save", "cancel", "close"]);
    assert!(!app.flow.running);
}

#[test]
fn duplicates_are_every_picture_but_one_of_each_set() {
    assert_eq!(duplicate_count(&vec![set(1, &[1, 2, 3]), set(2, &[4, 5])]), 3);
    assert_eq!(duplicate_count(&Vec::new()), 0);
    assert_eq!(duplicate_count(&vec![set(1, &[1, 2, 3])]), 2);
    assert_eq!(duplicate_count(&vec![set(2, &[4, 5])]), 1);
}
