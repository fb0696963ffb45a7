use imgdedupe::folders::{default_db_path, holds_folder, order_of, sameness, sorted_by, sorted_given};
use imgdedupe::indexer::{next_ask, pass, update, Ask, Event, Heard, Update, Work};
use imgdedupe::lamps::{how_it_went, lamps, Lamp, Lit, Step};
use imgdedupe::metadata::{lines, Group, Metadata, Wanted};
use imgdedupe::notes::{mark, ran_under, read, value, Search};
use imgdedupe::progress::{bar_fill, fraction, Fill, Progress, ScanState, SearchState, Stage};
use imgdedupe::settings::{
    fields, parse_width, parse_window, settings_from, sorted, written, Field, Key, Settings, Shown, Window,
};
use imgdedupe::state::Went;

fn texts(row: &[&str]) -> Vec<String> {
    row.iter().map(|text| String::from(*text)).collect()
}

fn pair(key: &str, value: &str) -> (String, String) {
    (String::from(key), String::from(value))
}

/// The numbers the pieces of each line are, the way a program reads them.
fn numbers(said: &[Field]) -> Vec<Vec<Option<u32>>> {
    said.iter()
        .map(|field| {
            field
                .value
                .split(',')
                .map(|piece| piece.trim().parse::<f32>().ok().map(f32::to_bits))
                .collect()
        })
        .collect()
}

fn read_settings(text: &str) -> Settings {
    let said = fields(text);
    let parts = numbers(&said);
    settings_from(&said, &parts)
}

fn shown(settings: &Settings) -> Shown {
    let of = |bits: u32| f32::from_bits(bits).to_string();
    let window = settings.window.unwrap_or(Window { x: 0, y: 0, width: 0, height: 0, maximized: false });
    Shown {
        x: of(window.x),
        y: of(window.y),
        width: of(window.width),
        height: of(window.height),
        preview_width: of(settings.preview_width.unwrap_or(0)),
    }
}

#[test]
fn folders_are_offered_alphabetically_and_once() {
    assert_eq!(
        sorted(&texts(&["/b", "/C", "/a", "/b", "/É", "/é"])),
        texts(&["/a", "/b", "/C", "/É", "/é"])
    );
    assert_eq!(sorted(&[]), Vec::<String>::new());
}

#[test]
fn a_folder_written_another_way_is_the_same_folder() {
    assert_eq!(sorted(&texts(&["/pictures/", "/pictures"])), texts(&["/pictures/"]));
    assert!(holds_folder(&texts(&["/pictures"]), "/pictures/"));
    assert!(!holds_folder(&texts(&["/pictures"]), "/picture"));
    assert_eq!(sameness(&texts(&["/a", "/b", "/a/"])), vec![vec![], vec![false], vec![true, false]]);
}

#[test]
fn folders_are_told_apart_by_their_steps() {
    let folders = texts(&["/a.b", "/a/b", "/a/b.", "/a/..", "a", "./a", ".", "", "/", "/A/b"]);
    for row in sameness(&folders) {
        assert!(row.iter().all(|same| !same));
    }
    assert!(holds_folder(&texts(&["/a/./b"]), "/a/b"));
    assert!(holds_folder(&texts(&["/a//b"]), "/a/b"));
    assert!(holds_folder(&texts(&["././a/."]), "./a"));
    assert!(holds_folder(&texts(&["/./"]), "/"));
    assert!(holds_folder(&texts(&["a/./b//"]), "a/b"));
}

#[test]
fn equal_keys_stay_as_they_came() {
    let same = vec![vec![], vec![false]];
    assert_eq!(sorted_given(&texts(&["/A", "/a"]), &same), texts(&["/A", "/a"]));
    assert_eq!(sorted_given(&texts(&["/a", "/A"]), &same), texts(&["/a", "/A"]));
}

#[test]
fn folders_stand_in_the_order_of_their_lower_case() {
    let names = texts(&["/B", "/a", "/b", "/A"]);
    let lowered = texts(&["/b", "/a", "/b", "/a"]);
    assert_eq!(order_of(&lowered), [1, 3, 0, 2]);
    assert_eq!(sorted_by(&names, &lowered), texts(&["/a", "/A", "/B", "/b"]));
    assert_eq!(sorted_by(&Vec::new(), &Vec::new()), Vec::<String>::new());
}

#[test]
fn the_index_lies_in_the_folder_it_describes() {
    assert_eq!(default_db_path("/pictures"), "/pictures/imgdedupe.sqlite");
    assert_eq!(default_db_path("/pictures/"), "/pictures/imgdedupe.sqlite");
    assert_eq!(default_db_path("/"), "/imgdedupe.sqlite");
    assert_eq!(default_db_path(""), "imgdedupe.sqlite");
    assert_eq!(default_db_path("/pictures/./2"), "/pictures/./2/imgdedupe.sqlite");
}

#[test]
fn settings_are_read_line_by_line() {
    let settings = read_settings(
        " folder =/my pictures\r\n recurse = 1 \nignore_colour=yes\nnonsense\nother=3\n\
         previous=/b\nprevious=\nprevious=/a\nwindow=1, 2,300,400,1\npreview_width=250.5",
    );
    assert_eq!(settings.folder.as_deref(), Some("/my pictures"));
    assert!(settings.recurse && !settings.ignore_colour);
    assert_eq!(settings.previous, texts(&["/a", "/b"]));
    let window = settings.window.unwrap();
    assert_eq!(f32::from_bits(window.y), 2.0);
    assert_eq!(f32::from_bits(window.width), 300.0);
    assert!(window.maximized);
    assert_eq!(settings.preview_width, Some(250.5f32.to_bits()));
}

#[test]
fn no_settings_are_the_first_settings() {
    let settings = read_settings("");
    assert_eq!(settings.folder, None);
    assert!(!settings.recurse && !settings.ignore_colour);
    assert!(settings.previous.is_empty());
    assert!(settings.window.is_none() && settings.preview_width.is_none());
    assert_eq!(read_settings("folder=\n").folder, None);
    assert_eq!(read_settings("folder=\r\n").folder, None);
}

#[test]
fn a_folder_is_kept_exactly_as_it_was_written() {
    assert_eq!(read_settings("folder=/pics \n").folder.as_deref(), Some("/pics "));
    assert_eq!(read_settings("folder= /pics\t\r\n").folder.as_deref(), Some(" /pics\t"));
    assert_eq!(read_settings("folder=/pics=2 ").folder.as_deref(), Some("/pics=2 "));
    assert_eq!(read_settings("folder=/pics\r").folder.as_deref(), Some("/pics\r"));
    assert_eq!(read_settings("previous=/b \nprevious= /a\r\n").previous, texts(&["/a", "/b"]));
}

#[test]
fn a_width_is_one_number_and_nothing_else() {
    let width = |text: &str| read_settings(text).preview_width;
    assert_eq!(width("preview_width= 300 \n"), Some(300f32.to_bits()));
    assert_eq!(width("preview_width=300,5\n"), None);
    assert_eq!(width("preview_width=300,\n"), None);
    assert_eq!(width("preview_width=0\n"), None);
    assert_eq!(width("preview_width=wide\n"), None);
    assert_eq!(parse_width("300", &vec![Some(300f32.to_bits())]), Some(300f32.to_bits()));
}

#[test]
fn a_line_that_is_not_all_five_numbers_is_no_window() {
    let window = |value: &str| {
        let field = Field { key: Key::Window, value: String::from(value) };
        let parts = numbers(std::slice::from_ref(&field));
        parse_window(value, &parts[0])
    };
    assert_eq!(window("1,2,3,4"), None);
    assert_eq!(window("1,2,three,4,0"), None);
    assert_eq!(window("1,2,0,4,0"), None);
    assert_eq!(window("1,2,3,-4,0"), None);
    assert_eq!(window("1,2,NaN,4,0"), None);
    assert!(!window("-1,-2,3,4,0").unwrap().maximized);
    assert!(window("1,2,3,4,1").unwrap().maximized);
}

#[test]
fn what_is_written_is_read_back() {
    let settings = Settings {
        folder: Some(String::from("/pictures ")),
        recurse: true,
        previous: texts(&["/b", "/a", "/b"]),
        ignore_colour: false,
        window: Some(Window {
            x: 10.5f32.to_bits(),
            y: (-3.0f32).to_bits(),
            width: 1100f32.to_bits(),
            height: 860f32.to_bits(),
            maximized: true,
        }),
        preview_width: Some(420f32.to_bits()),
    };
    let text = written(&settings, &shown(&settings));
    assert_eq!(
        text,
        "folder=/pictures \nrecurse=1\nignore_colour=0\nprevious=/a\nprevious=/b\n\
         window=10.5,-3,1100,860,1\npreview_width=420\n"
    );
    let back = read_settings(&text);
    assert_eq!(back.folder, settings.folder);
    assert_eq!(back.window, settings.window);
    assert_eq!(back.preview_width, settings.preview_width);
    assert_eq!(back.previous, texts(&["/a", "/b"]));
    assert_eq!(written(&back, &shown(&back)), text);
    let first = Settings::default();
    assert_eq!(
        written(&first, &shown(&first)),
        "folder=\nrecurse=0\nignore_colour=0\n"
    );
}

#[test]
fn an_index_says_what_its_folder_is_set_to() {
    assert_eq!((mark(true), mark(false)), ("1", "0"));
    let held = vec![
        pair("recurse", "1"),
        pair("auto_mark", "0"),
        pair("disposal", "move"),
        pair("move_dir", "/away"),
    ];
    assert_eq!(value(&held, "disposal").as_deref(), Some("move"));
    assert_eq!(value(&held, "nothing"), None);
    let notes = read(&held, Some(15f64.to_bits()));
    assert_eq!((notes.recurse, notes.auto_mark, notes.auto_rescan), (Some(true), Some(false), None));
    assert_eq!(notes.disposal.as_deref(), Some("move"));
    assert_eq!(notes.sensitivity, Some(15f64.to_bits()));
}

#[test]
fn a_folder_is_searched_as_it_was_before() {
    let search = Search {
        sensitivity: 7.5f64.to_bits(),
        whole_frame: true,
        corners: false,
        ignore_colour: true,
        within_a_folder: false,
    };
    let mut held = ran_under(&search, "7.5");
    held.extend(vec![pair("recurse", "1"), pair("move_dir", "/away"), pair("match_corners", "1")]);
    assert_eq!(value(&held, "sensitivity").as_deref(), Some("7.5"));
    let notes = read(&held, Some(7.5f64.to_bits()));
    assert_eq!(notes.match_whole_frame, Some(true));
    assert_eq!(notes.match_corners, Some(false));
    assert_eq!((notes.recurse, notes.auto_mark), (Some(true), None));
    assert_eq!(notes.move_dir.as_deref(), Some("/away"));
    assert_eq!(notes.ignore_colour, Some(true));
    assert_eq!(notes.within_a_folder, Some(false));
}

#[test]
fn a_lamp_keeps_the_time_it_first_turned() {
    assert_eq!(lamps().len(), 19);
    assert_eq!(Lamp::FoundTheTotal.label(), "Found total number of files");
    assert_eq!(Lamp::from(Step::ListedTheFolder), Lamp::ListedTheFolder);
    assert_eq!(
        Lamp::from(Step::StartedConvertingTheIndex),
        Lamp::StartedBuildingTheMemoryIndex
    );
    let mut lit = Lit::new(100);
    lit.light(Lamp::FoundTheTotal, 150);
    lit.light(Lamp::FoundTheTotal, 190);
    assert_eq!(lit.at(Lamp::FoundTheTotal), Some(50));
    assert_eq!(lit.at(Lamp::ListedTheFolder), None);
    lit.clear();
    assert_eq!(lit.at(Lamp::FoundTheTotal), None);
    lit.restart(200);
    lit.light(Lamp::FoundTheTotal, 250);
    assert_eq!(lit.at(Lamp::FoundTheTotal), Some(50));
}

#[test]
fn a_step_with_nothing_in_it_is_passed_over() {
    let mut lit = Lit::new(0);
    lit.light(Lamp::StartedReadingNewFiles, 1);
    assert_eq!(how_it_went(&lit, Stage::Over, Lamp::StartedReadingNewFiles), Went::Happened);
    assert_eq!(how_it_went(&lit, Stage::Over, Lamp::FinishedReadingNewFiles), Went::Skipped);
    assert_eq!(how_it_went(&lit, Stage::Running, Lamp::FinishedReadingNewFiles), Went::Waiting);
    assert_eq!(how_it_went(&lit, Stage::Over, Lamp::ListedTheFolder), Went::Waiting);
}

#[test]
fn the_search_fills_its_bar_part_by_part() {
    assert_eq!(fraction(1, 3, 1000), 333);
    assert_eq!(fraction(5, 3, 1000), 1000);
    assert_eq!(fraction(5, 0, 1000), 0);
    assert_eq!(fraction(u64::MAX - 1, u64::MAX, u64::MAX), u64::MAX - 1);
    let mut search = SearchState::empty();
    assert_eq!(search.bar_stage(), Stage::Waiting);
    let mut before = search.progress();
    assert_eq!(before.0, 0);
    for told in [
        Progress::Shortlisting { done: 1, total: 4 },
        Progress::Shortlisting { done: 4, total: 4 },
        Progress::Comparing { done: 1, total: 2 },
        Progress::Comparing { done: 2, total: 2 },
    ] {
        search.tell(told);
        let now = search.progress();
        assert!(now.0 > before.0);
        before = now;
    }
    assert_eq!(search.bar_stage(), Stage::Running);
}

#[test]
fn a_bar_is_a_fraction_only_while_it_runs() {
    assert!(matches!(bar_fill(Stage::Waiting, 3, 4), Fill::Empty));
    assert!(matches!(bar_fill(Stage::Running, 3, 0), Fill::Empty));
    assert!(matches!(bar_fill(Stage::Running, 3, 4), Fill::Part { count: 3, out_of: 4 }));
    assert!(matches!(bar_fill(Stage::Over, 0, 4), Fill::Full));
    assert_eq!(Stage::Waiting.begun(), Stage::Running);
    assert_eq!(Stage::Over.begun(), Stage::Over);
}

#[test]
fn what_a_pass_read_is_what_is_left() {
    let mut scan = ScanState::empty();
    scan.done = 10;
    scan.unchanged = 6;
    scan.ignored = 1;
    scan.failures.push(pair("a", "b"));
    assert_eq!(scan.found(), 2);
    scan.unchanged = 20;
    assert_eq!(scan.found(), 0);
    scan.listing = Some(5);
    assert_eq!(scan.in_folder(), 5);
    scan.total = 9;
    assert_eq!(scan.in_folder(), 9);
}

#[test]
fn a_pass_says_it_is_over_last_of_all() {
    let (told, work) = pass(Heard::Begun);
    assert!(matches!(told[0], Update::Reached(Step::StartedOpeningTheIndexForWriting)));
    assert_eq!(work, Work::OpenTheIndex);
    assert_eq!(pass(Heard::Opened).1, Work::ReadTheNotes);
    assert_eq!(pass(Heard::NotesRead(read(&Vec::new(), None))).1, Work::ReadTheFolder);
    let (told, work) = pass(Heard::Ran { cancelled: true, images: true });
    assert_eq!(told.len(), 2);
    assert!(matches!(told[0], Update::Images));
    assert!(matches!(told[1], Update::Finished { cancelled: true, error: None }));
    assert_eq!(work, Work::Nothing);
    let (told, _) = pass(Heard::Failed(String::from("no disk")));
    assert!(matches!(&told[..], [Update::Finished { cancelled: false, error: Some(said) }] if said == "no disk"));
}

#[test]
fn an_event_is_told_as_it_is() {
    assert!(matches!(
        update(Event::Writing { done: 1, total: 2, read: 3, unchanged: 4, ignored: 5 }),
        Update::Indexed { done: 1, total: 2, read: 3, unchanged: 4, ignored: 5 }
    ));
    assert!(matches!(
        update(Event::Walking { found: 7, of: Some(8) }),
        Update::Walking { found: 7, of: Some(8) }
    ));
    assert!(matches!(
        update(Event::Error { path: String::from("p"), message: String::from("m") }),
        Update::Failed { path, message } if path == "p" && message == "m"
    ));
}

#[test]
fn a_review_is_asked_for_before_what_a_folder_does() {
    let mut order = vec![Ask::Open];
    while *order.last().unwrap() != Ask::Nothing {
        order.push(next_ask(*order.last().unwrap(), true));
    }
    assert_eq!(
        order,
        [Ask::Open, Ask::StoredSets, Ask::Notes, Ask::Ignored, Ask::Kept, Ask::Images, Ask::Nothing]
    );
    assert_eq!(next_ask(Ask::Ignored, false), Ask::Nothing);
}

#[test]
fn a_file_is_read_once_while_it_is_wanted() {
    let mut metadata = Metadata::empty();
    assert_eq!(metadata.nothing_to_show(), "this file says nothing about itself");
    assert_eq!(metadata.get(4, None), Wanted::Read);
    assert!(metadata.is_reading() && metadata.waits_for(4));
    assert_eq!(metadata.nothing_to_show(), "reading...");
    assert_eq!(metadata.get(4, None), Wanted::Wait);
    let group = Group { name: String::from("Image"), entries: vec![pair("Lens", "50mm")] };
    assert_eq!(metadata.get(4, Some((4, vec![group]))), Wanted::Held);
    assert!(!metadata.is_reading());
    assert_eq!(metadata.get(4, None), Wanted::Held);
    let shown = lines(&metadata.groups);
    assert_eq!(shown.len(), 2);
    assert_eq!(shown[0].heading.as_deref(), Some("Image"));
    assert_eq!((shown[1].name.as_str(), shown[1].value.as_str()), ("Lens", "50mm"));
    assert_eq!(metadata.get(5, None), Wanted::Read);
    assert!(metadata.groups.is_empty());
}
