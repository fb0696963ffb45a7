use imgdedupe::app::pages::{files_heading, set_buttons, summary_label, tab_label};
use imgdedupe::dates::{civil_from_days, file_date};
use imgdedupe::headless::{open_index, wants_log};
use imgdedupe::lines::{
    bar_line, count_line, details_line, dimensions_line, failed_line, failures_heading, kind_line,
    lamp_line, listing_line, loaded_line, window_title,
};
use imgdedupe::mesa::{has_render_node, quieten};
use imgdedupe::state::{Destination, Page, Question, SetAction};
use imgdedupe::strictness::{Limit, Strictness, Thresholds};
use imgdedupe::text::{counted, decimal, padded_decimal};
use imgdedupe::theme::{kept_thumbnail_mark_colour, permanent_delete_button_fill_colour};

fn texts(row: &[&str]) -> Vec<String> {
    row.iter().map(|text| String::from(*text)).collect()
}

#[test]
fn the_epoch_is_a_thursday_at_midnight() {
    assert_eq!(civil_from_days(0), (1970, 1, 1));
    assert_eq!(file_date(0), "1970-01-01 00:00");
}

#[test]
fn days_fall_on_their_dates() {
    assert_eq!(civil_from_days(11_016), (2000, 2, 29));
    assert_eq!(civil_from_days(11_017), (2000, 3, 1));
    assert_eq!(civil_from_days(-1), (1969, 12, 31));
    assert_eq!(civil_from_days(-25_508), (1900, 3, 1));
    assert_eq!(civil_from_days(-25_509), (1900, 2, 28));
    assert_eq!(civil_from_days(20_454), (2026, 1, 1));
    assert_eq!(civil_from_days(-719_468), (0, 3, 1));
}

#[test]
fn a_time_is_written_to_the_minute() {
    assert_eq!(file_date(951_827_696), "2000-02-29 12:34");
    assert_eq!(file_date(59), "1970-01-01 00:00");
    assert_eq!(file_date(60), "1970-01-01 00:01");
    assert_eq!(file_date(-1), "1969-12-31 23:59");
    assert_eq!(file_date(-86_401), "1969-12-30 23:59");
}

#[test]
fn stamps_are_shown_in_order() {
    let stamps = [-62_167_219_200, -1, 0, 59, 60, 3600, 951_827_696, 253_402_300_799];
    for pair in stamps.windows(2) {
        let (one, other) = (file_date(pair[0]), file_date(pair[1]));
        assert!(one.len() == 16 && one <= other);
        assert_eq!(one == other, pair[0].div_euclid(60) == pair[1].div_euclid(60));
    }
    assert_eq!(file_date(-62_167_219_200), "0000-01-01 00:00");
    assert_eq!(file_date(253_402_300_799), "9999-12-31 23:59");
}

#[test]
fn each_day_follows_the_one_before() {
    let mut before = civil_from_days(-800_000);
    for day in -799_999..800_000i64 {
        let date = civil_from_days(day);
        assert!(before < date);
        before = date;
    }
}

#[test]
fn numbers_are_written_in_decimal() {
    assert_eq!(decimal(0), "0");
    assert_eq!(decimal(90_807), "90807");
    assert_eq!(decimal(u128::MAX), "340282366920938463463374607431768211455");
    assert_eq!(padded_decimal(7, 2), "07");
    assert_eq!(padded_decimal(-7, 4), "-007");
    assert_eq!(padded_decimal(12_345, 4), "12345");
}

#[test]
fn one_of_them_has_its_own_word() {
    assert_eq!(counted(0, "set", "sets"), "0 sets");
    assert_eq!(counted(1, "set", "sets"), "1 set");
    assert_eq!(counted(12, "set", "sets"), "12 sets");
}

#[test]
fn the_lines_say_what_they_are_about() {
    assert_eq!(lamp_line("Found total", Some(120)), "Found total  120 ms");
    assert_eq!(lamp_line("Found total", None), "Found total");
    assert_eq!(loaded_line(&Some(String::from("/pictures"))), "Loaded /pictures");
    assert_eq!(loaded_line(&None), "No folder open");
    assert_eq!(listing_line(1), "listing the folder: 1 file");
    assert_eq!(listing_line(4_000), "listing the folder: 4000 files");
    assert_eq!(failures_heading(3), "3 files could not be read");
    assert_eq!(failed_line("a/b.png", "no such file"), "a/b.png: no such file");
    assert_eq!(dimensions_line(4040, 6064), "4040x6064");
    assert_eq!(kind_line("png", "1.5"), "png  1.5 MB");
    assert_eq!(details_line(640, 480, "jpeg", "0.3"), "640x480  jpeg  0.3 MB");
    assert_eq!(window_title("1.2.3"), "imgdedupe 1.2.3");
    assert_eq!(bar_line("Indexing files", "50"), "Indexing files 50%");
}

#[test]
fn the_counts_of_a_review_are_four_parts() {
    let line = count_line(2, 1, 5, "12.5");
    assert_eq!(line.sets, "2 sets");
    assert_eq!(line.duplicates, "1 duplicate");
    assert_eq!(line.going, "5 to remove");
    assert_eq!(line.reclaimed, "12.5 MB to reclaim");
}

#[test]
fn the_tabs_are_numbered() {
    assert_eq!(tab_label(Page::Scan), "1  Scan");
    assert_eq!(tab_label(Page::Review), "2  Review");
    assert_eq!(tab_label(Page::Cleanup), "3  Clean up");
}

#[test]
fn the_third_button_undoes_itself() {
    let buttons = set_buttons(false);
    let labels: Vec<&str> = buttons.iter().map(|button| button.label).collect();
    assert_eq!(labels, ["keep all", "keep none", "ignore"]);
    assert!(buttons.iter().all(|button| button.usable));
    assert_eq!(buttons[2].action, SetAction::Ignore);

    let ignored = set_buttons(true);
    assert_eq!(ignored[2].label, "unignore");
    assert_eq!(ignored[2].action, SetAction::Unignore);
    let usable: Vec<bool> = ignored.iter().map(|button| button.usable).collect();
    assert_eq!(usable, [false, false, true]);
}

#[test]
fn a_destination_is_named_and_found_by_its_name() {
    assert_eq!(Destination::Trash.name(), "trash");
    assert_eq!(Destination::from_name("move"), Some(Destination::MoveTo));
    assert_eq!(Destination::from_name("delete"), Some(Destination::Delete));
    assert_eq!(Destination::from_name("elsewhere"), None);
    assert_eq!(Destination::Delete.label(), "Delete permanently");
    assert_eq!(Destination::Trash.note(), "Recoverable from the recycle bin.");
    assert_eq!(Destination::MoveTo.verb(), "Move");
    assert_eq!(Destination::Delete.verb(), "Remove");
    assert_eq!(summary_label(Destination::MoveTo), "Files moved");
    assert_eq!(summary_label(Destination::Trash), "Files removed");
    assert_eq!(files_heading(Destination::MoveTo), "Files that will be moved");
    assert_eq!(files_heading(Destination::Delete), "Files that will be removed");
}

#[test]
fn the_question_is_worded() {
    assert_eq!(
        Question::TheFolderChanged.wording(),
        "Previous session found but folder content has changed. Load previous session or rescan?"
    );
}

#[test]
fn a_preset_gives_way_to_a_percentage() {
    assert_eq!(Strictness::Balanced.label(), "balanced");
    assert_eq!(Strictness::Strict.label(), "strict");
    assert_eq!(Strictness::Loose.label(), "loose");
    assert_eq!(
        Strictness::Loose.thresholds(true),
        Thresholds { limit: Limit::Preset(Strictness::Loose), ignore_colour: true, ways: None }
    );
    let bits = 12.5f64.to_bits();
    assert_eq!(Strictness::Loose.resolve(Some(bits), true).limit, Limit::At(bits));
    assert_eq!(
        Strictness::Strict.resolve(None, false),
        Strictness::Strict.thresholds(false)
    );
}

#[test]
fn an_index_that_is_not_there_is_not_opened() {
    assert_eq!(open_index(true, "/a/imgdedupe.sqlite"), Ok(()));
    assert_eq!(
        open_index(false, "/a/imgdedupe.sqlite"),
        Err(String::from("no index at /a/imgdedupe.sqlite. Scan the folder first."))
    );
}

#[test]
fn the_log_is_asked_for_behind_the_programs_name() {
    assert!(wants_log(&texts(&["imgdedupe", "--log"])));
    assert!(!wants_log(&texts(&["--log"])));
    assert!(!wants_log(&texts(&["imgdedupe", "--logs", "log"])));
    assert!(!wants_log(&Vec::new()));
}

#[test]
fn a_render_node_is_known_by_its_name() {
    assert!(has_render_node(&Some(texts(&["card0", "renderD128"]))));
    assert!(!has_render_node(&Some(texts(&["card0", "by-path", "xrenderD1"]))));
    assert!(!has_render_node(&None));
}

#[test]
fn what_was_chosen_already_still_wins() {
    assert_eq!(
        quieten(false, false, false),
        vec![("EGL_LOG_LEVEL", "fatal"), ("LIBGL_ALWAYS_SOFTWARE", "1")]
    );
    assert_eq!(quieten(true, false, false), vec![("LIBGL_ALWAYS_SOFTWARE", "1")]);
    assert_eq!(quieten(false, true, false), vec![("EGL_LOG_LEVEL", "fatal")]);
    assert_eq!(quieten(true, false, true), vec![]);
}

#[test]
fn the_theme_decides_the_colours() {
    let dark = permanent_delete_button_fill_colour(true);
    assert_eq!((dark.red, dark.green, dark.blue), (150, 50, 50));
    let light = permanent_delete_button_fill_colour(false);
    assert_eq!((light.red, light.green, light.blue), (240, 170, 170));
    let dark = kept_thumbnail_mark_colour(true);
    assert_eq!((dark.red, dark.green, dark.blue), (90, 180, 110));
    let light = kept_thumbnail_mark_colour(false);
    assert_eq!((light.red, light.green, light.blue), (40, 130, 60));
}
