//! The words of the window, as they read.

use vstd::prelude::*;

use crate::constants::{
    CANCELLED_TEXT, CLEANUP_DONE_TEXT, CLEANUP_TAB_LABEL, FILES_MOVED_SUMMARY_LABEL,
    FILES_REMOVED_SUMMARY_LABEL, FILES_TO_MOVE_HEADING, FILES_TO_REMOVE_HEADING,
    IGNORE_BUTTON_LABEL, INDEX_DELETED_TEXT, KEEP_ALL_BUTTON_LABEL, KEEP_NONE_BUTTON_LABEL,
    NO_DUPLICATES_FOUND_TEXT, NO_FILES_IN_FOLDER_TEXT, NO_FOLDER_OPEN_TEXT, NO_IMAGES_FOUND_TEXT,
    NO_METADATA_TEXT, PREVIOUS_SESSION_QUESTION, READING_TEXT, REVIEW_TAB_LABEL, SCAN_TAB_LABEL,
    UNIGNORE_BUTTON_LABEL,
};
use crate::headless::no_index_text;
use crate::lamps::Lamp;
use crate::lines::{dimensions_text, kind_text, lamp_line_text, loaded_text};
use crate::mesa::names_a_node;
use crate::strictness::Strictness;
use crate::text::{digits, is_blank, stands_at};

verus! {

/// The words that are the same whatever the window shows.
pub proof fn the_window_says_these_words()
    ensures
        SCAN_TAB_LABEL@ == "1  Scan"@,
        REVIEW_TAB_LABEL@ == "2  Review"@,
        CLEANUP_TAB_LABEL@ == "3  Clean up"@,
        NO_IMAGES_FOUND_TEXT@ == "No images found in this folder"@,
        CANCELLED_TEXT@ == "cancelled"@,
        NO_FILES_IN_FOLDER_TEXT@ == "No files in this folder"@,
        NO_DUPLICATES_FOUND_TEXT@ == "No duplicates found for current settings"@,
        NO_FOLDER_OPEN_TEXT@ == "No folder open"@,
        PREVIOUS_SESSION_QUESTION@
            == "Previous session found but folder content has changed. Load previous session or rescan?"@,
        READING_TEXT@ == "reading..."@,
        NO_METADATA_TEXT@ == "this file says nothing about itself"@,
        KEEP_ALL_BUTTON_LABEL@ == "keep all"@,
        KEEP_NONE_BUTTON_LABEL@ == "keep none"@,
        IGNORE_BUTTON_LABEL@ == "ignore"@,
        UNIGNORE_BUTTON_LABEL@ == "unignore"@,
        FILES_MOVED_SUMMARY_LABEL@ == "Files moved"@,
        FILES_REMOVED_SUMMARY_LABEL@ == "Files removed"@,
        FILES_TO_MOVE_HEADING@ == "Files that will be moved"@,
        FILES_TO_REMOVE_HEADING@ == "Files that will be removed"@,
        INDEX_DELETED_TEXT@ == "the index was deleted"@,
        CLEANUP_DONE_TEXT@ == "cleanup done."@,
{
}

/// A preset is said by its own word.
pub proof fn a_preset_is_said_by_its_word(preset: Strictness)
    ensures
        preset is Strict ==> preset.word() == "strict"@,
        preset is Balanced ==> preset.word() == "balanced"@,
        preset is Loose ==> preset.word() == "loose"@,
{
}

/// A lamp says what it stands for, what starts as what is started and what finishes as
/// what is finished.
pub proof fn a_lamp_says_what_it_stands_for(lamp: Lamp)
    ensures
        lamp is CheckedForIndexFile ==> lamp.words() == "Checked for sqlite file in this folder"@,
        lamp is StartedOpeningTheIndexForWriting ==> lamp.words()
            == "Started opening the index for writing"@,
        lamp is FinishedOpeningTheIndexForWriting ==> lamp.words()
            == "Finished opening the index for writing"@,
        lamp is StartedReadingTheIndexSettings ==> lamp.words()
            == "Started reading the index's own settings"@,
        lamp is FinishedReadingTheIndexSettings ==> lamp.words()
            == "Finished reading the index's own settings"@,
        lamp is StartedLookingForTheTotal ==> lamp.words()
            == "Started looking for total number of files"@,
        lamp is FoundTheTotal ==> lamp.words() == "Found total number of files"@,
        lamp is ListedTheFolder ==> lamp.words() == "Retrieved full file list in the folder"@,
        lamp is LoadedIndexIntoMemory ==> lamp.words()
            == "Loaded sqlite file into memory and constructed in-memory index"@,
        lamp is CrossReferencedWithTheIndex ==> lamp.words()
            == "Cross referenced file list in folder with index from memory"@,
        lamp is CountedWhatChanged ==> lamp.words()
            == "Finished finding number of new, unchanged, and removed files"@,
        lamp is StartedReadingNewFiles ==> lamp.words()
            == "Starting individual file reads for any new file not in the index yet"@,
        lamp is FinishedReadingNewFiles ==> lamp.words()
            == "Finished individual file reads for any new file not in the index yet"@,
        lamp is StartedIndexingNewFiles ==> lamp.words()
            == "Starting indexing for new files not in the index yet"@,
        lamp is FinishedIndexingNewFiles ==> lamp.words()
            == "Finished indexing for new files not in the index yet"@,
        lamp is StartedBuildingTheMemoryIndex ==> lamp.words()
            == "Starting index conversion to in-memory datastructure"@,
        lamp is FinishedBuildingTheMemoryIndex ==> lamp.words()
            == "Finished converting index to in-memory datastructure"@,
        lamp is StartedFindingDuplicates ==> lamp.words()
            == "Started duplication computation given current settings"@,
        lamp is FinishedFindingDuplicates ==> lamp.words() == "Finished duplication computation"@,
{
}

/// The lines that are put together say what they are put together of, in its order.
pub proof fn a_line_says_what_it_is_put_together_of(
    label: Seq<char>,
    at: u128,
    folder: Seq<char>,
    width: u32,
    height: u32,
    format: Seq<char>,
    megabytes: Seq<char>,
    db_path: Seq<char>,
)
    ensures
        lamp_line_text(label, None) == label,
        lamp_line_text(label, Some(at)) == label + "  "@ + digits(at as nat) + " ms"@,
        loaded_text(None) == "No folder open"@,
        loaded_text(Some(folder)) == "Loaded "@ + folder,
        dimensions_text(width, height) == digits(width as nat) + "x"@ + digits(height as nat),
        kind_text(format, megabytes) == format + "  "@ + megabytes + " MB"@,
        no_index_text(db_path) == "no index at "@ + db_path + ". Scan the folder first."@,
{
}

/// A render node is there exactly where one of the names begins with the letters of one.
pub proof fn a_render_node_is_known_by_how_it_begins(names: Seq<Seq<char>>, at: int)
    ensures
        0 <= at < names.len() && names[at].len() >= 7 && names[at].take(7) == "renderD"@
            ==> names_a_node(names),
        names_a_node(names) ==> exists|at: int|
            0 <= at < names.len() && (#[trigger] names[at]).len() >= 7 && names[at].take(7)
                == "renderD"@,
{
    reveal_strlit("renderD");
    if 0 <= at < names.len() && names[at].len() >= 7 && names[at].take(7) == "renderD"@ {
        assert(names[at].subrange(0, 7) =~= names[at].take(7));
        assert(stands_at(names[at], "renderD"@, 0));
    }
    if names_a_node(names) {
        let found = choose|found: int|
            0 <= found < names.len() && stands_at(#[trigger] names[found], "renderD"@, 0);
        assert(names[found].subrange(0, 7) =~= names[found].take(7));
    }
}

/// The blank letters are the tab, the ends of lines and of pages, the space, and the
/// other spaces and separators there are, and no others.
pub proof fn the_blank_letters_are_these(letter: char)
    ensures
        is_blank(letter) <==> letter == '\t' || letter == '\n' || letter == '\u{b}' || letter
            == '\u{c}' || letter == '\r' || letter == ' ' || letter == '\u{85}' || letter
            == '\u{a0}' || letter == '\u{1680}' || letter == '\u{2000}' || letter == '\u{2001}'
            || letter == '\u{2002}' || letter == '\u{2003}' || letter == '\u{2004}' || letter
            == '\u{2005}' || letter == '\u{2006}' || letter == '\u{2007}' || letter
            == '\u{2008}' || letter == '\u{2009}' || letter == '\u{200a}' || letter
            == '\u{2028}' || letter == '\u{2029}' || letter == '\u{202f}' || letter
            == '\u{205f}' || letter == '\u{3000}',
{
}

} // verus!
