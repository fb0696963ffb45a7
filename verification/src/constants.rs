//! The words the window says and the choices it starts from.

use vstd::prelude::*;

verus! {

pub const SCAN_TAB_LABEL: &'static str = "1  Scan";
pub const REVIEW_TAB_LABEL: &'static str = "2  Review";
pub const CLEANUP_TAB_LABEL: &'static str = "3  Clean up";

pub const INCLUDE_SUBFOLDERS_DEFAULT: bool = false;
pub const ONLY_MATCH_WITHIN_FOLDERS_DEFAULT: bool = false;
pub const AUTOMATICALLY_RESCAN_DEFAULT: bool = false;
pub const AUTOMATICALLY_MARK_TO_KEEP_DEFAULT: bool = false;
pub const MATCH_WHOLE_PICTURES_DEFAULT: bool = true;
pub const MATCH_PARTIALS_DEFAULT: bool = true;
pub const MATCH_COLOUR_WITH_GRAYSCALE_DEFAULT: bool = false;
pub const MOVE_FOLDER_DEFAULT: &'static str = "";

/// Fifteen per cent, by the bits of the floating point number it is.
pub const DEFAULT_SENSITIVITY: u64 = 0x402E_0000_0000_0000;

pub const NO_IMAGES_FOUND_TEXT: &'static str = "No images found in this folder";
pub const CANCELLED_TEXT: &'static str = "cancelled";
pub const NO_FILES_IN_FOLDER_TEXT: &'static str = "No files in this folder";
pub const NO_DUPLICATES_FOUND_TEXT: &'static str = "No duplicates found for current settings";
pub const NO_FOLDER_OPEN_TEXT: &'static str = "No folder open";

pub const PREVIOUS_SESSION_QUESTION: &'static str =
    "Previous session found but folder content has changed. Load previous session or rescan?";

pub const READING_TEXT: &'static str = "reading...";
pub const NO_METADATA_TEXT: &'static str = "this file says nothing about itself";

pub const KEEP_ALL_BUTTON_LABEL: &'static str = "keep all";
pub const KEEP_NONE_BUTTON_LABEL: &'static str = "keep none";
pub const IGNORE_BUTTON_LABEL: &'static str = "ignore";
/// That button once the set is ignored.
pub const UNIGNORE_BUTTON_LABEL: &'static str = "unignore";

pub const MOVING_WORD: &'static str = "moving";
pub const REMOVING_WORD: &'static str = "removing";
pub const TIDYING_INDEX_TEXT: &'static str = "tidying the index";
pub const FILES_MOVED_SUMMARY_LABEL: &'static str = "Files moved";
pub const FILES_REMOVED_SUMMARY_LABEL: &'static str = "Files removed";
pub const FILES_TO_MOVE_HEADING: &'static str = "Files that will be moved";
pub const FILES_TO_REMOVE_HEADING: &'static str = "Files that will be removed";
pub const INDEX_DELETED_TEXT: &'static str = "the index was deleted";
pub const CLEANUP_DONE_TEXT: &'static str = "cleanup done.";

pub const RECYCLE_BIN_LABEL: &'static str = "Recycle bin";
pub const MOVE_TO_FOLDER_LABEL: &'static str = "Move to a folder";
pub const DELETE_PERMANENTLY_LABEL: &'static str = "Delete permanently";
pub const RECYCLE_BIN_NOTE: &'static str = "Recoverable from the recycle bin.";
pub const MOVE_TO_FOLDER_NOTE: &'static str =
    "Keeps the folder structure, so the files can be put back.";
pub const DELETE_PERMANENTLY_NOTE: &'static str = "This cannot be undone.";
pub const REMOVE_VERB: &'static str = "Remove";
pub const MOVE_VERB: &'static str = "Move";

} // verus!
