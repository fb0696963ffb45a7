//! The lines of writing in the window.

use vstd::prelude::*;
use vstd::string::*;

use crate::constants::NO_FOLDER_OPEN_TEXT;
use crate::text::{counted, counted_text, decimal, digits};

verus! {

/// What a lamp's line says: what it stands for, and how far into the run it turned
/// green, where it has.
pub open spec fn lamp_line_text(label: Seq<char>, at: Option<u128>) -> Seq<char> {
    match at {
        Some(at) => label + "  "@ + digits(at as nat) + " ms"@,
        None => label,
    }
}

/// A lamp's line.
pub fn lamp_line(label: &str, at: Option<u128>) -> (line: String)
    ensures
        line@ == lamp_line_text(label@, at),
{
    match at {
        Some(at) => String::from_str(label).concat("  ").concat(decimal(at).as_str()).concat(" ms"),
        None => String::from_str(label),
    }
}

/// What the line over the lamps says about the folder that is open.
pub open spec fn loaded_text(folder: Option<Seq<char>>) -> Seq<char> {
    match folder {
        Some(folder) => "Loaded "@ + folder,
        None => NO_FOLDER_OPEN_TEXT@,
    }
}

/// The line over the lamps, about the folder that is open.
pub fn loaded_line(folder: &Option<String>) -> (line: String)
    ensures
        line@ == loaded_text(folder.deep_view()),
{
    match folder {
        Some(folder) => String::from_str("Loaded ").concat(folder.as_str()),
        None => String::from_str(NO_FOLDER_OPEN_TEXT),
    }
}

/// What is said while a folder is being listed: how many files have turned up.
pub fn listing_line(found: u64) -> (line: String)
    ensures
        line@ == "listing the folder: "@ + counted_text(found as nat, "file"@, "files"@),
{
    String::from_str("listing the folder: ").concat(counted(found, "file", "files").as_str())
}

/// The heading over the files that could not be read.
pub fn failures_heading(failed: usize) -> (line: String)
    ensures
        line@ == digits(failed as nat) + " files could not be read"@,
{
    decimal(failed as u128).concat(" files could not be read")
}

/// The line for a file that could not be read.
pub fn failed_line(path: &str, message: &str) -> (line: String)
    ensures
        line@ == path@ + ": "@ + message@,
{
    String::from_str(path).concat(": ").concat(message)
}

/// How large a picture is, in words.
pub open spec fn dimensions_text(width: u32, height: u32) -> Seq<char> {
    digits(width as nat) + "x"@ + digits(height as nat)
}

/// How large a picture is.
pub fn dimensions_line(width: u32, height: u32) -> (line: String)
    ensures
        line@ == dimensions_text(width, height),
{
    decimal(width as u128).concat("x").concat(decimal(height as u128).as_str())
}

/// What kind of file a picture is and how many megabytes, in words.
pub open spec fn kind_text(format: Seq<char>, megabytes: Seq<char>) -> Seq<char> {
    format + "  "@ + megabytes + " MB"@
}

/// What kind of file a picture is and how many megabytes.
pub fn kind_line(format: &str, megabytes: &str) -> (line: String)
    ensures
        line@ == kind_text(format@, megabytes@),
{
    String::from_str(format).concat("  ").concat(megabytes).concat(" MB")
}

/// The two of them on one line, over the preview.
pub fn details_line(width: u32, height: u32, format: &str, megabytes: &str) -> (line: String)
    ensures
        line@ == dimensions_text(width, height) + "  "@ + kind_text(format@, megabytes@),
{
    dimensions_line(width, height).concat("  ").concat(kind_line(format, megabytes).as_str())
}

/// What stands in the window's title bar.
pub fn window_title(version: &str) -> (line: String)
    ensures
        line@ == "imgdedupe "@ + version@,
{
    String::from_str("imgdedupe ").concat(version)
}

/// What stands on a bar: what it measures and how full it is, in hundredths.
pub fn bar_line(label: &str, percent: &str) -> (line: String)
    ensures
        line@ == label@ + " "@ + percent@ + "%"@,
{
    String::from_str(label).concat(" ").concat(percent).concat("%")
}

/// What the review has found and what a cleanup would do about it: how many sets,
/// how many pictures in them are not being kept, how many go, and what those come
/// to. The last part is the least of it.
pub struct Counts {
    pub sets: String,
    pub duplicates: String,
    pub going: String,
    pub reclaimed: String,
}

/// What the review has found and what a cleanup would do about it, in words.
pub fn count_line(sets: u64, duplicates: u64, going: usize, megabytes: &str) -> (line: Counts)
    ensures
        line.sets@ == counted_text(sets as nat, "set"@, "sets"@),
        line.duplicates@ == counted_text(duplicates as nat, "duplicate"@, "duplicates"@),
        line.going@ == digits(going as nat) + " to remove"@,
        line.reclaimed@ == megabytes@ + " MB to reclaim"@,
{
    Counts {
        sets: counted(sets, "set", "sets"),
        duplicates: counted(duplicates, "duplicate", "duplicates"),
        going: decimal(going as u128).concat(" to remove"),
        reclaimed: String::from_str(megabytes).concat(" MB to reclaim"),
    }
}

} // verus!
