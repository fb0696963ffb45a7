//! Asking for a folder.

use vstd::prelude::*;
use vstd::string::*;

verus! {

/// What the dialog that asks for a folder is opened with.
pub struct Dialog {
    /// The folder it opens on, if not on the one the system would.
    pub directory: Option<String>,
}

/// Ask for a folder, starting at `start` if it is given.
pub fn pick(start: Option<&str>) -> (dialog: Dialog)
    ensures
        dialog.directory.deep_view() == match start {
            Some(folder) => Some(folder@),
            None => None,
        },
{
    match start {
        Some(folder) => Dialog { directory: Some(String::from_str(folder)) },
        None => Dialog { directory: None },
    }
}

} // verus!
