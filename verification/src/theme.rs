//! The colours that follow the theme.

use vstd::prelude::*;

use crate::icon::Colour;

verus! {

/// The fill of the cleanup page's button when what it does is permanent.
pub open spec fn permanent_colour(dark_mode: bool) -> Colour {
    if dark_mode {
        Colour { red: 150, green: 50, blue: 50 }
    } else {
        Colour { red: 240, green: 170, blue: 170 }
    }
}

/// The border round a thumbnail that is being kept.
pub open spec fn kept_colour(dark_mode: bool) -> Colour {
    if dark_mode {
        Colour { red: 90, green: 180, blue: 110 }
    } else {
        Colour { red: 40, green: 130, blue: 60 }
    }
}

/// The fill of the cleanup page's button when what it does is permanent, on a theme
/// that is dark or is not.
pub fn permanent_delete_button_fill_colour(dark_mode: bool) -> (colour: Colour)
    ensures
        colour == permanent_colour(dark_mode),
{
    if dark_mode {
        Colour { red: 150, green: 50, blue: 50 }
    } else {
        Colour { red: 240, green: 170, blue: 170 }
    }
}

/// The border round a thumbnail that is being kept, and the "KEEP" over it, on a
/// theme that is dark or is not.
pub fn kept_thumbnail_mark_colour(dark_mode: bool) -> (colour: Colour)
    ensures
        colour == kept_colour(dark_mode),
{
    if dark_mode {
        Colour { red: 90, green: 180, blue: 110 }
    } else {
        Colour { red: 40, green: 130, blue: 60 }
    }
}

} // verus!
