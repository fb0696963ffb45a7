//! How alike two pictures have to be to count as the same one.

use vstd::prelude::*;

verus! {

#[derive(Debug, Clone, Copy, PartialEq, Eq, Structural)]
pub enum Strictness {
    /// Only files that are the same picture pixel for pixel.
    Strict,
    /// Resizes, recompressions and format changes.
    Balanced,
    /// Also heavier edits, with more false pairs to reject by eye.
    Loose,
}

/// What a limit on the difference is set by: one of the presets, or a percentage,
/// by the bits of the floating point number it is.
#[derive(Debug, Clone, Copy, PartialEq, Eq, Structural)]
pub enum Limit {
    Preset(Strictness),
    At(u64),
}

/// Which ways of matching a search uses, and over what.
#[derive(Debug, Clone, Copy, PartialEq, Eq, Structural)]
pub struct Ways {
    pub whole_frame: bool,
    pub corners: bool,
    pub within_a_folder: bool,
}

/// What a search is asked for. No ways of matching is whatever the search does when
/// it is not told.
#[derive(Debug, Clone, Copy, PartialEq, Eq, Structural)]
pub struct Thresholds {
    pub limit: Limit,
    pub ignore_colour: bool,
    pub ways: Option<Ways>,
}

impl Strictness {
    /// The word for a preset.
    pub open spec fn word(self) -> Seq<char> {
        match self {
            Strictness::Strict => "strict"@,
            Strictness::Balanced => "balanced"@,
            Strictness::Loose => "loose"@,
        }
    }

    /// What a search is asked for by a preset, or by an explicit percentage where one was
    /// given.
    pub open spec fn asked_for(self, sensitivity: Option<u64>, ignore_colour: bool) -> Thresholds {
        Thresholds {
            limit: match sensitivity {
                Some(percent) => Limit::At(percent),
                None => Limit::Preset(self),
            },
            ignore_colour,
            ways: None,
        }
    }

    pub fn thresholds(self, ignore_colour: bool) -> (asked: Thresholds)
        ensures
            asked == self.asked_for(None, ignore_colour),
    {
        Thresholds { limit: Limit::Preset(self), ignore_colour, ways: None }
    }

    /// A preset unless an explicit percentage was given, in which case that.
    pub fn resolve(self, sensitivity: Option<u64>, ignore_colour: bool) -> (asked: Thresholds)
        ensures
            asked == self.asked_for(sensitivity, ignore_colour),
    {
        match sensitivity {
            Some(percent) => Thresholds { limit: Limit::At(percent), ignore_colour, ways: None },
            None => self.thresholds(ignore_colour),
        }
    }

    pub fn label(self) -> (text: &'static str)
        ensures
            text@ == self.word(),
    {
        match self {
            Strictness::Strict => "strict",
            Strictness::Balanced => "balanced",
            Strictness::Loose => "loose",
        }
    }
}

} // verus!
