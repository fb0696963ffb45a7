//! What the three pages show, and what becomes of the controls on them.

use vstd::prelude::*;
use vstd::string::*;

use crate::app::searching::{find_picture, picture};
use crate::app::{copy_text, Action, ActionView, App, AppView, Choices, Flow};
use crate::constants::{
    CLEANUP_TAB_LABEL, FILES_MOVED_SUMMARY_LABEL, FILES_REMOVED_SUMMARY_LABEL,
    FILES_TO_MOVE_HEADING, FILES_TO_REMOVE_HEADING, IGNORE_BUTTON_LABEL, KEEP_ALL_BUTTON_LABEL,
    KEEP_NONE_BUTTON_LABEL, MOVING_WORD, REMOVING_WORD, REVIEW_TAB_LABEL, SCAN_TAB_LABEL,
    TIDYING_INDEX_TEXT, UNIGNORE_BUTTON_LABEL,
};
use crate::finding::first;
use crate::folders::{is_same, may_be_same, same_path};
use crate::keep::holds;
use crate::plan::{all_ignored, bytes_of, is_ignored, marks_for, marks_on};
use crate::progress::{no_scan, ScanState};
use crate::review::{holding, ReviewView};
use crate::sets::{has_id, DuplicateSet, Member, SetView};
use crate::settings::Window;
use crate::state::{Destination, Page, SetAction};
use crate::text::{decimal, digits, same_text};
use crate::walk::member_called;

verus! {

/// The boxes about the folder, as they are ticked.
#[derive(Debug, Clone, Copy, PartialEq, Eq, Structural)]
pub struct Boxes {
    pub recurse: bool,
    pub within_a_folder: bool,
    pub keep_index: bool,
    pub auto_rescan: bool,
    pub auto_mark: bool,
}

/// What counts as a duplicate, as the controls about it stand.
#[derive(Debug, Clone, Copy, PartialEq, Eq, Structural)]
pub struct Matching {
    pub sensitivity: u64,
    pub match_whole_frame: bool,
    pub match_corners: bool,
    pub ignore_colour: bool,
}

/// Which of the buttons that run something can be pressed.
#[derive(Debug, Clone, Copy, PartialEq, Eq, Structural)]
pub struct RunButtons {
    pub scan: bool,
    pub cancel: bool,
    pub find_duplicates: bool,
}

/// Where the window is and how large it is inside, by the bits of the floating
/// point numbers they are.
#[derive(Debug, Clone, Copy, PartialEq, Eq, Structural)]
pub struct Place {
    pub x: u32,
    pub y: u32,
    pub width: u32,
    pub height: u32,
}

/// A button under a set.
pub struct SetButton {
    pub label: &'static str,
    pub action: SetAction,
    pub usable: bool,
}

/// How a picture in a set is drawn.
#[derive(Debug, Clone, Copy, PartialEq, Eq, Structural)]
pub struct Tile {
    /// With the border and the word that say it is kept.
    pub kept: bool,
    /// With the ring that says it is the one the preview is on.
    pub showing: bool,
}

impl Choices {
    /// The boxes about the folder.
    pub open spec fn boxes(self) -> Boxes {
        Boxes {
            recurse: self.recurse,
            within_a_folder: self.within_a_folder,
            keep_index: self.keep_index,
            auto_rescan: self.auto_rescan,
            auto_mark: self.auto_mark,
        }
    }

    /// The choices with the boxes about the folder ticked like this. A folder worth
    /// keeping an index for is a folder worth bringing up to date on sight, so
    /// saying yes to the one says yes to the other.
    pub open spec fn ticked(self, boxes: Boxes) -> Choices {
        Choices {
            recurse: boxes.recurse,
            within_a_folder: boxes.within_a_folder,
            keep_index: boxes.keep_index,
            auto_rescan: boxes.auto_rescan || (boxes.keep_index && !self.keep_index),
            auto_mark: boxes.auto_mark,
            ..self
        }
    }

    /// Whether a box that another one depends on is not as it was.
    pub open spec fn depended_on(self, boxes: Boxes) -> bool {
        ||| boxes.recurse != self.recurse
        ||| boxes.keep_index != self.keep_index
        ||| boxes.auto_rescan != self.auto_rescan
    }

    /// The choices with this counting as a duplicate.
    pub open spec fn matching(self, matching: Matching) -> Choices {
        Choices {
            sensitivity: matching.sensitivity,
            match_whole_frame: matching.match_whole_frame,
            match_corners: matching.match_corners,
            ignore_colour: matching.ignore_colour,
            ..self
        }
    }
}

/// How many pictures some sets hold.
pub open spec fn pictures_in(sets: Seq<SetView>) -> nat
    decreases sets.len(),
{
    if sets.len() == 0 {
        0
    } else {
        pictures_in(sets.drop_last()) + sets.last().members.len()
    }
}

/// How many pictures of some sets are copies of another: every picture, less the
/// one each set keeps.
pub open spec fn duplicates_in(sets: Seq<SetView>) -> int {
    pictures_in(sets) - sets.len()
}

/// Whether every one of some sets holds a picture.
pub open spec fn none_is_empty(sets: Seq<SetView>) -> bool {
    forall|at: int| 0 <= at < sets.len() ==> (#[trigger] sets[at]).members.len() > 0
}

/// No sets hold no copies, one holds all its pictures but one, two lists together
/// hold what each of them holds, and sets that hold pictures never hold fewer than
/// no copies.
pub proof fn the_copies_of_two_lists_add_up(one: Seq<SetView>, other: Seq<SetView>, set: SetView)
    ensures
        duplicates_in(Seq::empty()) == 0,
        duplicates_in(seq![set]) == set.members.len() - 1,
        duplicates_in(one + other) == duplicates_in(one) + duplicates_in(other),
        none_is_empty(one) ==> 0 <= duplicates_in(one),
    decreases one.len() + other.len(),
{
    assert(seq![set].drop_last() =~= Seq::<SetView>::empty());
    if other.len() > 0 {
        let both = one + other;
        assert(both.drop_last() =~= one + other.drop_last());
        assert(both.last() == other.last());
        the_copies_of_two_lists_add_up(one, other.drop_last(), set);
    } else {
        assert(one + other =~= one);
    }
    if one.len() > 0 && none_is_empty(one) {
        let rest = one.drop_last();
        assert(none_is_empty(rest)) by {
            assert forall|at: int| 0 <= at < rest.len() implies (#[trigger] rest[at]).members.len()
                > 0 by {
                assert(rest[at] == one[at]);
            }
        }
        the_copies_of_two_lists_add_up(rest, Seq::empty(), set);
        assert(one[one.len() - 1].members.len() > 0);
    }
}

/// The last of some failures to remove a file.
pub open spec fn last_failure(failures: Seq<(Seq<char>, Seq<char>)>, path: Seq<char>) -> Option<
    Seq<char>,
>
    decreases failures.len(),
{
    if failures.len() == 0 {
        None
    } else if failures.last().0 == path {
        Some(failures.last().1)
    } else {
        last_failure(failures.drop_last(), path)
    }
}

impl AppView {
    /// Whether any set is a set of copies.
    pub open spec fn any_copies(self) -> bool {
        exists|at: int|
            0 <= at < self.review.sets.len() && !all_ignored(
                (#[trigger] self.review.sets[at]).members,
                self.review.ignored,
            )
    }

    /// Whether a tab leads anywhere. A review holding nothing but sets somebody has
    /// said are not copies has nothing for a cleanup to do, so there is nowhere for
    /// that tab to go.
    pub open spec fn tab_leads(self, page: Page) -> bool {
        match page {
            Page::Scan => true,
            Page::Review => self.review.sets.len() > 0,
            Page::Cleanup => self.any_copies(),
        }
    }

    /// The window on a page, where its tab leads anywhere.
    pub open spec fn tab_opened(self, page: Page) -> AppView {
        if self.tab_leads(page) {
            AppView { page, ..self }
        } else {
            self
        }
    }

    /// Which of the boxes about the folder can be ticked.
    pub open spec fn boxes_usable(self) -> Boxes {
        Boxes {
            recurse: !self.is_busy(),
            within_a_folder: !self.is_busy() && self.choices.recurse,
            keep_index: !self.is_busy(),
            auto_rescan: !self.is_busy() && self.choices.keep_index,
            auto_mark: !self.is_busy() && self.choices.keep_index && self.choices.auto_rescan,
        }
    }

    /// Which of the buttons that run something can be pressed.
    pub open spec fn runnable(self) -> RunButtons {
        RunButtons {
            scan: !self.is_busy() && self.folder is Some,
            cancel: self.flow.running || self.flow.searching,
            find_duplicates: !self.is_busy() && self.db_path is Some,
        }
    }

    /// The window with the folders scanned before forgotten.
    pub open spec fn previous_forgotten(self) -> AppView {
        AppView { previous: Seq::empty(), ..self }.does(ActionView::SaveSettings)
    }

    /// The window on the cleanup, where there is something to clean up.
    pub open spec fn gone_to_cleanup(self) -> AppView {
        if self.review.plan.len() > 0 {
            AppView { page: Page::Cleanup, ..self }
        } else {
            self
        }
    }

    /// Whether the button over the preview can be pressed.
    pub open spec fn can_be_kept(self, set_id: i64, file_id: i64) -> bool {
        !marks_on(self.review.keep, set_id).contains(file_id)
    }

    /// Whether the button that starts a cleanup can be pressed.
    pub open spec fn can_clean_up(self) -> bool {
        self.review.plan.len() > 0 && self.folder is Some && !self.is_busy()
    }

    /// What the button that starts a cleanup says.
    pub open spec fn cleanup_label(self) -> Seq<char> {
        self.destination.verb_text() + " "@ + digits(self.review.plan.len()) + " files"@
    }

    /// The window making sure of the letters of the folder it is on.
    pub open spec fn covering(self) -> AppView {
        let covered = AppView { covered: self.folder, ..self };
        match self.folder {
            Some(folder) => covered.does(ActionView::CoverText(folder)),
            None => covered,
        }
    }

    /// The window having taken down where it is. A maximized window reports the
    /// size it covers the screen with, which is not what it should open at when it
    /// is restored, so that measurement is left as it was.
    pub open spec fn placed(self, maximized: bool, place: Option<Place>) -> AppView {
        AppView {
            window: if maximized {
                match self.window {
                    Some(window) => Some(Window { maximized: true, ..window }),
                    None => None,
                }
            } else {
                match place {
                    Some(place) => Some(
                        Window {
                            x: place.x,
                            y: place.y,
                            width: place.width,
                            height: place.height,
                            maximized: false,
                        },
                    ),
                    None => self.window,
                }
            },
            ..self
        }
    }

    /// The window with its folder's index thrown away, and everything on screen
    /// that came out of it.
    pub open spec fn index_thrown_away(self) -> AppView {
        AppView {
            review: self.review.emptied(),
            scan: no_scan(),
            ..self.does(ActionView::DiscardIndex).does(ActionView::ForgetThumbnails)
        }
    }

    /// The window with its boxes about the folder ticked, and what follows from it:
    /// the index going with its box, the boxes that have lost what they depend on
    /// coming off, and what is written down where.
    pub open spec fn boxes_ticked(self, boxes: Boxes) -> AppView {
        let was = self.choices;
        let ticked = AppView { choices: was.ticked(boxes), ..self };
        let without = if was.keep_index && !boxes.keep_index {
            ticked.index_thrown_away()
        } else {
            ticked
        };
        let settled = if was.depended_on(boxes) {
            AppView { choices: without.choices.settled(), ..without }
        } else {
            without
        };
        let told = if was.boxes() != boxes {
            settled.ways_remembered()
        } else {
            settled
        };
        if was.recurse != boxes.recurse || was.keep_index != boxes.keep_index
            || was.within_a_folder != boxes.within_a_folder {
            told.does(ActionView::SaveSettings)
        } else {
            told
        }
    }

    /// The window with something else counting as a duplicate.
    pub open spec fn matching_set(self, matching: Matching, moved: bool) -> AppView {
        let was = self.choices;
        let ways = matching.match_whole_frame != was.match_whole_frame || matching.match_corners
            != was.match_corners;
        let set = AppView { choices: was.matching(matching), ..self };
        let told = if ways {
            set.ways_remembered()
        } else {
            set
        };
        if moved || ways || matching.ignore_colour != was.ignore_colour {
            told.does(ActionView::SaveSettings)
        } else {
            told
        }
    }

    /// The window looking for duplicates. Looking for them in a folder that has not
    /// been read is looking at nothing, so the pass comes first, and searches when
    /// it is done.
    pub open spec fn duplicates_wanted(self, now: u128) -> AppView {
        if self.flow.images {
            self.search_started(now)
        } else {
            self.does(ActionView::Scan)
        }
    }

    /// Whether there is anything to say about a pass or a search.
    pub open spec fn has_progress(self) -> bool {
        ||| self.flow.running
        ||| self.flow.searching
        ||| self.scan.total != 0
        ||| self.scan.finished is Some
    }

    /// How a picture is drawn. A set nobody calls a set of copies keeps nothing and
    /// shows nothing as kept.
    pub open spec fn drawn(self, set: SetView, file_id: i64) -> Tile {
        let ignored = all_ignored(set.members, self.review.ignored);
        Tile {
            kept: !ignored && marks_on(self.review.keep, set.set_id).contains(file_id),
            showing: !ignored && self.review.selected == Some(file_id),
        }
    }

    /// What the bar that stands in for the cleanup's button says.
    pub open spec fn removal_text(self) -> Seq<char> {
        if self.flow.tidying {
            TIDYING_INDEX_TEXT@
        } else {
            (if self.destination is MoveTo {
                MOVING_WORD@
            } else {
                REMOVING_WORD@
            }) + " "@ + digits(self.flow.removed_so_far as nat) + " of "@ + digits(
                self.out_of() as nat,
            )
        }
    }

    /// How many files the bar is measured against.
    pub open spec fn out_of(self) -> usize {
        if self.flow.to_remove == 0 {
            1
        } else {
            self.flow.to_remove
        }
    }

    /// What the list of files to remove says about one of them, and whether it
    /// would not go.
    pub open spec fn removal_line(self, at: int) -> (Seq<char>, bool) {
        let path = self.review.plan[at].rel_path;
        match last_failure(self.cleanup_failures, path) {
            Some(why) => (path + "  "@ + why, true),
            None => (path, false),
        }
    }

    /// The window once it has been closed.
    pub open spec fn closed(self) -> AppView {
        let saved = self.does(ActionView::SaveSettings);
        let stopped = if self.flow.running {
            saved.does(ActionView::CancelPass)
        } else {
            saved
        };
        AppView { flow: Flow { running: false, ..self.flow }, ..stopped }.does(
            ActionView::CloseIndex,
        )
    }
}

/// What is written on the tab of a page.
pub open spec fn tab_text(page: Page) -> Seq<char> {
    match page {
        Page::Scan => SCAN_TAB_LABEL@,
        Page::Review => REVIEW_TAB_LABEL@,
        Page::Cleanup => CLEANUP_TAB_LABEL@,
    }
}

/// What is written on the tab of a page.
pub fn tab_label(page: Page) -> (label: &'static str)
    ensures
        label@ == tab_text(page),
{
    match page {
        Page::Scan => SCAN_TAB_LABEL,
        Page::Review => REVIEW_TAB_LABEL,
        Page::Cleanup => CLEANUP_TAB_LABEL,
    }
}

/// The buttons under a set, in their order.
pub open spec fn buttons_under(ignored: bool) -> Seq<SetButton> {
    seq![
        SetButton { label: KEEP_ALL_BUTTON_LABEL, action: SetAction::KeepAll, usable: !ignored },
        SetButton { label: KEEP_NONE_BUTTON_LABEL, action: SetAction::KeepNone, usable: !ignored },
        if ignored {
            SetButton { label: UNIGNORE_BUTTON_LABEL, action: SetAction::Unignore, usable: true }
        } else {
            SetButton { label: IGNORE_BUTTON_LABEL, action: SetAction::Ignore, usable: true }
        },
    ]
}

/// The buttons under a set, in their order. The third one undoes itself: a set that
/// has been ignored is one press away from being a set again. An ignored set keeps
/// nothing, so the two about keeping mean nothing until it is.
pub fn set_buttons(ignored: bool) -> (buttons: Vec<SetButton>)
    ensures
        buttons@ == buttons_under(ignored),
{
    let mut buttons: Vec<SetButton> = Vec::new();
    buttons.push(
        SetButton { label: KEEP_ALL_BUTTON_LABEL, action: SetAction::KeepAll, usable: !ignored },
    );
    buttons.push(
        SetButton { label: KEEP_NONE_BUTTON_LABEL, action: SetAction::KeepNone, usable: !ignored },
    );
    buttons.push(
        if ignored {
            SetButton { label: UNIGNORE_BUTTON_LABEL, action: SetAction::Unignore, usable: true }
        } else {
            SetButton { label: IGNORE_BUTTON_LABEL, action: SetAction::Ignore, usable: true }
        },
    );
    buttons
}

/// How many pictures are copies of another: every picture in a set, less the one
/// each set keeps.
pub fn duplicate_count(sets: &Vec<DuplicateSet>) -> (count: usize)
    requires
        0 <= duplicates_in(sets.deep_view()),
        pictures_in(sets.deep_view()) <= usize::MAX,
    ensures
        count == duplicates_in(sets.deep_view()),
{
    let ghost all = sets.deep_view();
    let mut pictures: usize = 0;
    for at in 0..sets.len()
        invariant
            all == sets.deep_view(),
            pictures == pictures_in(all.take(at as int)),
            pictures_in(all) <= usize::MAX,
    {
        proof {
            assert(all.take(at + 1).drop_last() =~= all.take(at as int));
            assert(all[at as int] == sets@[at as int].deep_view());
            lemma_fewer_hold_fewer(all, at + 1);
        }
        pictures = pictures + sets[at].members.len();
    }
    assert(all.take(all.len() as int) =~= all);
    pictures - sets.len()
}

/// The first of some sets hold no more pictures than all of them.
proof fn lemma_fewer_hold_fewer(sets: Seq<SetView>, at: int)
    requires
        0 <= at <= sets.len(),
    ensures
        pictures_in(sets.take(at)) <= pictures_in(sets),
    decreases sets.len() - at,
{
    if at == sets.len() {
        assert(sets.take(at) =~= sets);
    } else {
        assert(sets.take(at + 1).drop_last() =~= sets.take(at));
        lemma_fewer_hold_fewer(sets, at + 1);
    }
}

/// The label beside how many files a cleanup takes.
pub open spec fn summary_text(destination: Destination) -> Seq<char> {
    if destination is MoveTo {
        FILES_MOVED_SUMMARY_LABEL@
    } else {
        FILES_REMOVED_SUMMARY_LABEL@
    }
}

/// The heading over the files a cleanup takes.
pub open spec fn heading_text(destination: Destination) -> Seq<char> {
    if destination is MoveTo {
        FILES_TO_MOVE_HEADING@
    } else {
        FILES_TO_REMOVE_HEADING@
    }
}

/// The label beside how many files a cleanup takes.
pub fn summary_label(destination: Destination) -> (label: &'static str)
    ensures
        label@ == summary_text(destination),
{
    match destination {
        Destination::MoveTo => FILES_MOVED_SUMMARY_LABEL,
        _ => FILES_REMOVED_SUMMARY_LABEL,
    }
}

/// The heading over the files a cleanup takes.
pub fn files_heading(destination: Destination) -> (label: &'static str)
    ensures
        label@ == heading_text(destination),
{
    match destination {
        Destination::MoveTo => FILES_TO_MOVE_HEADING,
        _ => FILES_TO_REMOVE_HEADING,
    }
}

impl App {
    /// Whether there is anything for a cleanup to be about.
    pub fn anything_to_clean(&self) -> (any: bool)
        ensures
            any == self@.any_copies(),
    {
        let ghost sets = self@.review.sets;
        for at in 0..self.review.sets.len()
            invariant
                sets == self@.review.sets,
                forall|before: int|
                    0 <= before < at ==> all_ignored(
                        (#[trigger] sets[before]).members,
                        self@.review.ignored,
                    ),
        {
            assert(sets[at as int] == self.review.sets@[at as int].deep_view());
            if !is_ignored(&self.review.sets[at], &self.review.ignored) {
                return true;
            }
        }
        false
    }

    /// Whether a tab leads anywhere.
    pub fn tab_usable(&self, page: Page) -> (usable: bool)
        ensures
            usable == self@.tab_leads(page),
    {
        match page {
            Page::Scan => true,
            Page::Review => self.have_sets(),
            Page::Cleanup => self.have_sets() && self.anything_to_clean(),
        }
    }

    /// Go to a page by its tab, where that leads anywhere.
    pub fn open_tab(&mut self, page: Page)
        ensures
            final(self)@ == old(self)@.tab_opened(page),
    {
        if self.tab_usable(page) {
            self.set_page(page);
        }
    }

    /// Make sure of the letters of the folder that is open. It is on screen from the
    /// moment it is chosen, and it can be in any script. Asked once per folder, not
    /// once per frame: a folder that is the same path as the one before it, written
    /// in another way, may be taken for that one.
    pub fn cover_folder(&mut self)
        ensures
            final(self)@ == old(self)@ || final(self)@ == old(self)@.covering(),
            old(self)@.covered == old(self)@.folder ==> final(self)@ == old(self)@,
            old(self)@.covered is Some && old(self)@.folder is Some && is_same(
                old(self)@.covered->0,
                old(self)@.folder->0,
            ) ==> final(self)@ == old(self)@,
            old(self)@.covered is Some != old(self)@.folder is Some ==> final(self)@
                == old(self)@.covering(),
            old(self)@.covered is Some && old(self)@.folder is Some && !may_be_same(
                old(self)@.covered->0,
                old(self)@.folder->0,
            ) ==> final(self)@ == old(self)@.covering(),
    {
        let same = match (&self.covered, &self.folder) {
            (Some(covered), Some(folder)) => same_path(covered.as_str(), folder.as_str()),
            (None, None) => true,
            _ => false,
        };
        self.cover_folder_given(same);
    }

    /// Make sure of the letters of the folder that is open, unless it is the one
    /// that was made sure of last.
    pub fn cover_folder_given(&mut self, same: bool)
        ensures
            final(self)@ == if same {
                old(self)@
            } else {
                old(self)@.covering()
            },
    {
        if same {
            return;
        }
        let folder = copy_text(&self.folder);
        self.set_covered(copy_text(&folder));
        match folder {
            Some(folder) => self.ask(Action::CoverText(folder)),
            None => {},
        }
    }

    fn set_covered(&mut self, covered: Option<String>)
        ensures
            final(self)@ == (AppView { covered: covered.deep_view(), ..old(self)@ }),
    {
        self.covered = covered;
    }

    /// Take down where the window is.
    pub fn note_window(&mut self, maximized: bool, place: Option<Place>)
        ensures
            final(self)@ == old(self)@.placed(maximized, place),
    {
        if maximized {
            if let Some(window) = self.window {
                self.window = Some(Window { maximized: true, ..window });
            }
            return;
        }
        if let Some(place) = place {
            self.window = Some(
                Window {
                    x: place.x,
                    y: place.y,
                    width: place.width,
                    height: place.height,
                    maximized: false,
                },
            );
        }
    }

    /// Take down how wide the preview pane is.
    pub fn note_preview(&mut self, width: u32)
        ensures
            final(self)@ == (AppView { preview_width: Some(width), ..old(self)@ }),
    {
        self.preview_width = Some(width);
    }

    /// Which of the boxes about the folder can be ticked. What runs on opening is
    /// the pass that brings the index up to date, so with no index kept there is
    /// nothing to run and nothing to tick, and the same for what comes of that pass;
    /// with no subfolders there is only one folder to match within.
    pub fn usable_boxes(&self) -> (usable: Boxes)
        ensures
            usable == self@.boxes_usable(),
    {
        let free = !self.busy();
        let ticked = self.choices;
        Boxes {
            recurse: free,
            within_a_folder: free && ticked.recurse,
            keep_index: free,
            auto_rescan: free && ticked.keep_index,
            auto_mark: free && ticked.keep_index && ticked.auto_rescan,
        }
    }

    /// Take the boxes about the folder as they are ticked now.
    pub fn tick(&mut self, boxes: Boxes)
        ensures
            final(self)@ == old(self)@.boxes_ticked(boxes),
    {
        let was = self.choices;
        let subfolders = was.recurse != boxes.recurse;
        let apart = was.within_a_folder != boxes.within_a_folder;
        let remember = was.keep_index != boxes.keep_index;
        let on_opening = was.auto_rescan != boxes.auto_rescan;
        let on_marking = was.auto_mark != boxes.auto_mark;
        self.set_choices(
            Choices {
                recurse: boxes.recurse,
                within_a_folder: boxes.within_a_folder,
                keep_index: boxes.keep_index,
                auto_rescan: boxes.auto_rescan || (remember && boxes.keep_index),
                auto_mark: boxes.auto_mark,
                ..was
            },
        );
        assert(self@.choices == was.ticked(boxes));
        // The index is what remembering a folder amounts to, so taking the tick off
        // takes the index with it.
        if remember && !boxes.keep_index {
            self.throw_index_away();
        }
        // A box that has just lost what it depends on comes off, and is written out
        // that way rather than left ticked in the index for the next run to read
        // back.
        let depended_on = subfolders || remember || on_opening;
        if depended_on {
            self.settle_the_boxes();
        }
        if apart || on_opening || on_marking || depended_on {
            self.remember_ways_of_matching();
        }
        if subfolders || remember || apart {
            self.remember();
        }
    }

    fn throw_index_away(&mut self)
        ensures
            final(self)@ == old(self)@.index_thrown_away(),
    {
        self.ask(Action::DiscardIndex);
        self.ask(Action::ForgetThumbnails);
        self.clear_review();
        self.set_scan(ScanState::empty());
    }

    /// Take the controls about what counts as a duplicate as they stand now, and
    /// whether the slider was moved or a preset pressed.
    pub fn set_matching(&mut self, matching: Matching, moved: bool)
        ensures
            final(self)@ == old(self)@.matching_set(matching, moved),
    {
        let was = self.choices;
        let ways = matching.match_whole_frame != was.match_whole_frame || matching.match_corners
            != was.match_corners;
        let colour = matching.ignore_colour != was.ignore_colour;
        self.set_choices(
            Choices {
                sensitivity: matching.sensitivity,
                match_whole_frame: matching.match_whole_frame,
                match_corners: matching.match_corners,
                ignore_colour: matching.ignore_colour,
                ..was
            },
        );
        if ways {
            self.remember_ways_of_matching();
        }
        if moved || ways || colour {
            self.remember();
        }
    }

    /// Forget the folders scanned before.
    pub fn forget_previous(&mut self)
        ensures
            final(self)@ == old(self)@.previous_forgotten(),
    {
        self.offer_nothing();
        self.remember();
    }

    fn offer_nothing(&mut self)
        ensures
            final(self)@ == (AppView { previous: Seq::empty(), ..old(self)@ }),
    {
        self.previous.clear();
        assert(self.previous.deep_view() =~= Seq::<Seq<char>>::empty());
    }

    /// Which of the buttons that run something can be pressed.
    pub fn run_buttons(&self) -> (buttons: RunButtons)
        ensures
            buttons == self@.runnable(),
    {
        let busy = self.busy();
        RunButtons {
            scan: !busy && self.folder.is_some(),
            cancel: self.can_cancel(),
            find_duplicates: !busy && self.db_path.is_some(),
        }
    }

    /// Press the button that looks for duplicates.
    pub fn find_duplicates(&mut self, now: u128)
        ensures
            final(self)@ == old(self)@.duplicates_wanted(now),
    {
        if self.flow.images {
            self.load_sets(now);
        } else {
            self.ask(Action::Scan);
        }
    }

    /// Whether the bars and the counts are on the page.
    pub fn shows_progress(&self) -> (shown: bool)
        ensures
            shown == self@.has_progress(),
    {
        self.flow.running || self.flow.searching || self.scan.total != 0
            || self.scan.finished.is_some()
    }

    /// How many files a cleanup would take, and how many bytes those are.
    pub fn selected_for_removal(&self) -> (going: (usize, i128))
        ensures
            going.0 == self@.review.plan.len(),
            going.1 == bytes_of(self@.review.plan),
    {
        (self.review.plan.files(), self.review.plan.bytes())
    }

    /// Press the review's button that leads to the cleanup, which it does where
    /// there is something to clean up.
    pub fn go_to_cleanup(&mut self)
        ensures
            final(self)@ == old(self)@.gone_to_cleanup(),
    {
        if self.review.plan.files() > 0 {
            self.set_page(Page::Cleanup);
        }
    }

    /// A picture of the sets with its set's number, as the preview looks them up.
    pub fn picture_called(&self, file_id: Option<i64>) -> (found: Option<(i64, Member)>)
        ensures
            match (found, file_id) {
                (Some((set_id, member)), Some(file_id)) => {
                    &&& picture(self@.review.sets, file_id) == Some(member.deep_view())
                    &&& first(self@.review.sets, holding(file_id)) is Some
                    &&& set_id == self@.review.sets[first(
                        self@.review.sets,
                        holding(file_id),
                    )->0].set_id
                },
                (Some(_), None) => false,
                (None, Some(file_id)) => picture(self@.review.sets, file_id) is None,
                (None, None) => true,
            },
    {
        let Some(file_id) = file_id else {
            return None;
        };
        match find_picture(&self.review.sets, file_id) {
            None => None,
            Some((set, member)) => {
                assert(self@.review.sets[set as int] == self.review.sets@[set as int].deep_view());
                assert(self@.review.sets[set as int].members[member as int]
                    == self.review.sets@[set as int].members@[member as int].deep_view());
                Some((self.review.sets[set].set_id, self.review.sets[set].members[member].copy()))
            },
        }
    }

    /// Whether the button over the preview can be pressed: not where the picture is
    /// kept already.
    pub fn can_keep(&self, set_id: i64, file_id: i64) -> (can: bool)
        ensures
            can == self@.can_be_kept(set_id, file_id),
    {
        let marked = marks_for(&self.review.keep, set_id);
        !holds(&marked, file_id)
    }

    /// How a picture of a set is drawn.
    pub fn tile(&self, at: usize, file_id: i64) -> (tile: Tile)
        requires
            at < self.review.sets@.len(),
        ensures
            tile == self@.drawn(self@.review.sets[at as int], file_id),
    {
        let set = &self.review.sets[at];
        assert(self@.review.sets[at as int] == set.deep_view());
        let ignored = is_ignored(set, &self.review.ignored);
        let selected = match self.review.selected {
            Some(selected) => selected == file_id,
            None => false,
        };
        Tile {
            kept: !ignored && !self.can_keep(set.set_id, file_id),
            showing: !ignored && selected,
        }
    }

    /// Whether a set is to be scrolled along to the picture the preview was moved
    /// to, which it is told once.
    pub fn take_show_selected(&mut self, at: usize) -> (scroll: bool)
        requires
            at < old(self).review.sets@.len(),
        ensures
            scroll == (old(self)@.review.show_selected && old(self)@.review.selected is Some
                && has_id(
                old(self)@.review.sets[at as int].members,
                old(self)@.review.selected->0,
            )),
            final(self)@ == old(self)@.reviewing(
                (ReviewView {
                    show_selected: old(self)@.review.show_selected && !scroll,
                    ..old(self)@.review
                }),
            ),
    {
        assert(self@.review.sets[at as int] == self.review.sets@[at as int].deep_view());
        let held = match self.review.selected {
            Some(file_id) => member_called(&self.review.sets[at], file_id).is_some(),
            None => false,
        };
        let scroll = self.review.show_selected && held;
        if scroll {
            self.review.show_selected = false;
        }
        scroll
    }

    /// Whether the button that starts a cleanup can be pressed.
    pub fn cleanup_ready(&self) -> (ready: bool)
        ensures
            ready == self@.can_clean_up(),
    {
        self.review.plan.files() > 0 && self.folder.is_some() && !self.busy()
    }

    /// What the button that starts a cleanup says.
    pub fn cleanup_button(&self) -> (label: String)
        ensures
            label@ == self@.cleanup_label(),
    {
        String::from_str(self.destination.verb()).concat(" ").concat(
            decimal(self.review.plan.files() as u128).as_str(),
        ).concat(" files")
    }

    /// What the bar that stands in for that button while files are going says, and
    /// how many of how many have gone.
    pub fn removal_bar(&self) -> (bar: (String, usize, usize))
        ensures
            bar.0@ == self@.removal_text(),
            bar.1 == self@.flow.removed_so_far,
            bar.2 == self@.out_of(),
    {
        let done = self.flow.removed_so_far;
        let total: usize = if self.flow.to_remove == 0 {
            1
        } else {
            self.flow.to_remove
        };
        let text = if self.flow.tidying {
            String::from_str(TIDYING_INDEX_TEXT)
        } else {
            let word = match self.destination {
                Destination::MoveTo => MOVING_WORD,
                _ => REMOVING_WORD,
            };
            String::from_str(word).concat(" ").concat(decimal(done as u128).as_str()).concat(
                " of ",
            ).concat(decimal(total as u128).as_str())
        };
        (text, done, total)
    }

    /// What the list of files to remove says about one of them, and whether it
    /// would not go: the files are still there, so they are still in the list, and
    /// the reason goes on the line. There is nowhere else to read it.
    pub fn removal_line(&self, at: usize) -> (line: (String, bool))
        requires
            at < self.review.plan.removals@.len(),
        ensures
            (line.0@, line.1) == self@.removal_line(at as int),
    {
        let path = self.review.plan.removals[at].rel_path.as_str();
        assert(path@ == self@.review.plan[at as int].rel_path);
        let ghost failures = self@.cleanup_failures;
        let mut left: usize = self.cleanup_failures.len();
        assert(failures.take(left as int) =~= failures);
        while left > 0
            invariant
                failures == self.cleanup_failures.deep_view(),
                left <= failures.len(),
                last_failure(failures, path@) == last_failure(failures.take(left as int), path@),
                path@ == self@.review.plan[at as int].rel_path,
                failures == self@.cleanup_failures,
            decreases left,
        {
            left = left - 1;
            proof {
                assert(failures[left as int] == self.cleanup_failures@[left as int].deep_view());
                assert(failures.take(left + 1).drop_last() =~= failures.take(left as int));
            }
            if same_text(self.cleanup_failures[left].0.as_str(), path) {
                return (
                    String::from_str(path).concat("  ").concat(
                        self.cleanup_failures[left].1.as_str(),
                    ),
                    true,
                );
            }
        }
        (String::from_str(path), false)
    }

    /// Close the window. The settings are written, a pass still running is stopped,
    /// and the index is closed last, which is what waits for the writer: a mark made
    /// a moment before the window closed is not lost.
    pub fn on_exit(&mut self)
        ensures
            final(self)@ == old(self)@.closed(),
    {
        self.remember();
        if self.flow.running {
            self.ask(Action::CancelPass);
        }
        self.set_flow(Flow { running: false, ..self.flow });
        self.ask(Action::CloseIndex);
    }
}

} // verus!
