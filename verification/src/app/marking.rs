//! Marking pictures, and saying which sets are not sets of copies.

use vstd::prelude::*;

use crate::app::searching::{find_picture, picture};
use crate::app::{Action, ActionView, App, AppView, Flow};
use crate::keep::{not_among, without};
use crate::progress::{no_scan, no_search, ScanState, SearchState};
use crate::review::{best_marked, kept_whole, marks_together, names_the_unmarked, ReviewView};
use crate::sets::{ids_of, Member};
use crate::state::{Direction, SetAction};
use crate::walk::all_shown;

verus! {

impl AppView {
    /// The window with its review changed.
    pub open spec fn reviewing(self, review: ReviewView) -> AppView {
        AppView { review, ..self }
    }

    /// The window with the mark on the picture the preview is showing put on, or
    /// taken off where it was on, and the one picture that changed written down.
    pub open spec fn mark_toggled(self) -> AppView {
        match self.review.set_of_selected() {
            None => self,
            Some(at) => {
                let file_id = self.review.selected->0;
                let was = self.review.marks(self.review.sets[at].set_id).contains(file_id);
                self.reviewing(self.review.toggled()).wrote_marks(seq![file_id], !was)
            },
        }
    }

    /// The window with a picture the one thing its set keeps.
    pub open spec fn marked_only(self, set_id: i64, file_id: i64) -> AppView {
        self.reviewing(self.review.marking(set_id, seq![file_id])).wrote_marks(
            without(self.review.marks(set_id), file_id),
            false,
        ).wrote_marks(seq![file_id], true)
    }

    /// The window with the picture the preview is showing the one thing its set
    /// keeps.
    pub open spec fn selected_marked_only(self) -> AppView {
        match self.review.set_of_selected() {
            None => self,
            Some(at) => self.marked_only(
                self.review.sets[at].set_id,
                self.review.selected->0,
            ),
        }
    }

    /// The window with every mark on a set of copies taken off, those that came off
    /// written down.
    pub open spec fn all_unmarked(self, came_off: Seq<i64>) -> AppView {
        self.reviewing(self.review.unmarked()).wrote_marks(came_off, false)
    }

    /// The window with every picture of every set of copies marked.
    pub open spec fn all_marked(self) -> AppView {
        self.reviewing(self.review.marked_whole()).wrote_marks(
            kept_whole(self.review.sets, self.review.keep, self.review.ignored).1,
            true,
        )
    }

    /// The window with the best copy of every set of copies marked.
    pub open spec fn best_ones_marked(self) -> AppView {
        self.reviewing(self.review.auto_marked()).wrote_marks(
            best_marked(self.review.sets, self.review.keep, self.review.ignored).1,
            true,
        )
    }

    /// The window once a set has been said not to be a set of copies.
    pub open spec fn set_ignored(self, set_id: i64) -> AppView {
        let after = self.reviewing(self.review.ignoring(set_id));
        match self.review.pairs_in(set_id) {
            Some(said) => if self.db_path is Some {
                after.does(ActionView::Ignore(said))
            } else {
                after
            },
            None => after,
        }
    }

    /// The window once that has been taken back.
    pub open spec fn set_unignored(self, set_id: i64) -> AppView {
        let after = self.reviewing(self.review.unignoring(set_id));
        match self.review.pairs_in(set_id) {
            Some(said) => if self.db_path is Some {
                after.does(ActionView::Unignore(said))
            } else {
                after
            },
            None => after,
        }
    }

    /// The window once a button under a set has been pressed.
    pub open spec fn set_button_pressed(self, at: int, action: SetAction) -> AppView {
        let set = self.review.sets[at];
        match action {
            SetAction::KeepAll => self.reviewing(self.review.pressed(at, action)).wrote_marks(
                not_among(ids_of(set.members), self.review.marks(set.set_id)),
                true,
            ),
            SetAction::KeepNone => self.reviewing(self.review.pressed(at, action)).wrote_marks(
                self.review.marks(set.set_id),
                false,
            ),
            SetAction::Ignore => self.set_ignored(set.set_id),
            SetAction::Unignore => self.set_unignored(set.set_id),
        }
    }

    /// The window with the preview on a picture.
    pub open spec fn selecting(self, file_id: i64) -> AppView {
        self.reviewing(ReviewView { selected: Some(file_id), ..self.review })
    }

    /// The window once a picture has been clicked twice, which keeps it: the space
    /// bar on the one being shown, including that it takes the mark off again and
    /// that holding shift marks it and nothing else.
    pub open spec fn double_clicked(self, file_id: i64, shift: bool) -> AppView {
        self.selecting(file_id).space_pressed(shift)
    }

    /// The window once the space bar has been pressed.
    pub open spec fn space_pressed(self, shift: bool) -> AppView {
        if shift {
            self.selected_marked_only()
        } else {
            self.mark_toggled()
        }
    }

    /// The window with no picture filling it.
    pub open spec fn picture_put_away(self) -> AppView {
        self.reviewing(ReviewView { filling_the_window: None, ..self.review })
    }

    /// The window with the picture filling it let go of, where there is no folder
    /// open for it to be in or it is in no set.
    pub open spec fn filled(self) -> AppView {
        match self.review.filling_the_window {
            None => self,
            Some(file_id) => if self.folder is None || picture(self.review.sets, file_id) is None {
                self.picture_put_away()
            } else {
                self
            },
        }
    }

    /// The window with whatever was under way stopped, and back to before any of it
    /// started.
    pub open spec fn work_cancelled(self) -> AppView {
        let stopped = if self.flow.running {
            self.does(ActionView::CancelPass)
        } else {
            self
        };
        let quiet = if self.flow.searching {
            stopped.does(ActionView::StopSearch)
        } else {
            stopped
        };
        AppView {
            flow: Flow {
                running: false,
                comparing: false,
                searching: false,
                images: false,
                ..self.flow
            },
            scan: no_scan(),
            search: no_search(),
            lit: self.lit.out(),
            review: self.review.emptied(),
            error: None,
            ..quiet
        }.does(ActionView::ForgetThumbnails)
    }
}

impl App {
    /// Mark or unmark the picture the preview is showing. One picture changed, so
    /// one row is written.
    pub fn keep_selected(&mut self)
        ensures
            final(self)@ == old(self)@.mark_toggled(),
    {
        match self.review.keep_selected() {
            None => {},
            Some((file_id, coming_off)) => {
                let mut changed: Vec<i64> = Vec::new();
                changed.push(file_id);
                assert(changed@ =~= seq![file_id]);
                self.write_marks(changed, !coming_off);
            },
        }
    }

    /// Make the picture the preview is showing the one thing its set keeps.
    pub fn keep_only_selected(&mut self)
        ensures
            final(self)@ == old(self)@.selected_marked_only(),
    {
        match self.review.keep_only_selected() {
            None => {},
            Some((came_off, file_id)) => {
                let mut changed: Vec<i64> = Vec::new();
                changed.push(file_id);
                assert(changed@ =~= seq![file_id]);
                assert(came_off.deep_view() =~= came_off@);
                self.write_marks(came_off, false);
                self.write_marks(changed, true);
            },
        }
    }

    /// The button over the preview.
    pub fn keep_this_one(&mut self, set_id: i64, file_id: i64)
        ensures
            final(self)@ == old(self)@.marked_only(set_id, file_id),
    {
        let came_off = self.review.keep_this_one(set_id, file_id);
        let mut changed: Vec<i64> = Vec::new();
        changed.push(file_id);
        assert(changed@ =~= seq![file_id]);
        self.write_marks(came_off, false);
        self.write_marks(changed, true);
    }

    /// Take every mark off every set of copies.
    pub fn unmark_everything(&mut self)
        ensures
            exists|order: Seq<i64>| #[trigger]
                names_the_unmarked(
                    order,
                    old(self)@.review.sets,
                    old(self)@.review.keep,
                    old(self)@.review.ignored,
                ) && final(self)@ == old(self)@.all_unmarked(
                    marks_together(old(self)@.review.keep, order),
                ),
    {
        let came_off = self.review.unmark_everything();
        self.write_marks(came_off, false);
    }

    /// Mark every picture in every set of copies.
    pub fn keep_everything(&mut self)
        ensures
            final(self)@ == old(self)@.all_marked(),
    {
        let went_on = self.review.keep_everything();
        self.write_marks(went_on, true);
    }

    /// Mark the best copy in every set that has not been dealt with.
    pub fn auto_mark_to_keep(&mut self)
        ensures
            final(self)@ == old(self)@.best_ones_marked(),
    {
        let went_on = self.review.auto_mark_to_keep();
        self.write_marks(went_on, true);
    }

    /// Say that none of the pictures in this set are copies of each other, and
    /// write that down in the folder's index so the next search knows it too.
    pub fn ignore_set(&mut self, set_id: i64)
        ensures
            final(self)@ == old(self)@.set_ignored(set_id),
    {
        match self.review.ignore_set(set_id) {
            None => {},
            Some(said) => {
                assert(said.deep_view() =~= said@);
                if self.db_path.is_some() {
                    self.ask(Action::Ignore(said));
                }
            },
        }
    }

    /// Take it back: the pictures in this set are copies of each other after
    /// all. What was written down goes, and the set is a set again.
    pub fn unignore_set(&mut self, set_id: i64)
        ensures
            final(self)@ == old(self)@.set_unignored(set_id),
    {
        match self.review.unignore_set(set_id) {
            None => {},
            Some(said) => {
                assert(said.deep_view() =~= said@);
                if self.db_path.is_some() {
                    self.ask(Action::Unignore(said));
                }
            },
        }
    }

    /// Press one of the buttons under a set.
    pub fn press(&mut self, at: usize, action: SetAction)
        requires
            at < old(self).review.sets@.len(),
        ensures
            final(self)@ == old(self)@.set_button_pressed(at as int, action),
    {
        assert(self@.review.sets[at as int] == self.review.sets@[at as int].deep_view());
        let set_id = self.review.sets[at].set_id;
        match action {
            SetAction::KeepAll => {
                let went_on = self.review.keep_all_of(at);
                self.write_marks(went_on, true);
            },
            SetAction::KeepNone => {
                let came_off = self.review.keep_none_of(at);
                self.write_marks(came_off, false);
            },
            SetAction::Ignore => {
                self.ignore_set(set_id);
            },
            SetAction::Unignore => {
                self.unignore_set(set_id);
            },
        }
    }

    /// Put the preview on a picture.
    pub fn select(&mut self, file_id: i64)
        ensures
            final(self)@ == old(self)@.selecting(file_id),
    {
        self.review.selected = Some(file_id);
    }

    /// Press the space bar.
    pub fn press_space(&mut self, shift: bool)
        ensures
            final(self)@ == old(self)@.space_pressed(shift),
    {
        if shift {
            self.keep_only_selected();
        } else {
            self.keep_selected();
        }
    }

    /// Click a picture twice.
    pub fn double_click(&mut self, file_id: i64, shift: bool)
        ensures
            final(self)@ == old(self)@.double_clicked(file_id, shift),
    {
        self.select(file_id);
        self.press_space(shift);
    }

    /// Move the preview with a cursor key.
    pub fn walk(&mut self, visible: &Vec<usize>, direction: Direction)
        requires
            all_shown(old(self)@.review.sets, visible@),
        ensures
            final(self)@ == old(self)@.reviewing(
                old(self)@.review.walked(visible@, direction),
            ),
    {
        self.review.walk(visible, direction);
    }

    /// The picture that was clicked has been read, so it is the one on screen.
    pub fn show_selected_picture(&mut self)
        ensures
            final(self)@ == old(self)@.reviewing(
                (ReviewView {
                    showing: old(self)@.review.selected,
                    ..old(self)@.review
                }),
            ),
    {
        self.review.showing = self.review.selected;
    }

    /// Fill the window with a picture.
    pub fn fill_the_window(&mut self, file_id: i64)
        ensures
            final(self)@ == old(self)@.reviewing(
                (ReviewView { filling_the_window: Some(file_id), ..old(self)@.review }),
            ),
    {
        self.review.filling_the_window = Some(file_id);
    }

    /// Put the picture filling the window away.
    pub fn put_picture_away(&mut self)
        ensures
            final(self)@ == old(self)@.picture_put_away(),
    {
        self.review.filling_the_window = None;
    }

    /// The picture filling the window, if one is and it is still there to show.
    pub fn filling_the_window(&mut self) -> (shown: Option<Member>)
        ensures
            final(self)@ == old(self)@.filled(),
            shown.deep_view() == match final(self)@.review.filling_the_window {
                Some(file_id) => picture(final(self)@.review.sets, file_id),
                None => None,
            },
    {
        let Some(file_id) = self.review.filling_the_window else {
            return None;
        };
        if self.folder.is_none() {
            self.put_picture_away();
            return None;
        }
        match find_picture(&self.review.sets, file_id) {
            None => {
                self.put_picture_away();
                None
            },
            Some((set, member)) => {
                assert(self.review@.sets[set as int].members[member as int]
                    == self.review.sets@[set as int].members@[member as int].deep_view());
                Some(self.review.sets[set].members[member].copy())
            },
        }
    }

    /// The row the cursor keys moved to that the list may not be showing, taken so
    /// it is scrolled to once.
    pub fn take_scroll_to(&mut self) -> (row: Option<usize>)
        ensures
            row == old(self)@.review.scroll_to,
            final(self)@ == old(self)@.reviewing(
                (ReviewView { scroll_to: None, ..old(self)@.review }),
            ),
    {
        let row = self.review.scroll_to;
        self.review.scroll_to = None;
        row
    }

    /// Whether the list is to be drawn from its first set, taken so it is done once.
    pub fn take_list_to_top(&mut self) -> (top: bool)
        ensures
            top == old(self)@.review.list_to_top,
            final(self)@ == old(self)@.reviewing(
                (ReviewView { list_to_top: false, ..old(self)@.review }),
            ),
    {
        let top = self.review.list_to_top;
        self.review.list_to_top = false;
        top
    }

    /// Stop whichever of the two waits is on: the indexing, the search, or both
    /// if the indexer has just handed over.
    ///
    /// The window comes back here, not when the work says it has stopped. A
    /// cancelled pass leaves numbers that are true of nothing, and none of it is
    /// worth keeping.
    pub fn cancel_work(&mut self)
        ensures
            final(self)@ == old(self)@.work_cancelled(),
    {
        let was = self.flow;
        if was.running {
            self.ask(Action::CancelPass);
        }
        if was.searching {
            self.ask(Action::StopSearch);
        }
        self.set_flow(
            Flow { running: false, comparing: false, searching: false, images: false, ..was },
        );
        self.set_scan(ScanState::empty());
        self.set_search(SearchState::empty());
        self.clear_lamps();
        self.clear_review();
        self.dismiss_error();
        self.ask(Action::ForgetThumbnails);
    }
}

} // verus!
