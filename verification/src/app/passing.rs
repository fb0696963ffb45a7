//! Hearing from a pass over the folder.

use vstd::prelude::*;
use vstd::string::*;

use crate::app::{App, AppView, Flow};
use crate::constants::{CANCELLED_TEXT, NO_IMAGES_FOUND_TEXT};
use crate::indexer::{Update, UpdateView};
use crate::lamps::{lamp_of, Lamp, Step};
use crate::progress::{no_scan, no_search, ScanState, ScanView, SearchState, Stage};
use crate::text::{decimal, digits};

verus! {

/// How a pass ended, in words.
pub open spec fn done_text(indexed: u64, removed: u64, failed: u64, elapsed: Seq<char>) -> Seq<char> {
    "indexed "@ + digits(indexed as nat) + ", removed "@ + digits(removed as nat) + ", failed "@
        + digits(failed as nat) + ", in "@ + elapsed + "s"@
}

/// How a pass ended, in words.
fn how_it_ended(indexed: u64, removed: u64, failed: u64, elapsed: &str) -> (text: String)
    ensures
        text@ == done_text(indexed, removed, failed, elapsed@),
{
    String::from_str("indexed ").concat(decimal(indexed as u128).as_str()).concat(
        ", removed ",
    ).concat(decimal(removed as u128).as_str()).concat(", failed ").concat(
        decimal(failed as u128).as_str(),
    ).concat(", in ").concat(elapsed).concat("s")
}

impl ScanView {
    /// The screen once a pass has said which stage it is in. The bars follow that
    /// rather than guessing from numbers that came from a stage that is over.
    pub open spec fn reaching(self, step: Step) -> ScanView {
        match step {
            Step::StartedReadingNewFiles => ScanView { reading: Stage::Running, ..self },
            Step::FinishedReadingNewFiles => ScanView { reading: Stage::Over, ..self },
            Step::StartedIndexingNewFiles => ScanView { writing: Stage::Running, ..self },
            Step::FinishedIndexingNewFiles => ScanView { writing: Stage::Over, ..self },
            _ => self,
        }
    }

    /// The screen once the listing has found so many, of how many where that is
    /// known. The listing is not the reading and does not move the reading's bar.
    pub open spec fn walking(self, found: u64, of: Option<u64>) -> ScanView {
        ScanView {
            listing: Some(found),
            total: match of {
                Some(total) => total,
                None => self.total,
            },
            ..self
        }
    }

    /// The screen once the listing is over. Nothing has been read yet, and the bar
    /// says so until the first file is.
    pub open spec fn starting(self, total: u64) -> ScanView {
        if total == 0 {
            ScanView { finished: Some(NO_IMAGES_FOUND_TEXT@), ..no_scan() }
        } else {
            ScanView { total, done: 0, listing: None, indexed: 0, to_index: 0, ..self }
        }
    }

    /// The screen once so much has been read, which means the reading is under way
    /// whether or not its step arrived first.
    pub open spec fn read(
        self,
        done: u64,
        per_sec: u64,
        unchanged: u64,
        removed: u64,
        ignored: u64,
    ) -> ScanView {
        ScanView {
            reading: self.reading.under_way(),
            done,
            per_sec,
            unchanged,
            removed,
            ignored,
            ..self
        }
    }

    /// The screen once so much has been written. Reading is over when everything in
    /// the folder has been read or was already in the index, which for a folder
    /// that has not changed is true before a single file is opened; the same for
    /// the writing.
    pub open spec fn wrote(
        self,
        done: u64,
        total: u64,
        read: u64,
        unchanged: u64,
        ignored: u64,
    ) -> ScanView {
        ScanView {
            reading: if read >= total {
                Stage::Over
            } else {
                self.reading.under_way()
            },
            writing: if done >= total {
                Stage::Over
            } else {
                self.writing.under_way()
            },
            indexed: done,
            to_index: total,
            done: read,
            unchanged,
            ignored,
            ..self
        }
    }

    /// The screen once the pass has done everything it was going to: all of the
    /// folder is read and indexed, including a folder where that was nothing at
    /// all.
    pub open spec fn all_done(
        self,
        indexed: u64,
        removed: u64,
        failed: u64,
        elapsed: Seq<char>,
    ) -> ScanView {
        let over = if self.total > 0 {
            ScanView { reading: Stage::Over, writing: Stage::Over, ..self }
        } else {
            self
        };
        ScanView { finished: Some(done_text(indexed, removed, failed, elapsed)), ..over }
    }

    /// The screen once a pass has said something.
    pub open spec fn told(self, update: UpdateView) -> ScanView {
        match update {
            UpdateView::Reached(step) => self.reaching(step),
            UpdateView::Walking { found, of } => self.walking(found, of),
            UpdateView::Start { total } => self.starting(total),
            UpdateView::Progress { done, per_sec, unchanged, removed, ignored } => self.read(
                done,
                per_sec,
                unchanged,
                removed,
                ignored,
            ),
            UpdateView::Indexed { done, total, read, unchanged, ignored } => self.wrote(
                done,
                total,
                read,
                unchanged,
                ignored,
            ),
            UpdateView::Failed { path, message } => ScanView {
                failures: self.failures.push((path, message)),
                ..self
            },
            UpdateView::Done { indexed, removed, failed, elapsed } => self.all_done(
                indexed,
                removed,
                failed,
                elapsed,
            ),
            _ => self,
        }
    }
}

impl ScanState {
    fn reach(&mut self, step: Step)
        ensures
            final(self)@ == old(self)@.reaching(step),
    {
        match step {
            Step::StartedReadingNewFiles => {
                self.reading = Stage::Running;
            },
            Step::FinishedReadingNewFiles => {
                self.reading = Stage::Over;
            },
            Step::StartedIndexingNewFiles => {
                self.writing = Stage::Running;
            },
            Step::FinishedIndexingNewFiles => {
                self.writing = Stage::Over;
            },
            _ => {},
        }
    }

    fn walk(&mut self, found: u64, of: Option<u64>)
        ensures
            final(self)@ == old(self)@.walking(found, of),
    {
        self.listing = Some(found);
        if let Some(total) = of {
            self.total = total;
        }
    }

    fn start(&mut self, total: u64)
        ensures
            final(self)@ == old(self)@.starting(total),
    {
        if total == 0 {
            *self = ScanState::empty();
            self.finished = Some(String::from_str(NO_IMAGES_FOUND_TEXT));
        } else {
            self.total = total;
            self.done = 0;
            self.listing = None;
            self.indexed = 0;
            self.to_index = 0;
        }
    }

    fn count_read(&mut self, done: u64, per_sec: u64, unchanged: u64, removed: u64, ignored: u64)
        ensures
            final(self)@ == old(self)@.read(done, per_sec, unchanged, removed, ignored),
    {
        self.reading = self.reading.begun();
        self.done = done;
        self.per_sec = per_sec;
        self.unchanged = unchanged;
        self.removed = removed;
        self.ignored = ignored;
    }

    fn count_written(&mut self, done: u64, total: u64, read: u64, unchanged: u64, ignored: u64)
        ensures
            final(self)@ == old(self)@.wrote(done, total, read, unchanged, ignored),
    {
        self.reading = if read >= total {
            Stage::Over
        } else {
            self.reading.begun()
        };
        self.writing = if done >= total {
            Stage::Over
        } else {
            self.writing.begun()
        };
        self.indexed = done;
        self.to_index = total;
        // The counters under the bars come from the read side, and they move
        // whichever bar it was that moved.
        self.done = read;
        self.unchanged = unchanged;
        self.ignored = ignored;
    }

    /// Take what a pass has said.
    fn hear(&mut self, update: &Update)
        ensures
            final(self)@ == old(self)@.told(update.deep_view()),
    {
        match update {
            Update::Reached(step) => {
                self.reach(*step);
            },
            Update::Walking { found, of } => {
                self.walk(*found, *of);
            },
            Update::Start { total } => {
                self.start(*total);
            },
            Update::Progress { done, per_sec, unchanged, removed, ignored } => {
                self.count_read(*done, *per_sec, *unchanged, *removed, *ignored);
            },
            Update::Indexed { done, total, read, unchanged, ignored } => {
                self.count_written(*done, *total, *read, *unchanged, *ignored);
            },
            Update::Failed { path, message } => {
                self.note_failure(path.clone(), message.clone());
            },
            Update::Done { indexed, removed, failed, elapsed } => {
                self.finish(*indexed, *removed, *failed, elapsed.as_str());
            },
            _ => {},
        }
    }

    fn note_failure(&mut self, path: String, message: String)
        ensures
            final(self)@ == (ScanView {
                failures: old(self)@.failures.push((path@, message@)),
                ..old(self)@
            }),
    {
        self.failures.push((path, message));
        assert(self.failures.deep_view() =~= old(self).failures.deep_view().push(
            (path@, message@),
        ));
    }

    fn finish(&mut self, indexed: u64, removed: u64, failed: u64, elapsed: &str)
        ensures
            final(self)@ == old(self)@.all_done(indexed, removed, failed, elapsed@),
    {
        if self.total > 0 {
            self.reading = Stage::Over;
            self.writing = Stage::Over;
        }
        self.finished = Some(how_it_ended(indexed, removed, failed, elapsed));
    }
}

impl AppView {
    /// The window with what the scan screen shows changed.
    pub open spec fn showing_scan(self, scan: ScanView) -> AppView {
        AppView { scan, ..self }
    }

    /// The window once a pass is over, one way or another.
    ///
    /// An error is shown and a cancellation is said. The comparison a folder is
    /// opened with decides what opening it does. A pass that found nothing has
    /// nothing to look through. Any other is followed by the search, whose sets are
    /// marked as they arrive where the box says so.
    pub open spec fn pass_over(self, cancelled: bool, error: Option<Seq<char>>, now: u128) -> AppView {
        let stopped = AppView {
            flow: Flow { running: false, comparing: false, ..self.flow },
            ..self
        };
        match error {
            Some(message) => stopped.failing(message),
            None => if cancelled {
                stopped.showing_scan(ScanView { finished: Some(CANCELLED_TEXT@), ..self.scan })
            } else if self.flow.comparing {
                stopped.opening_decided(self.flow.something_moved, now)
            } else if self.scan.total == 0 {
                stopped
            } else {
                AppView {
                    flow: Flow { mark_on_arrival: self.choices.auto_mark, ..stopped.flow },
                    ..stopped
                }.search_started(now)
            },
        }
    }

    /// The window once a pass has said something.
    pub open spec fn told_by_pass(self, update: UpdateView, now: u128) -> AppView {
        let shown = self.showing_scan(self.scan.told(update));
        match update {
            UpdateView::Reached(step) => shown.lighting(lamp_of(step), now),
            UpdateView::Images => AppView { flow: Flow { images: true, ..self.flow }, ..shown },
            // A folder that has been asked already answered: what the boxes say now
            // is what the person at the window set them to, and a pass does not put
            // them back.
            UpdateView::Settings(notes) => if self.flow.noted {
                shown
            } else {
                shown.notes_taken(notes)
            },
            // Nothing in the folder. Everything lit up to here was the pass finding
            // that out, and leaving those green claims a scan happened.
            UpdateView::Start { total } => if total == 0 {
                AppView { lit: self.lit.out(), search: no_search(), ..shown }
            } else {
                shown
            },
            // Files the index does not have, and files it has that the folder does
            // not. Taken from what the pass says it did, not from the bars, which
            // count the whole folder.
            UpdateView::Done { indexed, removed, failed, elapsed } => AppView {
                flow: Flow { something_moved: indexed > 0 || removed > 0, ..self.flow },
                ..shown
            },
            UpdateView::Finished { cancelled, error } => shown.pass_over(cancelled, error, now),
            _ => shown,
        }
    }

    /// The window once a pass has said these things, one after the other. Nothing
    /// is taken after it has said it is over.
    pub open spec fn told_all_by_pass(self, updates: Seq<UpdateView>, now: u128) -> AppView
        decreases updates.len(),
    {
        if updates.len() == 0 {
            self
        } else {
            let told = self.told_by_pass(updates[0], now);
            if updates[0] is Finished {
                told
            } else {
                told.told_all_by_pass(updates.drop_first(), now)
            }
        }
    }

    /// The window once a frame has taken what the pass has said.
    pub open spec fn pass_heard(self, updates: Seq<UpdateView>, now: u128) -> AppView {
        if self.flow.running {
            self.told_all_by_pass(updates, now)
        } else {
            self
        }
    }
}

impl App {
    /// Take whatever the pass has reported since the last frame.
    pub fn pump_indexer(&mut self, updates: Vec<Update>, now: u128)
        ensures
            final(self)@ == old(self)@.pass_heard(updates.deep_view(), now),
    {
        if !self.flow.running {
            return;
        }
        let ghost all = updates.deep_view();
        let mut waiting = updates;
        while waiting.len() > 0
            invariant
                old(self)@.told_all_by_pass(all, now) == self@.told_all_by_pass(
                    waiting.deep_view(),
                    now,
                ),
                old(self)@.pass_heard(all, now) == old(self)@.told_all_by_pass(all, now),
                updates.deep_view() == all,
            decreases waiting.len(),
        {
            let ghost left = waiting.deep_view();
            let one = waiting.remove(0);
            proof {
                assert(left[0] == one.deep_view());
                assert(waiting.deep_view() =~= left.drop_first());
            }
            let over = match &one {
                Update::Finished { cancelled: _, error: _ } => true,
                _ => false,
            };
            self.take_update(one, now);
            if over {
                return;
            }
        }
    }

    /// Take one thing the pass has reported.
    pub fn take_update(&mut self, update: Update, now: u128)
        ensures
            final(self)@ == old(self)@.told_by_pass(update.deep_view(), now),
    {
        self.hear_scan(&update);
        match update {
            Update::Reached(step) => {
                self.light(Lamp::from(step), now);
            },
            Update::Images => {
                self.set_flow(Flow { images: true, ..self.flow });
            },
            Update::Settings(notes) => {
                if !self.flow.noted {
                    self.take_notes(notes);
                }
            },
            Update::Start { total } => {
                if total == 0 {
                    self.clear_lamps();
                    self.set_search(SearchState::empty());
                }
            },
            Update::Done { indexed, removed, failed: _, elapsed: _ } => {
                self.set_flow(Flow { something_moved: indexed > 0 || removed > 0, ..self.flow });
            },
            Update::Finished { cancelled, error } => {
                self.finish_pass(cancelled, error, now);
            },
            _ => {},
        }
    }

    fn hear_scan(&mut self, update: &Update)
        ensures
            final(self)@ == old(self)@.showing_scan(old(self)@.scan.told(update.deep_view())),
    {
        self.scan.hear(update);
    }

    pub(crate) fn clear_lamps(&mut self)
        ensures
            final(self)@ == (AppView { lit: old(self)@.lit.out(), ..old(self)@ }),
    {
        self.lit.clear();
    }

    fn finish_pass(&mut self, cancelled: bool, error: Option<String>, now: u128)
        ensures
            final(self)@ == old(self)@.pass_over(cancelled, error.deep_view(), now),
    {
        let was = self.flow;
        self.set_flow(Flow { running: false, comparing: false, ..was });
        match error {
            Some(message) => {
                self.fail(message);
            },
            None => {
                if cancelled {
                    self.say_finished(Some(String::from_str(CANCELLED_TEXT)));
                } else if was.comparing {
                    // That was the comparison, not a pass over the folder. What it
                    // found is what decides whether anything else happens at all.
                    self.decide_what_opening_the_folder_does(was.something_moved, now);
                } else if self.scan.total == 0 {
                    // Nothing was read, so there is nothing to look through.
                    // Searching an empty folder lights two more lamps and fills a
                    // bar for work that cannot have happened.
                } else {
                    // The marking happens to the sets, which do not exist until the
                    // search this starts comes back.
                    self.set_flow(
                        Flow { mark_on_arrival: self.choices.auto_mark, ..self.flow },
                    );
                    self.load_sets(now);
                }
            },
        }
    }
}

} // verus!
