//! Removing what is not kept.

use vstd::prelude::*;
use vstd::string::*;

use crate::app::{
    copy_text, copy_texts, Action, ActionView, App, AppView, Disposal, DisposalView, Flow,
};
use crate::constants::{CLEANUP_DONE_TEXT, INDEX_DELETED_TEXT};
use crate::notes::{DISPOSAL, MOVE_DIR};
use crate::progress::{no_scan, ScanState, ScanView};
use crate::state::{Destination, Page};
use crate::text::{decimal, digits};

verus! {

/// What became of the files a cleanup was to take.
pub struct Outcome {
    pub removed: Vec<String>,
    /// The ones that would not go, and what the system said.
    pub failed: Vec<(String, String)>,
    /// The megabytes that were freed, as they are shown.
    pub freed: String,
}

/// What became of the files, as the contracts speak of it.
pub struct OutcomeView {
    pub removed: Seq<Seq<char>>,
    pub failed: Seq<(Seq<char>, Seq<char>)>,
    pub freed: Seq<char>,
}

impl DeepView for Outcome {
    type V = OutcomeView;

    open spec fn deep_view(&self) -> OutcomeView {
        OutcomeView {
            removed: self.removed.deep_view(),
            failed: self.failed.deep_view(),
            freed: self.freed@,
        }
    }
}

/// What the thread removing files sends back.
pub enum Removed {
    Progress(usize),
    /// The files are gone and the index is being brought up to date. On a large
    /// folder that is the slowest part of a cleanup, so it says so.
    Tidying,
    /// The outcome, and how many rows the index lost.
    Done(Outcome, usize),
    Failed(String),
}

/// What the removal sends back, as the contracts speak of it.
pub enum RemovedView {
    Progress(usize),
    Tidying,
    Done(OutcomeView, usize),
    Failed(Seq<char>),
}

impl DeepView for Removed {
    type V = RemovedView;

    open spec fn deep_view(&self) -> RemovedView {
        match *self {
            Removed::Progress(done) => RemovedView::Progress(done),
            Removed::Tidying => RemovedView::Tidying,
            Removed::Done(outcome, forgotten) => RemovedView::Done(outcome.deep_view(), forgotten),
            Removed::Failed(message) => RemovedView::Failed(message@),
        }
    }
}

/// What became of the index, in words.
pub open spec fn index_text(keep_index: bool, forgotten: usize) -> Seq<char> {
    if keep_index {
        digits(forgotten as nat) + " dropped from the index"@
    } else {
        INDEX_DELETED_TEXT@
    }
}

/// What a cleanup came to, in words.
pub open spec fn result_text(outcome: OutcomeView, keep_index: bool, forgotten: usize) -> Seq<char> {
    "removed "@ + digits(outcome.removed.len()) + " files, freed "@ + outcome.freed + " MB, "@
        + digits(outcome.failed.len()) + " failed, "@ + index_text(keep_index, forgotten)
}

/// What a cleanup came to, in words.
fn result_of(outcome: &Outcome, keep_index: bool, forgotten: usize) -> (text: String)
    ensures
        text@ == result_text(outcome.deep_view(), keep_index, forgotten),
{
    let index = if keep_index {
        decimal(forgotten as u128).concat(" dropped from the index")
    } else {
        String::from_str(INDEX_DELETED_TEXT)
    };
    String::from_str("removed ").concat(decimal(outcome.removed.len() as u128).as_str()).concat(
        " files, freed ",
    ).concat(outcome.freed.as_str()).concat(" MB, ").concat(
        decimal(outcome.failed.len() as u128).as_str(),
    ).concat(" failed, ").concat(index.as_str())
}

/// How the index is brought up to date once the files are gone.
#[derive(Debug, Clone, Copy, PartialEq, Eq, Structural)]
pub enum Tidying {
    /// Nothing was removed, so nothing is dropped from it.
    Nothing,
    DropRows,
    DeleteIndex,
}

/// How the index is brought up to date once so many files are gone.
pub open spec fn tidied(keep_index: bool, removed: usize) -> Tidying {
    if !keep_index {
        Tidying::DeleteIndex
    } else if removed == 0 {
        Tidying::Nothing
    } else {
        Tidying::DropRows
    }
}

/// How the index is brought up to date once so many files are gone: taken away
/// entirely where nobody asked to keep it, and else without the files that are not
/// at those paths any more.
pub fn tidying(keep_index: bool, removed: usize) -> (how: Tidying)
    ensures
        how == tidied(keep_index, removed),
{
    if !keep_index {
        Tidying::DeleteIndex
    } else if removed == 0 {
        Tidying::Nothing
    } else {
        Tidying::DropRows
    }
}

/// Whether the index is rebuilt once so many rows have been dropped from it.
/// Rebuilding costs a rewrite of the whole index, so it happens only where a
/// cleanup actually dropped rows.
pub fn worth_rebuilding(dropped: usize) -> (worth: bool)
    ensures
        worth == (dropped > 0),
{
    dropped > 0
}

impl AppView {
    /// Where removed files go, with the folder they are moved to.
    pub open spec fn disposal_set(self) -> DisposalView {
        match self.destination {
            Destination::Trash => DisposalView::Trash,
            Destination::Delete => DisposalView::Delete,
            Destination::MoveTo => DisposalView::MoveTo(self.move_dir),
        }
    }

    /// The window with where its folder's duplicates go written down.
    pub open spec fn disposal_remembered(self) -> AppView {
        if self.db_path is None {
            self
        } else {
            self.does(
                ActionView::SetMeta(
                    seq![
                        (DISPOSAL@, self.destination.name_text()),
                        (MOVE_DIR@, self.move_dir),
                    ],
                ),
            )
        }
    }

    /// The window with where removed files go chosen, and written down.
    pub open spec fn destination_chosen(self, choice: Destination) -> AppView {
        AppView { destination: choice, ..self }.disposal_remembered()
    }

    /// The window with the folder removed files are moved to chosen, and written down.
    pub open spec fn move_dir_chosen(self, folder: Seq<char>) -> AppView {
        AppView { move_dir: folder, ..self }.disposal_remembered()
    }

    /// The window with a cleanup started, where a folder is open and none is
    /// running.
    pub open spec fn cleanup_started(self) -> AppView {
        match self.folder {
            None => self,
            Some(root) => if self.flow.removing {
                self
            } else {
                AppView {
                    cleanup_failures: Seq::empty(),
                    flow: Flow {
                        removing: true,
                        tidying: false,
                        removed_so_far: 0,
                        to_remove: self.review.plan.len() as usize,
                        ..self.flow
                    },
                    ..self
                }.does(
                    ActionView::StartCleanup {
                        root,
                        disposal: self.disposal_set(),
                        keep_index: self.choices.keep_index,
                    },
                )
            },
        }
    }

    /// The window with what a cleanup came to on it, and the files that are gone
    /// out of the sets. What would not go stays, with its keeper, so another
    /// destination can be chosen and the same files tried again.
    pub open spec fn outcome_noted(self, outcome: OutcomeView, forgotten: usize) -> AppView {
        AppView {
            cleanup_result: Some(result_text(outcome, self.choices.keep_index, forgotten)),
            cleanup_failures: outcome.failed,
            review: self.review.forgetting(outcome.removed),
            ..self
        }
    }

    /// The window with the files that are gone out of the pictures held in memory
    /// too, where any are.
    pub open spec fn pictures_left_out(self, removed: Seq<Seq<char>>) -> AppView {
        if self.flow.images {
            self.does(ActionView::LeaveOutOfImages(removed))
        } else {
            self
        }
    }

    /// The window with the review over, where the index it is written in is kept.
    pub open spec fn review_over_if_kept(self) -> AppView {
        if self.choices.keep_index {
            self.review_over()
        } else {
            self
        }
    }

    /// The window back on the scan page once everything has gone that was to. With
    /// the index gone too, nothing on screen describes anything that still exists.
    pub open spec fn cleanup_done(self) -> AppView {
        let cleared = AppView { page: Page::Scan, ..self.without_sets() };
        let fresh = if self.choices.keep_index {
            cleared
        } else {
            AppView { scan: no_scan(), ..cleared }.does(ActionView::ForgetThumbnails)
        };
        AppView { scan: ScanView { finished: Some(CLEANUP_DONE_TEXT@), ..fresh.scan }, ..fresh }
    }

    /// The window once a cleanup has been carried out.
    pub open spec fn cleanup_finished(self, outcome: OutcomeView, forgotten: usize) -> AppView {
        let over = self.outcome_noted(outcome, forgotten).pictures_left_out(
            outcome.removed,
        ).review_over_if_kept();
        if outcome.failed.len() == 0 {
            over.cleanup_done()
        } else {
            over
        }
    }

    /// The window once the removal has sent something.
    pub open spec fn told_by_removal(self, step: RemovedView) -> AppView {
        match step {
            RemovedView::Progress(done) => AppView {
                flow: Flow { removed_so_far: done, ..self.flow },
                ..self
            },
            RemovedView::Tidying => AppView { flow: Flow { tidying: true, ..self.flow }, ..self },
            RemovedView::Done(outcome, forgotten) => self.cleanup_finished(outcome, forgotten),
            RemovedView::Failed(message) => self.failing(message),
        }
    }

    /// The window once the removal has sent these things, one after the other.
    pub open spec fn told_all_by_removal(self, steps: Seq<RemovedView>) -> AppView
        decreases steps.len(),
    {
        if steps.len() == 0 {
            self
        } else {
            self.told_by_removal(steps[0]).told_all_by_removal(steps.drop_first())
        }
    }

    /// The window once a frame has taken what the removal has sent. An outcome and a
    /// failure are each the end of it.
    pub open spec fn removal_heard(self, steps: Seq<RemovedView>) -> AppView {
        if !self.flow.removing {
            self
        } else {
            let told = self.told_all_by_removal(steps);
            if exists|at: int|
                0 <= at < steps.len() && (#[trigger] steps[at] is Done || steps[at] is Failed) {
                AppView { flow: Flow { removing: false, tidying: false, ..told.flow }, ..told }
            } else {
                told
            }
        }
    }
}

impl App {
    /// The destination and its folder.
    pub fn disposal(&self) -> (disposal: Disposal)
        ensures
            disposal.deep_view() == self@.disposal_set(),
            disposal is Trash <==> self.destination == Destination::Trash,
            disposal is Delete <==> self.destination == Destination::Delete,
            disposal is MoveTo <==> self.destination == Destination::MoveTo,
            disposal matches Disposal::MoveTo(folder) ==> folder@ == self.move_dir@,
    {
        match self.destination {
            Destination::Trash => Disposal::Trash,
            Destination::Delete => Disposal::Delete,
            Destination::MoveTo => Disposal::MoveTo(self.move_dir.clone()),
        }
    }

    /// Where this folder's duplicates go, and the folder they are moved to. This
    /// belongs to the folder that was scanned rather than to the application:
    /// what is safe to delete outright somewhere is not safe everywhere.
    pub fn remember_disposal(&mut self)
        ensures
            final(self)@ == old(self)@.disposal_remembered(),
    {
        if self.db_path.is_none() {
            return;
        }
        let mut values: Vec<(String, String)> = Vec::new();
        values.push((String::from_str(DISPOSAL), String::from_str(self.destination.name())));
        values.push((String::from_str(MOVE_DIR), self.move_dir.clone()));
        assert(values.deep_view() =~= seq![
            (DISPOSAL@, self@.destination.name_text()),
            (MOVE_DIR@, self@.move_dir),
        ]);
        self.ask(Action::SetMeta(values));
    }

    /// Choose where removed files go.
    pub fn choose_destination(&mut self, choice: Destination)
        ensures
            final(self)@ == old(self)@.destination_chosen(choice),
    {
        self.destination = choice;
        self.remember_disposal();
    }

    /// Choose the folder that removed files are moved to.
    pub fn choose_move_dir(&mut self, folder: String)
        ensures
            final(self)@ == old(self)@.move_dir_chosen(folder@),
    {
        self.move_dir = folder;
        self.remember_disposal();
    }

    /// Start removing. It runs on its own thread and says how far it has got,
    /// because deleting thousands of files takes long enough that a window doing
    /// it silently cannot be told from one that has hung.
    pub fn run_cleanup(&mut self)
        ensures
            final(self)@ == old(self)@.cleanup_started(),
            old(self).folder is Some && !old(self).flow.removing ==> (
            final(self)@.todo.last() matches ActionView::StartCleanup {
                root,
                disposal,
                keep_index,
            } && root == old(self).folder->0@ && keep_index == old(self).choices.keep_index && (
            disposal is Delete <==> old(self).destination == Destination::Delete) && (disposal is
                Trash <==> old(self).destination == Destination::Trash)),
    {
        let Some(root) = copy_text(&self.folder) else {
            return;
        };
        if self.flow.removing {
            return;
        }
        let disposal = self.disposal();
        let keep_index = self.choices.keep_index;
        let to_remove = self.review.plan.files();
        self.forget_failures();
        self.set_flow(
            Flow { removing: true, tidying: false, removed_so_far: 0, to_remove, ..self.flow },
        );
        self.ask(Action::StartCleanup { root, disposal, keep_index });
    }

    fn forget_failures(&mut self)
        ensures
            final(self)@ == (AppView { cleanup_failures: Seq::empty(), ..old(self)@ }),
    {
        self.cleanup_failures.clear();
        assert(self.cleanup_failures.deep_view() =~= Seq::<(Seq<char>, Seq<char>)>::empty());
    }

    /// Take what the removal has sent. Called once per frame.
    pub fn pump_cleanup(&mut self, steps: Vec<Removed>)
        ensures
            final(self)@ == old(self)@.removal_heard(steps.deep_view()),
    {
        if !self.flow.removing {
            return;
        }
        let ghost all = steps.deep_view();
        let mut waiting = steps;
        let mut over = false;
        let ghost mut heard: nat = 0;
        assert(all.skip(0) =~= all);
        while waiting.len() > 0
            invariant
                heard <= all.len(),
                waiting.deep_view() == all.skip(heard as int),
                old(self)@.told_all_by_removal(all) == self@.told_all_by_removal(
                    waiting.deep_view(),
                ),
                over <==> exists|at: int|
                    0 <= at < heard && (#[trigger] all[at] is Done || all[at] is Failed),
            decreases waiting.len(),
        {
            let ghost left = waiting.deep_view();
            let one = waiting.remove(0);
            proof {
                assert(left[0] == one.deep_view());
                assert(all[heard as int] == one.deep_view());
                assert(waiting.deep_view() =~= left.drop_first());
                assert(waiting.deep_view() =~= all.skip(heard as int + 1));
            }
            match one {
                Removed::Progress(done) => {
                    self.set_flow(Flow { removed_so_far: done, ..self.flow });
                },
                Removed::Tidying => {
                    self.set_flow(Flow { tidying: true, ..self.flow });
                },
                Removed::Done(outcome, forgotten) => {
                    self.finish_cleanup(outcome, forgotten);
                    over = true;
                },
                Removed::Failed(message) => {
                    self.fail(message);
                    over = true;
                },
            }
            proof {
                heard = heard + 1;
            }
        }
        if over {
            self.set_flow(Flow { removing: false, tidying: false, ..self.flow });
        }
    }

    /// Take what a cleanup came to.
    pub fn finish_cleanup(&mut self, outcome: Outcome, forgotten: usize)
        ensures
            final(self)@ == old(self)@.cleanup_finished(outcome.deep_view(), forgotten),
    {
        let all_gone = outcome.failed.len() == 0;
        let removed = copy_texts(&outcome.removed);
        self.note_outcome(outcome, forgotten);
        // And out of the pictures held in memory, which the search runs over. The
        // window removed those files itself, so what the folder holds now is what
        // it held less that list, and nothing has to be looked at to know it.
        if self.flow.images {
            self.ask(Action::LeaveOutOfImages(removed));
        }
        // The review has been carried out, so it is over. A folder whose index is
        // not being kept has none of this: the index itself goes.
        if self.choices.keep_index {
            self.the_review_is_over();
        }
        if all_gone {
            self.end_cleanup();
        }
    }

    fn note_outcome(&mut self, outcome: Outcome, forgotten: usize)
        ensures
            final(self)@ == old(self)@.outcome_noted(outcome.deep_view(), forgotten),
    {
        let text = result_of(&outcome, self.choices.keep_index, forgotten);
        self.forget_removed(&outcome.removed);
        self.note_result(text, outcome.failed);
    }

    fn forget_removed(&mut self, removed: &Vec<String>)
        ensures
            final(self)@ == (AppView {
                review: old(self)@.review.forgetting(removed.deep_view()),
                ..old(self)@
            }),
    {
        self.review.forget_members(removed);
    }

    fn note_result(&mut self, text: String, failed: Vec<(String, String)>)
        ensures
            final(self)@ == (AppView {
                cleanup_result: Some(text@),
                cleanup_failures: failed.deep_view(),
                ..old(self)@
            }),
    {
        self.cleanup_result = Some(text);
        self.cleanup_failures = failed;
    }

    fn end_cleanup(&mut self)
        ensures
            final(self)@ == old(self)@.cleanup_done(),
    {
        self.clear_review();
        self.set_page(Page::Scan);
        // The folder stays chosen and Scan builds the index again.
        if !self.choices.keep_index {
            self.set_scan(ScanState::empty());
            self.ask(Action::ForgetThumbnails);
        }
        self.say_finished(Some(String::from_str(CLEANUP_DONE_TEXT)));
    }
}

} // verus!
