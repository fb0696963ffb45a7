//! Choosing a folder, hearing what its index says about it, and what follows from
//! comparing the two.

use std::collections::HashSet;

use vstd::prelude::*;
use vstd::string::*;

use crate::app::asked::a_scan_takes_the_folder_as_the_box_stands;
use crate::app::{
    copy_text, first_choices, Action, ActionView, App, AppView, Choices, Flow,
};
use crate::constants::{
    AUTOMATICALLY_RESCAN_DEFAULT, DEFAULT_SENSITIVITY, INCLUDE_SUBFOLDERS_DEFAULT,
    MATCH_COLOUR_WITH_GRAYSCALE_DEFAULT, MATCH_PARTIALS_DEFAULT, MATCH_WHOLE_PICTURES_DEFAULT,
    MOVE_FOLDER_DEFAULT, ONLY_MATCH_WITHIN_FOLDERS_DEFAULT,
};
use crate::folders::{
    default_db_path, each_once, holds_folder, is_in_folder, is_in_order_of, is_same, is_sameness,
    may_be_same, same_path, INDEX_FILENAME,
};
use crate::lamps::Lamp;
use crate::notes::{Notes, NotesView};
use crate::progress::{no_scan, no_search, Progress, ScanState, SearchState};
use crate::review::ReviewView;
use crate::settings::sorted;
use crate::state::{Destination, Page, Question};

verus! {

broadcast use vstd::std_specs::hash::group_hash_axioms;

/// What the thread that opens a folder's index sends back.
///
/// A folder that has been scanned before is a folder whose pictures are already
/// known, so opening it reads them into memory whether or not a pass is going to
/// run: the search then costs the comparing and nothing else.
pub enum Opened {
    /// What the folder was set to the last time it was open.
    Notes(Notes),
    /// How far the reading has got.
    Reading(Progress),
    /// Whether the folder holds an index.
    Found(bool),
    /// The pairs somebody said are not copies of each other.
    Ignored(Vec<(i64, i64)>),
    /// The pictures a review marked to keep, whenever that review was. Held until
    /// there are sets to hang them on.
    Kept(Vec<i64>),
    /// The sets the last search of this folder found, as file ids in the order
    /// they were shown in. Held until the pictures arrive, which is what they are
    /// built from.
    Sets(Vec<(i64, Vec<i64>)>),
    /// The pictures, as the search wants them.
    Index,
    Failed(String),
}

/// What the opening of an index sends back, as the contracts speak of it.
pub enum OpenedView {
    Notes(NotesView),
    Reading(Progress),
    Found(bool),
    Ignored(Seq<(i64, i64)>),
    Kept(Seq<i64>),
    Sets(Seq<(i64, Seq<i64>)>),
    Index,
    Failed(Seq<char>),
}

impl DeepView for Opened {
    type V = OpenedView;

    open spec fn deep_view(&self) -> OpenedView {
        match *self {
            Opened::Notes(notes) => OpenedView::Notes(notes.deep_view()),
            Opened::Reading(progress) => OpenedView::Reading(progress),
            Opened::Found(there) => OpenedView::Found(there),
            Opened::Ignored(pairs) => OpenedView::Ignored(pairs@),
            Opened::Kept(marks) => OpenedView::Kept(marks@),
            Opened::Sets(sets) => OpenedView::Sets(sets.deep_view()),
            Opened::Index => OpenedView::Index,
            Opened::Failed(message) => OpenedView::Failed(message@),
        }
    }
}

impl AppView {
    /// The window with the index of its folder asked about itself. Whatever the
    /// last folder said is not true of this one, and reading the index is the first
    /// thing done to a folder, so the clock the lamps are timed against starts with
    /// it.
    pub open spec fn index_asked(self, now: u128) -> AppView {
        let fresh = AppView {
            flow: Flow { asking: false, scanned_since_asking: false, ..self.flow },
            review: ReviewView { ignored: Set::empty(), ..self.review }.planned(),
            kept_before: Set::empty(),
            sets_before: Seq::empty(),
            ..self
        };
        match self.db_path {
            None => fresh,
            Some(db_path) => AppView {
                lit: self.lit.restarted(now),
                flow: Flow { asking: true, ..fresh.flow },
                ..fresh
            }.does(ActionView::AskTheIndex { db_path }),
        }
    }

    /// The window with the folder it opened on asked about itself, once.
    pub open spec fn left_open_asked(self, now: u128) -> AppView {
        if !self.flow.scan_on_open {
            self
        } else {
            AppView { flow: Flow { scan_on_open: false, ..self.flow }, ..self }.index_asked(now)
        }
    }

    /// The window once a pass that was to be started could not be.
    pub open spec fn pass_not_started(self, message: Seq<char>) -> AppView {
        AppView {
            flow: Flow { running: false, comparing: false, ..self.flow },
            error: Some(message),
            ..self
        }
    }

    /// The window set as a first look at a folder is, where it is another folder
    /// than the one before.
    pub open spec fn set_for(self, elsewhere: bool, has_index: bool) -> AppView {
        if elsewhere {
            AppView {
                choices: first_choices(has_index, self.choices.auto_mark),
                flow: Flow { images: false, ..self.flow },
                destination: Destination::Trash,
                move_dir: MOVE_FOLDER_DEFAULT@,
                ..self
            }
        } else {
            self
        }
    }

    /// The window with nothing on it about the folder that was open before.
    pub open spec fn cleared_for(self, folder: Seq<char>, db_path: Seq<char>) -> AppView {
        AppView {
            folder: Some(folder),
            db_path: Some(db_path),
            review: self.review.emptied(),
            scan: no_scan(),
            error: None,
            flow: Flow { noted: false, ..self.flow },
            ..self
        }.does(ActionView::ForgetThumbnails)
    }

    /// The window once a folder has been chosen.
    pub open spec fn folder_opened(
        self,
        folder: Seq<char>,
        db_path: Seq<char>,
        has_index: bool,
        elsewhere: bool,
        now: u128,
    ) -> AppView {
        self.set_for(elsewhere, has_index).cleared_for(folder, db_path).does(
            ActionView::SaveSettings,
        ).index_asked(now)
    }

    /// The window once a folder has been dropped on it: opened, and scanned.
    pub open spec fn folder_dropped(
        self,
        folder: Seq<char>,
        db_path: Seq<char>,
        has_index: bool,
        elsewhere: bool,
        now: u128,
    ) -> AppView {
        AppView { page: Page::Scan, ..self }.folder_opened(
            folder,
            db_path,
            has_index,
            elsewhere,
            now,
        ).does(ActionView::Scan)
    }

    /// The window with its folder being compared with the index it arrived with,
    /// where it did and nothing is under way.
    pub open spec fn folder_looked_at(self) -> AppView {
        match (self.folder, self.db_path) {
            (Some(folder), Some(db_path)) => if !self.flow.opened_with_an_index || self.is_busy() {
                self
            } else {
                AppView {
                    flow: Flow { comparing: true, running: true, ..self.flow },
                    ..self
                }.does(
                    ActionView::StartPass {
                        folder,
                        db_path,
                        recurse: self.choices.recurse,
                        compare_only: true,
                    },
                )
            },
            _ => self,
        }
    }

    /// The window once the opening of an index has said something.
    pub open spec fn told_by_index(self, said: OpenedView, now: u128) -> AppView {
        match said {
            OpenedView::Notes(notes) => self.notes_taken(notes),
            OpenedView::Reading(progress) => self.noting(progress, now),
            OpenedView::Found(there) => AppView {
                choices: Choices { keep_index: there, ..self.choices }.settled(),
                flow: Flow { opened_with_an_index: there, ..self.flow },
                ..self.lighting(Lamp::CheckedForIndexFile, now)
            },
            OpenedView::Ignored(pairs) => AppView {
                review: ReviewView {
                    ignored: self.review.ignored.union(pairs.to_set()),
                    ..self.review
                }.planned(),
                ..self
            },
            OpenedView::Kept(marks) => AppView {
                kept_before: self.kept_before.union(marks.to_set()),
                ..self
            },
            OpenedView::Sets(sets) => AppView { sets_before: sets, ..self },
            OpenedView::Index => self.pictures_read(now),
            OpenedView::Failed(message) => self.failing(message),
        }
    }

    /// The window once the pictures an index holds have been read. A pass that has
    /// started in the meantime reads the same folder and hands over its own, newer
    /// copy, so these are not taken then.
    pub open spec fn pictures_read(self, now: u128) -> AppView {
        let lit = self.lighting(Lamp::LoadedIndexIntoMemory, now);
        let taken = if self.flow.scanned_since_asking {
            lit
        } else {
            AppView { flow: Flow { images: true, ..lit.flow }, ..lit }.folder_looked_at()
        };
        AppView { search: no_search(), ..taken }
    }

    /// The window once the opening of an index has said these things, one after the
    /// other.
    pub open spec fn told_all_by_index(self, said: Seq<OpenedView>, now: u128) -> AppView
        decreases said.len(),
    {
        if said.len() == 0 {
            self
        } else {
            self.told_by_index(said[0], now).told_all_by_index(said.drop_first(), now)
        }
    }

    /// The window once a frame has taken what the opening of an index has said, and
    /// whether it has anything more to say.
    pub open spec fn index_heard(self, said: Seq<OpenedView>, over: bool, now: u128) -> AppView {
        if !self.flow.asking {
            self
        } else {
            let told = self.told_all_by_index(said, now);
            if over {
                AppView { flow: Flow { asking: false, ..told.flow }, ..told }
            } else {
                told
            }
        }
    }

    /// The window once what opening a folder does has been decided, on whether
    /// anything in it has moved.
    ///
    /// With something moved the folder is brought up to date, where the box says so
    /// or there is no saved review to protect, and is asked about otherwise. With
    /// nothing moved there is no pass to run whatever the box says: a saved review
    /// is what the folder was left in the middle of, and without one the folder was
    /// opened to be searched.
    pub open spec fn opening_decided(self, moved: bool, now: u128) -> AppView {
        let saved = self.sets_before.len() > 0;
        if moved {
            if self.choices.auto_rescan || !saved {
                self.does(ActionView::Scan)
            } else {
                AppView {
                    flow: Flow { question: Some(Question::TheFolderChanged), ..self.flow },
                    ..self
                }
            }
        } else if saved {
            self.stored_review_wanted(true)
        } else {
            self.search_started(now)
        }
    }

    /// The window once the question has been answered: the review is finished, or it
    /// is given up and the folder is scanned again. With no question there is
    /// nothing to answer.
    pub open spec fn question_answered(self, finish: bool) -> AppView {
        if self.flow.question is None {
            self
        } else {
            let asked = AppView { flow: Flow { question: None, ..self.flow }, ..self };
            if finish {
                asked.stored_review_wanted(false)
            } else {
                asked.saved_review_given_up().does(ActionView::Scan)
            }
        }
    }

    /// The window with the clock of the run started, unless the folder is still
    /// being opened: a folder that asks to be brought up to date on sight is timed
    /// from the moment it was opened.
    pub open spec fn clock_started(self, now: u128) -> AppView {
        if self.flow.asking {
            self
        } else {
            AppView { lit: self.lit.restarted(now), ..self }
        }
    }

    /// The window with everything gone that a pass makes untrue.
    pub open spec fn cleared_for_a_pass(self) -> AppView {
        AppView {
            review: self.review.emptied(),
            ..AppView {
                scan: no_scan(),
                search: no_search(),
                error: None,
                flow: Flow { images: false, scanned_since_asking: true, ..self.flow },
                ..self
            }.saved_review_given_up()
        }.does(ActionView::ForgetThumbnails)
    }

    /// The window with its folder among those that were scanned, which is written
    /// down where it was not one of them yet.
    pub open spec fn folder_offered(self, known: bool, offered: Seq<Seq<char>>) -> AppView {
        if known {
            self
        } else {
            AppView { previous: offered, ..self }.does(ActionView::SaveSettings)
        }
    }

    /// The window once Scan has been pressed, an index being there or not, the
    /// folder being one of those already scanned or not, and the folders that were
    /// scanned being offered like this if it is not.
    pub open spec fn scan_started(
        self,
        there: bool,
        known: bool,
        offered: Seq<Seq<char>>,
        now: u128,
    ) -> AppView {
        match (self.folder, self.db_path) {
            (Some(folder), Some(db_path)) => {
                let ready = self.clock_started(now).cleared_for_a_pass().lighting(
                    Lamp::CheckedForIndexFile,
                    now,
                );
                let kept = AppView {
                    choices: Choices {
                        keep_index: there || ready.choices.keep_index,
                        ..ready.choices
                    },
                    ..ready
                }.folder_offered(known, offered);
                AppView { flow: Flow { running: true, ..kept.flow }, ..kept }.does(
                    ActionView::StartPass {
                        folder,
                        db_path,
                        recurse: self.choices.recurse,
                        compare_only: false,
                    },
                )
            },
            _ => self,
        }
    }
}

/// Whether it fits what two paths say that a folder is another than the one that
/// is open.
pub open spec fn tells_apart(there: Option<Seq<char>>, folder: Seq<char>, elsewhere: bool) -> bool {
    match there {
        Some(there) => (is_same(there, folder) ==> !elsewhere) && (!elsewhere ==> may_be_same(
            there,
            folder,
        )),
        None => elsewhere,
    }
}

/// Whether what came back about a folder and those that were scanned fits: one that
/// is the same as one of them is known, one that cannot be the same as any of them is
/// not, and they are offered in order with it.
pub open spec fn fits(
    previous: Seq<Seq<char>>,
    folder: Seq<char>,
    known: bool,
    offered: Seq<Seq<char>>,
) -> bool {
    &&& forall|at: int|
        0 <= at < previous.len() && is_same(#[trigger] previous[at], folder) ==> known
    &&& known ==> exists|at: int|
        0 <= at < previous.len() && may_be_same(#[trigger] previous[at], folder)
    &&& !known ==> exists|same: Seq<Seq<bool>>| #[trigger]
        is_sameness(previous.push(folder), same) && is_in_order_of(
            offered,
            each_once(previous.push(folder), same),
        )
}

fn union_with(held: &mut HashSet<i64>, more: &Vec<i64>)
    ensures
        final(held)@ == old(held)@.union(more@.to_set()),
{
    assert(held@ =~= old(held)@.union(more@.take(0).to_set()));
    for at in 0..more.len()
        invariant
            held@ == old(held)@.union(more@.take(at as int).to_set()),
    {
        held.insert(more[at]);
        proof {
            let less = more@.take(at as int);
            let now = more@.take(at + 1);
            assert forall|id: i64|
                held@.contains(id) == old(held)@.union(now.to_set()).contains(id) by {
                if now.contains(id) {
                    let i = choose|i: int| 0 <= i < now.len() && now[i] == id;
                    if i < less.len() {
                        assert(less[i] == id);
                    }
                }
                if less.contains(id) {
                    let i = choose|i: int| 0 <= i < less.len() && less[i] == id;
                    assert(now[i] == id);
                }
                assert(now[at as int] == more@[at as int]);
            }
            assert(held@ =~= old(held)@.union(now.to_set()));
        }
    }
    assert(more@.take(more@.len() as int) =~= more@);
}

impl App {
    /// Ask the folder's index what it says about itself, on a thread of its
    /// own. A folder with no index says nothing, and the window keeps the
    /// answers a folder gives until another folder gives its own.
    fn ask_the_index(&mut self, now: u128)
        ensures
            final(self)@ == old(self)@.index_asked(now),
    {
        self.set_flow(Flow { asking: false, scanned_since_asking: false, ..self.flow });
        self.forget_what_was_said();
        match copy_text(&self.db_path) {
            None => {},
            Some(db_path) => {
                self.restart_lamps(now);
                self.set_flow(Flow { asking: true, ..self.flow });
                self.ask(Action::AskTheIndex { db_path });
            },
        }
    }

    fn forget_what_was_said(&mut self)
        ensures
            final(self)@ == (AppView {
                review: (ReviewView {
                    ignored: Set::empty(),
                    ..old(self)@.review
                }).planned(),
                kept_before: Set::empty(),
                sets_before: Seq::empty(),
                ..old(self)@
            }),
    {
        self.review.ignored.clear();
        self.review.replan();
        self.kept_before.clear();
        self.sets_before.clear();
        assert(self.sets_before.deep_view() =~= Seq::<(i64, Seq<i64>)>::empty());
    }

    /// The folder the window opened on, asked about itself once, on the first
    /// frame. That folder is never chosen: it is set from what was saved before
    /// anything is drawn, so this is the only place it is ever asked.
    pub fn open_what_was_left_open(&mut self, now: u128)
        ensures
            final(self)@ == old(self)@.left_open_asked(now),
    {
        if !self.flow.scan_on_open {
            return;
        }
        self.set_flow(Flow { scan_on_open: false, ..self.flow });
        self.ask_the_index(now);
    }

    /// Choose a folder. What its index says about it, including whether opening it
    /// is meant to start a pass, arrives later. Whether it is another folder than
    /// the one that was open is what the system says of the two paths.
    pub fn open_folder(&mut self, folder: String, has_index: bool, now: u128)
        ensures
            final(self)@.db_path is Some,
            is_in_folder(final(self)@.db_path->0, folder@, INDEX_FILENAME@),
            exists|elsewhere: bool|
                {
                    &&& tells_apart(old(self)@.folder, folder@, elsewhere)
                    &&& final(self)@ == #[trigger] old(self)@.folder_opened(
                        folder@,
                        final(self)@.db_path->0,
                        has_index,
                        elsewhere,
                        now,
                    )
                },
    {
        let db_path = default_db_path(folder.as_str());
        let elsewhere = match &self.folder {
            Some(there) => !same_path(there.as_str(), folder.as_str()),
            None => true,
        };
        self.open_folder_at(folder, db_path, has_index, elsewhere, now);
    }

    /// Choose a folder, once it is known where its index would be and whether it is
    /// another folder than the one that was open.
    pub fn open_folder_at(
        &mut self,
        folder: String,
        db_path: String,
        has_index: bool,
        elsewhere: bool,
        now: u128,
    )
        ensures
            final(self)@ == old(self)@.folder_opened(folder@, db_path@, has_index, elsewhere, now),
            final(self)@.db_path == Some(db_path@),
    {
        self.set_for_folder(elsewhere, has_index);
        self.clear_for_folder(folder, db_path);
        self.remember();
        self.ask_the_index(now);
    }

    /// Everything about the last folder was about its pictures. A different folder
    /// starts where a first look at a folder starts, and then takes back whatever
    /// its own index has a record of.
    fn set_for_folder(&mut self, elsewhere: bool, has_index: bool)
        ensures
            final(self)@ == old(self)@.set_for(elsewhere, has_index),
    {
        if !elsewhere {
            return;
        }
        // What was read into memory describes the folder it was read from.
        self.set_flow(Flow { images: false, ..self.flow });
        let auto_mark = self.choices.auto_mark;
        self.set_choices(Choices {
            recurse: INCLUDE_SUBFOLDERS_DEFAULT,
            ignore_colour: MATCH_COLOUR_WITH_GRAYSCALE_DEFAULT,
            match_whole_frame: MATCH_WHOLE_PICTURES_DEFAULT,
            match_corners: MATCH_PARTIALS_DEFAULT,
            within_a_folder: ONLY_MATCH_WITHIN_FOLDERS_DEFAULT,
            // A folder that has an index arrives with the box already ticked.
            keep_index: has_index,
            // Whether opening a folder runs a pass is that folder's own answer,
            // and a folder that has not been asked yet has not said yes.
            auto_rescan: AUTOMATICALLY_RESCAN_DEFAULT,
            auto_mark,
            sensitivity: DEFAULT_SENSITIVITY,
        });
        self.set_disposal(Destination::Trash, String::from_str(MOVE_FOLDER_DEFAULT));
    }

    fn clear_for_folder(&mut self, folder: String, db_path: String)
        ensures
            final(self)@ == old(self)@.cleared_for(folder@, db_path@),
    {
        self.set_folder(folder, db_path);
        self.clear_review();
        // Counters, bars and whatever the last search said were about the folder
        // before this one.
        self.set_scan(ScanState::empty());
        self.dismiss_error();
        self.set_flow(Flow { noted: false, ..self.flow });
        self.ask(Action::ForgetThumbnails);
    }

    /// Take a folder dropped on the window: open it and scan it, which the search
    /// for duplicates follows on its own once the pass is over. A drop while there
    /// is work running is ignored.
    pub fn take_dropped_folder(&mut self, folder: String, has_index: bool, now: u128)
        ensures
            old(self)@.is_busy() ==> final(self)@ == old(self)@,
            !old(self)@.is_busy() ==> exists|elsewhere: bool, db_path: Seq<char>|
                {
                    &&& is_in_folder(db_path, folder@, INDEX_FILENAME@)
                    &&& tells_apart(old(self)@.folder, folder@, elsewhere)
                    &&& final(self)@ == #[trigger] old(self)@.folder_dropped(
                        folder@,
                        db_path,
                        has_index,
                        elsewhere,
                        now,
                    )
                },
    {
        if self.busy() {
            return;
        }
        // Wherever the drop landed, this is a new folder at step one.
        self.set_page(Page::Scan);
        let ghost before = self@;
        self.open_folder(folder, has_index, now);
        let ghost db_path = self@.db_path->0;
        let ghost opened = self@;
        proof {
            let elsewhere = choose|elsewhere: bool|
                {
                    &&& tells_apart(before.folder, folder@, elsewhere)
                    &&& opened == #[trigger] before.folder_opened(
                        folder@,
                        db_path,
                        has_index,
                        elsewhere,
                        now,
                    )
                };
            assert(old(self)@.folder_dropped(folder@, db_path, has_index, elsewhere, now)
                == opened.does(ActionView::Scan));
        }
        self.ask(Action::Scan);
    }

    /// Take what the index says as it arrives: what the folder was set to, then
    /// the pictures themselves. Called once per frame.
    pub fn hear_the_index(&mut self, said: Vec<Opened>, over: bool, now: u128)
        ensures
            final(self)@ == old(self)@.index_heard(said.deep_view(), over, now),
    {
        if !self.flow.asking {
            return;
        }
        let ghost all = said.deep_view();
        let mut waiting = said;
        while waiting.len() > 0
            invariant
                old(self)@.told_all_by_index(all, now) == self@.told_all_by_index(
                    waiting.deep_view(),
                    now,
                ),
            decreases waiting.len(),
        {
            let ghost left = waiting.deep_view();
            let one = waiting.remove(0);
            proof {
                assert(left[0] == one.deep_view());
                assert(waiting.deep_view() =~= left.drop_first());
            }
            self.hear(one, now);
        }
        if over {
            self.set_flow(Flow { asking: false, ..self.flow });
        }
    }

    /// Take one thing the index says.
    pub fn hear(&mut self, said: Opened, now: u128)
        ensures
            final(self)@ == old(self)@.told_by_index(said.deep_view(), now),
    {
        match said {
            // What the folder was set to. Nothing is started here: what opening a
            // folder does is decided by comparing it with its index, and that
            // cannot be done until the index has arrived.
            Opened::Notes(notes) => {
                self.take_notes(notes);
            },
            Opened::Reading(progress) => {
                self.note_search_progress(progress, now);
            },
            Opened::Found(there) => {
                self.hear_found(there, now);
            },
            Opened::Ignored(pairs) => {
                self.hear_ignored(&pairs);
            },
            Opened::Kept(marks) => {
                self.hear_kept(&marks);
            },
            Opened::Sets(sets) => {
                self.sets_before = sets;
            },
            Opened::Index => {
                self.take_pictures(now);
            },
            Opened::Failed(message) => {
                self.fail(message);
            },
        }
    }

    fn hear_found(&mut self, there: bool, now: u128)
        ensures
            final(self)@ == old(self)@.told_by_index(OpenedView::Found(there), now),
    {
        self.light(Lamp::CheckedForIndexFile, now);
        self.set_choices(Choices { keep_index: there, ..self.choices });
        self.set_flow(Flow { opened_with_an_index: there, ..self.flow });
        self.settle_the_boxes();
    }

    fn hear_ignored(&mut self, pairs: &Vec<(i64, i64)>)
        ensures
            forall|now: u128|
                final(self)@ == #[trigger] old(self)@.told_by_index(
                    OpenedView::Ignored(pairs@),
                    now,
                ),
    {
        self.review.ignored.extend(pairs);
        self.review.replan();
    }

    fn hear_kept(&mut self, marks: &Vec<i64>)
        ensures
            forall|now: u128|
                final(self)@ == #[trigger] old(self)@.told_by_index(OpenedView::Kept(marks@), now),
    {
        union_with(&mut self.kept_before, marks);
    }

    fn take_pictures(&mut self, now: u128)
        ensures
            final(self)@ == old(self)@.pictures_read(now),
    {
        self.light(Lamp::LoadedIndexIntoMemory, now);
        if !self.flow.scanned_since_asking {
            self.set_flow(Flow { images: true, ..self.flow });
            // Everything the folder had to say has now been said, so this is where
            // it is compared with what is on disk.
            self.look_at_the_folder();
        }
        self.set_search(SearchState::empty());
    }

    /// Compare the folder with its index, which is what decides everything that
    /// happens on opening one.
    ///
    /// The same pass, told to stop once it has compared. Only for a folder that
    /// arrived with an index. One without has nothing to compare itself against,
    /// and choosing a folder is not asking for it to be scanned.
    pub fn look_at_the_folder(&mut self)
        ensures
            final(self)@ == old(self)@.folder_looked_at(),
    {
        if !self.flow.opened_with_an_index || self.busy() {
            return;
        }
        let (Some(folder), Some(db_path)) = (copy_text(&self.folder), copy_text(&self.db_path)) else {
            return;
        };
        self.set_flow(Flow { comparing: true, running: true, ..self.flow });
        let recurse = self.choices.recurse;
        self.ask(Action::StartPass { folder, db_path, recurse, compare_only: true });
    }

    /// A pass that was to be started could not be.
    pub fn pass_did_not_start(&mut self, message: String)
        ensures
            final(self)@ == old(self)@.pass_not_started(message@),
    {
        self.set_flow(Flow { running: false, comparing: false, ..self.flow });
        self.fail(message);
    }

    /// Act on what the comparison found.
    pub fn decide_what_opening_the_folder_does(&mut self, moved: bool, now: u128)
        ensures
            final(self)@ == old(self)@.opening_decided(moved, now),
    {
        let saved = self.sets_before.len() > 0;
        if moved {
            if self.choices.auto_rescan || !saved {
                self.ask(Action::Scan);
            } else {
                self.set_flow(
                    Flow { question: Some(Question::TheFolderChanged), ..self.flow },
                );
            }
            return;
        }
        if saved {
            // The search these sets came out of ran in an earlier session, and
            // this open has just found there is nothing new to run one on. An
            // empty bar would say that work never happened.
            self.want_the_stored_review(true);
        } else {
            self.load_sets(now);
        }
    }

    /// Act on the answer to the question.
    ///
    /// Two ways out and no third: this folder's review is finished, or it is
    /// given up and the folder is scanned again.
    pub fn answer_the_question(&mut self, finish: bool)
        ensures
            final(self)@ == old(self)@.question_answered(finish),
    {
        if self.flow.question.is_none() {
            return;
        }
        self.set_flow(Flow { question: None, ..self.flow });
        if finish {
            self.want_the_stored_review(false);
        } else {
            self.give_up_the_saved_review();
            self.ask(Action::Scan);
        }
    }

    /// Start a pass over the folder. Which of the folders that were scanned before
    /// this one is, if any, is what the system says of their paths.
    pub fn start_scan(&mut self, there: bool, now: u128)
        ensures
            exists|known: bool, offered: Seq<Seq<char>>|
                {
                    &&& old(self)@.folder is Some ==> fits(
                        old(self)@.previous,
                        old(self)@.folder->0,
                        known,
                        offered,
                    )
                    &&& final(self)@ == #[trigger] old(self)@.scan_started(
                        there,
                        known,
                        offered,
                        now,
                    )
                },
    {
        let Some(folder) = copy_text(&self.folder) else {
            assert(self@ == self@.scan_started(there, true, Seq::empty(), now));
            return;
        };
        let ghost before = self@;
        let listed: &[String] = self.previous.as_slice();
        assert(listed.deep_view() =~= before.previous);
        let known = holds_folder(listed, folder.as_str());
        let mut offered: Vec<String> = Vec::new();
        if !known {
            let mut more = crate::app::copy_texts(&self.previous);
            more.push(folder);
            assert(more.deep_view() =~= before.previous.push(folder@));
            let all: &[String] = more.as_slice();
            assert(all.deep_view() =~= more.deep_view());
            offered = sorted(all);
        }
        let ghost shown = offered.deep_view();
        self.start_scan_given(there, known, offered, now);
        assert(self@ == before.scan_started(there, known, shown, now));
    }

    /// Start a pass over the folder, once it is known whether it is one of those
    /// scanned before, and how they are offered if it is not.
    pub fn start_scan_given(&mut self, there: bool, known: bool, offered: Vec<String>, now: u128)
        ensures
            final(self)@ == old(self)@.scan_started(there, known, offered.deep_view(), now),
            old(self).folder is Some && old(self).db_path is Some ==> (
            final(self)@.todo.last() matches ActionView::StartPass {
                folder,
                db_path,
                recurse,
                compare_only,
            } && folder == old(self).folder->0@ && db_path == old(self).db_path->0@ && recurse
                == old(self).choices.recurse && !compare_only),
    {
        proof {
            a_scan_takes_the_folder_as_the_box_stands(
                self@,
                there,
                known,
                offered.deep_view(),
                now,
            );
        }
        let (Some(folder), Some(db_path)) = (copy_text(&self.folder), copy_text(&self.db_path)) else {
            return;
        };
        let recurse = self.choices.recurse;
        self.start_clock(now);
        self.clear_for_a_pass();
        // Look for an index every time a pass starts, not only when the folder is
        // opened. One may have been put there since, by hand or by a copy of the
        // folder, and a folder that has one keeps it, which is what the checkbox
        // means.
        self.light(Lamp::CheckedForIndexFile, now);
        let keep_index = there || self.choices.keep_index;
        self.set_choices(Choices { keep_index, ..self.choices });
        self.offer_folder(known, offered);
        self.set_flow(Flow { running: true, ..self.flow });
        self.ask(Action::StartPass { folder, db_path, recurse, compare_only: false });
    }

    fn start_clock(&mut self, now: u128)
        ensures
            final(self)@ == old(self)@.clock_started(now),
    {
        if !self.flow.asking {
            self.restart_lamps(now);
        }
    }

    /// A folder counts as one worth offering again once it has been scanned.
    /// Choosing one and thinking better of it does not put it in the list.
    fn offer_folder(&mut self, known: bool, offered: Vec<String>)
        ensures
            final(self)@ == old(self)@.folder_offered(known, offered.deep_view()),
    {
        if !known {
            self.previous = offered;
            self.remember();
        }
    }

    /// A pass rewrites the index, so what was read out of it before describes a
    /// folder that no longer exists in that form, and so does everything that came
    /// out of it: the sets, what was marked to keep in them, what is selected, and
    /// the pictures loaded for them. And the sets written down for this folder are
    /// not the sets this pass and the search after it will find.
    fn clear_for_a_pass(&mut self)
        ensures
            final(self)@ == old(self)@.cleared_for_a_pass(),
    {
        self.set_scan(ScanState::empty());
        self.set_search(SearchState::empty());
        self.dismiss_error();
        // The pictures the opening read is still on its way back with are not to
        // be taken either.
        self.set_flow(Flow { images: false, scanned_since_asking: true, ..self.flow });
        self.give_up_the_saved_review();
        self.clear_review();
        self.ask(Action::ForgetThumbnails);
    }
}

} // verus!
