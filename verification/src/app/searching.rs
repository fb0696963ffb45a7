//! The search for duplicates: starting it, hearing from it, and taking the sets it
//! finds, whether it has just found them or they were written down by an earlier
//! one.

use vstd::prelude::*;
use vstd::string::*;

use crate::app::asked::{a_search_is_for_what_the_controls_say, asks_as_set};
use crate::app::{Action, ActionView, App, AppView, Choices, Flow};
use crate::constants::{CANCELLED_TEXT, NO_DUPLICATES_FOUND_TEXT, NO_FILES_IN_FOLDER_TEXT};
use crate::finding::first;
use crate::lamps::Lamp;
use crate::notes::{mark, mark_text, Notes, NotesView, Search, AUTO_MARK, AUTO_RESCAN};
use crate::plan::marks_by_set;
use crate::progress::{no_search, Doing, Progress, SearchState};
use crate::review::{best_marked, holding, set_holding, Review, ReviewView};
use crate::sets::{ids_of, DuplicateSet, MemberView, SetView};
use crate::state::{named, Destination, Page};
use crate::strictness::{Limit, Thresholds, Ways};
use crate::walk::{called, member_called};

verus! {

/// What the thread searching for duplicates sends back.
pub enum Found {
    /// Where the search has got to.
    Progress(Progress),
    Sets(Vec<DuplicateSet>),
    Cancelled,
    Failed(String),
}

/// What the search sends back, as the contracts speak of it.
pub enum FoundView {
    Progress(Progress),
    Sets(Seq<SetView>),
    Cancelled,
    Failed(Seq<char>),
}

impl DeepView for Found {
    type V = FoundView;

    open spec fn deep_view(&self) -> FoundView {
        match *self {
            Found::Progress(progress) => FoundView::Progress(progress),
            Found::Sets(sets) => FoundView::Sets(sets.deep_view()),
            Found::Cancelled => FoundView::Cancelled,
            Found::Failed(message) => FoundView::Failed(message@),
        }
    }
}

impl Choices {
    /// The boxes and the slider once a folder has said what it is set to.
    pub open spec fn told(self, notes: NotesView) -> Choices {
        Choices {
            recurse: if_said(notes.recurse, self.recurse),
            match_whole_frame: if_said(notes.match_whole_frame, self.match_whole_frame),
            match_corners: if_said(notes.match_corners, self.match_corners),
            within_a_folder: if_said(notes.within_a_folder, self.within_a_folder),
            auto_rescan: if_said(notes.auto_rescan, self.auto_rescan),
            auto_mark: if_said(notes.auto_mark, self.auto_mark),
            sensitivity: match notes.sensitivity {
                Some(setting) => setting,
                None => self.sensitivity,
            },
            ignore_colour: if_said(notes.ignore_colour, self.ignore_colour),
            keep_index: self.keep_index,
        }
    }

    /// Take what a folder says it is set to.
    fn tell(self, notes: &Notes) -> (now: Choices)
        ensures
            now == self.told(notes.deep_view()),
            notes.sensitivity matches Some(said) ==> now.sensitivity == said,
            notes.sensitivity is None ==> now.sensitivity == self.sensitivity,
            notes.recurse matches Some(said) ==> now.recurse == said,
            notes.recurse is None ==> now.recurse == self.recurse,
            notes.ignore_colour matches Some(said) ==> now.ignore_colour == said,
            notes.ignore_colour is None ==> now.ignore_colour == self.ignore_colour,
            notes.match_whole_frame matches Some(said) ==> now.match_whole_frame == said,
            notes.match_whole_frame is None ==> now.match_whole_frame == self.match_whole_frame,
            notes.match_corners matches Some(said) ==> now.match_corners == said,
            notes.match_corners is None ==> now.match_corners == self.match_corners,
            notes.within_a_folder matches Some(said) ==> now.within_a_folder == said,
            notes.within_a_folder is None ==> now.within_a_folder == self.within_a_folder,
            notes.auto_rescan matches Some(said) ==> now.auto_rescan == said,
            notes.auto_rescan is None ==> now.auto_rescan == self.auto_rescan,
            notes.auto_mark matches Some(said) ==> now.auto_mark == said,
            notes.auto_mark is None ==> now.auto_mark == self.auto_mark,
            now.keep_index == self.keep_index,
    {
        Choices {
            // An index built over the subfolders has to be scanned that way again,
            // or the next pass drops every row under them.
            recurse: said_or(notes.recurse, self.recurse),
            match_whole_frame: said_or(notes.match_whole_frame, self.match_whole_frame),
            match_corners: said_or(notes.match_corners, self.match_corners),
            within_a_folder: said_or(notes.within_a_folder, self.within_a_folder),
            auto_rescan: said_or(notes.auto_rescan, self.auto_rescan),
            auto_mark: said_or(notes.auto_mark, self.auto_mark),
            // What counts as a duplicate in this folder. A folder is searched the
            // way it was searched before: the sets it comes back with are the sets
            // those settings give.
            sensitivity: match notes.sensitivity {
                Some(setting) => setting,
                None => self.sensitivity,
            },
            ignore_colour: said_or(notes.ignore_colour, self.ignore_colour),
            keep_index: self.keep_index,
        }
    }

    /// The boxes that depend on another box come off where that one is off.
    pub open spec fn settled(self) -> Choices {
        let auto_rescan = self.auto_rescan && self.keep_index;
        Choices {
            within_a_folder: self.within_a_folder && self.recurse,
            auto_rescan,
            auto_mark: self.auto_mark && auto_rescan,
            ..self
        }
    }
}

/// Where removed files go once a folder has said a name for it.
pub open spec fn told_destination(name: Option<Seq<char>>, there: Destination) -> Destination {
    match name {
        Some(name) => match named(name) {
            Some(choice) => choice,
            None => there,
        },
        None => there,
    }
}

/// What a folder says, where it has said it, and what there is where it has not.
pub open spec fn if_said(said: Option<bool>, there: bool) -> bool {
    match said {
        Some(setting) => setting,
        None => there,
    }
}

/// The first picture of some sets with an id.
pub open spec fn picture(sets: Seq<SetView>, file_id: i64) -> Option<MemberView> {
    match first(sets, holding(file_id)) {
        None => None,
        Some(set) => match first(sets[set].members, called(file_id)) {
            None => None,
            Some(member) => Some(sets[set].members[member]),
        },
    }
}

/// The sets as they are written down: their numbers and the pictures in them.
pub open spec fn stored(sets: Seq<SetView>) -> Seq<(i64, Seq<i64>)> {
    sets.map_values(|set: SetView| (set.set_id, ids_of(set.members)))
}

/// The paths of some pictures, one behind the other.
pub open spec fn paths_of(members: Seq<MemberView>) -> Seq<char>
    decreases members.len(),
{
    if members.len() == 0 {
        Seq::empty()
    } else {
        paths_of(members.drop_last()) + members.last().rel_path
    }
}

/// The paths of every picture of some sets, one behind the other.
pub open spec fn names_of(sets: Seq<SetView>) -> Seq<char>
    decreases sets.len(),
{
    if sets.len() == 0 {
        Seq::empty()
    } else {
        names_of(sets.drop_last()) + paths_of(sets.last().members)
    }
}

impl AppView {
    /// The window once a search, or the reading of an index, has said something.
    pub open spec fn noting(self, progress: Progress, now: u128) -> AppView {
        let lit = match progress {
            Progress::Loading { done, total } => self.lighting(
                Lamp::StartedBuildingTheMemoryIndex,
                now,
            ),
            Progress::Loaded { images } => self.lighting(Lamp::FinishedBuildingTheMemoryIndex, now),
            _ => self,
        };
        AppView { search: self.search.told(progress), ..lit }
    }

    /// What a search is asked for as the window is set.
    pub open spec fn thresholds(self) -> Thresholds {
        Thresholds {
            limit: Limit::At(self.choices.sensitivity),
            ignore_colour: self.choices.ignore_colour,
            ways: Some(
                Ways {
                    whole_frame: self.choices.match_whole_frame,
                    corners: self.choices.match_corners,
                    within_a_folder: self.choices.within_a_folder,
                },
            ),
        }
    }

    /// The window with a search started, where there are pictures to search and no
    /// search is running.
    pub open spec fn search_started(self, now: u128) -> AppView {
        if self.db_path is None || !self.flow.images || self.flow.searching {
            self
        } else {
            AppView {
                search: SearchState { stage: Some(Doing::Starting), ..no_search() },
                scan: crate::progress::ScanView { finished: None, ..self.scan },
                error: None,
                flow: Flow { searching: true, ..self.flow },
                ..self.lighting(Lamp::StartedFindingDuplicates, now)
            }.does(ActionView::StartSearch(self.thresholds()))
        }
    }

    /// The window with marks written down, where there are any and a folder is
    /// open.
    pub open spec fn wrote_marks(self, ids: Seq<i64>, keeping: bool) -> AppView {
        if self.db_path is None || ids.len() == 0 {
            self
        } else if keeping {
            self.does(ActionView::KeepThese(ids))
        } else {
            self.does(ActionView::UnkeepThese(ids))
        }
    }

    /// The window with a review begun and nothing in it yet.
    pub open spec fn review_begun(self) -> AppView {
        let begun = if self.db_path is Some {
            self.does(ActionView::BeginReview)
        } else {
            self
        };
        begun.does(ActionView::ForgetThumbnails)
    }

    /// The window with nothing found to review, which it says: nothing to compare
    /// and nothing found are different answers.
    pub open spec fn found_nothing(self) -> AppView {
        AppView {
            review: self.review.emptied(),
            scan: crate::progress::ScanView {
                finished: Some(
                    if self.scan.total == 0 {
                        NO_FILES_IN_FOLDER_TEXT@
                    } else {
                        NO_DUPLICATES_FOUND_TEXT@
                    },
                ),
                ..self.scan
            },
            ..self
        }
    }

    /// The window with these sets in its review, the marks of the last one back on
    /// them.
    pub open spec fn sets_taken(self, sets: Seq<SetView>) -> AppView {
        AppView {
            review: ReviewView {
                sets,
                keep: Map::empty(),
                selected: None,
                showing: None,
                ..self.review
            }.taking_up(self.kept_before),
            ..self
        }
    }

    /// The window with the best copies marked, where a pass asked for that.
    pub open spec fn marked_on_arrival(self) -> AppView {
        if self.flow.mark_on_arrival {
            AppView {
                review: self.review.auto_marked(),
                flow: Flow { mark_on_arrival: false, ..self.flow },
                ..self
            }.wrote_marks(
                best_marked(self.review.sets, self.review.keep, self.review.ignored).1,
                true,
            )
        } else {
            self
        }
    }

    /// The window with the pictures it is about to show asked for, the one the pane
    /// opens on before the thumbnails.
    pub open spec fn primed(self) -> AppView {
        if self.folder is None {
            self
        } else {
            let opening = match self.review.selected {
                None => self,
                Some(file_id) => match picture(self.review.sets, file_id) {
                    None => self,
                    Some(member) => self.does(
                        ActionView::PrimePreview { file_id, rel_path: member.rel_path },
                    ),
                },
            };
            opening.does(ActionView::PrimeThumbnails)
        }
    }

    /// The window open on its review, at the first set.
    pub open spec fn on_the_review(self) -> AppView {
        AppView {
            page: Page::Review,
            review: ReviewView { list_to_top: true, ..self.review },
            ..self
        }
    }

    /// The window opened on the picture its review begins with.
    pub open spec fn review_opened(self) -> AppView {
        AppView { review: self.review.planned().opened(), ..self }
    }

    /// The window once sets have been built into its review page.
    pub open spec fn accepting(self, sets: Seq<SetView>) -> AppView {
        let begun = self.review_begun();
        if sets.len() == 0 {
            begun.found_nothing()
        } else {
            begun.sets_taken(sets).marked_on_arrival().review_opened().primed().on_the_review()
        }
    }

    /// What the window is set to search for.
    pub open spec fn search_set(self) -> Search {
        Search {
            sensitivity: self.choices.sensitivity,
            whole_frame: self.choices.match_whole_frame,
            corners: self.choices.match_corners,
            ignore_colour: self.choices.ignore_colour,
            within_a_folder: self.choices.within_a_folder,
        }
    }

    /// The window with its sets written down, and what they were found under.
    pub open spec fn sets_remembered(self) -> AppView {
        if self.db_path is None {
            self
        } else {
            self.does(
                ActionView::RememberTheSets {
                    sets: stored(self.review.sets),
                    under: self.search_set(),
                },
            )
        }
    }

    /// The window once a search has found sets.
    pub open spec fn sets_found(self, sets: Seq<SetView>, now: u128) -> AppView {
        let taken = AppView {
            search: SearchState { stage: Some(Doing::Finished), done: true, ..self.search },
            ..self.lighting(Lamp::FinishedFindingDuplicates, now)
        }.accepting(sets).sets_remembered();
        taken.does(ActionView::CoverText(names_of(taken.review.sets)))
    }

    /// The window once the search has sent something.
    pub open spec fn told_by_search(self, found: FoundView, now: u128) -> AppView {
        match found {
            FoundView::Progress(progress) => self.noting(progress, now),
            FoundView::Sets(sets) => self.sets_found(sets, now),
            FoundView::Cancelled => AppView {
                scan: crate::progress::ScanView { finished: Some(CANCELLED_TEXT@), ..self.scan },
                ..self
            },
            FoundView::Failed(message) => self.failing(message),
        }
    }

    /// The window once the search has sent these things, one after the other.
    pub open spec fn told_all_by_search(self, found: Seq<FoundView>, now: u128) -> AppView
        decreases found.len(),
    {
        if found.len() == 0 {
            self
        } else {
            self.told_by_search(found[0], now).told_all_by_search(found.drop_first(), now)
        }
    }

    /// The window once a frame has taken what the search has sent. Sets, a
    /// cancellation and a failure are each the end of it.
    pub open spec fn search_heard(self, found: Seq<FoundView>, now: u128) -> AppView {
        if !self.flow.searching {
            self
        } else {
            let told = self.told_all_by_search(found, now);
            if exists|at: int| 0 <= at < found.len() && !(#[trigger] found[at] is Progress) {
                AppView { flow: Flow { searching: false, ..told.flow }, ..told }
            } else {
                told
            }
        }
    }

    /// The window once a folder's index has said what it is set to. A folder that
    /// has never said leaves what is on screen alone.
    pub open spec fn notes_taken(self, notes: NotesView) -> AppView {
        AppView {
            flow: Flow { noted: true, ..self.flow },
            destination: told_destination(notes.disposal, self.destination),
            move_dir: match notes.move_dir {
                Some(folder) => folder,
                None => self.move_dir,
            },
            choices: self.choices.told(notes).settled(),
            ..self
        }
    }

    /// The window with what its folder does on opening written down.
    pub open spec fn ways_remembered(self) -> AppView {
        if self.db_path is None {
            self
        } else {
            self.does(
                ActionView::SetMeta(
                    seq![
                        (AUTO_RESCAN@, mark_text(self.choices.auto_rescan)),
                        (AUTO_MARK@, mark_text(self.choices.auto_mark)),
                    ],
                ),
            )
        }
    }

    /// The window with the sets written down for its folder thrown away. The marks
    /// stay: a mark is about a file, and the files are still there.
    pub open spec fn saved_review_given_up(self) -> AppView {
        let without = AppView { sets_before: Seq::empty(), ..self };
        if self.db_path is None {
            without
        } else {
            without.does(ActionView::ClearSets)
        }
    }

    /// The window with its review finished: what was written down for it goes, the
    /// sets and the marks both.
    pub open spec fn review_over(self) -> AppView {
        let without = AppView { kept_before: Set::empty(), ..self.saved_review_given_up() };
        if self.db_path is None {
            without
        } else {
            without.does(ActionView::ClearKeep)
        }
    }

    /// The window asking for the sets that were stored, where there are any and the
    /// pictures to build them from.
    pub open spec fn stored_review_wanted(self, search_done: bool) -> AppView {
        if self.flow.images && self.sets_before.len() > 0 {
            self.does(ActionView::BuildStoredSets { search_done })
        } else {
            self
        }
    }

    /// The window once the sets that were stored have been built.
    pub open spec fn stored_review_opened(self, sets: Seq<SetView>, search_done: bool) -> AppView {
        if sets.len() == 0 {
            self
        } else {
            let taken = self.accepting(sets);
            if search_done {
                AppView { search: SearchState { done: true, ..taken.search }, ..taken }
            } else {
                taken
            }
        }
    }
}

/// The paths of some sets' pictures, one behind the other.
fn names(sets: &Vec<DuplicateSet>) -> (text: String)
    ensures
        text@ == names_of(sets.deep_view()),
{
    let ghost all = sets.deep_view();
    let mut text = String::new();
    assert(text@ =~= names_of(all.take(0)));
    for at in 0..sets.len()
        invariant
            all == sets.deep_view(),
            text@ == names_of(all.take(at as int)),
    {
        let ghost before = text@;
        let members = &sets[at].members;
        let ghost shown = all[at as int].members;
        proof {
            assert(all.take(at + 1).drop_last() =~= all.take(at as int));
            assert(all[at as int] == sets@[at as int].deep_view());
            assert(shown == members.deep_view());
        }
        assert(before + paths_of(shown.take(0)) =~= before);
        for place in 0..members.len()
            invariant
                shown == members.deep_view(),
                text@ == before + paths_of(shown.take(place as int)),
        {
            proof {
                assert(shown.take(place + 1).drop_last() =~= shown.take(place as int));
                assert(shown[place as int] == members@[place as int].deep_view());
            }
            text.append(members[place].rel_path.as_str());
            assert(text@ =~= before + paths_of(shown.take(place + 1)));
        }
        assert(shown.take(shown.len() as int) =~= shown);
    }
    assert(all.take(all.len() as int) =~= all);
    text
}

/// Where a picture is in some sets.
pub fn find_picture(sets: &Vec<DuplicateSet>, file_id: i64) -> (found: Option<(usize, usize)>)
    ensures
        match found {
            Some((set, member)) => {
                &&& set < sets@.len()
                &&& member < sets@[set as int].members@.len()
                &&& first(sets.deep_view(), holding(file_id)) == Some(set as int)
                &&& picture(sets.deep_view(), file_id) == Some(
                    sets.deep_view()[set as int].members[member as int],
                )
            },
            None => picture(sets.deep_view(), file_id) is None,
        },
{
    match set_holding(sets, file_id) {
        None => None,
        Some(set) => {
            assert(sets.deep_view()[set as int] == sets@[set as int].deep_view());
            match member_called(&sets[set], file_id) {
                None => None,
                Some(member) => Some((set, member)),
            }
        },
    }
}

/// The sets as they are written down.
fn to_store(sets: &Vec<DuplicateSet>) -> (listed: Vec<(i64, Vec<i64>)>)
    ensures
        listed.deep_view() == stored(sets.deep_view()),
{
    let ghost all = sets.deep_view();
    let mut listed: Vec<(i64, Vec<i64>)> = Vec::new();
    assert(listed.deep_view() =~= stored(all).take(0));
    for at in 0..sets.len()
        invariant
            all == sets.deep_view(),
            listed.deep_view() == stored(all).take(at as int),
    {
        let ghost before = listed.deep_view();
        assert(all[at as int] == sets@[at as int].deep_view());
        let ids = sets[at].ids();
        assert(ids.deep_view() =~= ids@);
        let entry = (sets[at].set_id, ids);
        let ghost shown = entry.deep_view();
        assert(shown == stored(all)[at as int]);
        listed.push(entry);
        assert(listed.deep_view() =~= before.push(shown));
        assert(listed.deep_view() =~= stored(all).take(at + 1));
    }
    assert(listed.deep_view() =~= stored(all));
    listed
}

fn tell_destination(name: &Option<String>, there: Destination) -> (choice: Destination)
    ensures
        choice == told_destination(name.deep_view(), there),
{
    match name {
        Some(name) => match Destination::from_name(name.as_str()) {
            Some(choice) => choice,
            None => there,
        },
        None => there,
    }
}

fn said_or(said: Option<bool>, there: bool) -> (setting: bool)
    ensures
        setting == if_said(said, there),
{
    match said {
        Some(setting) => setting,
        None => there,
    }
}

impl App {
    /// What a search says while it runs, and what the reading of an index says
    /// on the way to one. The same bar draws both: reading an index on opening
    /// a folder is the same work a search would otherwise have done itself.
    pub fn note_search_progress(&mut self, progress: Progress, now: u128)
        ensures
            final(self)@ == old(self)@.noting(progress, now),
    {
        match progress {
            Progress::Loading { done: _, total: _ } => {
                self.light(Lamp::StartedBuildingTheMemoryIndex, now);
            },
            Progress::Loaded { images: _ } => {
                self.light(Lamp::FinishedBuildingTheMemoryIndex, now);
            },
            _ => {},
        }
        self.search.tell(progress);
    }

    /// Search the index that is in memory.
    ///
    /// The database is not a source for this. It exists so that opening a folder
    /// that has been indexed before is fast, and the pass converts it to the form
    /// the search works on as part of loading it. If there is no such structure
    /// there is nothing to search, and the caller runs a pass first.
    pub fn load_sets(&mut self, now: u128)
        ensures
            final(self)@ == old(self)@.search_started(now),
            old(self).db_path is Some && old(self).flow.images && !old(self).flow.searching ==> (
            final(self)@.todo.last() matches ActionView::StartSearch(asked) && asks_as_set(
                asked,
                old(self).choices,
            )),
    {
        proof {
            a_search_is_for_what_the_controls_say(self@, now);
        }
        if self.db_path.is_none() || !self.flow.images || self.flow.searching {
            return;
        }
        self.light(Lamp::StartedFindingDuplicates, now);
        self.set_search(SearchState { stage: Some(Doing::Starting), ..SearchState::empty() });
        let thresholds = Thresholds {
            limit: Limit::At(self.choices.sensitivity),
            ignore_colour: self.choices.ignore_colour,
            ways: Some(
                Ways {
                    whole_frame: self.choices.match_whole_frame,
                    corners: self.choices.match_corners,
                    within_a_folder: self.choices.within_a_folder,
                },
            ),
        };
        // What the last pass ended with says nothing about this one.
        self.say_finished(None);
        self.dismiss_error();
        self.set_flow(Flow { searching: true, ..self.flow });
        self.ask(Action::StartSearch(thresholds));
    }

    /// Take what the search has sent. Called once per frame.
    pub fn pump_search(&mut self, found: Vec<Found>, now: u128)
        ensures
            final(self)@ == old(self)@.search_heard(found.deep_view(), now),
    {
        if !self.flow.searching {
            return;
        }
        let ghost all = found.deep_view();
        let mut waiting = found;
        let mut done = false;
        let ghost mut heard: nat = 0;
        assert(all.skip(0) =~= all);
        while waiting.len() > 0
            invariant
                heard <= all.len(),
                waiting.deep_view() == all.skip(heard as int),
                old(self)@.told_all_by_search(all, now) == self@.told_all_by_search(
                    waiting.deep_view(),
                    now,
                ),
                done <==> exists|at: int| 0 <= at < heard && !(#[trigger] all[at] is Progress),
            decreases waiting.len(),
        {
            let ghost left = waiting.deep_view();
            let one = waiting.remove(0);
            let ghost shown = one.deep_view();
            proof {
                assert(left[0] == shown);
                assert(all[heard as int] == shown);
                assert(waiting.deep_view() =~= left.drop_first());
                assert(waiting.deep_view() =~= all.skip(heard as int + 1));
            }
            match one {
                Found::Progress(progress) => {
                    self.note_search_progress(progress, now);
                },
                Found::Sets(sets) => {
                    self.take_found(sets, now);
                    done = true;
                },
                Found::Cancelled => {
                    self.say_finished(Some(String::from_str(CANCELLED_TEXT)));
                    done = true;
                },
                Found::Failed(message) => {
                    self.fail(message);
                    done = true;
                },
            }
            proof {
                heard = heard + 1;
            }
        }
        if done {
            self.set_flow(Flow { searching: false, ..self.flow });
        }
    }

    /// Take the sets a search has found.
    ///
    /// Taken first, because that is where a review begins and the tables it is
    /// written in are made. Then written down, here where the search is and not in
    /// `accept_sets`: sets read back out of the index go through that too, and
    /// there is nothing to write about sets that came from it. A search that found
    /// nothing writes an empty list, which is a folder searched and found clean
    /// rather than one never searched.
    fn take_found(&mut self, sets: Vec<DuplicateSet>, now: u128)
        ensures
            final(self)@ == old(self)@.sets_found(sets.deep_view(), now),
    {
        self.light(Lamp::FinishedFindingDuplicates, now);
        self.set_search(SearchState { stage: Some(Doing::Finished), done: true, ..self.search });
        self.accept_sets(sets);
        self.remember_the_sets();
        // The names about to go on screen. If any of them is in a script the
        // bundled face does not have, the machine gets asked for one that does.
        let text = names(&self.review.sets);
        self.ask(Action::CoverText(text));
    }

    /// Build sets into the review page, whether they came from a search or out of
    /// the index. A review begins here.
    pub fn accept_sets(&mut self, sets: Vec<DuplicateSet>)
        ensures
            final(self)@ == old(self)@.accepting(sets.deep_view()),
    {
        if self.db_path.is_some() {
            self.ask(Action::BeginReview);
        }
        // The pictures were read against the index as it stood for the last
        // result. This one names them by the same numbers and can mean other
        // files by them.
        self.ask(Action::ForgetThumbnails);
        if sets.len() == 0 {
            self.clear_review();
            let text = if self.scan.total == 0 {
                NO_FILES_IN_FOLDER_TEXT
            } else {
                NO_DUPLICATES_FOUND_TEXT
            };
            self.say_finished(Some(String::from_str(text)));
            return;
        }
        self.take_sets(sets);
        self.mark_what_arrived();
        self.open_review();
        self.prime();
        self.go_to_review();
    }

    fn open_review(&mut self)
        ensures
            final(self)@ == old(self)@.review_opened(),
    {
        self.review.replan();
        self.review.preselect_first_keeper();
    }

    /// These are other sets, so the list starts at the first of them rather than
    /// wherever the last review was left scrolled to.
    fn go_to_review(&mut self)
        ensures
            final(self)@ == old(self)@.on_the_review(),
    {
        self.review.list_to_top = true;
        self.page = Page::Review;
    }

    /// Put sets in the review, and the marks of the last one back on them: a mark
    /// somebody made outranks one that is offered, and the auto-marking only adds
    /// what is missing.
    fn take_sets(&mut self, sets: Vec<DuplicateSet>)
        ensures
            final(self)@ == old(self)@.sets_taken(sets.deep_view()),
    {
        self.review.keep.clear();
        assert(marks_by_set(self.review.keep@) =~= Map::<i64, Seq<i64>>::empty());
        self.review.selected = None;
        self.review.showing = None;
        self.review.sets = sets;
        self.review.take_up_the_marks(&self.kept_before);
    }

    /// Mark the best copies, where a pass asked for that.
    fn mark_what_arrived(&mut self)
        ensures
            final(self)@ == old(self)@.marked_on_arrival(),
    {
        if self.flow.mark_on_arrival {
            self.set_flow(Flow { mark_on_arrival: false, ..self.flow });
            let went_on = self.review.auto_mark_to_keep();
            self.write_marks(went_on, true);
        }
    }

    /// Ask for the pictures about to be shown.
    fn prime(&mut self)
        ensures
            final(self)@ == old(self)@.primed(),
    {
        if self.folder.is_none() {
            return;
        }
        if let Some(file_id) = self.review.selected {
            if let Some((set, member)) = find_picture(&self.review.sets, file_id) {
                assert(self.review@.sets[set as int].members[member as int]
                    == self.review.sets@[set as int].members@[member as int].deep_view());
                let rel_path = self.review.sets[set].members[member].rel_path.clone();
                self.ask(Action::PrimePreview { file_id, rel_path });
            }
        }
        self.ask(Action::PrimeThumbnails);
    }

    /// Write down the marks that just changed, and only those.
    ///
    /// One row per picture somebody touched. Not called where the marks are
    /// cleared wholesale: another folder, a pass, a search coming back, the end of
    /// a cleanup. None of those is somebody unmarking a picture, and what is
    /// written down outlives all of them.
    pub(crate) fn write_marks(&mut self, ids: Vec<i64>, keeping: bool)
        ensures
            final(self)@ == old(self)@.wrote_marks(ids@, keeping),
    {
        if self.db_path.is_none() || ids.len() == 0 {
            return;
        }
        if keeping {
            self.ask(Action::KeepThese(ids));
        } else {
            self.ask(Action::UnkeepThese(ids));
        }
    }

    /// What the window is set to search for, which is what a set it found is the
    /// answer to.
    pub fn search_settings(&self) -> (search: Search)
        ensures
            search == self@.search_set(),
    {
        Search {
            sensitivity: self.choices.sensitivity,
            whole_frame: self.choices.match_whole_frame,
            corners: self.choices.match_corners,
            ignore_colour: self.choices.ignore_colour,
            within_a_folder: self.choices.within_a_folder,
        }
    }

    /// Write down the sets a search found, and the settings it found them under.
    ///
    /// The pictures are named by number and nothing about them is written twice:
    /// what each one is comes out of the index the sets were found in.
    fn remember_the_sets(&mut self)
        ensures
            final(self)@ == old(self)@.sets_remembered(),
    {
        if self.db_path.is_none() {
            return;
        }
        let sets = to_store(&self.review.sets);
        let under = self.search_settings();
        self.ask(Action::RememberTheSets { sets, under });
    }

    /// Take what a folder's index says about itself. Every one of these belongs
    /// to the folder rather than to the program, and a folder that has never
    /// said leaves what is on screen alone.
    pub fn take_notes(&mut self, notes: Notes)
        ensures
            final(self)@ == old(self)@.notes_taken(notes.deep_view()),
    {
        let choice = tell_destination(&notes.disposal, self.destination);
        let choices = self.choices.tell(&notes);
        let move_dir = match notes.move_dir {
            Some(folder) => folder,
            None => self.move_dir.clone(),
        };
        self.set_flow(Flow { noted: true, ..self.flow });
        self.set_disposal(choice, move_dir);
        self.set_choices(choices);
        // None of these boxes means anything without the one above it, and a box
        // that means nothing is not left ticked.
        self.settle_the_boxes();
    }

    /// The boxes that depend on another box. Ticked, they say something; with
    /// what they depend on switched off they say nothing, so they come off and
    /// cannot be put back on until it returns.
    pub fn settle_the_boxes(&mut self)
        ensures
            final(self)@ == (AppView { choices: old(self)@.choices.settled(), ..old(self)@ }),
    {
        let ticked = self.choices;
        let auto_rescan = ticked.auto_rescan && ticked.keep_index;
        self.set_choices(
            Choices {
                within_a_folder: ticked.within_a_folder && ticked.recurse,
                auto_rescan,
                auto_mark: ticked.auto_mark && auto_rescan,
                ..ticked
            },
        );
    }

    /// What this folder does when it is opened: whether it runs a pass, and
    /// whether that pass marks the best copy in each set.
    ///
    /// Choices about the folder, and they take effect where they are made, so
    /// they are written where they are made. The settings a search runs under
    /// are not here: a control moved and never used has changed nothing, and the
    /// index holds what a search really ran with.
    pub fn remember_ways_of_matching(&mut self)
        ensures
            final(self)@ == old(self)@.ways_remembered(),
    {
        if self.db_path.is_none() {
            return;
        }
        let mut values: Vec<(String, String)> = Vec::new();
        values.push(
            (String::from_str(AUTO_RESCAN), String::from_str(mark(self.choices.auto_rescan))),
        );
        values.push(
            (String::from_str(AUTO_MARK), String::from_str(mark(self.choices.auto_mark))),
        );
        assert(values.deep_view() =~= seq![
            (AUTO_RESCAN@, mark_text(self@.choices.auto_rescan)),
            (AUTO_MARK@, mark_text(self@.choices.auto_mark)),
        ]);
        self.ask(Action::SetMeta(values));
    }

    /// The review is finished, so what was written down for it goes: the sets and
    /// the marks both.
    ///
    /// Nothing is left to be marked. The cleanup took everything that was not
    /// marked, so the marks name every file still there, which says nothing, and
    /// there are no sets for them to be marks in.
    pub fn the_review_is_over(&mut self)
        ensures
            final(self)@ == old(self)@.review_over(),
    {
        self.give_up_the_saved_review();
        self.kept_before.clear();
        if self.db_path.is_none() {
            return;
        }
        self.ask(Action::ClearKeep);
    }

    /// Throw away the sets written down for this folder, because it is about to
    /// be searched again and they are not what that search will find.
    ///
    /// The marks stay. A mark is about a file, not about a set, and the files are
    /// still there; the next search hangs them on whatever sets it finds.
    pub fn give_up_the_saved_review(&mut self)
        ensures
            final(self)@ == old(self)@.saved_review_given_up(),
    {
        self.sets_before.clear();
        assert(self.sets_before.deep_view() =~= Seq::<(i64, Seq<i64>)>::empty());
        if self.db_path.is_none() {
            return;
        }
        self.ask(Action::ClearSets);
    }

    /// Ask for the sets a previous search wrote down to be built out of the
    /// pictures this open already read, so the review can open on them without
    /// running one.
    pub fn want_the_stored_review(&mut self, search_done: bool)
        ensures
            final(self)@ == old(self)@.stored_review_wanted(search_done),
    {
        if self.flow.images && self.sets_before.len() > 0 {
            self.ask(Action::BuildStoredSets { search_done });
        }
    }

    /// Open the review on the sets a previous search wrote down. A set whose
    /// pictures are gone comes back short or not at all, and with none there is
    /// nothing to open.
    ///
    /// Nothing is written: these sets came out of the index and putting them on
    /// screen does not change what it says.
    pub fn open_the_stored_review(&mut self, sets: Vec<DuplicateSet>, search_done: bool) -> (opened:
        bool)
        ensures
            final(self)@ == old(self)@.stored_review_opened(sets.deep_view(), search_done),
            opened == (sets@.len() > 0),
    {
        if sets.len() == 0 {
            return false;
        }
        self.accept_sets(sets);
        if search_done {
            self.set_search(SearchState { done: true, ..self.search });
        }
        true
    }
}

} // verus!
