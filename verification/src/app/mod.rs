//! The window's state, apart from how it is drawn.
//!
//! Everything that happens to the window is a method here: something was pressed,
//! or something arrived from a thread. What cannot be done here, because it reads
//! or writes a file, starts a thread or draws, is left in `todo` for whoever holds
//! the window to do, in the order it was asked for.

use std::collections::HashSet;

use vstd::prelude::*;
use vstd::string::*;

use crate::constants::{
    AUTOMATICALLY_MARK_TO_KEEP_DEFAULT, AUTOMATICALLY_RESCAN_DEFAULT, DEFAULT_SENSITIVITY,
    INCLUDE_SUBFOLDERS_DEFAULT, MATCH_COLOUR_WITH_GRAYSCALE_DEFAULT, MATCH_PARTIALS_DEFAULT,
    MATCH_WHOLE_PICTURES_DEFAULT, MOVE_FOLDER_DEFAULT, ONLY_MATCH_WITHIN_FOLDERS_DEFAULT,
};
use crate::folders::{default_db_path, each_once, is_in_folder, is_in_order_of, is_sameness, INDEX_FILENAME};
use crate::lamps::{Lamp, Lit, LitView};
use crate::notes::Search;
use crate::progress::{no_scan, no_search, ScanState, ScanView, SearchState};
use crate::review::{Review, ReviewView};
use crate::settings::{sorted, Settings, SettingsView, Window};
use crate::state::{Destination, Page, Question};
use crate::strictness::Thresholds;

pub mod arrival;
pub mod asked;
pub mod cleaning;
pub mod controls;
pub mod laws;
pub mod marking;
pub mod opening;
pub mod pages;
pub mod passing;
pub mod pressed;
pub mod reported;
pub mod searching;
pub mod written;

verus! {

/// What the boxes and the slider are set to.
#[derive(Debug, Clone, Copy, PartialEq, Eq, Structural)]
pub struct Choices {
    pub recurse: bool,
    pub ignore_colour: bool,
    /// The ways of matching that are switched on. Both to begin with, and both
    /// kept in the folder's own index: a folder searched one way is searched
    /// that way again when it is opened.
    pub match_whole_frame: bool,
    pub match_corners: bool,
    /// Whether a folder scanned with its subfolders is searched one folder at a
    /// time. Off to begin with, and kept in the folder's own index.
    pub within_a_folder: bool,
    /// The "Save an index database for this folder" box. Ticked when the folder
    /// is opened with an index file in it, unticked when it is opened without
    /// one; unticking it deletes the index, and a cleanup on a folder with it
    /// unticked deletes the index when it is done. It is not saved: the folder
    /// itself says whether it has an index.
    pub keep_index: bool,
    /// Whether opening this folder starts a pass by itself. Off to begin with,
    /// and kept in the index, which is also the thing it depends on: a folder
    /// with no index has nothing to run on opening.
    pub auto_rescan: bool,
    /// Whether a pass that has run on opening goes on to mark the best copy in
    /// each set. Kept in the index, and depends on the box above it: there is
    /// nowhere for this to happen if no pass runs.
    pub auto_mark: bool,
    /// How far apart two pictures may be and still count as the same one, as a
    /// share of the hash, by the bits of the floating point number it is.
    pub sensitivity: u64,
}

/// What is under way.
#[derive(Debug, Clone, Copy, PartialEq, Eq, Structural)]
pub struct Flow {
    /// Whether the folder that is open arrived with an index. A folder without
    /// one has nothing to compare itself against, and choosing it is not asking
    /// for it to be scanned.
    pub opened_with_an_index: bool,
    /// Whether the pass that is running is the comparison a folder is opened
    /// with, rather than a pass over the folder. What it finds decides what
    /// opening the folder does.
    pub comparing: bool,
    /// Whether the last pass found a file the index does not have, or a file the
    /// index has that the folder does not.
    pub something_moved: bool,
    /// The question standing between a saved review and this folder being
    /// searched again. Nothing happens until it is answered.
    pub question: Option<Question>,
    /// Whether the sets the search is about to hand over are the ones a pass
    /// asked to have marked. Set when that pass finishes and read when they
    /// arrive, since there is nothing to mark until then.
    pub mark_on_arrival: bool,
    /// Whether the index is being asked what it says about itself.
    pub asking: bool,
    /// Whether a pass has started since the folder was asked about itself. The
    /// pictures read on opening describe the folder as it was before the pass, and
    /// the pass hands over its own, newer copy, so the older one is not to be
    /// taken, however late it turns up.
    pub scanned_since_asking: bool,
    /// Whether this folder's index has already said what it was set to. It says
    /// so once, when the folder is opened; a pass over the folder says it again,
    /// and by then the boxes are whoever pressed Scan's business, not the
    /// index's.
    pub noted: bool,
    /// Whether a pass is running, a search is, and a removal is.
    pub running: bool,
    pub searching: bool,
    pub removing: bool,
    /// How far through the removal is.
    pub removed_so_far: usize,
    pub to_remove: usize,
    /// The files are gone and the index is being rewritten without them.
    pub tidying: bool,
    /// The folder the window opened on is asked about itself on the first frame,
    /// which cannot happen until the window exists.
    pub scan_on_open: bool,
    /// Whether the index is held in the form the search works on. Nothing in it
    /// changes while the folder does not, so it is read once and kept, and let go
    /// of when the folder is changed or a pass rewrites the index.
    pub images: bool,
}

/// Where removed files go, with the folder they are moved to.
pub enum Disposal {
    Trash,
    Delete,
    MoveTo(String),
}

/// Where removed files go, as the contracts speak of it.
pub enum DisposalView {
    Trash,
    Delete,
    MoveTo(Seq<char>),
}

impl DeepView for Disposal {
    type V = DisposalView;

    open spec fn deep_view(&self) -> DisposalView {
        match *self {
            Disposal::Trash => DisposalView::Trash,
            Disposal::Delete => DisposalView::Delete,
            Disposal::MoveTo(folder) => DisposalView::MoveTo(folder@),
        }
    }
}

/// Something left to be done outside.
pub enum Action {
    /// Write everything the window was left set to.
    SaveSettings,
    /// Let go of the thumbnails.
    ForgetThumbnails,
    /// Have a picture ready at the size of the preview pane.
    PrimePreview { file_id: i64, rel_path: String },
    /// Have a thumbnail of every picture in the sets ready.
    PrimeThumbnails,
    /// Make sure the letters of a text can be drawn.
    CoverText(String),
    /// Ask an index what it says about itself, on a thread.
    AskTheIndex { db_path: String },
    /// Start a pass, over the folder or only comparing it with its index.
    StartPass { folder: String, db_path: String, recurse: bool, compare_only: bool },
    /// Stop the pass, and the search.
    CancelPass,
    StopSearch,
    /// Press Scan.
    Scan,
    /// Search the pictures held in memory.
    StartSearch(Thresholds),
    /// Build the sets that were stored out of the pictures held in memory, and
    /// hand them back; whether the search they came from counts as done.
    BuildStoredSets { search_done: bool },
    /// Take files out of the pictures held in memory.
    LeaveOutOfImages(Vec<String>),
    /// Make the tables a review is written in, if they are not there.
    BeginReview,
    /// Write down the sets a search found, and the settings it found them under.
    RememberTheSets { sets: Vec<(i64, Vec<i64>)>, under: Search },
    /// Throw away the sets written down, and the marks.
    ClearSets,
    ClearKeep,
    /// Write pairs down as not copies, and take that back.
    Ignore(Vec<(i64, i64)>),
    Unignore(Vec<(i64, i64)>),
    /// Write marks down, and take them off.
    KeepThese(Vec<i64>),
    UnkeepThese(Vec<i64>),
    /// Write values down in the index, in this order, up to the first that will
    /// not go.
    SetMeta(Vec<(String, String)>),
    /// Delete the index.
    DiscardIndex,
    /// Remove the files of the plan, on a thread.
    StartCleanup { root: String, disposal: Disposal, keep_index: bool },
    /// Close the index, waiting for what is still to be written.
    CloseIndex,
}

/// Something left to be done, as the contracts speak of it.
pub enum ActionView {
    SaveSettings,
    ForgetThumbnails,
    PrimePreview { file_id: i64, rel_path: Seq<char> },
    PrimeThumbnails,
    CoverText(Seq<char>),
    AskTheIndex { db_path: Seq<char> },
    StartPass { folder: Seq<char>, db_path: Seq<char>, recurse: bool, compare_only: bool },
    CancelPass,
    StopSearch,
    Scan,
    StartSearch(Thresholds),
    BuildStoredSets { search_done: bool },
    LeaveOutOfImages(Seq<Seq<char>>),
    BeginReview,
    RememberTheSets { sets: Seq<(i64, Seq<i64>)>, under: Search },
    ClearSets,
    ClearKeep,
    Ignore(Seq<(i64, i64)>),
    Unignore(Seq<(i64, i64)>),
    KeepThese(Seq<i64>),
    UnkeepThese(Seq<i64>),
    SetMeta(Seq<(Seq<char>, Seq<char>)>),
    DiscardIndex,
    StartCleanup { root: Seq<char>, disposal: DisposalView, keep_index: bool },
    CloseIndex,
}

impl DeepView for Action {
    type V = ActionView;

    open spec fn deep_view(&self) -> ActionView {
        match *self {
            Action::SaveSettings => ActionView::SaveSettings,
            Action::ForgetThumbnails => ActionView::ForgetThumbnails,
            Action::PrimePreview { file_id, rel_path } => ActionView::PrimePreview {
                file_id,
                rel_path: rel_path@,
            },
            Action::PrimeThumbnails => ActionView::PrimeThumbnails,
            Action::CoverText(text) => ActionView::CoverText(text@),
            Action::AskTheIndex { db_path } => ActionView::AskTheIndex { db_path: db_path@ },
            Action::StartPass { folder, db_path, recurse, compare_only } => ActionView::StartPass {
                folder: folder@,
                db_path: db_path@,
                recurse,
                compare_only,
            },
            Action::CancelPass => ActionView::CancelPass,
            Action::StopSearch => ActionView::StopSearch,
            Action::Scan => ActionView::Scan,
            Action::StartSearch(thresholds) => ActionView::StartSearch(thresholds),
            Action::BuildStoredSets { search_done } => ActionView::BuildStoredSets { search_done },
            Action::LeaveOutOfImages(paths) => ActionView::LeaveOutOfImages(paths.deep_view()),
            Action::BeginReview => ActionView::BeginReview,
            Action::RememberTheSets { sets, under } => ActionView::RememberTheSets {
                sets: sets.deep_view(),
                under,
            },
            Action::ClearSets => ActionView::ClearSets,
            Action::ClearKeep => ActionView::ClearKeep,
            Action::Ignore(pairs) => ActionView::Ignore(pairs@),
            Action::Unignore(pairs) => ActionView::Unignore(pairs@),
            Action::KeepThese(ids) => ActionView::KeepThese(ids@),
            Action::UnkeepThese(ids) => ActionView::UnkeepThese(ids@),
            Action::SetMeta(values) => ActionView::SetMeta(values.deep_view()),
            Action::DiscardIndex => ActionView::DiscardIndex,
            Action::StartCleanup { root, disposal, keep_index } => ActionView::StartCleanup {
                root: root@,
                disposal: disposal.deep_view(),
                keep_index,
            },
            Action::CloseIndex => ActionView::CloseIndex,
        }
    }
}

/// The window.
pub struct App {
    pub page: Page,
    pub folder: Option<String>,
    /// The folder whose letters the window has already made sure it can draw.
    pub covered: Option<String>,
    pub db_path: Option<String>,
    /// Folders that have been scanned, alphabetically. Choosing a folder does not
    /// put one here; scanning it does.
    pub previous: Vec<String>,
    pub choices: Choices,
    pub flow: Flow,
    pub review: Review,
    /// The sets the last search of this folder found, as its index holds them:
    /// file ids and the order they were shown in, and nothing else about the
    /// pictures. Empty for a folder that has never been searched.
    pub sets_before: Vec<(i64, Vec<i64>)>,
    /// What the last review of this folder marked to keep, as the folder's index
    /// holds it.
    ///
    /// Held per file, because that is what a mark is about. The window holds its
    /// marks per set, and a set does not exist until a search has run, so these
    /// wait here until there are sets to hang them on. A pass does not empty
    /// them: it clears the marks on screen and the next search puts these back
    /// on whatever it finds.
    pub kept_before: HashSet<i64>,
    pub destination: Destination,
    pub move_dir: String,
    /// Files the last cleanup could not remove, and what the system said. Shown
    /// on the cleanup page so another destination can be tried.
    pub cleanup_failures: Vec<(String, String)>,
    pub cleanup_result: Option<String>,
    /// Where the window is and how wide the preview pane is, read every frame and
    /// written out when the window closes.
    pub window: Option<Window>,
    pub preview_width: Option<u32>,
    pub error: Option<String>,
    pub scan: ScanState,
    /// What the search is doing, when one is running.
    pub search: SearchState,
    /// Which of the lamps on the scan page are green.
    pub lit: Lit,
    /// What is left to be done outside, in order.
    pub todo: Vec<Action>,
}

/// The window, as the contracts speak of it.
pub struct AppView {
    pub page: Page,
    pub folder: Option<Seq<char>>,
    pub covered: Option<Seq<char>>,
    pub db_path: Option<Seq<char>>,
    pub previous: Seq<Seq<char>>,
    pub choices: Choices,
    pub flow: Flow,
    pub review: ReviewView,
    pub sets_before: Seq<(i64, Seq<i64>)>,
    pub kept_before: Set<i64>,
    pub destination: Destination,
    pub move_dir: Seq<char>,
    pub cleanup_failures: Seq<(Seq<char>, Seq<char>)>,
    pub cleanup_result: Option<Seq<char>>,
    pub window: Option<Window>,
    pub preview_width: Option<u32>,
    pub error: Option<Seq<char>>,
    pub scan: ScanView,
    pub search: SearchState,
    pub lit: LitView,
    pub todo: Seq<ActionView>,
}

impl View for App {
    type V = AppView;

    open spec fn view(&self) -> AppView {
        AppView {
            page: self.page,
            folder: self.folder.deep_view(),
            covered: self.covered.deep_view(),
            db_path: self.db_path.deep_view(),
            previous: self.previous.deep_view(),
            choices: self.choices,
            flow: self.flow,
            review: self.review@,
            sets_before: self.sets_before.deep_view(),
            kept_before: self.kept_before@,
            destination: self.destination,
            move_dir: self.move_dir@,
            cleanup_failures: self.cleanup_failures.deep_view(),
            cleanup_result: self.cleanup_result.deep_view(),
            window: self.window,
            preview_width: self.preview_width,
            error: self.error.deep_view(),
            scan: self.scan@,
            search: self.search,
            lit: self.lit@,
            todo: self.todo.deep_view(),
        }
    }
}

/// The choices of a folder that has not said anything about itself.
pub open spec fn first_choices(keep_index: bool, auto_mark: bool) -> Choices {
    Choices {
        recurse: INCLUDE_SUBFOLDERS_DEFAULT,
        ignore_colour: MATCH_COLOUR_WITH_GRAYSCALE_DEFAULT,
        match_whole_frame: MATCH_WHOLE_PICTURES_DEFAULT,
        match_corners: MATCH_PARTIALS_DEFAULT,
        within_a_folder: ONLY_MATCH_WITHIN_FOLDERS_DEFAULT,
        keep_index,
        auto_rescan: AUTOMATICALLY_RESCAN_DEFAULT,
        auto_mark,
        sensitivity: DEFAULT_SENSITIVITY,
    }
}

/// Nothing under way, but for the folder the window opened on.
pub open spec fn idle(scan_on_open: bool) -> Flow {
    Flow {
        opened_with_an_index: false,
        comparing: false,
        something_moved: false,
        question: None,
        mark_on_arrival: false,
        asking: false,
        scanned_since_asking: false,
        noted: false,
        running: false,
        searching: false,
        removing: false,
        removed_so_far: 0,
        to_remove: 0,
        tidying: false,
        scan_on_open,
        images: false,
    }
}

/// A review of nothing.
pub open spec fn no_review() -> ReviewView {
    ReviewView {
        sets: Seq::empty(),
        keep: Map::empty(),
        ignored: Set::empty(),
        plan: Seq::empty(),
        selected: None,
        showing: None,
        scroll_to: None,
        list_to_top: false,
        show_selected: false,
        filling_the_window: None,
    }
}

/// The window as it opens on what was left set, its folder's index being here and
/// the folders that were scanned being offered like this.
pub open spec fn opened_on(
    saved: SettingsView,
    db_path: Option<Seq<char>>,
    offered: Seq<Seq<char>>,
    now: u128,
) -> AppView {
    AppView {
        page: Page::Scan,
        folder: saved.folder,
        covered: None,
        db_path,
        previous: offered,
        choices: Choices {
            recurse: saved.recurse,
            ignore_colour: saved.ignore_colour,
            ..first_choices(false, AUTOMATICALLY_MARK_TO_KEEP_DEFAULT)
        },
        flow: idle(saved.folder is Some),
        review: no_review(),
        sets_before: Seq::empty(),
        kept_before: Set::empty(),
        destination: Destination::Trash,
        move_dir: MOVE_FOLDER_DEFAULT@,
        cleanup_failures: Seq::empty(),
        cleanup_result: None,
        window: saved.window,
        preview_width: saved.preview_width,
        error: None,
        scan: no_scan(),
        search: no_search(),
        // Looking in the folder for an index is what the window does as it opens,
        // so that much has happened already.
        lit: LitView {
            times: if saved.folder is Some {
                Map::empty().insert(Lamp::CheckedForIndexFile, 0)
            } else {
                Map::empty()
            },
            started: now,
        },
        todo: Seq::empty(),
    }
}

impl AppView {
    /// The window with something left to do.
    pub open spec fn does(self, action: ActionView) -> AppView {
        AppView { todo: self.todo.push(action), ..self }
    }

    /// The window with a lamp turned green.
    pub open spec fn lighting(self, lamp: Lamp, now: u128) -> AppView {
        AppView { lit: self.lit.lighting(lamp, now), ..self }
    }

    /// The window showing a problem.
    pub open spec fn failing(self, message: Seq<char>) -> AppView {
        AppView { error: Some(message), ..self }
    }

    /// Whether a pass of any kind is under way.
    pub open spec fn is_busy(self) -> bool {
        self.flow.running || self.flow.searching || self.flow.removing
    }

    /// Whether there is work the Cancel button would stop.
    pub open spec fn can_be_cancelled(self) -> bool {
        self.flow.running || self.flow.searching
    }

    /// Whether there is anything to review.
    pub open spec fn has_sets(self) -> bool {
        self.review.sets.len() > 0
    }

    /// What the next run would be started from.
    pub open spec fn settings_left(self) -> SettingsView {
        SettingsView {
            folder: self.folder,
            recurse: self.choices.recurse,
            previous: self.previous,
            ignore_colour: self.choices.ignore_colour,
            window: self.window,
            preview_width: self.preview_width,
        }
    }

    /// The window with the sets let go of, and everything that was about them.
    pub open spec fn without_sets(self) -> AppView {
        AppView { review: self.review.emptied(), ..self }
    }
}

/// The same text again, where there is any.
pub fn copy_text(text: &Option<String>) -> (copied: Option<String>)
    ensures
        copied.deep_view() == text.deep_view(),
{
    match text {
        Some(said) => Some(said.clone()),
        None => None,
    }
}

/// The same texts again.
pub fn copy_texts(texts: &Vec<String>) -> (copied: Vec<String>)
    ensures
        copied.deep_view() == texts.deep_view(),
{
    let mut copied: Vec<String> = Vec::new();
    for at in 0..texts.len()
        invariant
            copied.deep_view() == texts.deep_view().take(at as int),
    {
        let ghost before = copied.deep_view();
        assert(texts.deep_view()[at as int] == texts@[at as int]@);
        copied.push(texts[at].clone());
        assert(copied.deep_view() =~= before.push(texts@[at as int]@));
        assert(copied.deep_view() =~= texts.deep_view().take(at + 1));
    }
    assert(copied.deep_view() =~= texts.deep_view());
    copied
}

impl App {
    /// Build from a given set of settings rather than from whatever is on this
    /// machine. It runs before the first frame, so it touches no files: the folder
    /// is asked what it says about itself once the window is up.
    pub fn from_settings(saved: Settings, now: u128) -> (app: App)
        ensures
            exists|same: Seq<Seq<bool>>| #[trigger]
                is_sameness(saved@.previous, same) && is_in_order_of(
                    app@.previous,
                    each_once(saved@.previous, same),
                ),
            app@.db_path is Some <==> saved@.folder is Some,
            saved@.folder is Some ==> is_in_folder(
                app@.db_path->0,
                saved@.folder->0,
                INDEX_FILENAME@,
            ),
            app@ == opened_on(saved@, app@.db_path, app@.previous, now),
    {
        let listed: &[String] = saved.previous.as_slice();
        assert(listed.deep_view() =~= saved@.previous);
        let offered = sorted(listed);
        let db_path = match &saved.folder {
            Some(folder) => Some(default_db_path(folder.as_str())),
            None => None,
        };
        App::open_on(saved, db_path, offered, now)
    }

    /// The window as it opens on what was left set, once it is known where the
    /// folder's index is and how the folders that were scanned are offered.
    pub fn open_on(
        saved: Settings,
        db_path: Option<String>,
        offered: Vec<String>,
        now: u128,
    ) -> (app: App)
        ensures
            app@ == opened_on(saved@, db_path.deep_view(), offered.deep_view(), now),
    {
        let opens = saved.folder.is_some();
        let mut lit = Lit::new(now);
        if opens {
            lit.light(Lamp::CheckedForIndexFile, now);
        }
        let app = App {
            page: Page::Scan,
            folder: saved.folder,
            covered: None,
            db_path,
            previous: offered,
            choices: Choices {
                recurse: saved.recurse,
                ignore_colour: saved.ignore_colour,
                match_whole_frame: MATCH_WHOLE_PICTURES_DEFAULT,
                match_corners: MATCH_PARTIALS_DEFAULT,
                within_a_folder: ONLY_MATCH_WITHIN_FOLDERS_DEFAULT,
                keep_index: false,
                auto_rescan: AUTOMATICALLY_RESCAN_DEFAULT,
                auto_mark: AUTOMATICALLY_MARK_TO_KEEP_DEFAULT,
                sensitivity: DEFAULT_SENSITIVITY,
            },
            flow: Flow {
                opened_with_an_index: false,
                comparing: false,
                something_moved: false,
                question: None,
                mark_on_arrival: false,
                asking: false,
                scanned_since_asking: false,
                noted: false,
                running: false,
                searching: false,
                removing: false,
                removed_so_far: 0,
                to_remove: 0,
                tidying: false,
                scan_on_open: opens,
                images: false,
            },
            review: Review::empty(),
            sets_before: Vec::new(),
            kept_before: HashSet::new(),
            destination: Destination::Trash,
            move_dir: String::from_str(MOVE_FOLDER_DEFAULT),
            cleanup_failures: Vec::new(),
            cleanup_result: None,
            window: saved.window,
            preview_width: saved.preview_width,
            error: None,
            scan: ScanState::empty(),
            search: SearchState::empty(),
            lit,
            todo: Vec::new(),
        };
        assert(app@.sets_before =~= Seq::<(i64, Seq<i64>)>::empty());
        assert(app@.cleanup_failures =~= Seq::<(Seq<char>, Seq<char>)>::empty());
        assert(app@.todo =~= Seq::<ActionView>::empty());
        app
    }

    /// Leave something to be done outside.
    pub(crate) fn ask(&mut self, action: Action)
        ensures
            final(self)@ == old(self)@.does(action.deep_view()),
    {
        let ghost shown = action.deep_view();
        self.todo.push(action);
        assert(self.todo.deep_view() =~= old(self).todo.deep_view().push(shown));
    }

    pub(crate) fn set_flow(&mut self, flow: Flow)
        ensures
            final(self)@ == (AppView { flow, ..old(self)@ }),
    {
        self.flow = flow;
    }

    pub(crate) fn set_choices(&mut self, choices: Choices)
        ensures
            final(self)@ == (AppView { choices, ..old(self)@ }),
    {
        self.choices = choices;
    }

    pub(crate) fn set_search(&mut self, search: SearchState)
        ensures
            final(self)@ == (AppView { search, ..old(self)@ }),
    {
        self.search = search;
    }

    pub(crate) fn set_scan(&mut self, scan: ScanState)
        ensures
            final(self)@ == (AppView { scan: scan@, ..old(self)@ }),
    {
        self.scan = scan;
    }

    /// Say how a pass or a search ended.
    pub(crate) fn say_finished(&mut self, text: Option<String>)
        ensures
            final(self)@ == (AppView {
                scan: ScanView { finished: text.deep_view(), ..old(self)@.scan },
                ..old(self)@
            }),
    {
        self.scan.finished = text;
    }

    pub(crate) fn set_disposal(&mut self, destination: Destination, move_dir: String)
        ensures
            final(self)@ == (AppView { destination, move_dir: move_dir@, ..old(self)@ }),
    {
        self.destination = destination;
        self.move_dir = move_dir;
    }

    pub(crate) fn set_folder(&mut self, folder: String, db_path: String)
        ensures
            final(self)@ == (AppView {
                folder: Some(folder@),
                db_path: Some(db_path@),
                ..old(self)@
            }),
    {
        self.folder = Some(folder);
        self.db_path = Some(db_path);
    }

    pub(crate) fn set_page(&mut self, page: Page)
        ensures
            final(self)@ == (AppView { page, ..old(self)@ }),
    {
        self.page = page;
    }

    /// Let the sets go, and everything that was about them.
    pub(crate) fn clear_review(&mut self)
        ensures
            final(self)@ == old(self)@.without_sets(),
    {
        self.review.clear();
    }

    /// Put every lamp out and start the clock they are timed against again.
    pub(crate) fn restart_lamps(&mut self, now: u128)
        ensures
            final(self)@ == (AppView { lit: old(self)@.lit.restarted(now), ..old(self)@ }),
    {
        self.lit.restart(now);
    }

    /// Take what is left to be done, which leaves nothing.
    pub fn take_todo(&mut self) -> (taken: Vec<Action>)
        ensures
            taken.deep_view() == old(self)@.todo,
            final(self)@ == (AppView { todo: Seq::empty(), ..old(self)@ }),
    {
        let mut taken: Vec<Action> = Vec::new();
        taken.append(&mut self.todo);
        assert(taken.deep_view() =~= old(self).todo.deep_view());
        assert(self.todo.deep_view() =~= Seq::<ActionView>::empty());
        taken
    }

    /// Turn a lamp green, noting how far into the run it happened. The first time
    /// only: a step that is reported twice keeps the time it first reached.
    pub(crate) fn light(&mut self, lamp: Lamp, now: u128)
        ensures
            final(self)@ == old(self)@.lighting(lamp, now),
    {
        self.lit.light(lamp, now);
    }

    /// Show a problem.
    pub fn fail(&mut self, message: String)
        ensures
            final(self)@ == old(self)@.failing(message@),
    {
        self.error = Some(message);
    }

    /// Put the problem away.
    pub fn dismiss_error(&mut self)
        ensures
            final(self)@ == (AppView { error: None, ..old(self)@ }),
    {
        self.error = None;
    }

    /// Write everything the window was left set to, so the next run opens the
    /// same way.
    pub fn remember(&mut self)
        ensures
            final(self)@ == old(self)@.does(ActionView::SaveSettings),
    {
        self.ask(Action::SaveSettings);
    }

    /// What the next run would be started from. The sensitivity is not in it: it
    /// is a decision about the pictures on screen, not a preference.
    pub fn settings(&self) -> (settings: Settings)
        ensures
            settings@ == self@.settings_left(),
    {
        Settings {
            folder: copy_text(&self.folder),
            recurse: self.choices.recurse,
            previous: copy_texts(&self.previous),
            ignore_colour: self.choices.ignore_colour,
            window: self.window,
            preview_width: self.preview_width,
        }
    }

    /// Whether there is anything to review, which is what the Review and Clean up
    /// tabs wait for.
    pub fn have_sets(&self) -> (any: bool)
        ensures
            any == self@.has_sets(),
    {
        self.review.sets.len() > 0
    }

    /// Whether a pass of any kind is under way. Starting a second one while the
    /// first is going means nothing, so anything that would start one is off
    /// until it is over, whichever of the three it is.
    pub fn busy(&self) -> (busy: bool)
        ensures
            busy == self@.is_busy(),
    {
        self.flow.running || self.flow.searching || self.flow.removing
    }

    /// Whether there is work the Cancel button would stop.
    ///
    /// Cancel covers the indexing and the search, which are the two a person
    /// waits through. It does not cover a removal: files are going, and stopping
    /// halfway leaves a job half done with nothing said about it.
    pub fn can_cancel(&self) -> (stoppable: bool)
        ensures
            stoppable == self@.can_be_cancelled(),
    {
        self.flow.running || self.flow.searching
    }
}

/// What a window is left set to is what the next one opens on.
pub proof fn a_window_opens_as_the_last_was_left(last: AppView, next: AppView, now: u128)
    requires
        next == opened_on(last.settings_left(), next.db_path, last.previous, now),
    ensures
        next.settings_left() == last.settings_left(),
{
}

} // verus!
