//! A pass over a folder: what it reports, and what it does one thing after another.

use vstd::prelude::*;

use crate::lamps::Step;
use crate::notes::{Notes, NotesView};

verus! {

/// What the reading of a folder says as it goes.
pub enum Event {
    Reached(Step),
    Walking { found: u64, of: Option<u64> },
    Start { total: u64 },
    Progress { done: u64, per_sec: u64, unchanged: u64, removed: u64, ignored: u64 },
    Writing { done: u64, total: u64, read: u64, unchanged: u64, ignored: u64 },
    Error { path: String, message: String },
    /// How long it took is in seconds, as they are shown.
    Done { indexed: u64, removed: u64, failed: u64, elapsed: String },
}

/// What the window needs from a pass while it runs.
pub enum Update {
    /// A step of the pass has happened.
    Reached(Step),
    /// The index, in the form the search works on, built the moment the pass
    /// finished writing it. Nothing in it changes until the folder does, so this
    /// is read once here and every search runs over it without touching storage.
    Images,
    /// What the folder's own index says about how it was made. Read here rather
    /// than on the thread that draws.
    Settings(Notes),
    /// The folder is being listed, and this is how many files that has found so
    /// far. There is no total yet: the listing is what produces it.
    Walking { found: u64, of: Option<u64> },
    Start { total: u64 },
    Progress { done: u64, per_sec: u64, unchanged: u64, removed: u64, ignored: u64 },
    Indexed { done: u64, total: u64, read: u64, unchanged: u64, ignored: u64 },
    Failed { path: String, message: String },
    Done { indexed: u64, removed: u64, failed: u64, elapsed: String },
    /// The pass is over, one way or another. Nothing else follows it.
    Finished { cancelled: bool, error: Option<String> },
}

/// What the reading of a folder says, as the contracts speak of it.
pub enum EventView {
    Reached(Step),
    Walking { found: u64, of: Option<u64> },
    Start { total: u64 },
    Progress { done: u64, per_sec: u64, unchanged: u64, removed: u64, ignored: u64 },
    Writing { done: u64, total: u64, read: u64, unchanged: u64, ignored: u64 },
    Error { path: Seq<char>, message: Seq<char> },
    Done { indexed: u64, removed: u64, failed: u64, elapsed: Seq<char> },
}

/// What the window needs from a pass, as the contracts speak of it.
pub enum UpdateView {
    Reached(Step),
    Images,
    Settings(NotesView),
    Walking { found: u64, of: Option<u64> },
    Start { total: u64 },
    Progress { done: u64, per_sec: u64, unchanged: u64, removed: u64, ignored: u64 },
    Indexed { done: u64, total: u64, read: u64, unchanged: u64, ignored: u64 },
    Failed { path: Seq<char>, message: Seq<char> },
    Done { indexed: u64, removed: u64, failed: u64, elapsed: Seq<char> },
    Finished { cancelled: bool, error: Option<Seq<char>> },
}

impl DeepView for Event {
    type V = EventView;

    open spec fn deep_view(&self) -> EventView {
        match *self {
            Event::Reached(step) => EventView::Reached(step),
            Event::Walking { found, of } => EventView::Walking { found, of },
            Event::Start { total } => EventView::Start { total },
            Event::Progress { done, per_sec, unchanged, removed, ignored } => EventView::Progress {
                done,
                per_sec,
                unchanged,
                removed,
                ignored,
            },
            Event::Writing { done, total, read, unchanged, ignored } => EventView::Writing {
                done,
                total,
                read,
                unchanged,
                ignored,
            },
            Event::Error { path, message } => EventView::Error { path: path@, message: message@ },
            Event::Done { indexed, removed, failed, elapsed } => EventView::Done {
                indexed,
                removed,
                failed,
                elapsed: elapsed@,
            },
        }
    }
}

impl DeepView for Update {
    type V = UpdateView;

    open spec fn deep_view(&self) -> UpdateView {
        match *self {
            Update::Reached(step) => UpdateView::Reached(step),
            Update::Images => UpdateView::Images,
            Update::Settings(notes) => UpdateView::Settings(notes.deep_view()),
            Update::Walking { found, of } => UpdateView::Walking { found, of },
            Update::Start { total } => UpdateView::Start { total },
            Update::Progress { done, per_sec, unchanged, removed, ignored } => UpdateView::Progress {
                done,
                per_sec,
                unchanged,
                removed,
                ignored,
            },
            Update::Indexed { done, total, read, unchanged, ignored } => UpdateView::Indexed {
                done,
                total,
                read,
                unchanged,
                ignored,
            },
            Update::Failed { path, message } => UpdateView::Failed {
                path: path@,
                message: message@,
            },
            Update::Done { indexed, removed, failed, elapsed } => UpdateView::Done {
                indexed,
                removed,
                failed,
                elapsed: elapsed@,
            },
            Update::Finished { cancelled, error } => UpdateView::Finished {
                cancelled,
                error: error.deep_view(),
            },
        }
    }
}

/// What the window is told of something the reading of a folder says.
pub open spec fn update_of(event: EventView) -> UpdateView {
    match event {
        EventView::Reached(step) => UpdateView::Reached(step),
        EventView::Walking { found, of } => UpdateView::Walking { found, of },
        EventView::Start { total } => UpdateView::Start { total },
        EventView::Progress { done, per_sec, unchanged, removed, ignored } => UpdateView::Progress {
            done,
            per_sec,
            unchanged,
            removed,
            ignored,
        },
        EventView::Writing { done, total, read, unchanged, ignored } => UpdateView::Indexed {
            done,
            total,
            read,
            unchanged,
            ignored,
        },
        EventView::Error { path, message } => UpdateView::Failed { path, message },
        EventView::Done { indexed, removed, failed, elapsed } => UpdateView::Done {
            indexed,
            removed,
            failed,
            elapsed,
        },
    }
}

/// What the window is told of something the reading of a folder says.
pub fn update(event: Event) -> (told: Update)
    ensures
        told.deep_view() == update_of(event.deep_view()),
{
    match event {
        Event::Reached(step) => Update::Reached(step),
        Event::Walking { found, of } => Update::Walking { found, of },
        Event::Start { total } => Update::Start { total },
        Event::Progress { done, per_sec, unchanged, removed, ignored } => Update::Progress {
            done,
            per_sec,
            unchanged,
            removed,
            ignored,
        },
        Event::Writing { done, total, read, unchanged, ignored } => Update::Indexed {
            done,
            total,
            read,
            unchanged,
            ignored,
        },
        Event::Error { path, message } => Update::Failed { path, message },
        Event::Done { indexed, removed, failed, elapsed } => Update::Done {
            indexed,
            removed,
            failed,
            elapsed,
        },
    }
}

/// What a pass hears back from the work it has asked for.
pub enum Heard {
    /// Nothing yet: the pass is starting.
    Begun,
    Opened,
    NotesRead(Notes),
    /// The folder has been read: whether it was cancelled part way, and whether the
    /// index came with it in the form the search works on.
    Ran { cancelled: bool, images: bool },
    /// Opening the index or reading the folder did not work.
    Failed(String),
}

/// What a pass hears back, as the contracts speak of it.
pub enum HeardView {
    Begun,
    Opened,
    NotesRead(NotesView),
    Ran { cancelled: bool, images: bool },
    Failed(Seq<char>),
}

impl DeepView for Heard {
    type V = HeardView;

    open spec fn deep_view(&self) -> HeardView {
        match *self {
            Heard::Begun => HeardView::Begun,
            Heard::Opened => HeardView::Opened,
            Heard::NotesRead(notes) => HeardView::NotesRead(notes.deep_view()),
            Heard::Ran { cancelled, images } => HeardView::Ran { cancelled, images },
            Heard::Failed(message) => HeardView::Failed(message@),
        }
    }
}

/// What a pass has to have done next.
#[derive(Debug, Clone, Copy, PartialEq, Eq, Structural)]
pub enum Work {
    OpenTheIndex,
    ReadTheNotes,
    ReadTheFolder,
    Nothing,
}

/// What a pass tells the window on hearing something, and what it has done next.
///
/// The index is opened for writing, its settings are read and handed over, and the
/// folder is read; the pictures are handed over before the pass says it is over,
/// so whatever runs next already has them. The first of these not to work is the
/// end of it.
pub open spec fn pass_on(heard: HeardView) -> (Seq<UpdateView>, Work) {
    match heard {
        HeardView::Begun => (
            seq![UpdateView::Reached(Step::StartedOpeningTheIndexForWriting)],
            Work::OpenTheIndex,
        ),
        HeardView::Opened => (
            seq![
                UpdateView::Reached(Step::FinishedOpeningTheIndexForWriting),
                UpdateView::Reached(Step::StartedReadingTheIndexSettings),
            ],
            Work::ReadTheNotes,
        ),
        HeardView::NotesRead(notes) => (
            seq![
                UpdateView::Settings(notes),
                UpdateView::Reached(Step::FinishedReadingTheIndexSettings),
            ],
            Work::ReadTheFolder,
        ),
        HeardView::Ran { cancelled, images } => (
            (if images {
                seq![UpdateView::Images]
            } else {
                Seq::empty()
            }).push(UpdateView::Finished { cancelled, error: None }),
            Work::Nothing,
        ),
        HeardView::Failed(message) => (
            seq![UpdateView::Finished { cancelled: false, error: Some(message) }],
            Work::Nothing,
        ),
    }
}

/// What a pass tells the window on hearing something, and what it has done next.
pub fn pass(heard: Heard) -> (said: (Vec<Update>, Work))
    ensures
        (said.0.deep_view(), said.1) == pass_on(heard.deep_view()),
{
    let ghost shown = heard.deep_view();
    let mut told: Vec<Update> = Vec::new();
    let work = match heard {
        Heard::Begun => {
            told.push(Update::Reached(Step::StartedOpeningTheIndexForWriting));
            Work::OpenTheIndex
        },
        Heard::Opened => {
            told.push(Update::Reached(Step::FinishedOpeningTheIndexForWriting));
            told.push(Update::Reached(Step::StartedReadingTheIndexSettings));
            Work::ReadTheNotes
        },
        Heard::NotesRead(notes) => {
            told.push(Update::Settings(notes));
            told.push(Update::Reached(Step::FinishedReadingTheIndexSettings));
            Work::ReadTheFolder
        },
        Heard::Ran { cancelled, images } => {
            if images {
                told.push(Update::Images);
            }
            told.push(Update::Finished { cancelled, error: None });
            Work::Nothing
        },
        Heard::Failed(message) => {
            told.push(Update::Finished { cancelled: false, error: Some(message) });
            Work::Nothing
        },
    };
    assert(told.deep_view() =~= pass_on(shown).0);
    (told, work)
}

/// A pass says it is over exactly when it has nothing left to do, and says it last
/// and once.
pub proof fn a_pass_says_it_is_over_last(heard: HeardView)
    ensures
        ({
            let (told, work) = pass_on(heard);
            &&& told.len() > 0
            &&& told.last() is Finished <==> work == Work::Nothing
            &&& forall|at: int| 0 <= at < told.len() - 1 ==> !(#[trigger] told[at] is Finished)
        }),
{
}

/// What is asked of a folder's index when the folder is opened, one thing after
/// another.
#[derive(Debug, Clone, Copy, PartialEq, Eq, Structural)]
pub enum Ask {
    Open,
    StoredSets,
    Notes,
    Ignored,
    Kept,
    Images,
    Nothing,
}

/// What is asked next, once something has been answered or has not.
pub open spec fn asked_after(ask: Ask, answered: bool) -> Ask {
    if !answered {
        Ask::Nothing
    } else {
        match ask {
            Ask::Open => Ask::StoredSets,
            Ask::StoredSets => Ask::Notes,
            Ask::Notes => Ask::Ignored,
            Ask::Ignored => Ask::Kept,
            Ask::Kept => Ask::Images,
            Ask::Images => Ask::Nothing,
            Ask::Nothing => Ask::Nothing,
        }
    }
}

/// What is asked next, once something has been answered or has not.
///
/// Whether there is a review to go back to comes first, before what the folder says
/// it does on opening: a folder that asks to be rescanned and has a review saved is
/// asked about rather than rescanned, and the window cannot know that until it has
/// this. The pictures come last. The first question that is not answered is the
/// last one.
pub fn next_ask(ask: Ask, answered: bool) -> (next: Ask)
    ensures
        next == asked_after(ask, answered),
{
    if !answered {
        return Ask::Nothing;
    }
    match ask {
        Ask::Open => Ask::StoredSets,
        Ask::StoredSets => Ask::Notes,
        Ask::Notes => Ask::Ignored,
        Ask::Ignored => Ask::Kept,
        Ask::Kept => Ask::Images,
        Ask::Images => Ask::Nothing,
        Ask::Nothing => Ask::Nothing,
    }
}

} // verus!
