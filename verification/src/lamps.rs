//! The lamps on the scan page: what a pass goes through, and how far into the run
//! each of those things happened.

use std::collections::HashMap;

use vstd::prelude::*;

use crate::progress::Stage;
use crate::state::Went;

verus! {

broadcast use vstd::std_specs::hash::group_hash_axioms;

/// The things a pass goes through, each with a lamp on the scan page. Red until
/// the thing happens, green after.
#[derive(Debug, Clone, Copy, PartialEq, Eq, Hash, Structural)]
pub enum Lamp {
    CheckedForIndexFile,
    StartedReadingTheIndexSettings,
    FinishedReadingTheIndexSettings,
    StartedOpeningTheIndexForWriting,
    FinishedOpeningTheIndexForWriting,
    StartedLookingForTheTotal,
    FoundTheTotal,
    LoadedIndexIntoMemory,
    ListedTheFolder,
    CrossReferencedWithTheIndex,
    CountedWhatChanged,
    StartedReadingNewFiles,
    FinishedReadingNewFiles,
    StartedIndexingNewFiles,
    FinishedIndexingNewFiles,
    StartedBuildingTheMemoryIndex,
    FinishedBuildingTheMemoryIndex,
    StartedFindingDuplicates,
    FinishedFindingDuplicates,
}

/// The steps a pass reports.
#[derive(Debug, Clone, Copy, PartialEq, Eq, Structural)]
pub enum Step {
    StartedReadingTheIndexSettings,
    FinishedReadingTheIndexSettings,
    StartedOpeningTheIndexForWriting,
    FinishedOpeningTheIndexForWriting,
    StartedConvertingTheIndex,
    FinishedConvertingTheIndex,
    StartedLookingForTheTotal,
    FoundTheTotal,
    LoadedIndexIntoMemory,
    ListedTheFolder,
    CrossReferencedWithTheIndex,
    CountedWhatChanged,
    StartedReadingNewFiles,
    FinishedReadingNewFiles,
    StartedIndexingNewFiles,
    FinishedIndexingNewFiles,
}

/// The lamp a step turns green.
pub open spec fn lamp_of(step: Step) -> Lamp {
    match step {
        Step::StartedReadingTheIndexSettings => Lamp::StartedReadingTheIndexSettings,
        Step::FinishedReadingTheIndexSettings => Lamp::FinishedReadingTheIndexSettings,
        Step::StartedOpeningTheIndexForWriting => Lamp::StartedOpeningTheIndexForWriting,
        Step::FinishedOpeningTheIndexForWriting => Lamp::FinishedOpeningTheIndexForWriting,
        Step::StartedConvertingTheIndex => Lamp::StartedBuildingTheMemoryIndex,
        Step::FinishedConvertingTheIndex => Lamp::FinishedBuildingTheMemoryIndex,
        Step::StartedLookingForTheTotal => Lamp::StartedLookingForTheTotal,
        Step::FoundTheTotal => Lamp::FoundTheTotal,
        Step::LoadedIndexIntoMemory => Lamp::LoadedIndexIntoMemory,
        Step::ListedTheFolder => Lamp::ListedTheFolder,
        Step::CrossReferencedWithTheIndex => Lamp::CrossReferencedWithTheIndex,
        Step::CountedWhatChanged => Lamp::CountedWhatChanged,
        Step::StartedReadingNewFiles => Lamp::StartedReadingNewFiles,
        Step::FinishedReadingNewFiles => Lamp::FinishedReadingNewFiles,
        Step::StartedIndexingNewFiles => Lamp::StartedIndexingNewFiles,
        Step::FinishedIndexingNewFiles => Lamp::FinishedIndexingNewFiles,
    }
}

impl vstd::std_specs::convert::FromSpecImpl<Step> for Lamp {
    open spec fn obeys_from_spec() -> bool {
        true
    }

    open spec fn from_spec(step: Step) -> Lamp {
        lamp_of(step)
    }
}

impl From<Step> for Lamp {
    fn from(step: Step) -> (lamp: Lamp) {
        match step {
            Step::StartedReadingTheIndexSettings => Lamp::StartedReadingTheIndexSettings,
            Step::FinishedReadingTheIndexSettings => Lamp::FinishedReadingTheIndexSettings,
            Step::StartedOpeningTheIndexForWriting => Lamp::StartedOpeningTheIndexForWriting,
            Step::FinishedOpeningTheIndexForWriting => Lamp::FinishedOpeningTheIndexForWriting,
            Step::StartedConvertingTheIndex => Lamp::StartedBuildingTheMemoryIndex,
            Step::FinishedConvertingTheIndex => Lamp::FinishedBuildingTheMemoryIndex,
            Step::StartedLookingForTheTotal => Lamp::StartedLookingForTheTotal,
            Step::FoundTheTotal => Lamp::FoundTheTotal,
            Step::LoadedIndexIntoMemory => Lamp::LoadedIndexIntoMemory,
            Step::ListedTheFolder => Lamp::ListedTheFolder,
            Step::CrossReferencedWithTheIndex => Lamp::CrossReferencedWithTheIndex,
            Step::CountedWhatChanged => Lamp::CountedWhatChanged,
            Step::StartedReadingNewFiles => Lamp::StartedReadingNewFiles,
            Step::FinishedReadingNewFiles => Lamp::FinishedReadingNewFiles,
            Step::StartedIndexingNewFiles => Lamp::StartedIndexingNewFiles,
            Step::FinishedIndexingNewFiles => Lamp::FinishedIndexingNewFiles,
        }
    }
}

impl Lamp {
    /// The number a lamp is held under: its place in the list they are read in.
    pub open spec fn place(self) -> u8 {
        match self {
            Lamp::CheckedForIndexFile => 0,
            Lamp::StartedOpeningTheIndexForWriting => 1,
            Lamp::FinishedOpeningTheIndexForWriting => 2,
            Lamp::StartedReadingTheIndexSettings => 3,
            Lamp::FinishedReadingTheIndexSettings => 4,
            Lamp::StartedLookingForTheTotal => 5,
            Lamp::FoundTheTotal => 6,
            Lamp::ListedTheFolder => 7,
            Lamp::LoadedIndexIntoMemory => 8,
            Lamp::CrossReferencedWithTheIndex => 9,
            Lamp::CountedWhatChanged => 10,
            Lamp::StartedReadingNewFiles => 11,
            Lamp::FinishedReadingNewFiles => 12,
            Lamp::StartedIndexingNewFiles => 13,
            Lamp::FinishedIndexingNewFiles => 14,
            Lamp::StartedBuildingTheMemoryIndex => 15,
            Lamp::FinishedBuildingTheMemoryIndex => 16,
            Lamp::StartedFindingDuplicates => 17,
            Lamp::FinishedFindingDuplicates => 18,
        }
    }

    fn number(self) -> (number: u8)
        ensures
            number == self.place(),
    {
        match self {
            Lamp::CheckedForIndexFile => 0,
            Lamp::StartedOpeningTheIndexForWriting => 1,
            Lamp::FinishedOpeningTheIndexForWriting => 2,
            Lamp::StartedReadingTheIndexSettings => 3,
            Lamp::FinishedReadingTheIndexSettings => 4,
            Lamp::StartedLookingForTheTotal => 5,
            Lamp::FoundTheTotal => 6,
            Lamp::ListedTheFolder => 7,
            Lamp::LoadedIndexIntoMemory => 8,
            Lamp::CrossReferencedWithTheIndex => 9,
            Lamp::CountedWhatChanged => 10,
            Lamp::StartedReadingNewFiles => 11,
            Lamp::FinishedReadingNewFiles => 12,
            Lamp::StartedIndexingNewFiles => 13,
            Lamp::FinishedIndexingNewFiles => 14,
            Lamp::StartedBuildingTheMemoryIndex => 15,
            Lamp::FinishedBuildingTheMemoryIndex => 16,
            Lamp::StartedFindingDuplicates => 17,
            Lamp::FinishedFindingDuplicates => 18,
        }
    }

    /// What a lamp says.
    pub open spec fn words(self) -> Seq<char> {
        match self {
            Lamp::CheckedForIndexFile => "Checked for sqlite file in this folder"@,
            Lamp::StartedOpeningTheIndexForWriting => "Started opening the index for writing"@,
            Lamp::FinishedOpeningTheIndexForWriting => "Finished opening the index for writing"@,
            Lamp::StartedReadingTheIndexSettings => "Started reading the index's own settings"@,
            Lamp::FinishedReadingTheIndexSettings => "Finished reading the index's own settings"@,
            Lamp::StartedLookingForTheTotal => "Started looking for total number of files"@,
            Lamp::FoundTheTotal => "Found total number of files"@,
            Lamp::ListedTheFolder => "Retrieved full file list in the folder"@,
            Lamp::LoadedIndexIntoMemory =>
                "Loaded sqlite file into memory and constructed in-memory index"@,
            Lamp::CrossReferencedWithTheIndex =>
                "Cross referenced file list in folder with index from memory"@,
            Lamp::CountedWhatChanged =>
                "Finished finding number of new, unchanged, and removed files"@,
            Lamp::StartedReadingNewFiles =>
                "Starting individual file reads for any new file not in the index yet"@,
            Lamp::FinishedReadingNewFiles =>
                "Finished individual file reads for any new file not in the index yet"@,
            Lamp::StartedIndexingNewFiles =>
                "Starting indexing for new files not in the index yet"@,
            Lamp::FinishedIndexingNewFiles =>
                "Finished indexing for new files not in the index yet"@,
            Lamp::StartedBuildingTheMemoryIndex =>
                "Starting index conversion to in-memory datastructure"@,
            Lamp::FinishedBuildingTheMemoryIndex =>
                "Finished converting index to in-memory datastructure"@,
            Lamp::StartedFindingDuplicates =>
                "Started duplication computation given current settings"@,
            Lamp::FinishedFindingDuplicates => "Finished duplication computation"@,
        }
    }

    pub fn label(self) -> (text: &'static str)
        ensures
            text@ == self.words(),
    {
        match self {
            Lamp::CheckedForIndexFile => "Checked for sqlite file in this folder",
            Lamp::StartedOpeningTheIndexForWriting => "Started opening the index for writing",
            Lamp::FinishedOpeningTheIndexForWriting => "Finished opening the index for writing",
            Lamp::StartedReadingTheIndexSettings => "Started reading the index's own settings",
            Lamp::FinishedReadingTheIndexSettings => "Finished reading the index's own settings",
            Lamp::StartedLookingForTheTotal => "Started looking for total number of files",
            Lamp::FoundTheTotal => "Found total number of files",
            Lamp::ListedTheFolder => "Retrieved full file list in the folder",
            Lamp::LoadedIndexIntoMemory =>
                "Loaded sqlite file into memory and constructed in-memory index",
            Lamp::CrossReferencedWithTheIndex =>
                "Cross referenced file list in folder with index from memory",
            Lamp::CountedWhatChanged =>
                "Finished finding number of new, unchanged, and removed files",
            Lamp::StartedReadingNewFiles =>
                "Starting individual file reads for any new file not in the index yet",
            Lamp::FinishedReadingNewFiles =>
                "Finished individual file reads for any new file not in the index yet",
            Lamp::StartedIndexingNewFiles => "Starting indexing for new files not in the index yet",
            Lamp::FinishedIndexingNewFiles => "Finished indexing for new files not in the index yet",
            Lamp::StartedBuildingTheMemoryIndex =>
                "Starting index conversion to in-memory datastructure",
            Lamp::FinishedBuildingTheMemoryIndex =>
                "Finished converting index to in-memory datastructure",
            Lamp::StartedFindingDuplicates =>
                "Started duplication computation given current settings",
            Lamp::FinishedFindingDuplicates => "Finished duplication computation",
        }
    }
}

/// The lamps in the order a pass goes through them, which is also the order they
/// read in.
///
/// The index is opened for writing first and its settings are read off that same
/// connection, so the two about opening come before the two about the settings.
///
/// One thing sits out of its running order: on a folder where nothing has
/// changed, the conversion happens as soon as the counting says there is nothing
/// to index, so those two lamps turn before the four about reading and indexing,
/// which are skipped rather than run.
pub fn lamps() -> (order: Vec<Lamp>)
    ensures
        order@.len() == 19,
        forall|at: int| 0 <= at < 19 ==> (#[trigger] order@[at]).place() == at,
{
    let order: Vec<Lamp> = vec![
        Lamp::CheckedForIndexFile,
        Lamp::StartedOpeningTheIndexForWriting,
        Lamp::FinishedOpeningTheIndexForWriting,
        Lamp::StartedReadingTheIndexSettings,
        Lamp::FinishedReadingTheIndexSettings,
        Lamp::StartedLookingForTheTotal,
        Lamp::FoundTheTotal,
        Lamp::ListedTheFolder,
        Lamp::LoadedIndexIntoMemory,
        Lamp::CrossReferencedWithTheIndex,
        Lamp::CountedWhatChanged,
        Lamp::StartedReadingNewFiles,
        Lamp::FinishedReadingNewFiles,
        Lamp::StartedIndexingNewFiles,
        Lamp::FinishedIndexingNewFiles,
        Lamp::StartedBuildingTheMemoryIndex,
        Lamp::FinishedBuildingTheMemoryIndex,
        Lamp::StartedFindingDuplicates,
        Lamp::FinishedFindingDuplicates,
    ];
    order
}

/// Each lamp has a place of its own among the nineteen.
pub proof fn lamps_have_places_of_their_own(one: Lamp, other: Lamp)
    ensures
        one.place() < 19,
        one.place() == other.place() <==> one == other,
{
}

/// Each step has a lamp of its own.
pub proof fn steps_have_lamps_of_their_own(one: Step, other: Step)
    ensures
        lamp_of(one) == lamp_of(other) <==> one == other,
{
}

/// Which of the lamps are green, and how many milliseconds into the run each one
/// turned. The times are what say where the wait actually is.
pub struct Lit {
    times: HashMap<u8, u128>,
    /// What the times are measured from: the start of this run, in milliseconds.
    started: u128,
}

/// Which lamps are green and since when, as the contracts speak of it.
#[verifier::ext_equal]
pub struct LitView {
    pub times: Map<Lamp, u128>,
    pub started: u128,
}

impl View for Lit {
    type V = LitView;

    closed spec fn view(&self) -> LitView {
        LitView {
            times: Map::new(
                |lamp: Lamp| self.times@.contains_key(lamp.place()),
                |lamp: Lamp| self.times@[lamp.place()],
            ),
            started: self.started,
        }
    }
}

impl LitView {
    /// The lamps once one of them has been reached. The first time only: a step
    /// that is reported twice keeps the time it first reached.
    pub open spec fn lighting(self, lamp: Lamp, now: u128) -> LitView {
        if self.times.contains_key(lamp) {
            self
        } else {
            LitView {
                times: self.times.insert(
                    lamp,
                    crate::progress::less(now as int, self.started as int) as u128,
                ),
                ..self
            }
        }
    }

    /// The lamps all out, and the clock they are timed against as it was.
    pub open spec fn out(self) -> LitView {
        LitView { times: Map::empty(), ..self }
    }

    /// The lamps all out, and timed from now.
    pub open spec fn restarted(self, now: u128) -> LitView {
        LitView { times: Map::empty(), started: now }
    }
}

impl Lit {
    /// No lamp green, and a run that starts now.
    pub fn new(now: u128) -> (lit: Lit)
        ensures
            lit@ == (LitView { times: Map::empty(), started: now }),
    {
        let lit = Lit { times: HashMap::new(), started: now };
        assert(lit@.times =~= Map::<Lamp, u128>::empty());
        lit
    }

    /// When a lamp turned green, if it has.
    pub fn at(&self, lamp: Lamp) -> (at: Option<u128>)
        ensures
            at == if self@.times.contains_key(lamp) {
                Some(self@.times[lamp])
            } else {
                None
            },
    {
        match self.times.get(&lamp.number()) {
            Some(at) => Some(*at),
            None => None,
        }
    }

    /// Turn a lamp green, noting how far into the run it happened.
    pub fn light(&mut self, lamp: Lamp, now: u128)
        ensures
            final(self)@ == old(self)@.lighting(lamp, now),
    {
        if !self.times.contains_key(&lamp.number()) {
            let at: u128 = if self.started < now {
                now - self.started
            } else {
                0
            };
            self.times.insert(lamp.number(), at);
            proof {
                assert forall|other: Lamp|
                    self@.times.contains_key(other) == old(self)@.lighting(
                        lamp,
                        now,
                    ).times.contains_key(other) by {
                    lamps_have_places_of_their_own(lamp, other);
                }
                assert forall|other: Lamp| #[trigger]
                    self@.times.contains_key(other) implies self@.times[other] == old(
                    self,
                )@.lighting(lamp, now).times[other] by {
                    lamps_have_places_of_their_own(lamp, other);
                }
                assert(self@.times =~= old(self)@.lighting(lamp, now).times);
            }
        }
    }

    /// Put every lamp out.
    pub fn clear(&mut self)
        ensures
            final(self)@ == old(self)@.out(),
    {
        self.times.clear();
        assert(self@.times =~= Map::<Lamp, u128>::empty());
    }

    /// Put every lamp out and start the clock they are timed against again.
    pub fn restart(&mut self, now: u128)
        ensures
            final(self)@ == old(self)@.restarted(now),
    {
        self.clear();
        self.started = now;
    }
}

/// A lamp keeps the time it first turned at.
pub proof fn a_lamp_keeps_its_first_time(lit: LitView, lamp: Lamp, now: u128, later: u128)
    ensures
        lit.lighting(lamp, now).lighting(lamp, later) == lit.lighting(lamp, now),
        lit.times.contains_key(lamp) ==> lit.lighting(lamp, now).times[lamp] == lit.times[lamp],
{
}

/// Whether a step is one of the four about the files themselves.
pub open spec fn of_the_files(lamp: Lamp) -> bool {
    lamp is StartedReadingNewFiles || lamp is FinishedReadingNewFiles
        || lamp is StartedIndexingNewFiles || lamp is FinishedIndexingNewFiles
}

/// How a step went: it happened, it was passed over, or it is still to come.
pub open spec fn went(lit: LitView, writing: Stage, lamp: Lamp) -> Went {
    if lit.times.contains_key(lamp) {
        Went::Happened
    } else if of_the_files(lamp) && writing is Over {
        Went::Skipped
    } else {
        Went::Waiting
    }
}

/// Whether a step happened, is still to happen, or was passed over.
///
/// A pass over a folder where nothing has changed reads no files and indexes
/// none, so the four steps for that never happen. They were not missed: there
/// was nothing in them to do, and once the pass is past indexing that is
/// what an unlit one of them means.
pub fn how_it_went(lit: &Lit, writing: Stage, lamp: Lamp) -> (state: Went)
    ensures
        state == went(lit@, writing, lamp),
{
    if lit.at(lamp).is_some() {
        return Went::Happened;
    }
    let of_the_files = match lamp {
        Lamp::StartedReadingNewFiles => true,
        Lamp::FinishedReadingNewFiles => true,
        Lamp::StartedIndexingNewFiles => true,
        Lamp::FinishedIndexingNewFiles => true,
        _ => false,
    };
    if of_the_files && writing == Stage::Over {
        return Went::Skipped;
    }
    Went::Waiting
}

} // verus!
