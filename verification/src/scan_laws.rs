//! What holds of the lamps, of what a pass passes on, of the bars, and of what a file
//! says about itself.

use vstd::prelude::*;

use crate::icon::Colour;
use crate::indexer::{
    asked_after, pass_on, update_of, Ask, EventView, HeardView, UpdateView, Work,
};
use crate::lamps::{lamp_of, went, Lamp, LitView, Step};
use crate::mesa::quietening;
use crate::metadata::{
    entry_lines, heading_line, lines_of, GroupView, MetadataView, Wanted,
};
use crate::notes::NotesView;
use crate::progress::{fill_of, less, share, Fill, ScanView, SearchState, Stage};
use crate::sets::pair_of;
use crate::state::{Destination, Went};
use crate::strictness::{Limit, Strictness};
use crate::theme::{kept_colour, permanent_colour};

verus! {

/// A step turns the lamp that says the same as it, and the two about converting the
/// index those about building it in memory.
pub proof fn a_step_turns_the_lamp_that_says_the_same(step: Step)
    ensures
        ({
            let lamp = lamp_of(step);
            &&& step is StartedReadingTheIndexSettings <==> lamp is StartedReadingTheIndexSettings
            &&& step is FinishedReadingTheIndexSettings <==> lamp is FinishedReadingTheIndexSettings
            &&& step is StartedOpeningTheIndexForWriting <==> lamp is
                StartedOpeningTheIndexForWriting
            &&& step is FinishedOpeningTheIndexForWriting <==> lamp is
                FinishedOpeningTheIndexForWriting
            &&& step is StartedConvertingTheIndex <==> lamp is StartedBuildingTheMemoryIndex
            &&& step is FinishedConvertingTheIndex <==> lamp is FinishedBuildingTheMemoryIndex
            &&& step is StartedLookingForTheTotal <==> lamp is StartedLookingForTheTotal
            &&& step is FoundTheTotal <==> lamp is FoundTheTotal
            &&& step is LoadedIndexIntoMemory <==> lamp is LoadedIndexIntoMemory
            &&& step is ListedTheFolder <==> lamp is ListedTheFolder
            &&& step is CrossReferencedWithTheIndex <==> lamp is CrossReferencedWithTheIndex
            &&& step is CountedWhatChanged <==> lamp is CountedWhatChanged
            &&& step is StartedReadingNewFiles <==> lamp is StartedReadingNewFiles
            &&& step is FinishedReadingNewFiles <==> lamp is FinishedReadingNewFiles
            &&& step is StartedIndexingNewFiles <==> lamp is StartedIndexingNewFiles
            &&& step is FinishedIndexingNewFiles <==> lamp is FinishedIndexingNewFiles
            &&& !(lamp is CheckedForIndexFile) && !(lamp is StartedFindingDuplicates) && !(lamp is
                FinishedFindingDuplicates)
        }),
{
}

/// What starts stands before what it starts finishes, and the lamps stand in the order
/// a pass goes through them.
pub proof fn what_starts_stands_before_what_finishes()
    ensures
        Lamp::CheckedForIndexFile.place() < Lamp::StartedOpeningTheIndexForWriting.place(),
        Lamp::StartedOpeningTheIndexForWriting.place()
            < Lamp::FinishedOpeningTheIndexForWriting.place(),
        Lamp::FinishedOpeningTheIndexForWriting.place()
            < Lamp::StartedReadingTheIndexSettings.place(),
        Lamp::StartedReadingTheIndexSettings.place()
            < Lamp::FinishedReadingTheIndexSettings.place(),
        Lamp::FinishedReadingTheIndexSettings.place() < Lamp::StartedLookingForTheTotal.place(),
        Lamp::StartedLookingForTheTotal.place() < Lamp::FoundTheTotal.place(),
        Lamp::FoundTheTotal.place() < Lamp::ListedTheFolder.place(),
        Lamp::ListedTheFolder.place() < Lamp::LoadedIndexIntoMemory.place(),
        Lamp::LoadedIndexIntoMemory.place() < Lamp::CrossReferencedWithTheIndex.place(),
        Lamp::CrossReferencedWithTheIndex.place() < Lamp::CountedWhatChanged.place(),
        Lamp::CountedWhatChanged.place() < Lamp::StartedReadingNewFiles.place(),
        Lamp::StartedReadingNewFiles.place() < Lamp::FinishedReadingNewFiles.place(),
        Lamp::FinishedReadingNewFiles.place() < Lamp::StartedIndexingNewFiles.place(),
        Lamp::StartedIndexingNewFiles.place() < Lamp::FinishedIndexingNewFiles.place(),
        Lamp::FinishedIndexingNewFiles.place() < Lamp::StartedBuildingTheMemoryIndex.place(),
        Lamp::StartedBuildingTheMemoryIndex.place() < Lamp::FinishedBuildingTheMemoryIndex.place(),
        Lamp::FinishedBuildingTheMemoryIndex.place() < Lamp::StartedFindingDuplicates.place(),
        Lamp::StartedFindingDuplicates.place() < Lamp::FinishedFindingDuplicates.place(),
{
}

/// A lamp that is reached for the first time holds how long after the start of the run
/// that was, and never less than nothing; the others and the start stay as they are.
pub proof fn a_lamp_holds_how_far_into_the_run_it_turned(
    lit: LitView,
    lamp: Lamp,
    other: Lamp,
    now: u128,
)
    ensures
        ({
            let after = lit.lighting(lamp, now);
            &&& after.times.contains_key(lamp)
            &&& !lit.times.contains_key(lamp) && lit.started <= now ==> after.times[lamp] == now
                - lit.started
            &&& !lit.times.contains_key(lamp) && now < lit.started ==> after.times[lamp] == 0
            &&& other != lamp ==> (after.times.contains_key(other) <==> lit.times.contains_key(
                other,
            ))
            &&& other != lamp && lit.times.contains_key(other) ==> after.times[other]
                == lit.times[other]
            &&& after.started == lit.started
            &&& !lit.out().times.contains_key(lamp) && lit.out().started == lit.started
            &&& !lit.restarted(now).times.contains_key(lamp) && lit.restarted(now).started == now
        }),
{
}

/// A step whose lamp is green happened. One of the four about the files whose lamp is
/// not was passed over once the writing is over. Any other is still to come.
pub proof fn an_unlit_step_is_skipped_only_about_the_files(
    lit: LitView,
    writing: Stage,
    lamp: Lamp,
)
    ensures
        went(lit, writing, lamp) == Went::Happened <==> lit.times.contains_key(lamp),
        went(lit, writing, lamp) == Went::Skipped <==> !lit.times.contains_key(lamp) && writing is
            Over && (lamp is StartedReadingNewFiles || lamp is FinishedReadingNewFiles || lamp is
            StartedIndexingNewFiles || lamp is FinishedIndexingNewFiles),
{
}

/// What the reading of a folder says is passed on as it was said, number for number and
/// word for word.
pub proof fn what_a_folder_says_is_passed_on(event: EventView)
    ensures
        event matches EventView::Reached(step) ==> update_of(event) == UpdateView::Reached(step),
        event matches EventView::Walking { found, of } ==> (update_of(event) matches
            UpdateView::Walking { found: told, of: out_of } && told == found && out_of == of),
        event matches EventView::Start { total } ==> (update_of(event) matches UpdateView::Start {
            total: told,
        } && told == total),
        event matches EventView::Progress { done, per_sec, unchanged, removed, ignored } ==> (
        update_of(event) matches UpdateView::Progress {
            done: d,
            per_sec: p,
            unchanged: u,
            removed: r,
            ignored: i,
        } && d == done && p == per_sec && u == unchanged && r == removed && i == ignored),
        event matches EventView::Writing { done, total, read, unchanged, ignored } ==> (update_of(
            event,
        ) matches UpdateView::Indexed { done: d, total: t, read: r, unchanged: u, ignored: i } && d
            == done && t == total && r == read && u == unchanged && i == ignored),
        event matches EventView::Error { path, message } ==> (update_of(event) matches
            UpdateView::Failed { path: p, message: m } && p == path && m == message),
        event matches EventView::Done { indexed, removed, failed, elapsed } ==> (update_of(
            event,
        ) matches UpdateView::Done { indexed: i, removed: r, failed: f, elapsed: e } && i == indexed
            && r == removed && f == failed && e == elapsed),
{
}

/// A pass opens the index, then reads what it says, then reads the folder, and then is
/// over; and it is over as soon as something has failed. What it says on the way is
/// the settings as they were read, the pictures where there are any before its end,
/// and its end as it came: cancelled or not, with the problem or without one.
pub proof fn a_pass_does_one_thing_after_another(
    notes: NotesView,
    cancelled: bool,
    images: bool,
    message: Seq<char>,
)
    ensures
        pass_on(HeardView::Begun).1 == Work::OpenTheIndex,
        pass_on(HeardView::Opened).1 == Work::ReadTheNotes,
        pass_on(HeardView::NotesRead(notes)).1 == Work::ReadTheFolder,
        pass_on(HeardView::Ran { cancelled, images }).1 == Work::Nothing,
        pass_on(HeardView::Failed(message)).1 == Work::Nothing,
        pass_on(HeardView::Begun).0 == seq![
            UpdateView::Reached(Step::StartedOpeningTheIndexForWriting),
        ],
        pass_on(HeardView::Opened).0 == seq![
            UpdateView::Reached(Step::FinishedOpeningTheIndexForWriting),
            UpdateView::Reached(Step::StartedReadingTheIndexSettings),
        ],
        pass_on(HeardView::NotesRead(notes)).0.contains(UpdateView::Settings(notes)),
        pass_on(HeardView::NotesRead(notes)).0.last() == UpdateView::Reached(
            Step::FinishedReadingTheIndexSettings,
        ),
        pass_on(HeardView::Ran { cancelled, images }).0.last() == (UpdateView::Finished {
            cancelled,
            error: None,
        }),
        pass_on(HeardView::Ran { cancelled, images }).0.len() == if images {
            2nat
        } else {
            1
        },
        images ==> pass_on(HeardView::Ran { cancelled, images }).0[0] == UpdateView::Images,
        pass_on(HeardView::Failed(message)).0 == seq![
            UpdateView::Finished { cancelled: false, error: Some(message) },
        ],
{
    assert(pass_on(HeardView::NotesRead(notes)).0[0] == UpdateView::Settings(notes));
}

/// A share is the part's part of the length, rounded down: that much of the whole is
/// covered and one more would be too much. All of it is the whole length.
pub proof fn a_share_is_the_part_of_the_length(part: int, whole: int, out_of: int)
    requires
        0 <= part,
        0 < whole,
        0 <= out_of,
    ensures
        part >= whole ==> share(part, whole, out_of) == out_of,
        part < whole ==> share(part, whole, out_of) * whole <= part * out_of && part * out_of < (
        share(part, whole, out_of) + 1) * whole,
        share(part, 0, out_of) == 0,
{
    if part < whole {
        let scaled = part * out_of;
        assert((scaled / whole) * whole <= scaled && scaled < (scaled / whole + 1) * whole)
            by (nonlinear_arith)
            requires
                0 < whole,
        ;
    }
}

/// What is left of a number once another is taken from it: never less than none.
pub proof fn what_is_left_is_never_less_than_none(of: int, taken: int)
    requires
        0 <= of,
        0 <= taken,
    ensures
        taken <= of ==> less(of, taken) + taken == of,
        taken > of ==> less(of, taken) == 0,
{
}

/// The bar of a search has as many parts as the search has stages: the reading of the
/// index is the first where there is any, the shortlist the next and the comparing the
/// last. What is being read lies in the first part, what is shortlisted behind it, and
/// what is compared behind that, full once everything is.
pub proof fn each_stage_of_a_search_has_its_part_of_the_bar(search: SearchState)
    ensures
        ({
            let first: int = if search.reads_the_index {
                1000
            } else {
                0
            };
            let at = search.reached();
            &&& search.pairs > 0 || search.compared > 0 ==> first + 1000 <= at <= first + 2000
            &&& search.pairs > 0 && search.compared >= search.pairs ==> at == first + 2000
            &&& search.pairs > 0 && search.compared == 0 ==> at == first + 1000
            &&& search.pairs == 0 && search.compared == 0 && search.to_shortlist > 0 ==> first <= at
                <= first + 1000
            &&& search.pairs == 0 && search.compared == 0 && search.to_shortlist > 0
                && search.shortlisted == 0 ==> at == first
            &&& search.pairs == 0 && search.compared == 0 && search.to_shortlist == 0 ==> 0 <= at
                <= first
            &&& search.pairs == 0 && search.compared == 0 && search.to_shortlist == 0
                && search.reads_the_index && search.to_load > 0 && search.loaded >= search.to_load
                ==> at == 1000
        }),
{
    lemma_share(search.compared as int, search.pairs as int);
    lemma_share(search.shortlisted as int, search.to_shortlist as int);
    lemma_share(search.loaded as int, search.to_load as int);
}

proof fn lemma_share(part: int, whole: int)
    requires
        0 <= part,
        0 <= whole,
    ensures
        0 <= share(part, whole, 1000) <= 1000,
        part == 0 ==> share(part, whole, 1000) == 0 || whole == 0,
{
    if 0 < whole && part < whole {
        assert(0 <= part * 1000 / whole <= 1000) by (nonlinear_arith)
            requires
                0 <= part < whole,
        ;
        if part == 0 {
            assert(0int * 1000 / whole == 0) by (nonlinear_arith)
                requires
                    0 < whole,
            ;
        }
    }
}

/// A file is read once: what is held is shown, what is being read is waited for, and
/// what has arrived is held under the number it came with. Wanting any other puts away
/// what was there and reads it.
pub proof fn a_file_is_read_when_it_is_wanted(
    known: MetadataView,
    file_id: i64,
    about: i64,
    groups: Seq<GroupView>,
)
    ensures
        known.about == Some(file_id) ==> known.asked(file_id, None) == (Wanted::Held, known)
            && known.asked(file_id, Some((about, groups))) == (Wanted::Held, known),
        known.about != Some(file_id) && known.reading == Some(file_id) ==> {
            &&& known.asked(file_id, None) == (Wanted::Wait, known)
            &&& known.asked(file_id, Some((about, groups))).0 == Wanted::Held
            &&& known.asked(file_id, Some((about, groups))).1.about == Some(about)
            &&& known.asked(file_id, Some((about, groups))).1.groups == groups
            &&& known.asked(file_id, Some((about, groups))).1.reading is None
        },
        known.about != Some(file_id) && known.reading != Some(file_id) ==> {
            let (wanted, after) = known.asked(file_id, None);
            &&& wanted == Wanted::Read
            &&& after.reading == Some(file_id)
            &&& after.about is None
            &&& after.groups.len() == 0
        },
{
}

/// What a file says is shown section by section: the heading first and behind it a line
/// for each thing it says, in order, and the sections one behind the other.
pub proof fn sections_are_shown_one_behind_the_other(
    groups: Seq<GroupView>,
    group: GroupView,
    at: int,
)
    ensures
        lines_of(Seq::empty()).len() == 0,
        ({
            let before = lines_of(groups);
            let all = lines_of(groups.push(group));
            &&& all.len() == before.len() + 1 + group.entries.len()
            &&& forall|line: int| 0 <= line < before.len() ==> #[trigger] all[line] == before[line]
            &&& all[before.len() as int].heading == Some(group.name)
            &&& 0 <= at < group.entries.len() ==> {
                let shown = all[before.len() + 1 + at];
                &&& shown.heading is None
                &&& shown.name == group.entries[at].0
                &&& shown.value == group.entries[at].1
            }
        }),
{
    assert(groups.push(group).drop_last() =~= groups);
    assert(groups.push(group).last() == group);
    let before = lines_of(groups);
    let all = lines_of(groups.push(group));
    let top = seq![heading_line(group)];
    let rest = entry_lines(group);
    assert(all == before + top + rest);
    assert(all[before.len() as int] == top[0]);
    if 0 <= at < group.entries.len() {
        assert(all[before.len() + 1 + at] == rest[at]);
    }
}

/// A pair holds its two pictures and no other, the lower number first.
pub proof fn a_pair_is_its_two_pictures(one: i64, other: i64)
    ensures
        ({
            let pair = pair_of(one, other);
            &&& pair.0 <= pair.1
            &&& pair == (one, other) || pair == (other, one)
        }),
{
}

/// The three destinations say in their own words what they are, what is to be said about
/// them and what carrying them out is: moving is not removing.
pub proof fn a_destination_says_what_it_is(choice: Destination)
    ensures
        choice == Destination::Trash ==> choice.label_text() == "Recycle bin"@
            && choice.note_text() == "Recoverable from the recycle bin."@ && choice.verb_text()
            == "Remove"@ && choice.name_text() == "trash"@,
        choice == Destination::MoveTo ==> choice.label_text() == "Move to a folder"@
            && choice.note_text()
            == "Keeps the folder structure, so the files can be put back."@ && choice.verb_text()
            == "Move"@ && choice.name_text() == "move"@,
        choice == Destination::Delete ==> choice.label_text() == "Delete permanently"@
            && choice.note_text() == "This cannot be undone."@ && choice.verb_text() == "Remove"@
            && choice.name_text() == "delete"@,
{
}

/// An index is opened first, and then asked for the sets stored in it, for what it is set
/// to, for what is ignored, for what is kept and for the pictures, one after the other;
/// the first question that is not answered is the last.
pub proof fn an_index_is_asked_one_thing_after_another(ask: Ask)
    ensures
        asked_after(ask, false) == Ask::Nothing,
        asked_after(Ask::Open, true) == Ask::StoredSets,
        asked_after(Ask::StoredSets, true) == Ask::Notes,
        asked_after(Ask::Notes, true) == Ask::Ignored,
        asked_after(Ask::Ignored, true) == Ask::Kept,
        asked_after(Ask::Kept, true) == Ask::Images,
        asked_after(Ask::Images, true) == Ask::Nothing,
        asked_after(Ask::Nothing, true) == Ask::Nothing,
{
}

/// A bar is empty before its stage begins and full once it is over, whatever its numbers;
/// in between it is so many of so many, and empty where that is out of nothing.
pub proof fn a_bar_is_a_fraction_only_while_its_stage_runs(
    stage: Stage,
    count: u64,
    out_of: u64,
)
    ensures
        fill_of(stage, count, out_of) == Fill::Full <==> stage is Over,
        stage is Waiting ==> fill_of(stage, count, out_of) == Fill::Empty,
        stage is Running && out_of == 0 ==> fill_of(stage, count, out_of) == Fill::Empty,
        stage is Running && out_of > 0 ==> (fill_of(stage, count, out_of) matches Fill::Part {
            count: so_many,
            out_of: all,
        } && so_many == count && all == out_of),
{
}

/// A search's bar is over once the search is done, running while it is at something, and
/// waiting where there is no search.
pub proof fn the_bar_of_a_search_stands_with_it(search: SearchState)
    ensures
        search.stage_of_the_bar() is Over <==> search.done,
        search.stage_of_the_bar() is Running <==> !search.done && search.stage is Some,
        search.stage_of_the_bar() is Waiting <==> !search.done && search.stage is None,
{
}

/// Every file that was read was left alone, was no picture, would not open, or was read;
/// and the folder holds as many files as the listing came to, or as it has found so far.
pub proof fn files_are_counted_once(scan: ScanView)
    ensures
        scan.unchanged + scan.ignored + scan.failures.len() <= scan.done ==> scan.pictures_found()
            + scan.unchanged + scan.ignored + scan.failures.len() == scan.done,
        scan.unchanged + scan.ignored + scan.failures.len() > scan.done ==> scan.pictures_found()
            == 0,
        scan.total > 0 ==> scan.files_in_folder() == scan.total,
        scan.total == 0 ==> (scan.listing matches Some(found) ==> scan.files_in_folder() == found),
        scan.total == 0 && scan.listing is None ==> scan.files_in_folder() == 0,
{
}

/// A percentage that was given is what a search is limited by, and the preset where none
/// was; colour is left out as it was said, and no way of matching is named.
pub proof fn a_percentage_outranks_a_preset(
    preset: Strictness,
    percent: u64,
    ignore_colour: bool,
)
    ensures
        preset.asked_for(Some(percent), ignore_colour).limit == Limit::At(percent),
        preset.asked_for(None, ignore_colour).limit == Limit::Preset(preset),
        preset.asked_for(Some(percent), ignore_colour).ignore_colour == ignore_colour,
        preset.asked_for(None, ignore_colour).ignore_colour == ignore_colour,
        preset.asked_for(Some(percent), ignore_colour).ways is None,
        preset.asked_for(None, ignore_colour).ways is None,
{
}

/// What is permanent is red and what is kept is green, on either theme.
pub proof fn permanent_is_red_and_kept_is_green(dark_mode: bool)
    ensures
        permanent_colour(dark_mode).red > permanent_colour(dark_mode).green,
        permanent_colour(dark_mode).green == permanent_colour(dark_mode).blue,
        kept_colour(dark_mode).green > kept_colour(dark_mode).red,
        kept_colour(dark_mode).green > kept_colour(dark_mode).blue,
        permanent_colour(true) == (Colour { red: 150, green: 50, blue: 50 }),
        permanent_colour(false) == (Colour { red: 240, green: 170, blue: 170 }),
        kept_colour(true) == (Colour { red: 90, green: 180, blue: 110 }),
        kept_colour(false) == (Colour { red: 40, green: 130, blue: 60 }),
{
}

/// What was chosen already is not set over: the log is quietened where nothing was said
/// about it, and drawing in software asked for where nothing was said about that and there
/// is no node to draw with.
pub proof fn what_was_chosen_is_not_set_over(
    logging_chosen: bool,
    software_chosen: bool,
    render_node: bool,
)
    ensures
        ({
            let set = quietening(logging_chosen, software_chosen, render_node);
            &&& set.contains(("EGL_LOG_LEVEL"@, "fatal"@)) <==> !logging_chosen
            &&& set.contains(("LIBGL_ALWAYS_SOFTWARE"@, "1"@)) <==> !software_chosen && !render_node
            &&& set.len() <= 2
        }),
{
    let set = quietening(logging_chosen, software_chosen, render_node);
    reveal_strlit("EGL_LOG_LEVEL");
    reveal_strlit("LIBGL_ALWAYS_SOFTWARE");
    assert("EGL_LOG_LEVEL"@[0] == 'E' && "LIBGL_ALWAYS_SOFTWARE"@[0] == 'L');
    if !logging_chosen {
        assert(set[0] == ("EGL_LOG_LEVEL"@, "fatal"@));
    }
    if !software_chosen && !render_node {
        assert(set[set.len() - 1] == ("LIBGL_ALWAYS_SOFTWARE"@, "1"@));
    }
}

} // verus!
