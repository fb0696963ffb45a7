//! How far a pass and a search have got.

use vstd::prelude::*;

verus! {

/// Where one stage of a pass has got to.
///
/// A count out of a total is worth drawing while the stage producing them is the
/// one running, and at no other time. Before it starts there is nothing to
/// measure and the bar is empty; once it is over everything it was going to do
/// is done and the bar is full.
#[derive(Debug, Clone, Copy, PartialEq, Eq, Structural)]
pub enum Stage {
    Waiting,
    Running,
    Over,
}

impl Stage {
    /// What a stage is once something it reports has arrived.
    pub open spec fn under_way(self) -> Stage {
        if self is Over {
            Stage::Over
        } else {
            Stage::Running
        }
    }

    /// Under way, unless it is already over: a report that arrives after the
    /// stage that sent it finished does not start it again.
    pub fn begun(self) -> (stage: Stage)
        ensures
            stage == self.under_way(),
    {
        match self {
            Stage::Over => Stage::Over,
            _ => Stage::Running,
        }
    }
}

/// What the scan screen is showing.
pub struct ScanState {
    pub total: u64,
    pub done: u64,
    /// Whether the reading has begun, is going, or is over, and the same for the
    /// writing. A bar is a fraction only while the work it measures is running:
    /// before that it is empty and after it is full, whatever numbers are lying
    /// about from the listing or from the index.
    pub reading: Stage,
    pub writing: Stage,
    /// Pictures turned into a record, and how many of the folder are expected to
    /// become one.
    pub indexed: u64,
    pub to_index: u64,
    pub per_sec: u64,
    pub unchanged: u64,
    pub removed: u64,
    /// Read, and not a picture this build indexes. Not a failure and not work
    /// that produced anything, so it is not counted as either.
    pub ignored: u64,
    pub failures: Vec<(String, String)>,
    pub finished: Option<String>,
    /// Files the listing has found, while it is still listing. There is no total
    /// to measure it against until the listing is over, so this is a count, and
    /// it is the only thing there is to show for that part of a pass.
    pub listing: Option<u64>,
}

/// What the scan screen is showing, as the contracts speak of it.
#[verifier::ext_equal]
pub struct ScanView {
    pub total: u64,
    pub done: u64,
    pub reading: Stage,
    pub writing: Stage,
    pub indexed: u64,
    pub to_index: u64,
    pub per_sec: u64,
    pub unchanged: u64,
    pub removed: u64,
    pub ignored: u64,
    pub failures: Seq<(Seq<char>, Seq<char>)>,
    pub finished: Option<Seq<char>>,
    pub listing: Option<u64>,
}

impl View for ScanState {
    type V = ScanView;

    open spec fn view(&self) -> ScanView {
        ScanView {
            total: self.total,
            done: self.done,
            reading: self.reading,
            writing: self.writing,
            indexed: self.indexed,
            to_index: self.to_index,
            per_sec: self.per_sec,
            unchanged: self.unchanged,
            removed: self.removed,
            ignored: self.ignored,
            failures: self.failures.deep_view(),
            finished: self.finished.deep_view(),
            listing: self.listing,
        }
    }
}

/// A scan screen with nothing to show.
pub open spec fn no_scan() -> ScanView {
    ScanView {
        total: 0,
        done: 0,
        reading: Stage::Waiting,
        writing: Stage::Waiting,
        indexed: 0,
        to_index: 0,
        per_sec: 0,
        unchanged: 0,
        removed: 0,
        ignored: 0,
        failures: Seq::empty(),
        finished: None,
        listing: None,
    }
}

/// What is left of a number once another is taken from it, never less than none.
pub open spec fn less(of: int, taken: int) -> int {
    if taken < of {
        of - taken
    } else {
        0
    }
}

impl ScanView {
    /// Pictures this pass read.
    pub open spec fn pictures_found(self) -> int {
        less(self.done as int, self.unchanged + self.ignored + self.failures.len())
    }

    /// How many files the folder holds, as far as that is known.
    pub open spec fn files_in_folder(self) -> u64 {
        if self.total > 0 {
            self.total
        } else {
            match self.listing {
                Some(found) => found,
                None => 0,
            }
        }
    }
}

impl ScanState {
    /// Nothing to show.
    pub fn empty() -> (scan: ScanState)
        ensures
            scan@ == no_scan(),
    {
        let scan = ScanState {
            total: 0,
            done: 0,
            reading: Stage::Waiting,
            writing: Stage::Waiting,
            indexed: 0,
            to_index: 0,
            per_sec: 0,
            unchanged: 0,
            removed: 0,
            ignored: 0,
            failures: Vec::new(),
            finished: None,
            listing: None,
        };
        assert(scan@ =~= no_scan());
        scan
    }

    /// Pictures this pass read. What was left alone was not read, and files that
    /// are not pictures or would not open are counted on their own.
    pub fn found(&self) -> (count: u64)
        ensures
            count == self@.pictures_found(),
    {
        self.done.saturating_sub(self.unchanged).saturating_sub(self.ignored).saturating_sub(
            self.failures.len() as u64,
        )
    }

    /// How many files the folder holds. The listing is what produces that number,
    /// so before it is over the count it has reached so far is what there is.
    pub fn in_folder(&self) -> (count: u64)
        ensures
            count == self@.files_in_folder(),
    {
        if self.total > 0 {
            self.total
        } else {
            match self.listing {
                Some(found) => found,
                None => 0,
            }
        }
    }
}

/// What a search is at.
#[derive(Debug, Clone, Copy, PartialEq, Eq, Structural)]
pub enum Doing {
    Starting,
    ReadingTheIndex,
    Shortlisting,
    Comparing,
    Grouping,
    Finished,
}

/// What the search is doing, kept entirely apart from what the pass did.
///
/// The two have nothing to say about each other. When the pass has read and
/// indexed a folder its numbers are the answer and they stay on screen until a
/// new scan; the search reports its own work underneath them.
#[derive(Debug, Clone, Copy, PartialEq, Eq, Structural)]
pub struct SearchState {
    /// The stage, or nothing when no search is running.
    pub stage: Option<Doing>,
    /// Pictures read out of the index, of how many it holds. Zero for the total
    /// means it has not counted them yet.
    pub loaded: u64,
    pub to_load: u64,
    /// Whether this search is reading the index at all. A search that follows a
    /// pass is not: the pass built what it searches while it was scanning, and
    /// there is nothing left to read.
    pub reads_the_index: bool,
    /// Pictures the shortlist has looked up, of how many there are.
    pub shortlisted: u64,
    pub to_shortlist: u64,
    /// Pairs compared, of how many the shortlist produced.
    pub compared: u64,
    pub pairs: u64,
    /// Set when the search is over, so the bar stays full afterwards rather than
    /// emptying because nothing is reporting any more.
    pub done: bool,
}

/// What a search reports as it goes.
#[derive(Debug, Clone, Copy, PartialEq, Eq, Structural)]
pub enum Progress {
    Loading { done: u64, total: u64 },
    Loaded { images: u64 },
    Shortlisting { done: u64, total: u64 },
    Comparing { done: u64, total: u64 },
    Grouping,
}

/// How much of the bar one part of a search is.
pub const PART: u64 = 1000;

/// Some of a whole, scaled onto a length and rounded down. More than the whole is
/// the whole, and nothing of nothing is nothing.
pub open spec fn share(part: int, whole: int, out_of: int) -> int {
    if whole == 0 {
        0
    } else if part < whole {
        part * out_of / whole
    } else {
        out_of
    }
}

/// `part` of `whole`, scaled onto `out_of`. Nothing of nothing is nothing.
pub fn fraction(part: u64, whole: u64, out_of: u64) -> (scaled: u64)
    ensures
        scaled == share(part as int, whole as int, out_of as int),
        scaled <= out_of,
{
    if whole == 0 {
        return 0;
    }
    if part >= whole {
        return out_of;
    }
    proof {
        assert(0 <= part * out_of <= 0xffff_ffff_ffff_ffff * 0xffff_ffff_ffff_ffff)
            by (nonlinear_arith)
            requires
                part <= 0xffff_ffff_ffff_ffff,
                out_of <= 0xffff_ffff_ffff_ffff,
        ;
        assert(0 <= part * out_of / (whole as int) <= out_of) by (nonlinear_arith)
            requires
                0 <= part < whole,
                0 <= out_of,
        ;
    }
    (part as u128 * out_of as u128 / whole as u128) as u64
}

/// A share of a whole grows with the part, and is never more than the length it is
/// scaled onto.
pub proof fn a_share_grows_with_the_part(part: int, more: int, whole: int, out_of: int)
    requires
        0 <= part <= more,
        0 <= whole,
        0 <= out_of,
    ensures
        0 <= share(part, whole, out_of) <= share(more, whole, out_of) <= out_of,
{
    if whole > 0 && part < whole {
        assert(0 <= part * out_of / whole <= out_of) by (nonlinear_arith)
            requires
                0 <= part < whole,
                0 <= out_of,
        ;
        if more < whole {
            assert(part * out_of / whole <= more * out_of / whole) by (nonlinear_arith)
                requires
                    0 <= part <= more,
                    0 < whole,
                    0 <= out_of,
            ;
            assert(more * out_of / whole <= out_of) by (nonlinear_arith)
                requires
                    0 <= more < whole,
                    0 <= out_of,
            ;
        }
    }
}

/// A search that is not running and has not run.
pub open spec fn no_search() -> SearchState {
    SearchState {
        stage: None,
        loaded: 0,
        to_load: 0,
        reads_the_index: false,
        shortlisted: 0,
        to_shortlist: 0,
        compared: 0,
        pairs: 0,
        done: false,
    }
}

impl SearchState {
    /// Not running, and not run.
    pub fn empty() -> (search: SearchState)
        ensures
            search == no_search(),
    {
        SearchState {
            stage: None,
            loaded: 0,
            to_load: 0,
            reads_the_index: false,
            shortlisted: 0,
            to_shortlist: 0,
            compared: 0,
            pairs: 0,
            done: false,
        }
    }

    /// How many parts of the bar come before the shortlist: the reading of the
    /// index, where there is any.
    pub open spec fn parts_before(self) -> int {
        if self.reads_the_index {
            1
        } else {
            0
        }
    }

    /// How far along the bar is: through the comparing once that has begun, else
    /// through the shortlist once that has, else through the reading of the index.
    pub open spec fn reached(self) -> int {
        if self.pairs > 0 || self.compared > 0 {
            PART * (self.parts_before() + 1) + share(
                self.compared as int,
                self.pairs as int,
                PART as int,
            )
        } else if self.to_shortlist > 0 {
            PART * self.parts_before() + share(
                self.shortlisted as int,
                self.to_shortlist as int,
                PART as int,
            )
        } else if self.reads_the_index {
            share(self.loaded as int, self.to_load as int, PART as int)
        } else {
            0
        }
    }

    /// The search as one number out of one number.
    ///
    /// Stages of very different lengths, none of which knows its own size until
    /// it starts, so they share one bar an equal part each: reading the index,
    /// drawing up the shortlist, then comparing what it produced.
    ///
    /// A search straight after a pass does no reading: the pass built what it
    /// searches. Giving that a part of its own would open the bar at a third for
    /// work that nothing is going to do, so the bar is the parts that are going
    /// to happen and no others.
    pub fn progress(&self) -> (bar: (u64, u64))
        ensures
            bar.0 == self.reached(),
            bar.1 == PART * (self.parts_before() + 2),
            bar.0 <= bar.1,
    {
        let reading: u64 = if self.reads_the_index {
            1
        } else {
            0
        };
        let whole: u64 = PART * (reading + 2);
        if self.pairs > 0 || self.compared > 0 {
            return (PART * (reading + 1) + fraction(self.compared, self.pairs, PART), whole);
        }
        if self.to_shortlist > 0 {
            return (PART * reading + fraction(self.shortlisted, self.to_shortlist, PART), whole);
        }
        if reading == 0 {
            // The count of what is in memory arrives before the work starts.
            // It is not progress: nothing has been done with it yet.
            return (0, whole);
        }
        (fraction(self.loaded, self.to_load, PART), whole)
    }

    /// What the search says about itself once it has reported something.
    pub open spec fn told(self, progress: Progress) -> SearchState {
        match progress {
            Progress::Loading { done, total } => SearchState {
                stage: Some(Doing::ReadingTheIndex),
                reads_the_index: true,
                loaded: done,
                to_load: total,
                ..self
            },
            Progress::Loaded { images } => SearchState {
                stage: Some(Doing::Comparing),
                loaded: images,
                to_load: if self.to_load < images {
                    images
                } else {
                    self.to_load
                },
                ..self
            },
            Progress::Shortlisting { done, total } => SearchState {
                stage: Some(Doing::Shortlisting),
                shortlisted: done,
                to_shortlist: total,
                ..self
            },
            Progress::Comparing { done, total } => SearchState {
                stage: Some(Doing::Comparing),
                compared: done,
                pairs: total,
                ..self
            },
            Progress::Grouping => SearchState {
                stage: Some(Doing::Grouping),
                compared: self.pairs,
                ..self
            },
        }
    }

    /// Take what a search says while it runs, or what the reading of an index
    /// says on the way to one.
    pub fn tell(&mut self, progress: Progress)
        ensures
            *final(self) == old(self).told(progress),
    {
        match progress {
            Progress::Loading { done, total } => {
                self.stage = Some(Doing::ReadingTheIndex);
                self.reads_the_index = true;
                self.loaded = done;
                self.to_load = total;
            },
            Progress::Loaded { images } => {
                self.stage = Some(Doing::Comparing);
                self.loaded = images;
                if self.to_load < images {
                    self.to_load = images;
                }
            },
            Progress::Shortlisting { done, total } => {
                self.stage = Some(Doing::Shortlisting);
                self.shortlisted = done;
                self.to_shortlist = total;
            },
            Progress::Comparing { done, total } => {
                self.stage = Some(Doing::Comparing);
                self.compared = done;
                self.pairs = total;
            },
            Progress::Grouping => {
                self.stage = Some(Doing::Grouping);
                self.compared = self.pairs;
            },
        }
    }

    /// Where the search has got to as a stage of its own bar.
    pub open spec fn stage_of_the_bar(self) -> Stage {
        if self.done {
            Stage::Over
        } else if self.stage is Some {
            Stage::Running
        } else {
            Stage::Waiting
        }
    }

    /// Where the search has got to as a stage of its own bar.
    pub fn bar_stage(&self) -> (stage: Stage)
        ensures
            stage == self.stage_of_the_bar(),
    {
        if self.done {
            Stage::Over
        } else if self.stage.is_some() {
            Stage::Running
        } else {
            Stage::Waiting
        }
    }
}

/// What is drawn of a bar: none of it, all of it, or so many of so many.
#[derive(Debug, Clone, Copy, PartialEq, Eq, Structural)]
pub enum Fill {
    Empty,
    Part { count: u64, out_of: u64 },
    Full,
}

/// What is drawn of the bar for a stage.
pub open spec fn fill_of(stage: Stage, count: u64, out_of: u64) -> Fill {
    match stage {
        Stage::Waiting => Fill::Empty,
        Stage::Running => if out_of == 0 {
            Fill::Empty
        } else {
            Fill::Part { count, out_of }
        },
        Stage::Over => Fill::Full,
    }
}

/// What is drawn of the bar for a stage.
///
/// A bar is a fraction only while the stage it measures is the one running.
/// Before that there is nothing to divide and it is empty; after it, everything
/// that stage was going to do is done and it is full. A stage that never ran
/// leaves its bar empty, which is what happened: nothing.
pub fn bar_fill(stage: Stage, count: u64, out_of: u64) -> (fill: Fill)
    ensures
        fill == fill_of(stage, count, out_of),
{
    match stage {
        Stage::Waiting => Fill::Empty,
        Stage::Running => if out_of == 0 {
            Fill::Empty
        } else {
            Fill::Part { count, out_of }
        },
        Stage::Over => Fill::Full,
    }
}

/// A stage that is over stays over, whatever is reported of it after.
pub proof fn a_stage_that_is_over_stays_over(stage: Stage)
    ensures
        stage is Over ==> stage.under_way() is Over,
        stage !is Over ==> stage.under_way() is Running,
        stage.under_way().under_way() == stage.under_way(),
{
}

/// The bar of a search never goes back while the pictures shortlisted, and then
/// the pairs compared, grow.
pub proof fn the_search_bar_never_goes_back(before: SearchState, shortlisted: u64, compared: u64)
    requires
        before.shortlisted <= shortlisted,
        before.compared <= compared,
        before.to_shortlist > 0,
    ensures
        before.reached() <= before.told(
            Progress::Shortlisting { done: shortlisted, total: before.to_shortlist },
        ).reached(),
        before.pairs > 0 ==> before.reached() <= before.told(
            Progress::Comparing { done: compared, total: before.pairs },
        ).reached(),
        before.pairs > 0 || before.compared == 0 ==> before.told(Progress::Grouping).reached()
            >= before.reached(),
{
    a_share_grows_with_the_part(
        before.shortlisted as int,
        shortlisted as int,
        before.to_shortlist as int,
        PART as int,
    );
    a_share_grows_with_the_part(
        before.compared as int,
        compared as int,
        before.pairs as int,
        PART as int,
    );
    if before.compared <= before.pairs {
        a_share_grows_with_the_part(
            before.compared as int,
            before.pairs as int,
            before.pairs as int,
            PART as int,
        );
    }
}

} // verus!
