//! The first of a row that answers to something.

use vstd::prelude::*;

verus! {

/// The first place, from one on, that answers to a question, if any does.
pub open spec fn first_from<T>(row: Seq<T>, from: int, which: spec_fn(T) -> bool) -> Option<int>
    decreases row.len() - from,
{
    if from < 0 || from >= row.len() {
        None
    } else if which(row[from]) {
        Some(from)
    } else {
        first_from(row, from + 1, which)
    }
}

/// The first place that answers to a question, if any does.
pub open spec fn first<T>(row: Seq<T>, which: spec_fn(T) -> bool) -> Option<int> {
    first_from(row, 0, which)
}

/// The first place answers and none before it does, and where there is none
/// nothing answers.
pub proof fn the_first_is_the_first<T>(row: Seq<T>, from: int, which: spec_fn(T) -> bool)
    requires
        0 <= from <= row.len(),
    ensures
        match first_from(row, from, which) {
            Some(at) => from <= at < row.len() && which(row[at]) && forall|before: int|
                from <= before < at ==> !which(#[trigger] row[before]),
            None => forall|at: int| from <= at < row.len() ==> !which(#[trigger] row[at]),
        },
    decreases row.len() - from,
{
    if from < row.len() && !which(row[from]) {
        the_first_is_the_first(row, from + 1, which);
    }
}

} // verus!
