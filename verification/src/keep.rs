//! What a set is keeping.

use vstd::prelude::*;

verus! {

/// What a set is keeping. A set with no entry at all has been marked with
/// nothing, which is a set nobody has reached: it keeps everything it has.
pub enum Keep {
    One(i64),
    /// More than one picture. Never one and never none: one picture is `One` and
    /// no picture is no entry at all.
    Several(Vec<i64>),
}

impl View for Keep {
    type V = Seq<i64>;

    /// The pictures marked, in the order they were marked in.
    open spec fn view(&self) -> Seq<i64> {
        match self {
            Keep::One(kept) => seq![*kept],
            Keep::Several(kept) => kept@,
        }
    }
}

/// Every picture but one.
pub open spec fn other_than(file_id: i64) -> spec_fn(i64) -> bool {
    |kept: i64| kept != file_id
}

/// The pictures of a set of them.
pub open spec fn one_of(others: Set<i64>) -> spec_fn(i64) -> bool {
    |kept: i64| others.contains(kept)
}

/// The pictures that are not in a list of them.
pub open spec fn none_of(others: Seq<i64>) -> spec_fn(i64) -> bool {
    |kept: i64| !others.contains(kept)
}

/// Some marks without one of the pictures.
pub open spec fn without(marks: Seq<i64>, file_id: i64) -> Seq<i64> {
    marks.filter(other_than(file_id))
}

/// The marks of some pictures that are among others.
pub open spec fn among(marks: Seq<i64>, others: Set<i64>) -> Seq<i64> {
    marks.filter(one_of(others))
}

/// The marks of some pictures that are not among others.
pub open spec fn not_among(marks: Seq<i64>, others: Seq<i64>) -> Seq<i64> {
    marks.filter(none_of(others))
}

/// What an entry for a set says it marks, which is nothing where there is none.
pub open spec fn marks_of(keeping: Option<&Keep>) -> Seq<i64> {
    match keeping {
        Some(keep) => keep@,
        None => Seq::empty(),
    }
}

/// Whether some marks are all on one picture.
pub open spec fn names_one(marks: Seq<i64>) -> bool {
    marks.len() > 0 && forall|at: int| 0 <= at < marks.len() ==> #[trigger] marks[at] == marks[0]
}

/// What an entry holds of some marks: the marks, and one where they are all on one
/// picture.
pub open spec fn held_as(marks: Seq<i64>) -> Seq<i64> {
    if names_one(marks) {
        seq![marks[0]]
    } else {
        marks
    }
}

/// Whether some marks are what an entry holds.
pub open spec fn is_entry(marks: Seq<i64>) -> bool {
    marks.len() > 0 && held_as(marks) == marks
}

/// Some marks with one more picture marked, which changes nothing where it was
/// marked already.
pub open spec fn with_one_more(marks: Seq<i64>, file_id: i64) -> Seq<i64> {
    if marks.contains(file_id) {
        marks
    } else {
        marks.push(file_id)
    }
}

/// Whether an entry stands for exactly these marks: no entry for none, `One` for
/// a single picture and `Several` for more.
pub open spec fn stands_for(entry: Option<Keep>, marks: Seq<i64>) -> bool {
    match entry {
        None => marks.len() == 0,
        Some(keep) => marks.len() > 0 && keep@ == held_as(marks) && keep.told_apart(),
    }
}

/// Whether some ids hold one.
pub fn holds(ids: &Vec<i64>, file_id: i64) -> (held: bool)
    ensures
        held == ids@.contains(file_id),
{
    let mut at: usize = 0;
    while at < ids.len()
        invariant
            at <= ids@.len(),
            forall|i: int| 0 <= i < at ==> ids@[i] != file_id,
        decreases ids.len() - at,
    {
        if ids[at] == file_id {
            return true;
        }
        at = at + 1;
    }
    false
}

/// The same ids again.
pub fn copy_ids(ids: &Vec<i64>) -> (copied: Vec<i64>)
    ensures
        copied@ == ids@,
{
    let mut copied: Vec<i64> = Vec::new();
    for at in 0..ids.len()
        invariant
            copied@ == ids@.take(at as int),
    {
        copied.push(ids[at]);
        assert(copied@ =~= ids@.take(at + 1));
    }
    assert(copied@ =~= ids@);
    copied
}

/// Some ids without one of them.
pub fn leave_out(ids: &Vec<i64>, file_id: i64) -> (left: Vec<i64>)
    ensures
        left@ == without(ids@, file_id),
{
    let mut left: Vec<i64> = Vec::new();
    proof {
        reveal(Seq::filter);
    }
    for at in 0..ids.len()
        invariant
            left@ == without(ids@.take(at as int), file_id),
    {
        proof {
            reveal(Seq::filter);
            assert(ids@.take(at + 1).drop_last() =~= ids@.take(at as int));
        }
        if ids[at] != file_id {
            left.push(ids[at]);
        }
    }
    assert(ids@.take(ids@.len() as int) =~= ids@);
    left
}

/// Those of some ids that are not among others.
pub fn leave_out_all(ids: &Vec<i64>, others: &Vec<i64>) -> (left: Vec<i64>)
    ensures
        left@ == not_among(ids@, others@),
{
    let mut left: Vec<i64> = Vec::new();
    proof {
        reveal(Seq::filter);
    }
    for at in 0..ids.len()
        invariant
            left@ == not_among(ids@.take(at as int), others@),
    {
        proof {
            reveal(Seq::filter);
            assert(ids@.take(at + 1).drop_last() =~= ids@.take(at as int));
        }
        if !holds(others, ids[at]) {
            left.push(ids[at]);
        }
    }
    assert(ids@.take(ids@.len() as int) =~= ids@);
    left
}

impl Keep {
    /// `One` and `Several` mean what they say: several pictures are two different
    /// ones at least.
    pub open spec fn told_apart(self) -> bool {
        match self {
            Keep::One(_) => true,
            Keep::Several(kept) => exists|one: int, other: int|
                0 <= one < other < kept@.len() && #[trigger] kept@[one] != #[trigger] kept@[other],
        }
    }

    pub fn keeps(&self, file_id: i64) -> (kept: bool)
        ensures
            kept == self@.contains(file_id),
    {
        match self {
            Keep::One(kept) => {
                proof {
                    if *kept == file_id {
                        assert(self@[0] == file_id);
                    }
                }
                *kept == file_id
            },
            Keep::Several(kept) => holds(kept, file_id),
        }
    }

    /// The pictures marked, for the cleanup to read.
    pub fn marked(&self) -> (marked: Vec<i64>)
        ensures
            marked@ == self@,
    {
        match self {
            Keep::One(kept) => {
                let mut marked: Vec<i64> = Vec::new();
                marked.push(*kept);
                assert(marked@ =~= self@);
                marked
            },
            Keep::Several(kept) => copy_ids(kept),
        }
    }
}

/// The pictures an entry marks, none where there is no entry.
pub fn marks(keeping: Option<&Keep>) -> (marked: Vec<i64>)
    ensures
        marked@ == marks_of(keeping),
{
    match keeping {
        Some(keep) => keep.marked(),
        None => Vec::new(),
    }
}

/// Whether a set that is keeping this is keeping that picture.
pub fn keeps(keeping: Option<&Keep>, file_id: i64) -> (kept: bool)
    ensures
        kept == marks_of(keeping).contains(file_id),
{
    match keeping {
        Some(keep) => keep.keeps(file_id),
        None => false,
    }
}

/// What a set keeps once one more picture is marked. One that is marked already is
/// marked once.
pub fn marked(keeping: Option<&Keep>, file_id: i64) -> (now: Option<Keep>)
    ensures
        stands_for(now, with_one_more(marks_of(keeping), file_id)),
{
    let mut kept = marks(keeping);
    if !holds(&kept, file_id) {
        kept.push(file_id);
    }
    as_keep(kept)
}

/// What a set keeps once one is unmarked. A set that ends up marked with nothing
/// has no entry, which is what `None` says.
pub fn unmarked(keeping: Option<&Keep>, file_id: i64) -> (now: Option<Keep>)
    ensures
        stands_for(now, without(marks_of(keeping), file_id)),
{
    let kept = marks(keeping);
    as_keep(leave_out(&kept, file_id))
}

/// The entry for a set that marks these pictures.
pub fn as_keep(kept: Vec<i64>) -> (entry: Option<Keep>)
    ensures
        stands_for(entry, kept@),
{
    if kept.len() == 0 {
        return None;
    }
    let mut at: usize = 1;
    while at < kept.len()
        invariant
            1 <= at <= kept@.len(),
            forall|i: int| 0 <= i < at ==> #[trigger] kept@[i] == kept@[0],
        decreases kept.len() - at,
    {
        if kept[at] != kept[0] {
            assert(kept@[0] != kept@[at as int]);
            return Some(Keep::Several(kept));
        }
        at = at + 1;
    }
    Some(Keep::One(kept[0]))
}

/// An entry marks the pictures it stands for and no others.
pub proof fn an_entry_marks_what_it_stands_for(marks: Seq<i64>, file_id: i64)
    ensures
        held_as(marks).contains(file_id) <==> marks.contains(file_id),
        held_as(marks).len() == 0 <==> marks.len() == 0,
        held_as(held_as(marks)) == held_as(marks),
{
    if names_one(marks) {
        assert(held_as(marks)[0] == marks[0]);
        if marks.contains(file_id) {
            let at = choose|at: int| 0 <= at < marks.len() && marks[at] == file_id;
            assert(marks[at] == marks[0]);
        }
    }
}

/// One more picture beside others that do not hold it is marked as it comes.
pub proof fn another_picture_is_held_as_it_comes(marks: Seq<i64>, file_id: i64)
    requires
        !marks.contains(file_id),
    ensures
        held_as(marks.push(file_id)) == marks.push(file_id),
{
    let more = marks.push(file_id);
    if names_one(more) {
        assert(more[marks.len() as int] == more[0]);
        if marks.len() > 0 {
            assert(marks[0] == file_id);
        } else {
            assert(held_as(more) =~= more);
        }
    }
}

/// Marking a picture and taking the mark off again leaves the marks as they
/// were, where it was not marked before.
pub proof fn unmarking_undoes_marking(marks: Seq<i64>, file_id: i64)
    requires
        !marks.contains(file_id),
    ensures
        without(marks.push(file_id), file_id) == marks,
{
    reveal(Seq::filter);
    assert(marks.push(file_id).drop_last() =~= marks);
    lemma_without_absent(marks, file_id);
}

/// Marking a picture never unmarks another.
pub proof fn marking_only_adds(marks: Seq<i64>, file_id: i64, other: i64)
    ensures
        marks.contains(other) ==> marks.push(file_id).contains(other),
        marks.push(file_id).contains(file_id),
{
    assert(marks.push(file_id)[marks.len() as int] == file_id);
    if marks.contains(other) {
        let at = choose|at: int| 0 <= at < marks.len() && marks[at] == other;
        assert(marks.push(file_id)[at] == other);
    }
}

/// Taking a mark off takes that one off and no other.
pub proof fn unmarking_takes_one_off(marks: Seq<i64>, file_id: i64, other: i64)
    ensures
        without(marks, file_id).contains(other) <==> marks.contains(other) && other != file_id,
    decreases marks.len(),
{
    lemma_filter_holds(marks, other_than(file_id), other);
}

pub(crate) proof fn lemma_filter_holds(marks: Seq<i64>, which: spec_fn(i64) -> bool, other: i64)
    ensures
        marks.filter(which).contains(other) <==> marks.contains(other) && which(other),
    decreases marks.len(),
{
    reveal(Seq::filter);
    if marks.len() > 0 {
        let rest = marks.drop_last();
        lemma_filter_holds(rest, which, other);
        assert(marks =~= rest.push(marks.last()));
        assert(marks.contains(other) <==> rest.contains(other) || marks.last() == other) by {
            if marks.contains(other) {
                let at = choose|at: int| 0 <= at < marks.len() && marks[at] == other;
                if at < rest.len() {
                    assert(rest[at] == other);
                }
            }
            if rest.contains(other) {
                let at = choose|at: int| 0 <= at < rest.len() && rest[at] == other;
                assert(marks[at] == other);
            }
            if marks.last() == other {
                assert(marks[marks.len() - 1] == other);
            }
        }
        if which(marks.last()) {
            let kept = rest.filter(which);
            assert(marks.filter(which) == kept.push(marks.last()));
            marking_only_adds(kept, marks.last(), other);
            if kept.push(marks.last()).contains(other) {
                let now = kept.push(marks.last());
                let at = choose|at: int| 0 <= at < now.len() && now[at] == other;
                if at < kept.len() {
                    assert(kept[at] == other);
                }
            }
        }
    }
}

proof fn lemma_without_absent(marks: Seq<i64>, file_id: i64)
    requires
        !marks.contains(file_id),
    ensures
        without(marks, file_id) == marks,
    decreases marks.len(),
{
    reveal(Seq::filter);
    if marks.len() > 0 {
        let rest = marks.drop_last();
        assert(!rest.contains(file_id)) by {
            if rest.contains(file_id) {
                let at = choose|at: int| 0 <= at < rest.len() && rest[at] == file_id;
                assert(marks[at] == file_id);
            }
        }
        lemma_without_absent(rest, file_id);
        assert(marks.last() != file_id) by {
            assert(marks[marks.len() - 1] == marks.last());
        }
        assert(without(marks, file_id) =~= marks);
    }
}

} // verus!
