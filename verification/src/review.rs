//! A review: the sets on screen, what is marked in them, which of them are not
//! sets of copies, and what a cleanup would take as it all stands.

use std::collections::{HashMap, HashSet};

use vstd::prelude::*;

use crate::finding::{first, first_from, the_first_is_the_first};
use crate::keep::{
    among, another_picture_is_held_as_it_comes, as_keep, held_as, keeps, leave_out, leave_out_all,
    marked, not_among, stands_for, unmarked, with_one_more, without, Keep,
};
use crate::pairs::Pairs;
use crate::plan::{
    all_ignored, build_plan, is_ignored, marks_by_set, marks_for, marks_on, plan_of, Plan,
    RemovalView,
};
use crate::sets::{has_id, ids_of, in_sets, pairs, pairs_of, DuplicateSet, MemberView, SetView};
use crate::state::SetAction;

verus! {

broadcast use vstd::std_specs::hash::group_hash_axioms;

/// A review as it stands.
pub struct Review {
    pub sets: Vec<DuplicateSet>,
    /// The keep marks per set, held here and not in the index: a review session
    /// is not a fact about a file on disk.
    pub keep: HashMap<i64, Keep>,
    /// Pairs of pictures said not to be copies of each other, as the folder's
    /// index holds them. A set every pair of which is in here is left alone.
    pub ignored: Pairs,
    /// What a cleanup would take, as the review stands.
    ///
    /// Held rather than worked out where it is drawn. It follows from the marks,
    /// the sets and the ignored pairs, and every place any of those changes works
    /// it out again, derived whole each time, so it cannot come to disagree with
    /// them, and derived on the change rather than on the frame, so a review
    /// nobody is touching costs nothing.
    pub plan: Plan,
    /// The file that was clicked, and the one whose picture is on screen. They
    /// differ while the clicked one is being read: the pane keeps drawing what it
    /// has until the new picture can replace it in one go, rather than blanking.
    pub selected: Option<i64>,
    pub showing: Option<i64>,
    /// A row the cursor keys moved to that the list may not be showing.
    pub scroll_to: Option<usize>,
    /// Set when new sets arrive, so the next frame of the review draws the list
    /// from its first set.
    pub list_to_top: bool,
    /// Set when the cursor keys move the preview, and cleared by the set holding
    /// it scrolling sideways far enough to show it.
    pub show_selected: bool,
    /// The picture filling the window, put there by a click on the preview. A
    /// click anywhere or the escape key puts it back.
    pub filling_the_window: Option<i64>,
}

/// What a review is, as the contracts speak of it.
#[verifier::ext_equal]
pub struct ReviewView {
    pub sets: Seq<SetView>,
    pub keep: Map<i64, Seq<i64>>,
    pub ignored: Set<(i64, i64)>,
    pub plan: Seq<RemovalView>,
    pub selected: Option<i64>,
    pub showing: Option<i64>,
    pub scroll_to: Option<usize>,
    pub list_to_top: bool,
    pub show_selected: bool,
    pub filling_the_window: Option<i64>,
}

impl View for Review {
    type V = ReviewView;

    open spec fn view(&self) -> ReviewView {
        ReviewView {
            sets: self.sets.deep_view(),
            keep: marks_by_set(self.keep@),
            ignored: self.ignored@,
            plan: self.plan@,
            selected: self.selected,
            showing: self.showing,
            scroll_to: self.scroll_to,
            list_to_top: self.list_to_top,
            show_selected: self.show_selected,
            filling_the_window: self.filling_the_window,
        }
    }
}

/// The sets with a number.
pub open spec fn numbered(set_id: i64) -> spec_fn(SetView) -> bool {
    |set: SetView| set.set_id == set_id
}

/// The sets that hold a picture.
pub open spec fn holding(file_id: i64) -> spec_fn(SetView) -> bool {
    |set: SetView| has_id(set.members, file_id)
}

/// The sets that are sets of copies.
pub open spec fn of_copies(ignored: Set<(i64, i64)>) -> spec_fn(SetView) -> bool {
    |set: SetView| !all_ignored(set.members, ignored)
}

/// The copies the search would keep.
pub open spec fn best_copies() -> spec_fn(MemberView) -> bool {
    |member: MemberView| member.auto_keep
}

/// Whether a set number is that of a set somebody has said is not one of copies.
pub open spec fn left_alone(sets: Seq<SetView>, ignored: Set<(i64, i64)>, set_id: i64) -> bool {
    exists|at: int|
        0 <= at < sets.len() && (#[trigger] sets[at]).set_id == set_id && all_ignored(
            sets[at].members,
            ignored,
        )
}

/// The marks with one set marking these pictures, which is no entry where there
/// are none.
pub open spec fn with_marks(keep: Map<i64, Seq<i64>>, set_id: i64, now: Seq<i64>) -> Map<
    i64,
    Seq<i64>,
> {
    if now.len() == 0 {
        keep.remove(set_id)
    } else {
        keep.insert(set_id, held_as(now))
    }
}

/// The marks a previous review left, put back on the sets: each set marks those of
/// its pictures that were marked, and a set none of whose pictures was marked
/// keeps what it has.
pub open spec fn taken_up(sets: Seq<SetView>, kept: Set<i64>, keep: Map<i64, Seq<i64>>) -> Map<
    i64,
    Seq<i64>,
>
    decreases sets.len(),
{
    if sets.len() == 0 {
        keep
    } else {
        let before = taken_up(sets.drop_last(), kept, keep);
        let marked = among(ids_of(sets.last().members), kept);
        if marked.len() == 0 {
            before
        } else {
            before.insert(sets.last().set_id, held_as(marked))
        }
    }
}

/// Every picture of every set of copies marked, and which of them were not marked
/// before.
pub open spec fn kept_whole(
    sets: Seq<SetView>,
    keep: Map<i64, Seq<i64>>,
    ignored: Set<(i64, i64)>,
) -> (Map<i64, Seq<i64>>, Seq<i64>)
    decreases sets.len(),
{
    if sets.len() == 0 {
        (keep, Seq::empty())
    } else {
        let (before, went_on) = kept_whole(sets.drop_last(), keep, ignored);
        let set = sets.last();
        let all = ids_of(set.members);
        if all_ignored(set.members, ignored) {
            (before, went_on)
        } else {
            (
                if all.len() == 0 {
                    before
                } else {
                    before.insert(set.set_id, held_as(all))
                },
                went_on + not_among(all, marks_on(before, set.set_id)),
            )
        }
    }
}

/// The best copy of every set of copies marked beside what the set marks already,
/// and which of them were not marked before.
pub open spec fn best_marked(
    sets: Seq<SetView>,
    keep: Map<i64, Seq<i64>>,
    ignored: Set<(i64, i64)>,
) -> (Map<i64, Seq<i64>>, Seq<i64>)
    decreases sets.len(),
{
    if sets.len() == 0 {
        (keep, Seq::empty())
    } else {
        let (before, went_on) = best_marked(sets.drop_last(), keep, ignored);
        let set = sets.last();
        if all_ignored(set.members, ignored) {
            (before, went_on)
        } else {
            match first(set.members, best_copies()) {
                None => (before, went_on),
                Some(at) => {
                    let best = set.members[at].file_id;
                    let marks = marks_on(before, set.set_id);
                    if marks.contains(best) {
                        (before, went_on)
                    } else {
                        (before.insert(set.set_id, marks.push(best)), went_on.push(best))
                    }
                },
            }
        }
    }
}

/// Whether a list names exactly the sets that mark something and are not left
/// alone, each once.
pub open spec fn names_the_unmarked(
    order: Seq<i64>,
    sets: Seq<SetView>,
    keep: Map<i64, Seq<i64>>,
    ignored: Set<(i64, i64)>,
) -> bool {
    &&& order.no_duplicates()
    &&& forall|set_id: i64| #[trigger]
        order.contains(set_id) <==> keep.contains_key(set_id) && !left_alone(sets, ignored, set_id)
}

/// The marks of some sets, set after set.
pub open spec fn marks_together(keep: Map<i64, Seq<i64>>, order: Seq<i64>) -> Seq<i64>
    decreases order.len(),
{
    if order.len() == 0 {
        Seq::empty()
    } else {
        marks_together(keep, order.drop_last()) + keep[order.last()]
    }
}

/// The pictures of a set that are not among some paths.
pub open spec fn still_there(gone: Seq<Seq<char>>) -> spec_fn(MemberView) -> bool {
    |member: MemberView| !gone.contains(member.rel_path)
}

/// A set without the pictures that are gone.
pub open spec fn set_left(set: SetView, gone: Seq<Seq<char>>) -> SetView {
    SetView { set_id: set.set_id, members: set.members.filter(still_there(gone)) }
}

/// The sets without the pictures that are gone. A set with one picture left is
/// not a duplicate set any more.
pub open spec fn sets_left(sets: Seq<SetView>, gone: Seq<Seq<char>>) -> Seq<SetView>
    decreases sets.len(),
{
    if sets.len() == 0 {
        Seq::empty()
    } else {
        let before = sets_left(sets.drop_last(), gone);
        let left = set_left(sets.last(), gone);
        if left.members.len() > 1 {
            before.push(left)
        } else {
            before
        }
    }
}

/// Whether a set number is that of one of some sets.
pub open spec fn has_set(sets: Seq<SetView>, set_id: i64) -> bool {
    exists|at: int| 0 <= at < sets.len() && (#[trigger] sets[at]).set_id == set_id
}

/// The pictures of some sets.
pub open spec fn pictures_of(sets: Seq<SetView>) -> Set<i64> {
    Set::new(|file_id: i64| in_sets(sets, file_id))
}

/// The marks on the sets that are left, cut down to the pictures that are left.
pub open spec fn marks_left(keep: Map<i64, Seq<i64>>, sets: Seq<SetView>) -> Map<i64, Seq<i64>> {
    Map::new(
        |set_id: i64|
            keep.contains_key(set_id) && has_set(sets, set_id) && among(
                keep[set_id],
                pictures_of(sets),
            ).len() > 0,
        |set_id: i64| held_as(among(keep[set_id], pictures_of(sets))),
    )
}

/// A picture, if it is still in one of some sets.
pub open spec fn if_in(file_id: Option<i64>, sets: Seq<SetView>) -> Option<i64> {
    match file_id {
        Some(id) => if in_sets(sets, id) {
            Some(id)
        } else {
            None
        },
        None => None,
    }
}

/// The picture a review opens on: the first one marked in the first set of copies,
/// or that set's first picture where it marks none.
pub open spec fn opening_picture(
    sets: Seq<SetView>,
    keep: Map<i64, Seq<i64>>,
    ignored: Set<(i64, i64)>,
) -> Option<i64> {
    match first(sets, of_copies(ignored)) {
        None => None,
        Some(at) => {
            let set = sets[at];
            if keep.contains_key(set.set_id) {
                if keep[set.set_id].len() > 0 {
                    Some(keep[set.set_id][0])
                } else {
                    None
                }
            } else if set.members.len() > 0 {
                Some(set.members[0].file_id)
            } else {
                None
            }
        },
    }
}

impl ReviewView {
    /// The review with what a cleanup would take worked out again.
    pub open spec fn planned(self) -> ReviewView {
        ReviewView { plan: plan_of(self.sets, self.keep, self.ignored), ..self }
    }

    /// Whether what a cleanup would take is what the marks, the sets and the
    /// ignored pairs imply.
    pub open spec fn plan_agrees(self) -> bool {
        self.plan == plan_of(self.sets, self.keep, self.ignored)
    }

    /// The pairs of the first set with a number.
    pub open spec fn pairs_in(self, set_id: i64) -> Option<Seq<(i64, i64)>> {
        match first(self.sets, numbered(set_id)) {
            Some(at) => Some(pairs(ids_of(self.sets[at].members))),
            None => None,
        }
    }

    /// The review once a set has been said not to be a set of copies.
    pub open spec fn ignoring(self, set_id: i64) -> ReviewView {
        match self.pairs_in(set_id) {
            Some(said) => ReviewView { ignored: self.ignored.union(said.to_set()), ..self }.planned(),
            None => self,
        }
    }

    /// The review once that has been taken back.
    pub open spec fn unignoring(self, set_id: i64) -> ReviewView {
        match self.pairs_in(set_id) {
            Some(said) => ReviewView {
                ignored: self.ignored.difference(said.to_set()),
                ..self
            }.planned(),
            None => self,
        }
    }

    /// The review with the marks of a previous one put back on its sets.
    pub open spec fn taking_up(self, kept: Set<i64>) -> ReviewView {
        if kept == Set::<i64>::empty() {
            self
        } else {
            ReviewView { keep: taken_up(self.sets, kept, self.keep), ..self }.planned()
        }
    }

    /// The review with no mark on any set of copies.
    pub open spec fn unmarked(self) -> ReviewView {
        ReviewView {
            keep: Map::new(
                |set_id: i64|
                    self.keep.contains_key(set_id) && left_alone(self.sets, self.ignored, set_id),
                |set_id: i64| self.keep[set_id],
            ),
            ..self
        }.planned()
    }

    /// The review with every picture of every set of copies marked.
    pub open spec fn marked_whole(self) -> ReviewView {
        ReviewView { keep: kept_whole(self.sets, self.keep, self.ignored).0, ..self }.planned()
    }

    /// The review with the best copy of every set of copies marked.
    pub open spec fn auto_marked(self) -> ReviewView {
        ReviewView { keep: best_marked(self.sets, self.keep, self.ignored).0, ..self }.planned()
    }

    /// The set the preview is in, where that is a set of copies.
    pub open spec fn set_of_selected(self) -> Option<int> {
        match self.selected {
            None => None,
            Some(file_id) => match first(self.sets, holding(file_id)) {
                None => None,
                Some(at) => if all_ignored(self.sets[at].members, self.ignored) {
                    None
                } else {
                    Some(at)
                },
            },
        }
    }

    /// What a set marks.
    pub open spec fn marks(self, set_id: i64) -> Seq<i64> {
        marks_on(self.keep, set_id)
    }

    /// The review with a set marking these pictures.
    pub open spec fn marking(self, set_id: i64, now: Seq<i64>) -> ReviewView {
        ReviewView { keep: with_marks(self.keep, set_id, now), ..self }.planned()
    }

    /// The review with the mark on the picture the preview is showing put on, or
    /// taken off where it was on.
    pub open spec fn toggled(self) -> ReviewView {
        match self.set_of_selected() {
            None => self,
            Some(at) => {
                let file_id = self.selected->0;
                let set_id = self.sets[at].set_id;
                let marks = self.marks(set_id);
                self.marking(
                    set_id,
                    if marks.contains(file_id) {
                        without(marks, file_id)
                    } else {
                        marks.push(file_id)
                    },
                )
            },
        }
    }

    /// The review with the picture the preview is showing the one thing its set
    /// keeps.
    pub open spec fn kept_alone(self) -> ReviewView {
        match self.set_of_selected() {
            None => self,
            Some(at) => self.marking(self.sets[at].set_id, seq![self.selected->0]),
        }
    }

    /// The review with nothing in it.
    pub open spec fn emptied(self) -> ReviewView {
        ReviewView {
            sets: Seq::empty(),
            keep: Map::empty(),
            selected: None,
            showing: None,
            ..self
        }.planned()
    }

    /// The review without the files that are gone.
    pub open spec fn forgetting(self, gone: Seq<Seq<char>>) -> ReviewView {
        if gone.len() == 0 {
            self
        } else {
            let left = sets_left(self.sets, gone);
            ReviewView {
                sets: left,
                keep: marks_left(self.keep, left),
                selected: if_in(self.selected, left),
                showing: if_in(self.showing, left),
                ..self
            }.planned()
        }
    }

    /// The review opened on a picture.
    pub open spec fn opened(self) -> ReviewView {
        ReviewView {
            selected: opening_picture(self.sets, self.keep, self.ignored),
            showing: None,
            ..self
        }
    }

    /// The review once a button under a set has been pressed.
    pub open spec fn pressed(self, at: int, action: SetAction) -> ReviewView {
        let set = self.sets[at];
        match action {
            SetAction::KeepAll => self.marking(set.set_id, ids_of(set.members)),
            SetAction::KeepNone => self.marking(set.set_id, Seq::empty()),
            SetAction::Ignore => self.ignoring(set.set_id),
            SetAction::Unignore => self.unignoring(set.set_id),
        }
    }
}

/// The entries for the sets mean what they say: `Several` is never one picture
/// and never none.
pub open spec fn marks_told_apart(keep: Map<i64, Keep>) -> bool {
    forall|set_id: i64| keep.contains_key(set_id) ==> (#[trigger] keep[set_id]).told_apart()
}

/// Have a set mark these pictures.
fn set_marks(keep: &mut HashMap<i64, Keep>, set_id: i64, now: Vec<i64>)
    ensures
        marks_by_set(final(keep)@) == with_marks(marks_by_set(old(keep)@), set_id, now@),
        marks_told_apart(old(keep)@) ==> marks_told_apart(final(keep)@),
{
    let ghost said = now@;
    set_entry(keep, set_id, as_keep(now), Ghost(said));
}

/// Give a set the entry that stands for these marks.
fn set_entry(
    keep: &mut HashMap<i64, Keep>,
    set_id: i64,
    entry: Option<Keep>,
    Ghost(now): Ghost<Seq<i64>>,
)
    requires
        stands_for(entry, now),
    ensures
        marks_by_set(final(keep)@) == with_marks(marks_by_set(old(keep)@), set_id, now),
        marks_told_apart(old(keep)@) ==> marks_told_apart(final(keep)@),
{
    match entry {
        Some(entry) => {
            keep.insert(set_id, entry);
        },
        None => {
            keep.remove(&set_id);
        },
    }
    assert(marks_by_set(keep@) =~= with_marks(marks_by_set(old(keep)@), set_id, now));
}

/// The numbers of the sets that mark something, in no particular order.
fn marking_sets(keep: &HashMap<i64, Keep>) -> (ids: Vec<i64>)
    ensures
        ids@.no_duplicates(),
        forall|set_id: i64| #[trigger] ids@.contains(set_id) <==> keep@.contains_key(set_id),
{
    let mut ids: Vec<i64> = Vec::new();
    let ghost all = vstd::std_specs::iter::IteratorSpec::remaining(
        &vstd::std_specs::hash::spec_keys_iter(keep),
    ).unref();
    for set_id in walked: keep.keys()
        invariant
            walked.seq().unref() == all,
            ids@ == all.take(walked.index() as int),
    {
        ids.push(*set_id);
        assert(ids@ =~= all.take(walked.index() + 1));
    }
    proof {
        assert(ids@ =~= all);
        assert forall|set_id: i64| #[trigger] ids@.contains(set_id) <==> keep@.contains_key(
            set_id,
        ) by {
            assert(all.to_set().contains(set_id) == keep@.dom().contains(set_id));
        }
    }
    ids
}

/// Whether some pictures hold one.
fn member_place(set: &DuplicateSet, file_id: i64) -> (at: Option<usize>)
    ensures
        match at {
            Some(at) => at < set.members@.len() && set.deep_view().members[at as int].file_id
                == file_id && forall|before: int|
                0 <= before < at ==> (#[trigger] set.deep_view().members[before]).file_id != file_id,
            None => !has_id(set.deep_view().members, file_id),
        },
{
    let ghost members = set.deep_view().members;
    let mut at: usize = 0;
    while at < set.members.len()
        invariant
            members == set.deep_view().members,
            at <= members.len(),
            forall|before: int| 0 <= before < at ==> (#[trigger] members[before]).file_id != file_id,
        decreases set.members.len() - at,
    {
        if set.members[at].file_id == file_id {
            assert(members[at as int].file_id == file_id);
            return Some(at);
        }
        at = at + 1;
    }
    None
}

/// The first set with a number.
fn set_numbered(sets: &Vec<DuplicateSet>, set_id: i64) -> (found: Option<usize>)
    ensures
        match found {
            Some(at) => first(sets.deep_view(), numbered(set_id)) == Some(at as int) && at
                < sets@.len(),
            None => first(sets.deep_view(), numbered(set_id)) is None,
        },
{
    let ghost all = sets.deep_view();
    let mut at: usize = 0;
    while at < sets.len()
        invariant
            all == sets.deep_view(),
            at <= all.len(),
            first(all, numbered(set_id)) == first_from(all, at as int, numbered(set_id)),
        decreases sets.len() - at,
    {
        assert(all[at as int] == sets@[at as int].deep_view());
        if sets[at].set_id == set_id {
            return Some(at);
        }
        at = at + 1;
    }
    None
}

/// The first set holding a picture.
pub(crate) fn set_holding(sets: &Vec<DuplicateSet>, file_id: i64) -> (found: Option<usize>)
    ensures
        match found {
            Some(at) => first(sets.deep_view(), holding(file_id)) == Some(at as int) && at
                < sets@.len(),
            None => first(sets.deep_view(), holding(file_id)) is None,
        },
{
    let ghost all = sets.deep_view();
    let mut at: usize = 0;
    while at < sets.len()
        invariant
            all == sets.deep_view(),
            at <= all.len(),
            first(all, holding(file_id)) == first_from(all, at as int, holding(file_id)),
        decreases sets.len() - at,
    {
        assert(all[at as int] == sets@[at as int].deep_view());
        if member_place(&sets[at], file_id).is_some() {
            return Some(at);
        }
        at = at + 1;
    }
    None
}

/// The first set that is a set of copies.
fn set_of_copies(sets: &Vec<DuplicateSet>, ignored: &Pairs) -> (found: Option<usize>)
    ensures
        match found {
            Some(at) => first(sets.deep_view(), of_copies(ignored@)) == Some(at as int) && at
                < sets@.len(),
            None => first(sets.deep_view(), of_copies(ignored@)) is None,
        },
{
    let ghost all = sets.deep_view();
    let mut at: usize = 0;
    while at < sets.len()
        invariant
            all == sets.deep_view(),
            at <= all.len(),
            first(all, of_copies(ignored@)) == first_from(all, at as int, of_copies(ignored@)),
        decreases sets.len() - at,
    {
        assert(all[at as int] == sets@[at as int].deep_view());
        if !is_ignored(&sets[at], ignored) {
            return Some(at);
        }
        at = at + 1;
    }
    None
}

/// The first of a set's pictures that the search would keep.
fn best_of(set: &DuplicateSet) -> (found: Option<i64>)
    ensures
        match first(set.deep_view().members, best_copies()) {
            Some(at) => found == Some(set.deep_view().members[at].file_id),
            None => found is None,
        },
        match found {
            Some(file_id) => exists|at: int|
                0 <= at < set.members@.len() && (#[trigger] set.members@[at]).auto_keep
                    && set.members@[at].file_id == file_id && forall|before: int|
                    0 <= before < at ==> !(#[trigger] set.members@[before]).auto_keep,
            None => forall|at: int|
                0 <= at < set.members@.len() ==> !(#[trigger] set.members@[at]).auto_keep,
        },
{
    let ghost members = set.deep_view().members;
    let mut at: usize = 0;
    while at < set.members.len()
        invariant
            members == set.deep_view().members,
            at <= members.len(),
            first(members, best_copies()) == first_from(members, at as int, best_copies()),
            forall|before: int| 0 <= before < at ==> !(#[trigger] set.members@[before]).auto_keep,
        decreases set.members.len() - at,
    {
        assert(members[at as int] == set.members@[at as int].deep_view());
        if set.members[at].auto_keep {
            return Some(set.members[at].file_id);
        }
        at = at + 1;
    }
    None
}

/// Those of some ids that are in a set of them.
fn ids_among(ids: &Vec<i64>, others: &HashSet<i64>) -> (left: Vec<i64>)
    ensures
        left@ == among(ids@, others@),
{
    let mut left: Vec<i64> = Vec::new();
    proof {
        reveal(Seq::filter);
    }
    for at in 0..ids.len()
        invariant
            left@ == among(ids@.take(at as int), others@),
    {
        proof {
            reveal(Seq::filter);
            assert(ids@.take(at + 1).drop_last() =~= ids@.take(at as int));
        }
        if others.contains(&ids[at]) {
            left.push(ids[at]);
        }
    }
    assert(ids@.take(ids@.len() as int) =~= ids@);
    left
}

/// Put the marks a previous review left back on some sets.
fn hang_marks(sets: &Vec<DuplicateSet>, kept: &HashSet<i64>, keep: &mut HashMap<i64, Keep>)
    ensures
        marks_by_set(final(keep)@) == taken_up(sets.deep_view(), kept@, marks_by_set(old(keep)@)),
        marks_told_apart(old(keep)@) ==> marks_told_apart(final(keep)@),
{
    let ghost all = sets.deep_view();
    for at in 0..sets.len()
        invariant
            all == sets.deep_view(),
            marks_by_set(keep@) == taken_up(
                all.take(at as int),
                kept@,
                marks_by_set(old(keep)@),
            ),
            marks_told_apart(old(keep)@) ==> marks_told_apart(keep@),
    {
        proof {
            assert(all.take(at + 1).drop_last() =~= all.take(at as int));
            assert(all[at as int] == sets@[at as int].deep_view());
        }
        let ids = sets[at].ids();
        let marked = ids_among(&ids, kept);
        if marked.len() > 0 {
            set_marks(keep, sets[at].set_id, marked);
        }
    }
    assert(all.take(all.len() as int) =~= all);
}

/// Mark every picture of every set of copies, and say which were not marked.
fn keep_whole(sets: &Vec<DuplicateSet>, keep: &mut HashMap<i64, Keep>, ignored: &Pairs) -> (went_on:
    Vec<i64>)
    ensures
        kept_whole(sets.deep_view(), marks_by_set(old(keep)@), ignored@) == (
            marks_by_set(final(keep)@),
            went_on@,
        ),
        marks_told_apart(old(keep)@) ==> marks_told_apart(final(keep)@),
{
    let ghost all = sets.deep_view();
    let mut went_on: Vec<i64> = Vec::new();
    for at in 0..sets.len()
        invariant
            all == sets.deep_view(),
            kept_whole(all.take(at as int), marks_by_set(old(keep)@), ignored@) == (
                marks_by_set(keep@),
                went_on@,
            ),
            marks_told_apart(old(keep)@) ==> marks_told_apart(keep@),
    {
        proof {
            assert(all.take(at + 1).drop_last() =~= all.take(at as int));
            assert(all[at as int] == sets@[at as int].deep_view());
        }
        if !is_ignored(&sets[at], ignored) {
            let set_id = sets[at].set_id;
            let ids = sets[at].ids();
            let already = marks_for(keep, set_id);
            let mut fresh = leave_out_all(&ids, &already);
            went_on.append(&mut fresh);
            if ids.len() > 0 {
                set_marks(keep, set_id, ids);
            }
        }
    }
    assert(all.take(all.len() as int) =~= all);
    went_on
}

/// Mark the best copy of every set of copies, and say which were not marked.
fn mark_best(sets: &Vec<DuplicateSet>, keep: &mut HashMap<i64, Keep>, ignored: &Pairs) -> (went_on:
    Vec<i64>)
    ensures
        best_marked(sets.deep_view(), marks_by_set(old(keep)@), ignored@) == (
            marks_by_set(final(keep)@),
            went_on@,
        ),
        marks_told_apart(old(keep)@) ==> marks_told_apart(final(keep)@),
{
    let ghost all = sets.deep_view();
    let mut went_on: Vec<i64> = Vec::new();
    for at in 0..sets.len()
        invariant
            all == sets.deep_view(),
            best_marked(all.take(at as int), marks_by_set(old(keep)@), ignored@) == (
                marks_by_set(keep@),
                went_on@,
            ),
            marks_told_apart(old(keep)@) ==> marks_told_apart(keep@),
    {
        proof {
            assert(all.take(at + 1).drop_last() =~= all.take(at as int));
            assert(all[at as int] == sets@[at as int].deep_view());
        }
        if !is_ignored(&sets[at], ignored) {
            let set_id = sets[at].set_id;
            if let Some(best) = best_of(&sets[at]) {
                let ghost marks = marks_on(marks_by_set(keep@), set_id);
                if !keeps(keep.get(&set_id), best) {
                    let now = marked(keep.get(&set_id), best);
                    proof {
                        another_picture_is_held_as_it_comes(marks, best);
                    }
                    set_entry(keep, set_id, now, Ghost(with_one_more(marks, best)));
                    went_on.push(best);
                }
            }
        }
    }
    assert(all.take(all.len() as int) =~= all);
    went_on
}

/// Whether a number is that of a set that is left alone.
fn is_left_alone(sets: &Vec<DuplicateSet>, ignored: &Pairs, set_id: i64) -> (alone: bool)
    ensures
        alone == left_alone(sets.deep_view(), ignored@, set_id),
{
    let ghost all = sets.deep_view();
    let mut at: usize = 0;
    while at < sets.len()
        invariant
            all == sets.deep_view(),
            at <= all.len(),
            forall|before: int|
                0 <= before < at ==> !((#[trigger] all[before]).set_id == set_id && all_ignored(
                    all[before].members,
                    ignored@,
                )),
        decreases sets.len() - at,
    {
        assert(all[at as int] == sets@[at as int].deep_view());
        if sets[at].set_id == set_id && is_ignored(&sets[at], ignored) {
            return true;
        }
        at = at + 1;
    }
    false
}

impl Review {
    /// A review of nothing.
    pub fn empty() -> (review: Review)
        ensures
            review@ == (ReviewView {
                sets: Seq::empty(),
                keep: Map::empty(),
                ignored: Set::empty(),
                plan: Seq::empty(),
                selected: None,
                showing: None,
                scroll_to: None,
                list_to_top: false,
                show_selected: false,
                filling_the_window: None,
            }),
            review@.plan_agrees(),
            marks_told_apart(review.keep@),
    {
        let review = Review {
            sets: Vec::new(),
            keep: HashMap::new(),
            ignored: Pairs::new(),
            plan: Plan::empty(),
            selected: None,
            showing: None,
            scroll_to: None,
            list_to_top: false,
            show_selected: false,
            filling_the_window: None,
        };
        assert(review@.sets =~= Seq::<SetView>::empty());
        assert(review@.keep =~= Map::<i64, Seq<i64>>::empty());
        review
    }

    /// Work out again what a cleanup would take. Called wherever the marks, the
    /// sets or the ignored pairs change, and nowhere else.
    pub fn replan(&mut self)
        ensures
            final(self)@ == old(self)@.planned(),
            final(self).keep == old(self).keep,
    {
        self.plan = build_plan(&self.sets, &self.keep, &self.ignored);
    }

    /// Say that none of the pictures in a set are copies of each other. What the
    /// set kept stays with it, and so does where the preview was. The pairs are
    /// what is to be written down in the folder's index so the next search knows
    /// it too.
    pub fn ignore_set(&mut self, set_id: i64) -> (said: Option<Vec<(i64, i64)>>)
        ensures
            said.deep_view() == old(self)@.pairs_in(set_id),
            final(self)@ == old(self)@.ignoring(set_id),
            marks_told_apart(old(self).keep@) ==> marks_told_apart(final(self).keep@),
    {
        match set_numbered(&self.sets, set_id) {
            None => None,
            Some(at) => {
                assert(self@.sets[at as int] == self.sets@[at as int].deep_view());
                let said = pairs_of(&self.sets[at]);
                self.ignored.extend(&said);
                self.replan();
                assert(said.deep_view() =~= said@);
                Some(said)
            },
        }
    }

    /// Take it back: the pictures in a set are copies of each other after all.
    /// What was written down goes, and the set is a set again.
    pub fn unignore_set(&mut self, set_id: i64) -> (said: Option<Vec<(i64, i64)>>)
        ensures
            said.deep_view() == old(self)@.pairs_in(set_id),
            final(self)@ == old(self)@.unignoring(set_id),
            marks_told_apart(old(self).keep@) ==> marks_told_apart(final(self).keep@),
    {
        match set_numbered(&self.sets, set_id) {
            None => None,
            Some(at) => {
                assert(self@.sets[at as int] == self.sets@[at as int].deep_view());
                let said = pairs_of(&self.sets[at]);
                self.ignored.leave_out(&said);
                self.replan();
                assert(said.deep_view() =~= said@);
                Some(said)
            },
        }
    }

    /// Put the marks a previous review left back on the sets in front of the
    /// person now.
    ///
    /// The marks are per file and the sets are whatever the search has just
    /// found, so a mark goes back wherever its picture turns up. A mark whose
    /// picture is in no set is left where it is: it is not on screen, so there is
    /// nothing for it to be, and the next thing written takes it out.
    pub fn take_up_the_marks(&mut self, kept_before: &HashSet<i64>)
        ensures
            final(self)@ == old(self)@.taking_up(kept_before@),
            marks_told_apart(old(self).keep@) ==> marks_told_apart(final(self).keep@),
    {
        if kept_before.is_empty() {
            assert(kept_before@ =~= Set::<i64>::empty());
            return;
        }
        hang_marks(&self.sets, kept_before, &mut self.keep);
        self.replan();
    }

    /// Mark every picture in every set that is a set of copies, so a cleanup
    /// takes nothing from any of them, and say which were not marked before.
    ///
    /// A set nobody calls a set of copies is left alone, the way it is everywhere
    /// else: nothing goes from it and nothing is marked in it.
    pub fn keep_everything(&mut self) -> (went_on: Vec<i64>)
        ensures
            final(self)@ == old(self)@.marked_whole(),
            went_on@ == kept_whole(old(self)@.sets, old(self)@.keep, old(self)@.ignored).1,
            marks_told_apart(old(self).keep@) ==> marks_told_apart(final(self).keep@),
    {
        let went_on = keep_whole(&self.sets, &mut self.keep, &self.ignored);
        self.replan();
        went_on
    }

    /// Mark the best copy in every set that has not been dealt with, leaving
    /// every other mark where it is, and say which were not marked before.
    ///
    /// It only ever adds. A set that already marks something keeps that and
    /// gains the best copy as well, unless that is what it already marks. A set
    /// nobody calls a set of copies is an answer already given, so it gets no
    /// mark.
    pub fn auto_mark_to_keep(&mut self) -> (went_on: Vec<i64>)
        ensures
            final(self)@ == old(self)@.auto_marked(),
            went_on@ == best_marked(old(self)@.sets, old(self)@.keep, old(self)@.ignored).1,
            marks_told_apart(old(self).keep@) ==> marks_told_apart(final(self).keep@),
    {
        let went_on = mark_best(&self.sets, &mut self.keep, &self.ignored);
        self.replan();
        went_on
    }
}

/// The ids of every picture of some sets.
fn pictures(sets: &Vec<DuplicateSet>) -> (found: HashSet<i64>)
    ensures
        found@ == pictures_of(sets.deep_view()),
{
    let ghost all = sets.deep_view();
    let mut found: HashSet<i64> = HashSet::new();
    assert(found@ =~= pictures_of(all.take(0)));
    for at in 0..sets.len()
        invariant
            all == sets.deep_view(),
            found@ == pictures_of(all.take(at as int)),
    {
        let ids = sets[at].ids();
        let ghost before = found@;
        let ghost members = all[at as int].members;
        assert(members == sets@[at as int].deep_view().members);
        assert(before.union(ids@.take(0).to_set()) =~= before);
        for place in 0..ids.len()
            invariant
                found@ == before.union(ids@.take(place as int).to_set()),
        {
            found.insert(ids[place]);
            proof {
                let more = ids@.take(place + 1);
                let less = ids@.take(place as int);
                assert(more =~= less.push(ids@[place as int]));
                assert forall|id: i64|
                    before.union(more.to_set()).contains(id) == before.union(
                        less.to_set(),
                    ).insert(ids@[place as int]).contains(id) by {
                    if more.contains(id) {
                        let i = choose|i: int| 0 <= i < more.len() && more[i] == id;
                        if i < less.len() {
                            assert(less[i] == id);
                        }
                    }
                    if less.contains(id) {
                        let i = choose|i: int| 0 <= i < less.len() && less[i] == id;
                        assert(more[i] == id);
                    }
                    assert(more[place as int] == ids@[place as int]);
                }
                assert(found@ =~= before.union(more.to_set()));
            }
        }
        proof {
            let less = all.take(at as int);
            let more = all.take(at + 1);
            assert(ids@.take(ids@.len() as int) =~= ids@);
            assert forall|id: i64| found@.contains(id) == pictures_of(more).contains(id) by {
                if ids@.contains(id) {
                    let i = choose|i: int| 0 <= i < ids@.len() && ids@[i] == id;
                    assert(members[i].file_id == id);
                    assert(has_id(more[at as int].members, id));
                }
                if in_sets(less, id) {
                    let i = choose|i: int|
                        0 <= i < less.len() && has_id((#[trigger] less[i]).members, id);
                    assert(has_id(more[i].members, id));
                }
                if in_sets(more, id) {
                    let i = choose|i: int|
                        0 <= i < more.len() && has_id((#[trigger] more[i]).members, id);
                    if i < at {
                        assert(has_id(less[i].members, id));
                    } else {
                        let m = choose|m: int|
                            0 <= m < members.len() && (#[trigger] members[m]).file_id == id;
                        assert(ids@[m] == id);
                    }
                }
            }
            assert(found@ =~= pictures_of(more));
        }
    }
    assert(all.take(all.len() as int) =~= all);
    found
}

/// Whether some paths hold one.
fn path_among(paths: &Vec<String>, path: &String) -> (held: bool)
    ensures
        held == paths.deep_view().contains(path@),
{
    let ghost all = paths.deep_view();
    let mut at: usize = 0;
    while at < paths.len()
        invariant
            all == paths.deep_view(),
            at <= all.len(),
            forall|before: int| 0 <= before < at ==> #[trigger] all[before] != path@,
        decreases paths.len() - at,
    {
        assert(all[at as int] == paths@[at as int]@);
        if paths[at] == *path {
            return true;
        }
        at = at + 1;
    }
    false
}

/// A set without the pictures that are gone.
fn leave_in_set(set: &DuplicateSet, gone: &Vec<String>) -> (left: DuplicateSet)
    ensures
        left.deep_view() == set_left(set.deep_view(), gone.deep_view()),
{
    let ghost members = set.deep_view().members;
    let ghost paths = gone.deep_view();
    let mut kept: Vec<crate::sets::Member> = Vec::new();
    proof {
        reveal(Seq::filter);
        assert(kept.deep_view() =~= members.take(0).filter(still_there(paths)));
    }
    for at in 0..set.members.len()
        invariant
            members == set.deep_view().members,
            paths == gone.deep_view(),
            kept.deep_view() == members.take(at as int).filter(still_there(paths)),
    {
        let ghost before = kept.deep_view();
        proof {
            reveal(Seq::filter);
            assert(members.take(at + 1).drop_last() =~= members.take(at as int));
            assert(members[at as int] == set.members@[at as int].deep_view());
        }
        if !path_among(gone, &set.members[at].rel_path) {
            kept.push(set.members[at].copy());
            assert(kept.deep_view() =~= before.push(members[at as int]));
        }
    }
    assert(members.take(members.len() as int) =~= members);
    DuplicateSet { set_id: set.set_id, members: kept }
}

/// The sets without the pictures that are gone.
fn leave_sets(sets: &Vec<DuplicateSet>, gone: &Vec<String>) -> (left: Vec<DuplicateSet>)
    ensures
        left.deep_view() == sets_left(sets.deep_view(), gone.deep_view()),
{
    let ghost all = sets.deep_view();
    let ghost paths = gone.deep_view();
    let mut left: Vec<DuplicateSet> = Vec::new();
    assert(left.deep_view() =~= sets_left(all.take(0), paths));
    for at in 0..sets.len()
        invariant
            all == sets.deep_view(),
            paths == gone.deep_view(),
            left.deep_view() == sets_left(all.take(at as int), paths),
    {
        let ghost before = left.deep_view();
        proof {
            assert(all.take(at + 1).drop_last() =~= all.take(at as int));
            assert(all[at as int] == sets@[at as int].deep_view());
        }
        let set = leave_in_set(&sets[at], gone);
        if set.members.len() > 1 {
            let ghost shown = set.deep_view();
            left.push(set);
            assert(left.deep_view() =~= before.push(shown));
        }
    }
    assert(all.take(all.len() as int) =~= all);
    left
}

/// Cut the marks down to the sets and the pictures that are left.
fn leave_marks(keep: &mut HashMap<i64, Keep>, sets: &Vec<DuplicateSet>, here: &HashSet<i64>)
    requires
        here@ == pictures_of(sets.deep_view()),
    ensures
        marks_by_set(final(keep)@) == marks_left(marks_by_set(old(keep)@), sets.deep_view()),
        marks_told_apart(old(keep)@) ==> marks_told_apart(final(keep)@),
{
    let ids = marking_sets(keep);
    let ghost was = marks_by_set(keep@);
    let ghost left = marks_left(was, sets.deep_view());
    assert forall|i: int| 0 <= i < ids@.len() implies marks_by_set(keep@).contains_key(
        #[trigger] ids@[i],
    ) by {
        assert(ids@.contains(ids@[i]));
    }
    for at in 0..ids.len()
        invariant
            ids@.no_duplicates(),
            here@ == pictures_of(sets.deep_view()),
            was == marks_by_set(old(keep)@),
            left == marks_left(was, sets.deep_view()),
            forall|set_id: i64| #[trigger] ids@.contains(set_id) <==> was.contains_key(set_id),
            forall|i: int|
                at <= i < ids@.len() ==> marks_by_set(keep@).contains_key(#[trigger] ids@[i])
                    && marks_by_set(keep@)[ids@[i]] == was[ids@[i]],
            forall|i: int|
                0 <= i < at ==> (marks_by_set(keep@).contains_key(#[trigger] ids@[i])
                    <==> left.contains_key(ids@[i])),
            forall|i: int|
                0 <= i < at && left.contains_key(#[trigger] ids@[i]) ==> marks_by_set(keep@)[ids@[i]]
                    == left[ids@[i]],
            forall|set_id: i64| #[trigger]
                marks_by_set(keep@).contains_key(set_id) ==> was.contains_key(set_id),
            marks_told_apart(old(keep)@) ==> marks_told_apart(keep@),
    {
        let set_id = ids[at];
        assert(ids@.contains(ids@[at as int]));
        let marked = marks_for(keep, set_id);
        assert(marked@ == was[set_id]);
        if set_numbered(sets, set_id).is_some() {
            proof {
                the_first_is_the_first(sets.deep_view(), 0, numbered(set_id));
                assert(has_set(sets.deep_view(), set_id));
            }
            let now = ids_among(&marked, here);
            set_marks(keep, set_id, now);
        } else {
            proof {
                the_first_is_the_first(sets.deep_view(), 0, numbered(set_id));
                assert(!has_set(sets.deep_view(), set_id));
            }
            set_marks(keep, set_id, Vec::new());
        }
    }
    proof {
        assert forall|set_id: i64| #[trigger]
            marks_by_set(keep@).contains_key(set_id) <==> left.contains_key(set_id) by {
            if ids@.contains(set_id) {
                let i = choose|i: int| 0 <= i < ids@.len() && ids@[i] == set_id;
                assert(ids@[i] == set_id);
            }
        }
        assert forall|set_id: i64| #[trigger]
            left.contains_key(set_id) implies marks_by_set(keep@)[set_id] == left[set_id] by {
            assert(ids@.contains(set_id));
            let i = choose|i: int| 0 <= i < ids@.len() && ids@[i] == set_id;
            assert(ids@[i] == set_id);
        }
        assert(marks_by_set(keep@) =~= left);
    }
}

/// A picture, if it is in a set of them.
fn only_if_in(file_id: Option<i64>, here: &HashSet<i64>, sets: &Vec<DuplicateSet>) -> (kept: Option<
    i64,
>)
    requires
        here@ == pictures_of(sets.deep_view()),
    ensures
        kept == if_in(file_id, sets.deep_view()),
{
    match file_id {
        Some(id) => if here.contains(&id) {
            Some(id)
        } else {
            None
        },
        None => None,
    }
}

impl Review {
    /// Take every mark off every set, so the person can start choosing again, and
    /// say which came off: the marks of one set after another, in no particular
    /// order of the sets.
    ///
    /// A set nobody calls a set of copies is left alone, the way it is everywhere
    /// else: what it was keeping before it was ignored is what it gets back if it
    /// is taken back.
    pub fn unmark_everything(&mut self) -> (came_off: Vec<i64>)
        ensures
            final(self)@ == old(self)@.unmarked(),
            exists|order: Seq<i64>| #[trigger]
                names_the_unmarked(order, old(self)@.sets, old(self)@.keep, old(self)@.ignored)
                    && came_off@ == marks_together(old(self)@.keep, order),
            marks_told_apart(old(self).keep@) ==> marks_told_apart(final(self).keep@),
    {
        let ids = marking_sets(&self.keep);
        let ghost before = self@;
        let mut came_off: Vec<i64> = Vec::new();
        let ghost mut order: Seq<i64> = Seq::empty();
        for at in 0..ids.len()
            invariant
                before == old(self)@,
                self.sets == old(self).sets,
                self.ignored == old(self).ignored,
                self.plan == old(self).plan,
                self.selected == old(self).selected,
                self.showing == old(self).showing,
                self.scroll_to == old(self).scroll_to,
                self.list_to_top == old(self).list_to_top,
                self.show_selected == old(self).show_selected,
                self.filling_the_window == old(self).filling_the_window,
                ids@.no_duplicates(),
                forall|set_id: i64| #[trigger]
                    ids@.contains(set_id) <==> before.keep.contains_key(set_id),
                order.no_duplicates(),
                forall|set_id: i64| #[trigger]
                    order.contains(set_id) <==> ids@.take(at as int).contains(set_id)
                        && !left_alone(before.sets, before.ignored, set_id),
                came_off@ == marks_together(before.keep, order),
                forall|set_id: i64| #[trigger]
                    self@.keep.contains_key(set_id) <==> before.keep.contains_key(set_id)
                        && !order.contains(set_id),
                forall|set_id: i64| #[trigger]
                    self@.keep.contains_key(set_id) ==> self@.keep[set_id] == before.keep[set_id],
                marks_told_apart(old(self).keep@) ==> marks_told_apart(self.keep@),
        {
            let set_id = ids[at];
            let ghost less = ids@.take(at as int);
            let ghost more = ids@.take(at + 1);
            let ghost was = order;
            proof {
                assert(more =~= less.push(set_id));
                assert(ids@.contains(ids@[at as int]));
                assert(!less.contains(set_id)) by {
                    if less.contains(set_id) {
                        let i = choose|i: int| 0 <= i < less.len() && less[i] == set_id;
                        assert(ids@[i] == ids@[at as int]);
                    }
                }
                lemma_push_holds(less, set_id);
                assert(!was.contains(set_id));
                assert(self@.keep.contains_key(set_id));
            }
            if !is_left_alone(&self.sets, &self.ignored, set_id) {
                let mut marked = marks_for(&self.keep, set_id);
                came_off.append(&mut marked);
                set_marks(&mut self.keep, set_id, Vec::new());
                proof {
                    order = was.push(set_id);
                    assert(order.drop_last() =~= was);
                    lemma_push_holds(was, set_id);
                    assert forall|i: int, j: int|
                        0 <= i < order.len() && 0 <= j < order.len() && i != j implies order[i]
                        != order[j] by {
                        if i < was.len() && j == was.len() {
                            assert(was.contains(was[i]));
                        }
                        if j < was.len() && i == was.len() {
                            assert(was.contains(was[j]));
                        }
                    }
                }
            }
        }
        proof {
            assert(ids@.take(ids@.len() as int) =~= ids@);
            assert(names_the_unmarked(order, before.sets, before.keep, before.ignored));
            assert(self@.keep =~= before.unmarked().keep);
        }
        self.replan();
        came_off
    }

    /// Mark or unmark the picture the preview is showing, which is what the space
    /// bar and a double click both do, and say which picture that was and whether
    /// the mark came off.
    ///
    /// One already marked comes off, and a set can end up marked with nothing.
    /// One that is not marked goes on, beside whatever the set already marks: a
    /// mark says to keep this picture and says nothing about any other, so marking
    /// one never unmarks another.
    ///
    /// A set nobody calls a set of copies keeps nothing and loses nothing, so
    /// there is no mark in it to move. What it kept before it was ignored is left
    /// exactly as it was, for the day somebody takes it back.
    pub fn keep_selected(&mut self) -> (changed: Option<(i64, bool)>)
        ensures
            final(self)@ == old(self)@.toggled(),
            changed == match old(self)@.set_of_selected() {
                None => None,
                Some(at) => Some(
                    (
                        old(self).selected->0,
                        old(self)@.marks(old(self)@.sets[at].set_id).contains(
                            old(self).selected->0,
                        ),
                    ),
                ),
            },
            marks_told_apart(old(self).keep@) ==> marks_told_apart(final(self).keep@),
    {
        let Some(file_id) = self.selected else {
            return None;
        };
        let Some(at) = set_holding(&self.sets, file_id) else {
            return None;
        };
        assert(self@.sets[at as int] == self.sets@[at as int].deep_view());
        if is_ignored(&self.sets[at], &self.ignored) {
            return None;
        }
        let set_id = self.sets[at].set_id;
        let ghost marks = self@.marks(set_id);
        let coming_off = keeps(self.keep.get(&set_id), file_id);
        if coming_off {
            let now = unmarked(self.keep.get(&set_id), file_id);
            set_entry(&mut self.keep, set_id, now, Ghost(without(marks, file_id)));
        } else {
            let now = marked(self.keep.get(&set_id), file_id);
            set_entry(&mut self.keep, set_id, now, Ghost(with_one_more(marks, file_id)));
        }
        self.replan();
        Some((file_id, coming_off))
    }

    /// Make the picture the preview is showing the one thing its set keeps,
    /// which is what shift and the space bar, or shift and a double click, do, and
    /// say which marks came off for it.
    ///
    /// Not a toggle. It says which picture, so pressing it on the one already
    /// marked leaves it marked, and every other mark in that set comes off. As
    /// with the toggle, a set nobody calls a set of copies is left as it was.
    pub fn keep_only_selected(&mut self) -> (changed: Option<(Vec<i64>, i64)>)
        ensures
            final(self)@ == old(self)@.kept_alone(),
            changed.deep_view() == match old(self)@.set_of_selected() {
                None => None,
                Some(at) => Some(
                    (
                        without(
                            old(self)@.marks(old(self)@.sets[at].set_id),
                            old(self).selected->0,
                        ),
                        old(self).selected->0,
                    ),
                ),
            },
            marks_told_apart(old(self).keep@) ==> marks_told_apart(final(self).keep@),
    {
        let Some(file_id) = self.selected else {
            return None;
        };
        let Some(at) = set_holding(&self.sets, file_id) else {
            return None;
        };
        assert(self@.sets[at as int] == self.sets@[at as int].deep_view());
        if is_ignored(&self.sets[at], &self.ignored) {
            return None;
        }
        let set_id = self.sets[at].set_id;
        let came_off = self.keep_this_one(set_id, file_id);
        assert(came_off.deep_view() =~= came_off@);
        Some((came_off, file_id))
    }

    /// Make a picture the one thing its set keeps, which is what the button over
    /// the preview does, and say which marks came off for it.
    pub fn keep_this_one(&mut self, set_id: i64, file_id: i64) -> (came_off: Vec<i64>)
        ensures
            final(self)@ == old(self)@.marking(set_id, seq![file_id]),
            came_off@ == without(old(self)@.marks(set_id), file_id),
            marks_told_apart(old(self).keep@) ==> marks_told_apart(final(self).keep@),
    {
        let marks = marks_for(&self.keep, set_id);
        let came_off = leave_out(&marks, file_id);
        let mut alone: Vec<i64> = Vec::new();
        alone.push(file_id);
        assert(alone@ =~= seq![file_id]);
        set_marks(&mut self.keep, set_id, alone);
        self.replan();
        came_off
    }

    /// Mark every picture in a set, and say which were not marked before. A
    /// cleanup takes nothing from it, the same as a set nobody has reached, but
    /// the set says so rather than looking untouched.
    pub fn keep_all_of(&mut self, at: usize) -> (went_on: Vec<i64>)
        requires
            at < old(self).sets@.len(),
        ensures
            final(self)@ == old(self)@.pressed(at as int, SetAction::KeepAll),
            went_on@ == not_among(
                ids_of(old(self)@.sets[at as int].members),
                old(self)@.marks(old(self)@.sets[at as int].set_id),
            ),
            marks_told_apart(old(self).keep@) ==> marks_told_apart(final(self).keep@),
    {
        assert(self@.sets[at as int] == self.sets@[at as int].deep_view());
        let set_id = self.sets[at].set_id;
        let all = self.sets[at].ids();
        let already = marks_for(&self.keep, set_id);
        let went_on = leave_out_all(&all, &already);
        set_marks(&mut self.keep, set_id, all);
        self.replan();
        went_on
    }

    /// Take every mark off a set, and say which came off. That leaves the set
    /// losing nothing, the same as one nobody has reached.
    pub fn keep_none_of(&mut self, at: usize) -> (came_off: Vec<i64>)
        requires
            at < old(self).sets@.len(),
        ensures
            final(self)@ == old(self)@.pressed(at as int, SetAction::KeepNone),
            came_off@ == old(self)@.marks(old(self)@.sets[at as int].set_id),
            marks_told_apart(old(self).keep@) ==> marks_told_apart(final(self).keep@),
    {
        assert(self@.sets[at as int] == self.sets@[at as int].deep_view());
        let set_id = self.sets[at].set_id;
        let came_off = marks_for(&self.keep, set_id);
        set_marks(&mut self.keep, set_id, Vec::new());
        self.replan();
        came_off
    }

    /// Open the preview on the keeper of the first set that is a set of copies,
    /// so the review starts on a picture rather than on an invitation to click
    /// one. A review of nothing but ignored sets opens on nothing.
    pub fn preselect_first_keeper(&mut self)
        ensures
            final(self)@ == old(self)@.opened(),
            final(self).keep == old(self).keep,
    {
        let opening: Option<i64> = match set_of_copies(&self.sets, &self.ignored) {
            None => None,
            Some(at) => {
                let set = &self.sets[at];
                assert(self@.sets[at as int] == self.sets@[at as int].deep_view());
                match self.keep.get(&set.set_id) {
                    Some(Keep::One(file_id)) => Some(*file_id),
                    Some(Keep::Several(kept)) => if kept.len() > 0 {
                        Some(kept[0])
                    } else {
                        None
                    },
                    None => if set.members.len() > 0 {
                        assert(self@.sets[at as int].members[0] == set.members@[0].deep_view());
                        Some(set.members[0].file_id)
                    } else {
                        None
                    },
                }
            },
        };
        self.selected = opening;
        self.showing = None;
    }

    /// Let the sets go, and everything that was about them.
    pub fn clear(&mut self)
        ensures
            final(self)@ == old(self)@.emptied(),
            marks_told_apart(final(self).keep@),
    {
        self.sets.clear();
        self.keep.clear();
        self.selected = None;
        self.showing = None;
        assert(self.sets.deep_view() =~= Seq::<SetView>::empty());
        assert(marks_by_set(self.keep@) =~= Map::<i64, Seq<i64>>::empty());
        self.replan();
    }

    /// Take the files that are gone out of the sets on screen. A set with one
    /// picture left is not a duplicate set any more. Each surviving set's marks
    /// are cut down to the pictures still in it, so no mark names a file that has
    /// gone.
    pub fn forget_members(&mut self, removed: &Vec<String>)
        ensures
            final(self)@ == old(self)@.forgetting(removed.deep_view()),
            marks_told_apart(old(self).keep@) ==> marks_told_apart(final(self).keep@),
    {
        if removed.len() == 0 {
            return;
        }
        let left = leave_sets(&self.sets, removed);
        let here = pictures(&left);
        leave_marks(&mut self.keep, &left, &here);
        self.selected = only_if_in(self.selected, &here, &left);
        self.showing = only_if_in(self.showing, &here, &left);
        self.sets = left;
        self.replan();
    }
}

proof fn lemma_push_holds(row: Seq<i64>, one: i64)
    ensures
        forall|other: i64| #[trigger]
            row.push(one).contains(other) <==> row.contains(other) || other == one,
{
    let more = row.push(one);
    assert forall|other: i64| #[trigger]
        more.contains(other) <==> row.contains(other) || other == one by {
        if more.contains(other) {
            let i = choose|i: int| 0 <= i < more.len() && more[i] == other;
            if i < row.len() {
                assert(row[i] == other);
            }
        }
        if row.contains(other) {
            let i = choose|i: int| 0 <= i < row.len() && row[i] == other;
            assert(more[i] == other);
        }
        assert(more[row.len() as int] == one);
    }
}

} // verus!
