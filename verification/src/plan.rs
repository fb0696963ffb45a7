//! What a cleanup would take, as the marks on the sets imply it.

use std::collections::HashMap;

use vstd::prelude::*;

use crate::keep::{holds, marks, Keep};
use crate::pairs::Pairs;
use crate::sets::{pair, pair_of, DuplicateSet, Member, MemberView, SetView};

verus! {

broadcast use vstd::std_specs::hash::group_hash_axioms;

/// One file a cleanup would take.
pub struct Removal {
    pub file_id: i64,
    pub rel_path: String,
    pub size_bytes: i64,
}

/// What a file to be taken is, as the contracts speak of it.
#[verifier::ext_equal]
pub struct RemovalView {
    pub file_id: i64,
    pub rel_path: Seq<char>,
    pub size_bytes: i64,
}

impl DeepView for Removal {
    type V = RemovalView;

    open spec fn deep_view(&self) -> RemovalView {
        RemovalView {
            file_id: self.file_id,
            rel_path: self.rel_path@,
            size_bytes: self.size_bytes,
        }
    }
}

/// Everything a cleanup would take, in the order the sets stand in.
pub struct Plan {
    pub removals: Vec<Removal>,
}

impl View for Plan {
    type V = Seq<RemovalView>;

    open spec fn view(&self) -> Seq<RemovalView> {
        self.removals.deep_view()
    }
}

/// The taking of a picture.
pub open spec fn removal_of(member: MemberView) -> RemovalView {
    RemovalView {
        file_id: member.file_id,
        rel_path: member.rel_path,
        size_bytes: member.size_bytes,
    }
}

/// The marks on each set, by the number of the set.
pub open spec fn marks_by_set(keep: Map<i64, Keep>) -> Map<i64, Seq<i64>> {
    Map::new(|set_id: i64| keep.contains_key(set_id), |set_id: i64| keep[set_id]@)
}

/// What a set marks: nothing where it has no entry.
pub open spec fn marks_on(keep: Map<i64, Seq<i64>>, set_id: i64) -> Seq<i64> {
    if keep.contains_key(set_id) {
        keep[set_id]
    } else {
        Seq::empty()
    }
}

/// Whether every picture in a set has been said not to be a copy of every other
/// picture in it.
pub open spec fn all_ignored(members: Seq<MemberView>, ignored: Set<(i64, i64)>) -> bool {
    &&& members.len() >= 2
    &&& forall|i: int, j: int|
        0 <= i < j < members.len() ==> ignored.contains(
            pair_of((#[trigger] members[i]).file_id, (#[trigger] members[j]).file_id),
        )
}

/// Everything in a set that is not marked.
pub open spec fn losses(members: Seq<MemberView>, marks: Seq<i64>) -> Seq<RemovalView>
    decreases members.len(),
{
    if members.len() == 0 {
        Seq::empty()
    } else {
        let before = losses(members.drop_last(), marks);
        if marks.contains(members.last().file_id) {
            before
        } else {
            before.push(removal_of(members.last()))
        }
    }
}

/// What goes from a set: what is marked is kept and everything else goes. From a
/// set marked with nothing, which nobody has reached, and from one that is not a
/// set of copies, nothing goes.
pub open spec fn goes_from(
    set: SetView,
    keep: Map<i64, Seq<i64>>,
    ignored: Set<(i64, i64)>,
) -> Seq<RemovalView> {
    if all_ignored(set.members, ignored) || marks_on(keep, set.set_id).len() == 0 {
        Seq::empty()
    } else {
        losses(set.members, marks_on(keep, set.set_id))
    }
}

/// What a cleanup takes: what goes from each set, set after set.
pub open spec fn plan_of(
    sets: Seq<SetView>,
    keep: Map<i64, Seq<i64>>,
    ignored: Set<(i64, i64)>,
) -> Seq<RemovalView>
    decreases sets.len(),
{
    if sets.len() == 0 {
        Seq::empty()
    } else {
        plan_of(sets.drop_last(), keep, ignored) + goes_from(sets.last(), keep, ignored)
    }
}

/// The bytes some files are together.
pub open spec fn bytes_of(removals: Seq<RemovalView>) -> int
    decreases removals.len(),
{
    if removals.len() == 0 {
        0
    } else {
        bytes_of(removals.drop_last()) + removals.last().size_bytes
    }
}

impl Plan {
    /// A plan to take nothing.
    pub fn empty() -> (plan: Plan)
        ensures
            plan@ == Seq::<RemovalView>::empty(),
    {
        let plan = Plan { removals: Vec::new() };
        assert(plan@ =~= Seq::<RemovalView>::empty());
        plan
    }

    /// How many files it takes.
    pub fn files(&self) -> (count: usize)
        ensures
            count == self@.len(),
    {
        self.removals.len()
    }

    /// How many bytes they are.
    pub fn bytes(&self) -> (total: i128)
        ensures
            total == bytes_of(self@),
    {
        let mut total: i128 = 0;
        for at in 0..self.removals.len()
            invariant
                total == bytes_of(self@.take(at as int)),
                -0x8000_0000_0000_0000 * at <= total <= 0x7fff_ffff_ffff_ffff * at,
                self.removals@.len() <= 0xffff_ffff_ffff_ffff,
        {
            proof {
                assert(self@.take(at + 1).drop_last() =~= self@.take(at as int));
            }
            total = total + self.removals[at].size_bytes as i128;
        }
        assert(self@.take(self@.len() as int) =~= self@);
        total
    }
}

/// What a set marks, none where it has no entry.
pub fn marks_for(keep: &HashMap<i64, Keep>, set_id: i64) -> (marked: Vec<i64>)
    ensures
        marked@ == marks_on(marks_by_set(keep@), set_id),
{
    marks(keep.get(&set_id))
}

/// Whether every picture in a set has been said not to be a copy of every other
/// picture in it. A set like that is shown, so it can be seen and changed back,
/// and nothing else in the program acts on it.
///
/// Every pair, not some: a set where two of five have been separated is still a
/// set of copies, and the three that are copies still are.
pub fn is_ignored(set: &DuplicateSet, ignored: &Pairs) -> (all: bool)
    ensures
        all == all_ignored(set.deep_view().members, ignored@),
{
    let ghost members = set.deep_view().members;
    if set.members.len() < 2 {
        return false;
    }
    let mut at: usize = 0;
    while at < set.members.len()
        invariant
            members == set.deep_view().members,
            at <= members.len(),
            forall|i: int, j: int|
                0 <= i < at && i < j < members.len() ==> ignored@.contains(
                    pair_of((#[trigger] members[i]).file_id, (#[trigger] members[j]).file_id),
                ),
        decreases set.members.len() - at,
    {
        let mut other: usize = at + 1;
        while other < set.members.len()
            invariant
                members == set.deep_view().members,
                at < members.len(),
                at + 1 <= other <= members.len(),
                forall|i: int, j: int|
                    0 <= i < at && i < j < members.len() ==> ignored@.contains(
                        pair_of((#[trigger] members[i]).file_id, (#[trigger] members[j]).file_id),
                    ),
                forall|j: int|
                    at < j < other ==> ignored@.contains(
                        pair_of(members[at as int].file_id, (#[trigger] members[j]).file_id),
                    ),
            decreases set.members.len() - other,
        {
            if !ignored.contains(pair(set.members[at].file_id, set.members[other].file_id)) {
                assert(!ignored@.contains(
                    pair_of(members[at as int].file_id, members[other as int].file_id),
                ));
                return false;
            }
            other = other + 1;
        }
        at = at + 1;
    }
    true
}

fn take(member: &Member) -> (removal: Removal)
    ensures
        removal.deep_view() == removal_of(member.deep_view()),
{
    Removal {
        file_id: member.file_id,
        rel_path: member.rel_path.clone(),
        size_bytes: member.size_bytes,
    }
}

/// What the marks imply.
///
/// What is marked is kept and everything else in that set goes. A set marked
/// with nothing is a set nobody has reached, and none of it goes. A set nobody
/// calls a set of copies is a set nothing happens to: not kept, not removed, not
/// counted.
pub fn build_plan(sets: &Vec<DuplicateSet>, keep: &HashMap<i64, Keep>, ignored: &Pairs) -> (plan:
    Plan)
    ensures
        plan@ == plan_of(sets.deep_view(), marks_by_set(keep@), ignored@),
{
    let ghost all = sets.deep_view();
    let ghost said = marks_by_set(keep@);
    let mut removals: Vec<Removal> = Vec::new();
    assert(removals.deep_view() =~= plan_of(all.take(0), said, ignored@));
    for at in 0..sets.len()
        invariant
            all == sets.deep_view(),
            said == marks_by_set(keep@),
            removals.deep_view() == plan_of(all.take(at as int), said, ignored@),
    {
        let set = &sets[at];
        let marked = marks_for(keep, set.set_id);
        let ghost before = removals.deep_view();
        proof {
            assert(all.take(at + 1).drop_last() =~= all.take(at as int));
            assert(all.take(at + 1).last() == all[at as int]);
            assert(all[at as int] == set.deep_view());
        }
        if marked.len() > 0 && !is_ignored(set, ignored) {
            let ghost members = set.deep_view().members;
            assert(before + losses(members.take(0), marked@) =~= before);
            for place in 0..set.members.len()
                invariant
                    members == set.deep_view().members,
                    removals.deep_view() == before + losses(members.take(place as int), marked@),
            {
                let ghost so_far = removals.deep_view();
                proof {
                    assert(members.take(place + 1).drop_last() =~= members.take(place as int));
                    assert(members.take(place + 1).last() == members[place as int]);
                }
                if !holds(&marked, set.members[place].file_id) {
                    removals.push(take(&set.members[place]));
                    assert(removals.deep_view() =~= so_far.push(removal_of(members[place as int])));
                    assert(removals.deep_view() =~= before + losses(
                        members.take(place + 1),
                        marked@,
                    ));
                }
            }
            assert(members.take(members.len() as int) =~= members);
        } else {
            assert(removals.deep_view() =~= before + Seq::<RemovalView>::empty());
        }
    }
    assert(all.take(all.len() as int) =~= all);
    Plan { removals }
}

/// Whether a place in the sets holds a picture a cleanup takes: one that is not
/// marked, in a set that marks something and is a set of copies.
pub open spec fn is_taken(
    sets: Seq<SetView>,
    keep: Map<i64, Seq<i64>>,
    ignored: Set<(i64, i64)>,
    set: int,
    member: int,
) -> bool {
    &&& 0 <= set < sets.len()
    &&& 0 <= member < sets[set].members.len()
    &&& !all_ignored(sets[set].members, ignored)
    &&& marks_on(keep, sets[set].set_id).len() > 0
    &&& !marks_on(keep, sets[set].set_id).contains(sets[set].members[member].file_id)
}

/// A cleanup takes exactly the pictures that are not marked in the sets that mark
/// something and are sets of copies: each of those is in the plan, and whatever is
/// in the plan is one of those.
pub proof fn a_cleanup_takes_what_is_not_marked(
    sets: Seq<SetView>,
    keep: Map<i64, Seq<i64>>,
    ignored: Set<(i64, i64)>,
    removal: RemovalView,
)
    ensures
        plan_of(sets, keep, ignored).contains(removal) <==> exists|set: int, member: int|
            #[trigger] is_taken(sets, keep, ignored, set, member) && removal == removal_of(
                sets[set].members[member],
            ),
    decreases sets.len(),
{
    if sets.len() > 0 {
        let rest = sets.drop_last();
        let last = sets.last();
        a_cleanup_takes_what_is_not_marked(rest, keep, ignored, removal);
        lemma_losses(last.members, marks_on(keep, last.set_id), removal);
        let before = plan_of(rest, keep, ignored);
        let added = goes_from(last, keep, ignored);
        let all = plan_of(sets, keep, ignored);
        if all.contains(removal) {
            let at = choose|at: int| 0 <= at < all.len() && all[at] == removal;
            if at < before.len() {
                assert(before[at] == removal);
                let (set, member) = choose|set: int, member: int|
                    #[trigger] is_taken(rest, keep, ignored, set, member) && removal == removal_of(
                        rest[set].members[member],
                    );
                assert(is_taken(sets, keep, ignored, set, member));
            } else {
                assert(added[at - before.len()] == removal);
                let member = choose|member: int|
                    0 <= member < last.members.len() && !marks_on(keep, last.set_id).contains(
                        (#[trigger] last.members[member]).file_id,
                    ) && removal == removal_of(last.members[member]);
                assert(is_taken(sets, keep, ignored, sets.len() - 1, member));
            }
        }
        if exists|set: int, member: int|
            #[trigger] is_taken(sets, keep, ignored, set, member) && removal == removal_of(
                sets[set].members[member],
            ) {
            let (set, member) = choose|set: int, member: int|
                #[trigger] is_taken(sets, keep, ignored, set, member) && removal == removal_of(
                    sets[set].members[member],
                );
            if set < rest.len() {
                assert(is_taken(rest, keep, ignored, set, member));
                let at = choose|at: int| 0 <= at < before.len() && before[at] == removal;
                assert(all[at] == removal);
            } else {
                assert(last.members[member] == sets[set].members[member]);
                let at = choose|at: int| 0 <= at < added.len() && added[at] == removal;
                assert(all[before.len() + at] == removal);
            }
        }
    }
}

proof fn lemma_losses(members: Seq<MemberView>, marks: Seq<i64>, removal: RemovalView)
    ensures
        losses(members, marks).contains(removal) <==> exists|member: int|
            0 <= member < members.len() && !marks.contains((#[trigger] members[member]).file_id)
                && removal == removal_of(members[member]),
    decreases members.len(),
{
    if members.len() > 0 {
        let rest = members.drop_last();
        lemma_losses(rest, marks, removal);
        let before = losses(rest, marks);
        let all = losses(members, marks);
        if all.contains(removal) {
            let at = choose|at: int| 0 <= at < all.len() && all[at] == removal;
            if at < before.len() {
                assert(before[at] == removal);
                let member = choose|member: int|
                    0 <= member < rest.len() && !marks.contains((#[trigger] rest[member]).file_id)
                        && removal == removal_of(rest[member]);
                assert(members[member] == rest[member]);
            } else {
                assert(members[members.len() - 1] == members.last());
            }
        }
        if exists|member: int|
            0 <= member < members.len() && !marks.contains((#[trigger] members[member]).file_id)
                && removal == removal_of(members[member]) {
            let member = choose|member: int|
                0 <= member < members.len() && !marks.contains((#[trigger] members[member]).file_id)
                    && removal == removal_of(members[member]);
            if member < rest.len() {
                assert(rest[member] == members[member]);
                let at = choose|at: int| 0 <= at < before.len() && before[at] == removal;
                assert(all[at] == removal);
            } else {
                assert(all[before.len() as int] == removal);
            }
        }
    }
}

/// A set that is not a set of copies loses nothing, and neither does one that
/// marks nothing.
pub proof fn an_ignored_set_and_an_unreached_set_lose_nothing(
    set: SetView,
    keep: Map<i64, Seq<i64>>,
    ignored: Set<(i64, i64)>,
)
    requires
        all_ignored(set.members, ignored) || marks_on(keep, set.set_id).len() == 0,
    ensures
        goes_from(set, keep, ignored) == Seq::<RemovalView>::empty(),
{
}

/// Where no set loses anything, a cleanup takes nothing.
pub proof fn nothing_goes_where_no_set_loses_anything(
    sets: Seq<SetView>,
    keep: Map<i64, Seq<i64>>,
    ignored: Set<(i64, i64)>,
)
    requires
        forall|at: int|
            0 <= at < sets.len() ==> goes_from(#[trigger] sets[at], keep, ignored).len() == 0,
    ensures
        plan_of(sets, keep, ignored) == Seq::<RemovalView>::empty(),
    decreases sets.len(),
{
    if sets.len() > 0 {
        let rest = sets.drop_last();
        assert forall|at: int| 0 <= at < rest.len() implies goes_from(
            #[trigger] rest[at],
            keep,
            ignored,
        ).len() == 0 by {
            assert(rest[at] == sets[at]);
        }
        nothing_goes_where_no_set_loses_anything(rest, keep, ignored);
        assert(sets[sets.len() - 1] == sets.last());
        assert(plan_of(sets, keep, ignored) =~= Seq::<RemovalView>::empty());
    } else {
        assert(plan_of(sets, keep, ignored) =~= Seq::<RemovalView>::empty());
    }
}

/// A set all of whose pictures are marked loses nothing.
pub proof fn a_set_kept_whole_loses_nothing(members: Seq<MemberView>, marks: Seq<i64>)
    requires
        forall|at: int|
            0 <= at < members.len() ==> marks.contains((#[trigger] members[at]).file_id),
    ensures
        losses(members, marks) == Seq::<RemovalView>::empty(),
    decreases members.len(),
{
    if members.len() > 0 {
        let rest = members.drop_last();
        assert forall|at: int| 0 <= at < rest.len() implies marks.contains(
            (#[trigger] rest[at]).file_id,
        ) by {
            assert(rest[at] == members[at]);
        }
        a_set_kept_whole_loses_nothing(rest, marks);
        assert(members[members.len() - 1] == members.last());
    }
}

/// Separating some pairs of a set leaves it a set of copies as long as one pair of
/// its pictures is not separated.
pub proof fn separating_some_pairs_changes_nothing(
    members: Seq<MemberView>,
    ignored: Set<(i64, i64)>,
    one: int,
    other: int,
)
    requires
        0 <= one < other < members.len(),
        !ignored.contains(pair_of(members[one].file_id, members[other].file_id)),
    ensures
        !all_ignored(members, ignored),
{
}

} // verus!
