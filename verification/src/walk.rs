//! Moving the preview through the list of sets with the cursor keys.

use vstd::prelude::*;

use crate::finding::{first, first_from, the_first_is_the_first};
use crate::plan::{all_ignored, is_ignored};
use crate::review::{Review, ReviewView};
use crate::sets::{has_id, DuplicateSet, MemberView, SetView};
use crate::state::{a_step_lands_on_a_picture, stands, step, stepped, Direction};

verus! {

/// How many pictures each set on screen holds.
pub open spec fn counts_of(sets: Seq<SetView>, visible: Seq<usize>) -> Seq<usize> {
    visible.map_values(|at: usize| sets[at as int].members.len() as usize)
}

/// Which of the sets on screen are not sets of copies.
pub open spec fn alone_of(
    sets: Seq<SetView>,
    visible: Seq<usize>,
    ignored: Set<(i64, i64)>,
) -> Seq<bool> {
    visible.map_values(|at: usize| all_ignored(sets[at as int].members, ignored))
}

/// The picture with an id.
pub open spec fn called(file_id: i64) -> spec_fn(MemberView) -> bool {
    |member: MemberView| member.file_id == file_id
}

/// The sets on screen that hold a picture.
pub open spec fn shown_with(sets: Seq<SetView>, file_id: i64) -> spec_fn(usize) -> bool {
    |at: usize| has_id(sets[at as int].members, file_id)
}

/// Where a picture is in the list on screen, as a set and a place in it.
pub open spec fn position_of(sets: Seq<SetView>, visible: Seq<usize>, file_id: i64) -> Option<
    (int, int),
> {
    match first(visible, shown_with(sets, file_id)) {
        None => None,
        Some(set) => match first(sets[visible[set] as int].members, called(file_id)) {
            None => None,
            Some(member) => Some((set, member)),
        },
    }
}

/// Whether a way runs towards the end of the list.
pub open spec fn runs_on(direction: Direction) -> bool {
    direction is Forward || direction is NextSet
}

/// The place in a set that is stepped over from: its last picture going forward,
/// its first going back, and the place itself going a set at a time.
pub open spec fn leaving(counts: Seq<usize>, set: int, member: int, direction: Direction) -> int {
    match direction {
        Direction::Forward => counts[set] - 1,
        Direction::Back => 0,
        _ => member,
    }
}

/// Where a move that has landed somewhere ends up: there, or in the next set that
/// is a set of copies where that one is not.
pub open spec fn past_ignored(
    counts: Seq<usize>,
    alone: Seq<bool>,
    set: int,
    member: int,
    direction: Direction,
) -> Option<(int, int)>
    decreases
            if runs_on(direction) {
                counts.len() - set
            } else {
                set + 1
            },
{
    if !(0 <= set < alone.len() && alone[set]) {
        Some((set, member))
    } else {
        match stepped(counts, set, leaving(counts, set, member, direction), direction) {
            None => None,
            Some((to, at)) => past_ignored(counts, alone, to, at, direction),
        }
    }
}

/// Where a cursor key moves the preview from a place in the list.
pub open spec fn walked_to(
    counts: Seq<usize>,
    alone: Seq<bool>,
    set: int,
    member: int,
    direction: Direction,
) -> Option<(int, int)> {
    match stepped(counts, set, member, direction) {
        None => None,
        Some((to, at)) => past_ignored(counts, alone, to, at, direction),
    }
}

impl ReviewView {
    /// The review once a cursor key has moved the preview.
    pub open spec fn walked(self, visible: Seq<usize>, direction: Direction) -> ReviewView {
        match self.selected {
            None => self,
            Some(file_id) => match position_of(self.sets, visible, file_id) {
                None => self,
                Some((set, member)) => match walked_to(
                    counts_of(self.sets, visible),
                    alone_of(self.sets, visible, self.ignored),
                    set,
                    member,
                    direction,
                ) {
                    None => self,
                    Some((to, at)) => ReviewView {
                        selected: Some(self.sets[visible[to] as int].members[at].file_id),
                        scroll_to: Some(to as usize),
                        show_selected: true,
                        ..self
                    },
                },
            },
        }
    }
}

/// Whether every place of a list is one of the sets.
pub open spec fn all_shown(sets: Seq<SetView>, visible: Seq<usize>) -> bool {
    forall|at: int| 0 <= at < visible.len() ==> (#[trigger] visible[at]) < sets.len()
}

pub(crate) fn member_called(set: &DuplicateSet, file_id: i64) -> (found: Option<usize>)
    ensures
        match found {
            Some(at) => first(set.deep_view().members, called(file_id)) == Some(at as int) && at
                < set.members@.len(),
            None => first(set.deep_view().members, called(file_id)) is None,
        },
        found is Some <==> has_id(set.deep_view().members, file_id),
{
    let ghost members = set.deep_view().members;
    proof {
        the_first_is_the_first(members, 0, called(file_id));
    }
    let mut at: usize = 0;
    while at < set.members.len()
        invariant
            members == set.deep_view().members,
            at <= members.len(),
            first(members, called(file_id)) == first_from(members, at as int, called(file_id)),
            forall|before: int| 0 <= before < at ==> (#[trigger] members[before]).file_id != file_id,
        decreases set.members.len() - at,
    {
        assert(members[at as int] == set.members@[at as int].deep_view());
        if set.members[at].file_id == file_id {
            return Some(at);
        }
        at = at + 1;
    }
    None
}

/// Where a walk ends, and that it steps over what is not a set of copies: it ends
/// on a picture of a set of copies, every set it passes is not one, and it goes
/// nowhere only where no set that way is one.
pub proof fn a_walk_steps_over_ignored_sets(
    counts: Seq<usize>,
    alone: Seq<bool>,
    set: int,
    member: int,
    direction: Direction,
)
    requires
        alone.len() == counts.len(),
        forall|at: int| 0 <= at < counts.len() ==> #[trigger] counts[at] > 0,
        0 <= set < counts.len(),
        0 <= member < counts[set],
    ensures
        match past_ignored(counts, alone, set, member, direction) {
            Some((to, at)) => {
                &&& 0 <= to < counts.len()
                &&& 0 <= at < counts[to]
                &&& !alone[to]
                &&& runs_on(direction) ==> set <= to && forall|between: int|
                    set <= between < to ==> #[trigger] alone[between]
                &&& !runs_on(direction) ==> to <= set && forall|between: int|
                    to < between <= set ==> #[trigger] alone[between]
            },
            None => if runs_on(direction) {
                forall|after: int| set <= after < counts.len() ==> #[trigger] alone[after]
            } else {
                forall|before: int| 0 <= before <= set ==> #[trigger] alone[before]
            },
        },
    decreases
            if runs_on(direction) {
                counts.len() - set
            } else {
                set + 1
            },
{
    if alone[set] {
        let leave = leaving(counts, set, member, direction);
        assert(stands(counts, set));
        if runs_on(direction) {
            if set + 1 < counts.len() {
                assert(stands(counts, set + 1));
            }
        } else if set > 0 {
            assert(stands(counts, set - 1));
        }
        match stepped(counts, set, leave, direction) {
            None => {},
            Some((to, at)) => {
                a_walk_steps_over_ignored_sets(counts, alone, to, at, direction);
            },
        }
    }
}

impl Review {
    /// Where the preview is in the list on screen, as a set and a place in it.
    pub fn position(&self, visible: &Vec<usize>) -> (found: Option<(usize, usize)>)
        requires
            all_shown(self@.sets, visible@),
        ensures
            crate::state::place(found) == match self.selected {
                None => None,
                Some(file_id) => position_of(self@.sets, visible@, file_id),
            },
    {
        let Some(file_id) = self.selected else {
            return None;
        };
        let ghost sets = self@.sets;
        let mut at: usize = 0;
        while at < visible.len()
            invariant
                sets == self@.sets,
                self.selected == Some(file_id),
                all_shown(sets, visible@),
                at <= visible@.len(),
                first(visible@, shown_with(sets, file_id)) == first_from(
                    visible@,
                    at as int,
                    shown_with(sets, file_id),
                ),
            decreases visible.len() - at,
        {
            let index: usize = visible[at];
            assert(visible@[at as int] < sets.len());
            assert(sets[index as int] == self.sets@[index as int].deep_view());
            if let Some(member) = member_called(&self.sets[index], file_id) {
                assert(shown_with(sets, file_id)(visible@[at as int]));
                return Some((at, member));
            }
            at = at + 1;
        }
        None
    }

    /// Move the preview with the cursor keys. Nothing happens at either end.
    ///
    /// A set nobody calls a set of copies is not somewhere to be: the keys step
    /// over it to the next set that is one, and stop where they are when there is
    /// none.
    pub fn walk(&mut self, visible: &Vec<usize>, direction: Direction)
        requires
            all_shown(old(self)@.sets, visible@),
        ensures
            final(self)@ == old(self)@.walked(visible@, direction),
            final(self).keep == old(self).keep,
    {
        let ghost sets = self@.sets;
        let ghost counted = counts_of(sets, visible@);
        let ghost said = alone_of(sets, visible@, self@.ignored);
        let mut counts: Vec<usize> = Vec::new();
        let mut alone: Vec<bool> = Vec::new();
        for at in 0..visible.len()
            invariant
                sets == self@.sets,
                all_shown(sets, visible@),
                counted == counts_of(sets, visible@),
                said == alone_of(sets, visible@, self@.ignored),
                counts@ == counted.take(at as int),
                alone@ == said.take(at as int),
                forall|before: int|
                    0 <= before < at ==> #[trigger] counted[before]
                        == sets[visible@[before] as int].members.len(),
        {
            let index: usize = visible[at];
            assert(visible@[at as int] < sets.len());
            assert(sets[index as int] == self.sets@[index as int].deep_view());
            let held: usize = self.sets[index].members.len();
            assert(counted[at as int] == held);
            counts.push(held);
            alone.push(is_ignored(&self.sets[index], &self.ignored));
            assert(counts@ =~= counted.take(at + 1));
            assert(alone@ =~= said.take(at + 1));
        }
        assert(counts@ =~= counted);
        assert(alone@ =~= said);
        let Some(at) = self.position(visible) else {
            return;
        };
        proof {
            let file_id = self.selected->0;
            the_first_is_the_first(visible@, 0, shown_with(sets, file_id));
            assert(visible@[at.0 as int] < sets.len());
            the_first_is_the_first(sets[visible@[at.0 as int] as int].members, 0, called(file_id));
            assert(counted[at.0 as int] == sets[visible@[at.0 as int] as int].members.len());
            a_step_lands_on_a_picture(counted, at.0 as int, at.1 as int, direction);
        }
        let Some(start) = step(&counts, at, direction) else {
            return;
        };
        let mut landed: (usize, usize) = start;
        while alone[landed.0]
            invariant
                counts@ == counted,
                alone@ == said,
                counted.len() == said.len(),
                stands(counted, landed.0 as int),
                landed.1 < counted[landed.0 as int],
                past_ignored(counted, said, start.0 as int, start.1 as int, direction)
                    == past_ignored(counted, said, landed.0 as int, landed.1 as int, direction),
                past_ignored(counted, said, start.0 as int, start.1 as int, direction) is None ==> *self
                    == *old(self),
                self@ == old(self)@,
                self.keep == old(self).keep,
                old(self)@.walked(visible@, direction) == match past_ignored(
                    counted,
                    said,
                    start.0 as int,
                    start.1 as int,
                    direction,
                ) {
                    None => old(self)@,
                    Some((to, at)) => ReviewView {
                        selected: Some(
                            old(self)@.sets[visible@[to] as int].members[at].file_id,
                        ),
                        scroll_to: Some(to as usize),
                        show_selected: true,
                        ..old(self)@
                    },
                },
            decreases
                    if runs_on(direction) {
                        counted.len() - landed.0
                    } else {
                        landed.0 + 1
                    },
        {
            let from: (usize, usize) = match direction {
                Direction::Forward => (landed.0, counts[landed.0] - 1),
                Direction::Back => (landed.0, 0),
                Direction::NextSet => landed,
                Direction::PreviousSet => landed,
            };
            proof {
                a_step_lands_on_a_picture(counted, from.0 as int, from.1 as int, direction);
            }
            let Some(next) = step(&counts, from, direction) else {
                return;
            };
            landed = next;
        }
        let (set, member) = landed;
        assert(visible@[set as int] < sets.len());
        assert(sets[visible@[set as int] as int] == self.sets@[visible@[set as int] as int].deep_view());
        let index: usize = visible[set];
        assert(counted[set as int] == sets[index as int].members.len());
        assert(sets[index as int].members[member as int] == self.sets@[index as int].members@[member as int].deep_view());
        self.selected = Some(self.sets[index].members[member].file_id);
        self.scroll_to = Some(set);
        self.show_selected = true;
    }
}

/// Whether the preview of a review is on a place of the list on screen: the picture is
/// there, and nowhere before.
pub open spec fn is_on(review: ReviewView, visible: Seq<usize>, set: int, member: int) -> bool {
    &&& 0 <= set < visible.len()
    &&& 0 <= member < review.sets[visible[set] as int].members.len()
    &&& review.selected == Some(review.sets[visible[set] as int].members[member].file_id)
    &&& forall|before: int|
        0 <= before < set ==> !has_id(
            review.sets[(#[trigger] visible[before]) as int].members,
            review.selected->0,
        )
    &&& forall|before: int|
        0 <= before < member ==> (
        #[trigger] review.sets[visible[set] as int].members[before]).file_id != review.selected->0
}

/// Whether a set on screen is a set of copies with a picture in it.
pub open spec fn can_be_walked_to(review: ReviewView, visible: Seq<usize>, set: int) -> bool {
    &&& 0 <= set < visible.len()
    &&& 0 < review.sets[visible[set] as int].members.len() <= usize::MAX
    &&& !all_ignored(review.sets[visible[set] as int].members, review.ignored)
}

/// Whether a move has put the preview on a place of the list, and has the list scroll
/// to it.
pub open spec fn is_moved_to(
    review: ReviewView,
    after: ReviewView,
    visible: Seq<usize>,
    set: int,
    member: int,
) -> bool {
    &&& after.selected == Some(review.sets[visible[set] as int].members[member].file_id)
    &&& after.scroll_to == Some(set as usize)
    &&& after.show_selected
    &&& after == (ReviewView {
        selected: after.selected,
        scroll_to: after.scroll_to,
        show_selected: true,
        ..review
    })
}

/// Right goes to the next picture of the set, or from its last to the first of the set
/// behind it; left to the one before, or from its first to the last of the set before.
/// Down and up go to the same place of the set behind and the set before, or to its
/// last picture where it is shorter. Past either end of the list nothing moves.
pub proof fn a_cursor_key_goes_where_it_points(
    review: ReviewView,
    visible: Seq<usize>,
    set: int,
    member: int,
)
    requires
        visible.len() <= usize::MAX,
        can_be_walked_to(review, visible, set),
        is_on(review, visible, set, member),
    ensures
        ({
            let held = review.sets[visible[set] as int].members.len();
            let behind = review.sets[visible[set + 1] as int].members.len();
            let ahead = review.sets[visible[set - 1] as int].members.len();
            let right = review.walked(visible, Direction::Forward);
            let left = review.walked(visible, Direction::Back);
            let down = review.walked(visible, Direction::NextSet);
            let up = review.walked(visible, Direction::PreviousSet);
            &&& member + 1 < held ==> is_moved_to(review, right, visible, set, member + 1)
            &&& member + 1 == held && can_be_walked_to(review, visible, set + 1) ==> is_moved_to(
                review,
                right,
                visible,
                set + 1,
                0,
            )
            &&& member > 0 ==> is_moved_to(review, left, visible, set, member - 1)
            &&& member == 0 && can_be_walked_to(review, visible, set - 1) ==> is_moved_to(
                review,
                left,
                visible,
                set - 1,
                ahead - 1,
            )
            &&& can_be_walked_to(review, visible, set + 1) ==> is_moved_to(
                review,
                down,
                visible,
                set + 1,
                if member < behind {
                    member
                } else {
                    behind - 1
                },
            )
            &&& can_be_walked_to(review, visible, set - 1) ==> is_moved_to(
                review,
                up,
                visible,
                set - 1,
                if member < ahead {
                    member
                } else {
                    ahead - 1
                },
            )
            &&& set + 1 == visible.len() ==> down == review
            &&& set + 1 == visible.len() && member + 1 == held ==> right == review
            &&& set == 0 ==> up == review
            &&& set == 0 && member == 0 ==> left == review
        }),
{
    let file_id = review.selected->0;
    let members = review.sets[visible[set] as int].members;
    let counts = counts_of(review.sets, visible);
    let alone = alone_of(review.sets, visible, review.ignored);
    assert(has_id(members, file_id)) by {
        assert(members[member].file_id == file_id);
    }
    the_first_is_the_first(visible, 0, shown_with(review.sets, file_id));
    let found = first(visible, shown_with(review.sets, file_id));
    assert(found == Some(set)) by {
        if found is None {
            assert(!shown_with(review.sets, file_id)(visible[set]));
        } else if found->0 < set {
            assert(shown_with(review.sets, file_id)(visible[found->0]));
        } else if found->0 > set {
            assert(!shown_with(review.sets, file_id)(visible[set]));
        }
    }
    the_first_is_the_first(members, 0, called(file_id));
    let place = first(members, called(file_id));
    assert(place == Some(member)) by {
        if place is None {
            assert(!called(file_id)(members[member]));
        } else if place->0 < member {
            assert(called(file_id)(members[place->0]));
        } else if place->0 > member {
            assert(!called(file_id)(members[member]));
        }
    }
    assert(position_of(review.sets, visible, file_id) == Some((set, member)));
    assert(counts[set] == members.len() && !alone[set]);
    assert(stands(counts, set));
    if can_be_walked_to(review, visible, set + 1) {
        assert(stands(counts, set + 1));
        assert(!alone[set + 1]);
    }
    if can_be_walked_to(review, visible, set - 1) {
        assert(stands(counts, set - 1));
        assert(!alone[set - 1]);
    }
}

/// Where the preview is on nothing, or on a picture that is not on screen, no key moves
/// it.
pub proof fn nothing_moves_from_nowhere(
    review: ReviewView,
    visible: Seq<usize>,
    direction: Direction,
)
    requires
        review.selected matches Some(file_id) ==> forall|at: int|
            0 <= at < visible.len() ==> !has_id(
                review.sets[(#[trigger] visible[at]) as int].members,
                file_id,
            ),
    ensures
        review.walked(visible, direction) == review,
{
    match review.selected {
        None => {},
        Some(file_id) => {
            the_first_is_the_first(visible, 0, shown_with(review.sets, file_id));
        },
    }
}

/// A walk that has stepped over sets lands where its way points: on the first picture of
/// the set it ends in going right, on the last going left, and going by sets at the place
/// it came from, wherever every set on the way has one there, and never beyond it.
pub proof fn a_walk_over_ignored_sets_lands_where_it_points(
    counts: Seq<usize>,
    alone: Seq<bool>,
    set: int,
    member: int,
    direction: Direction,
)
    requires
        alone.len() == counts.len(),
        forall|at: int| 0 <= at < counts.len() ==> #[trigger] counts[at] > 0,
        0 <= set < counts.len(),
        0 <= member < counts[set],
    ensures
        !alone[set] ==> past_ignored(counts, alone, set, member, direction) == Some((set, member)),
        past_ignored(counts, alone, set, member, direction) matches Some((to, at)) ==> {
            &&& alone[set] && direction is Forward ==> at == 0
            &&& alone[set] && direction is Back ==> at == counts[to] - 1
            &&& direction is NextSet || direction is PreviousSet ==> at <= member
            &&& (direction is NextSet || direction is PreviousSet) && (forall|passed: int|
                0 <= passed < counts.len() ==> #[trigger] counts[passed] > member) ==> at == member
        },
    decreases
            if runs_on(direction) {
                counts.len() - set
            } else {
                set + 1
            },
{
    if alone[set] {
        let leave = leaving(counts, set, member, direction);
        assert(stands(counts, set));
        if runs_on(direction) {
            if set + 1 < counts.len() {
                assert(stands(counts, set + 1));
            }
        } else if set > 0 {
            assert(stands(counts, set - 1));
        }
        match stepped(counts, set, leave, direction) {
            None => {},
            Some((to, at)) => {
                a_walk_over_ignored_sets_lands_where_it_points(counts, alone, to, at, direction);
            },
        }
    }
}

} // verus!
