//! What holds of folders by their paths.

use vstd::prelude::*;

use crate::app::opening::fits;
use crate::folders::{
    each_folder_is_kept_once, each_once, first_places, is_common, is_in_folder, is_in_order_of,
    is_same, is_sameness, may_be_same, seen, sorting_puts_in_order, steps, steps_between,
    INDEX_FILENAME,
};
use crate::text::find_from;
use crate::text_laws::the_first_letter_is_found;

verus! {

/// A path is the same as itself, and being the same has no order; what is the same may be
/// the same.
pub proof fn being_the_same_has_no_order(one: Seq<char>, other: Seq<char>)
    ensures
        is_same(one, one),
        is_same(one, other) <==> is_same(other, one),
        may_be_same(one, other) <==> may_be_same(other, one),
        is_same(one, other) ==> may_be_same(one, other),
{
}

/// Every folder is kept, or is the same as one before it that is: each one's place is a
/// place that is kept, or one before it that is kept was found to be the same. The first
/// is always kept, and the folders that are kept stand in the order they stood in.
pub proof fn every_folder_is_kept_or_is_like_one_before(
    folders: Seq<Seq<char>>,
    same: Seq<Seq<bool>>,
    at: int,
)
    requires
        is_sameness(folders, same),
        0 <= at < folders.len(),
    ensures
        ({
            let places = first_places(same, folders.len());
            &&& each_once(folders, same).len() == places.len()
            &&& forall|i: int|
                0 <= i < places.len() ==> #[trigger] each_once(folders, same)[i]
                    == folders[places[i]]
            &&& places.contains(at) || exists|i: int|
                0 <= i < places.len() && #[trigger] places[i] < at && same[at][places[i]]
            &&& places[0] == 0
            &&& forall|i: int, j: int|
                0 <= i < j < places.len() ==> #[trigger] places[i] < #[trigger] places[j]
        }),
{
    lemma_places(same, folders.len(), at);
}

proof fn lemma_places(same: Seq<Seq<bool>>, count: nat, at: int)
    requires
        0 <= at < count,
    ensures
        ({
            let places = first_places(same, count);
            &&& places.len() > 0
            &&& places[0] == 0
            &&& places.contains(at) || exists|i: int|
                0 <= i < places.len() && #[trigger] places[i] < at && same[at][places[i]]
            &&& forall|i: int| 0 <= i < places.len() ==> 0 <= #[trigger] places[i] < count
            &&& forall|i: int, j: int|
                0 <= i < j < places.len() ==> #[trigger] places[i] < #[trigger] places[j]
        }),
    decreases count,
{
    let earlier = first_places(same, (count - 1) as nat);
    let places = first_places(same, count);
    if count == 1 {
        assert(earlier.len() == 0);
        assert(!seen(same, earlier, 0));
        assert(places =~= seq![0int]);
        assert(places[0] == at);
    } else {
        lemma_places(same, (count - 1) as nat, if at < count - 1 {
            at
        } else {
            0
        });
        if at < count - 1 {
            if earlier.contains(at) {
                let i = choose|i: int| 0 <= i < earlier.len() && earlier[i] == at;
                assert(places[i] == at);
            } else {
                let i = choose|i: int|
                    0 <= i < earlier.len() && #[trigger] earlier[i] < at && same[at][earlier[i]];
                assert(places[i] == earlier[i]);
            }
        } else if seen(same, earlier, at) {
            let i = choose|i: int| 0 <= i < earlier.len() && same[at][#[trigger] earlier[i]];
            assert(places[i] == earlier[i]);
        } else {
            assert(places[earlier.len() as int] == at);
        }
        assert(places[0] == earlier[0]);
    }
}

/// The index of a folder is named `imgdedupe.sqlite`, and its path ends in that name.
pub proof fn an_index_is_named_the_same_everywhere(path: Seq<char>, root: Seq<char>)
    requires
        is_in_folder(path, root, INDEX_FILENAME@),
    ensures
        "imgdedupe.sqlite"@.is_suffix_of(path),
{
}

/// A folder that is scanned and is the same as one scanned before is known; one whose path
/// is like none of theirs is not, and is offered from then on with every one of them.
pub proof fn a_folder_scanned_for_the_first_time_is_offered(
    previous: Seq<Seq<char>>,
    folder: Seq<char>,
    known: bool,
    offered: Seq<Seq<char>>,
)
    requires
        fits(previous, folder, known, offered),
        is_common(folder),
        forall|at: int| 0 <= at < previous.len() ==> is_common(#[trigger] previous[at]),
    ensures
        known <==> exists|at: int|
            0 <= at < previous.len() && steps(#[trigger] previous[at]) == steps(folder),
        !known ==> offered.contains(folder),
        !known ==> forall|at: int|
            0 <= at < offered.len() ==> (#[trigger] offered[at]) == folder || previous.contains(
                offered[at],
            ),
{
    if known {
        let at = choose|at: int|
            0 <= at < previous.len() && may_be_same(#[trigger] previous[at], folder);
        assert(steps(previous[at]) == steps(folder));
    } else {
        assert forall|at: int| 0 <= at < previous.len() implies steps(#[trigger] previous[at])
            != steps(folder) by {
            assert(!is_same(previous[at], folder));
        }
        let all = previous.push(folder);
        let same = choose|same: Seq<Seq<bool>>| #[trigger]
            is_sameness(all, same) && is_in_order_of(offered, each_once(all, same));
        let kept = each_once(all, same);
        let last = previous.len() as int;
        every_folder_is_kept_or_is_like_one_before(all, same, last);
        sorting_puts_in_order(kept, offered);
        let places = first_places(same, all.len());
        if !places.contains(last) {
            let i = choose|i: int|
                0 <= i < places.len() && #[trigger] places[i] < last && same[last][places[i]];
            lemma_places(same, all.len(), last);
            let earlier = places[i];
            assert(all[earlier] == previous[earlier]);
            assert(may_be_same(all[earlier], all[last]));
        }
        let i = choose|i: int| 0 <= i < places.len() && places[i] == last;
        assert(kept[i] == folder);
        assert(kept.contains(folder));
        each_folder_is_kept_once(all, same);
        assert forall|at: int| 0 <= at < offered.len() implies (#[trigger] offered[at]) == folder
            || previous.contains(offered[at]) by {
            assert(offered.contains(offered[at]));
            assert(all.contains(offered[at]));
            let place = choose|place: int| 0 <= place < all.len() && all[place] == offered[at];
            if place < last {
                assert(previous[place] == offered[at]);
            }
        }
    }
}

/// A path that begins at the root has the root for its first step, and behind it the steps
/// of what follows; any other has the steps of all of it.
pub proof fn the_root_is_a_step(path: Seq<char>)
    ensures
        path.len() > 0 && path[0] == '/' ==> steps(path) == seq![seq!['/']] + steps_between(
            path.skip(1),
            false,
        ),
        path.len() == 0 || path[0] != '/' ==> steps(path) == steps_between(path, true),
{
}

/// A path is walked part by part: a part between slashes is a step, but for an empty one,
/// and for a single dot anywhere but at the very beginning.
pub proof fn a_path_is_walked_part_by_part(part: Seq<char>, rest: Seq<char>, begins: bool)
    requires
        !part.contains('/'),
    ensures
        part.len() == 0 ==> steps_between(part, begins).len() == 0,
        part == seq!['.'] && !begins ==> steps_between(part, begins).len() == 0,
        part.len() > 0 && (begins || part != seq!['.']) ==> steps_between(part, begins) == seq![
            part,
        ],
        steps_between(part + seq!['/'] + rest, begins) == steps_between(part, begins)
            + steps_between(rest, false),
{
    the_first_letter_is_found(part, '/', 0);
    if find_from(part, '/', 0) < part.len() {
        assert(part.contains(part[find_from(part, '/', 0)]));
    }
    let all = part + seq!['/'] + rest;
    the_first_letter_is_found(all, '/', 0);
    let end = find_from(all, '/', 0);
    assert(all[part.len() as int] == '/');
    if end < part.len() {
        assert(all[end] == part[end]);
        assert(part.contains(part[end]));
    }
    assert(end == part.len());
    assert(all.take(end) =~= part);
    assert(all.skip(end + 1) =~= rest);
}

/// A slash at the end of a path changes nothing about the steps of it, so a folder is the
/// same with it and without.
pub proof fn a_slash_at_the_end_changes_nothing(path: Seq<char>, begins: bool)
    ensures
        steps_between(path.push('/'), begins) == steps_between(path, begins),
    decreases path.len(),
{
    let slash = path.push('/');
    the_first_letter_is_found(path, '/', 0);
    the_first_letter_is_found(slash, '/', 0);
    let end = find_from(path, '/', 0);
    let found = find_from(slash, '/', 0);
    if end < path.len() {
        assert(slash[end] == path[end]);
        if found < end {
            assert(slash[found] == path[found]);
        }
        assert(found == end);
        assert(slash.take(end) =~= path.take(end));
        assert(slash.skip(end + 1) =~= path.skip(end + 1).push('/'));
        a_slash_at_the_end_changes_nothing(path.skip(end + 1), false);
    } else {
        assert(slash[path.len() as int] == '/');
        if found < path.len() {
            assert(slash[found] == path[found]);
        }
        assert(found == path.len());
        assert(slash.take(found) =~= path);
        let rest = slash.skip(found + 1);
        assert(rest =~= Seq::<char>::empty());
        the_first_letter_is_found(rest, '/', 0);
        assert(steps_between(rest, false) =~= Seq::<Seq<char>>::empty());
        assert(steps_between(slash, begins) =~= steps_between(path, begins));
    }
}

} // verus!
