//! Folders, by their paths: when two of them are the same one, and the order they
//! are offered in.

use vstd::prelude::*;

use crate::text::{
    before, comes_before, find_from, letters, order_carries_over, texts_stand_in_one_order,
};

verus! {

/// The name the index goes by in the folder it describes.
pub const INDEX_FILENAME: &'static str = "imgdedupe.sqlite";

/// The lower case of a piece of text, as `str::to_lowercase` gives it.
pub uninterp spec fn lowercase(text: Seq<char>) -> Seq<char>;

/// `str::to_lowercase`: the text with every letter in lower case. What that is of a
/// given text is not said here, only that it is one thing.
#[verifier::external_body]
pub(crate) fn lowered(text: &str) -> (low: String)
    ensures
        low@ == lowercase(text@),
{
    text.to_lowercase()
}

/// Whether a path is written so that every system reads the same out of it: folders
/// with one slash between them, none of them a single dot, none at the end, and
/// nothing in it that is a letter on one system and a mark on another.
pub open spec fn is_tidy(path: Seq<char>) -> bool {
    &&& forall|at: int|
        0 <= at < path.len() ==> #[trigger] path[at] != '\\' && path[at] != ':'
    &&& forall|at: int|
        0 < at < path.len() && #[trigger] path[at] == '/' ==> path[at - 1] != '/' && at + 1
            < path.len()
    &&& forall|at: int|
        0 <= at < path.len() && #[trigger] path[at] == '.' ==> (0 < at && path[at - 1] != '/')
            || (at + 1 < path.len() && path[at + 1] != '/')
}

/// Whether a path is read alike on Unix and on Windows: nothing in it is a letter to
/// the one and a mark to the other, and it does not begin with two slashes, behind
/// which the second looks for a machine.
pub open spec fn is_common(path: Seq<char>) -> bool {
    &&& forall|at: int|
        0 <= at < path.len() ==> #[trigger] path[at] != '\\' && path[at] != ':'
    &&& path.len() >= 2 ==> !(path[0] == '/' && path[1] == '/')
}

/// The steps that are taken between slashes. Nothing between two of them is no step,
/// and a single dot is none either, unless it is what the path begins with.
pub open spec fn steps_between(path: Seq<char>, begins: bool) -> Seq<Seq<char>>
    decreases path.len(),
{
    let end = find_from(path, '/', 0);
    if 0 <= end < path.len() {
        one_step(path.take(end), begins) + steps_between(path.skip(end + 1), false)
    } else {
        one_step(path, begins)
    }
}

/// What stands between two slashes as a step, if it is one.
pub open spec fn one_step(part: Seq<char>, begins: bool) -> Seq<Seq<char>> {
    if part.len() == 0 || (part == seq!['.'] && !begins) {
        Seq::empty()
    } else {
        seq![part]
    }
}

/// The steps of a path that is read alike everywhere: the root, where it begins with
/// a slash, and what stands between the slashes.
pub open spec fn steps(path: Seq<char>) -> Seq<Seq<char>> {
    if path.len() > 0 && path[0] == '/' {
        seq![seq!['/']] + steps_between(path.skip(1), false)
    } else {
        steps_between(path, true)
    }
}

/// Whether two paths are one wherever they are read: they are written the same, or
/// both are read alike and have the same steps.
pub open spec fn is_same(one: Seq<char>, other: Seq<char>) -> bool {
    one == other || (is_common(one) && is_common(other) && steps(one) == steps(other))
}

/// Whether two paths can be one somewhere: they are one everywhere, or one of the two
/// is not read alike.
pub open spec fn may_be_same(one: Seq<char>, other: Seq<char>) -> bool {
    is_same(one, other) || !is_common(one) || !is_common(other)
}

/// `Path::eq`, on the paths that two pieces of text write. Paths are held against
/// each other step by step, so two that are read alike on Unix and on Windows are the
/// same just where their steps are. Which others are the same is up to the system the
/// program runs on, which has its own idea of what separates one folder from the
/// next, and is not said.
#[verifier::external_body]
pub(crate) fn same_path(one: &str, other: &str) -> (same: bool)
    ensures
        is_same(one@, other@) ==> same,
        same ==> may_be_same(one@, other@),
{
    std::path::Path::new(one) == std::path::Path::new(other)
}

/// Whether a path begins with the mark that has a system take the dots out of it
/// when something is added to it.
pub open spec fn is_verbatim(path: Seq<char>) -> bool {
    4 <= path.len() && path.take(4) == seq!['\\', '\\', '?', '\\']
}

/// Whether a path is that of a name in a folder: the folder, then the name, with at
/// most the mark between them that the system puts there.
pub open spec fn is_in_folder(path: Seq<char>, root: Seq<char>, name: Seq<char>) -> bool {
    &&& name.is_suffix_of(path)
    &&& !is_verbatim(root) ==> root.is_prefix_of(path) && root.len() + name.len() <= path.len()
        <= root.len() + 1 + name.len()
    &&& is_tidy(root) ==> if root.len() == 0 || root.last() == '/' {
        path == root + name
    } else {
        path == root.push('/') + name || path == root.push('\\') + name
    }
}

/// `Path::join`, and the text that `Path::display` writes of what comes out: where
/// a name stands under a folder. The folder comes first, the name last, and at most
/// one mark between them, which is the one the system the program runs on has for
/// it. What becomes of the dots in a folder that begins as `is_verbatim` says is not
/// said, nor which mark the system has.
#[verifier::external_body]
fn joined(root: &str, name: &str) -> (path: String)
    requires
        name@ == INDEX_FILENAME@,
    ensures
        is_in_folder(path@, root@, name@),
{
    std::path::Path::new(root).join(name).display().to_string()
}

/// Where the index of a folder is.
pub fn default_db_path(root: &str) -> (path: String)
    ensures
        is_in_folder(path@, root@, INDEX_FILENAME@),
{
    joined(root, INDEX_FILENAME)
}

/// Which of some folders are the same as which: for each of them, whether it is the
/// same as each of those before it.
pub open spec fn is_sameness(folders: Seq<Seq<char>>, same: Seq<Seq<bool>>) -> bool {
    &&& same.len() == folders.len()
    &&& forall|at: int| 0 <= at < same.len() ==> (#[trigger] same[at]).len() == at
    &&& forall|earlier: int, at: int|
        0 <= earlier < at < folders.len() && is_same(
            #[trigger] folders[earlier],
            #[trigger] folders[at],
        ) ==> same[at][earlier]
    &&& forall|earlier: int, at: int|
        0 <= earlier < at < folders.len() && #[trigger] same[at][earlier] ==> may_be_same(
            folders[earlier],
            folders[at],
        )
}

/// Whether a folder is the same as one of some places before it.
pub open spec fn seen(same: Seq<Seq<bool>>, places: Seq<int>, at: int) -> bool {
    exists|i: int| 0 <= i < places.len() && same[at][#[trigger] places[i]]
}

/// The places of the first so many folders, without those that are the same as one
/// already there.
pub open spec fn first_places(same: Seq<Seq<bool>>, count: nat) -> Seq<int>
    decreases count,
{
    if count == 0 {
        Seq::empty()
    } else {
        let earlier = first_places(same, (count - 1) as nat);
        if seen(same, earlier, count - 1) {
            earlier
        } else {
            earlier.push(count - 1)
        }
    }
}

/// What stands at some places.
pub open spec fn picked(folders: Seq<Seq<char>>, places: Seq<int>) -> Seq<Seq<char>> {
    places.map_values(|at: int| folders[at])
}

/// Each folder once, where it first stands.
pub open spec fn each_once(folders: Seq<Seq<char>>, same: Seq<Seq<bool>>) -> Seq<Seq<char>> {
    picked(folders, first_places(same, folders.len()))
}

/// Some folders in lower case.
pub open spec fn lowered_all(folders: Seq<Seq<char>>) -> Seq<Seq<char>> {
    folders.map_values(|folder: Seq<char>| lowercase(folder))
}

/// Whether one place goes before another: by the letters the two are put in order
/// by, and by the places where those are equal.
pub open spec fn goes_before(keys: Seq<Seq<char>>, one: int, other: int) -> bool {
    comes_before(keys[one], keys[other]) || (keys[one] == keys[other] && one < other)
}

/// Whether an order goes through every place of a list, each before those it goes
/// before.
pub open spec fn puts_in_order(order: Seq<int>, keys: Seq<Seq<char>>) -> bool {
    &&& order.len() == keys.len()
    &&& forall|i: int| 0 <= i < order.len() ==> 0 <= #[trigger] order[i] < keys.len()
    &&& forall|at: int| 0 <= at < keys.len() ==> #[trigger] order.contains(at)
    &&& forall|i: int, j: int|
        0 <= i < j < order.len() ==> goes_before(keys, #[trigger] order[i], #[trigger] order[j])
}

/// Whether some folders are others in the order of the letters each is put in order
/// by, those that are alike in them in the order they had.
pub open spec fn is_arranged_by(
    sorted: Seq<Seq<char>>,
    folders: Seq<Seq<char>>,
    keys: Seq<Seq<char>>,
) -> bool {
    exists|order: Seq<int>| #[trigger] puts_in_order(order, keys) && sorted == picked(folders, order)
}

/// Whether some folders are others in alphabetical order, letter case ignored, those
/// that are alike in it in the order they had.
pub open spec fn is_in_order_of(sorted: Seq<Seq<char>>, folders: Seq<Seq<char>>) -> bool {
    is_arranged_by(sorted, folders, lowered_all(folders))
}

/// There is one such order.
pub proof fn there_is_one_order(one: Seq<int>, other: Seq<int>, keys: Seq<Seq<char>>)
    requires
        puts_in_order(one, keys),
        puts_in_order(other, keys),
    ensures
        one == other,
{
    assert forall|at: int| 0 <= at < one.len() implies one[at] == other[at] by {
        lemma_same_so_far(one, other, keys, at);
    }
    assert(one =~= other);
}

proof fn lemma_same_so_far(one: Seq<int>, other: Seq<int>, keys: Seq<Seq<char>>, at: int)
    requires
        puts_in_order(one, keys),
        puts_in_order(other, keys),
        0 <= at < one.len(),
    ensures
        forall|i: int| 0 <= i <= at ==> one[i] == other[i],
    decreases at,
{
    if at > 0 {
        lemma_same_so_far(one, other, keys, at - 1);
    }
    if one[at] != other[at] {
        assert(other.contains(one[at]));
        let later = choose|i: int| 0 <= i < other.len() && other[i] == one[at];
        lemma_goes_before_once(keys, one[at], one[at]);
        if later < at {
            assert(one[later] == other[later]);
            assert(goes_before(keys, one[later], one[at]));
        }
        assert(goes_before(keys, other[at], other[later]));
        assert(one.contains(other[at]));
        let here = choose|i: int| 0 <= i < one.len() && one[i] == other[at];
        lemma_goes_before_once(keys, other[at], other[at]);
        if here < at {
            assert(one[here] == other[here]);
            assert(goes_before(keys, other[here], other[at]));
        }
        assert(goes_before(keys, one[at], one[here]));
        lemma_goes_before_once(keys, one[at], other[at]);
        assert(false);
    }
}

proof fn lemma_goes_before_once(keys: Seq<Seq<char>>, one: int, other: int)
    ensures
        !(goes_before(keys, one, other) && goes_before(keys, other, one)),
        one != other ==> goes_before(keys, one, other) || goes_before(keys, other, one),
        !goes_before(keys, one, one),
{
    texts_stand_in_one_order(keys[one], keys[other]);
    texts_stand_in_one_order(keys[one], keys[one]);
}

proof fn lemma_goes_before_carries(keys: Seq<Seq<char>>, one: int, other: int, third: int)
    requires
        goes_before(keys, one, other),
        goes_before(keys, other, third),
    ensures
        goes_before(keys, one, third),
{
    if comes_before(keys[one], keys[other]) && comes_before(keys[other], keys[third]) {
        order_carries_over(keys[one], keys[other], keys[third]);
    }
}

/// Folders that stand in alphabetical order already stay as they are.
pub proof fn sorting_leaves_what_is_in_order(folders: Seq<Seq<char>>, sorted: Seq<Seq<char>>)
    requires
        is_in_order_of(sorted, folders),
        forall|i: int, j: int|
            0 <= i < j < folders.len() ==> !comes_before(
                lowercase(#[trigger] folders[j]),
                lowercase(#[trigger] folders[i]),
            ),
    ensures
        sorted == folders,
{
    let keys = lowered_all(folders);
    let order = choose|order: Seq<int>| #[trigger]
        puts_in_order(order, keys) && sorted == picked(folders, order);
    let plain = Seq::new(folders.len(), |i: int| i);
    assert(puts_in_order(plain, keys)) by {
        assert forall|at: int| 0 <= at < folders.len() implies #[trigger] plain.contains(at) by {
            assert(plain[at] == at);
        }
        assert forall|i: int, j: int| 0 <= i < j < plain.len() implies goes_before(
            keys,
            #[trigger] plain[i],
            #[trigger] plain[j],
        ) by {
            assert(keys[i] == lowercase(folders[i]) && keys[j] == lowercase(folders[j]));
            texts_stand_in_one_order(keys[i], keys[j]);
        }
    }
    there_is_one_order(order, plain, keys);
    assert(picked(folders, plain) =~= folders);
}

/// What sorting gives stands in alphabetical order, and holds what was sorted and
/// nothing else.
pub proof fn sorting_puts_in_order(folders: Seq<Seq<char>>, sorted: Seq<Seq<char>>)
    requires
        is_in_order_of(sorted, folders),
    ensures
        sorted.len() == folders.len(),
        forall|i: int, j: int|
            0 <= i < j < sorted.len() ==> !comes_before(
                lowercase(#[trigger] sorted[j]),
                lowercase(#[trigger] sorted[i]),
            ),
        forall|folder: Seq<char>| #[trigger] sorted.contains(folder) <==> folders.contains(folder),
{
    let keys = lowered_all(folders);
    let order = choose|order: Seq<int>| #[trigger]
        puts_in_order(order, keys) && sorted == picked(folders, order);
    assert forall|i: int, j: int| 0 <= i < j < sorted.len() implies !comes_before(
        lowercase(#[trigger] sorted[j]),
        lowercase(#[trigger] sorted[i]),
    ) by {
        assert(goes_before(keys, order[i], order[j]));
        assert(keys[order[i]] == lowercase(sorted[i]) && keys[order[j]] == lowercase(sorted[j]));
        texts_stand_in_one_order(lowercase(sorted[i]), lowercase(sorted[j]));
        texts_stand_in_one_order(lowercase(sorted[j]), lowercase(sorted[j]));
    }
    assert forall|folder: Seq<char>| #[trigger]
        sorted.contains(folder) <==> folders.contains(folder) by {
        if sorted.contains(folder) {
            let i = choose|i: int| 0 <= i < sorted.len() && sorted[i] == folder;
            assert(folders[order[i]] == folder);
        }
        if folders.contains(folder) {
            let at = choose|at: int| 0 <= at < folders.len() && folders[at] == folder;
            assert(order.contains(at));
            let i = choose|i: int| 0 <= i < order.len() && order[i] == at;
            assert(sorted[i] == folder);
        }
    }
}

/// No two of the folders that are kept are the same, however they are written.
pub proof fn each_folder_is_kept_once(folders: Seq<Seq<char>>, same: Seq<Seq<bool>>)
    requires
        is_sameness(folders, same),
    ensures
        each_once(folders, same).no_duplicates(),
        forall|i: int, j: int|
            0 <= i < j < each_once(folders, same).len() ==> !is_same(
                #[trigger] each_once(folders, same)[i],
                #[trigger] each_once(folders, same)[j],
            ),
        forall|folder: Seq<char>| #[trigger]
            each_once(folders, same).contains(folder) ==> folders.contains(folder),
{
    lemma_first_places(folders, same, folders.len());
    let places = first_places(same, folders.len());
    let kept = each_once(folders, same);
    assert forall|i: int, j: int| 0 <= i < kept.len() && 0 <= j < kept.len() && i != j implies kept[i]
        != kept[j] by {
        if i < j {
            assert(!same[places[j]][places[i]]);
            assert(folders[places[i]] == kept[i] && folders[places[j]] == kept[j]);
        } else {
            assert(!same[places[i]][places[j]]);
            assert(folders[places[i]] == kept[i] && folders[places[j]] == kept[j]);
        }
    }
    assert forall|i: int, j: int| 0 <= i < j < kept.len() implies !is_same(
        #[trigger] kept[i],
        #[trigger] kept[j],
    ) by {
        assert(!same[places[j]][places[i]]);
        assert(folders[places[i]] == kept[i] && folders[places[j]] == kept[j]);
    }
    assert forall|folder: Seq<char>| #[trigger] kept.contains(folder) implies folders.contains(
        folder,
    ) by {
        let i = choose|i: int| 0 <= i < kept.len() && kept[i] == folder;
        assert(folders[places[i]] == folder);
    }
}

proof fn lemma_first_places(folders: Seq<Seq<char>>, same: Seq<Seq<bool>>, count: nat)
    requires
        is_sameness(folders, same),
        count <= folders.len(),
    ensures
        ({
            let places = first_places(same, count);
            &&& places.len() <= count
            &&& forall|i: int| 0 <= i < places.len() ==> 0 <= #[trigger] places[i] < count
            &&& forall|i: int, j: int|
                0 <= i < j < places.len() ==> #[trigger] places[i] < #[trigger] places[j]
                    && !same[places[j]][places[i]]
        }),
    decreases count,
{
    if count > 0 {
        lemma_first_places(folders, same, (count - 1) as nat);
        let earlier = first_places(same, (count - 1) as nat);
        let places = first_places(same, count);
        assert forall|i: int, j: int| 0 <= i < j < places.len() implies #[trigger] places[i]
            < #[trigger] places[j] && !same[places[j]][places[i]] by {
            assert(places[i] == earlier[i]);
            if j < earlier.len() {
                assert(places[j] == earlier[j]);
            }
        }
    }
}

/// Folders no two of which are the same are all kept, where they stand.
pub proof fn different_folders_are_all_kept(folders: Seq<Seq<char>>, same: Seq<Seq<bool>>)
    requires
        is_sameness(folders, same),
        forall|earlier: int, at: int|
            0 <= earlier < at < folders.len() ==> !#[trigger] same[at][earlier],
    ensures
        each_once(folders, same) == folders,
{
    lemma_all_places(folders, same, folders.len());
    assert(each_once(folders, same) =~= folders);
}

/// Folders are told apart by their steps where they are read alike everywhere: no two
/// of them with the same steps, they are all kept, where they stand.
pub proof fn folders_are_told_apart_by_their_steps(folders: Seq<Seq<char>>, same: Seq<Seq<bool>>)
    requires
        is_sameness(folders, same),
        forall|at: int| 0 <= at < folders.len() ==> is_common(#[trigger] folders[at]),
        forall|earlier: int, at: int|
            0 <= earlier < at < folders.len() ==> steps(#[trigger] folders[earlier]) != steps(
                #[trigger] folders[at],
            ),
    ensures
        each_once(folders, same) == folders,
{
    assert forall|earlier: int, at: int|
        0 <= earlier < at < folders.len() implies !#[trigger] same[at][earlier] by {
        assert(steps(folders[earlier]) != steps(folders[at]));
        assert(is_common(folders[earlier]) && is_common(folders[at]));
    }
    different_folders_are_all_kept(folders, same);
}

proof fn lemma_all_places(folders: Seq<Seq<char>>, same: Seq<Seq<bool>>, count: nat)
    requires
        is_sameness(folders, same),
        forall|earlier: int, at: int|
            0 <= earlier < at < folders.len() ==> !#[trigger] same[at][earlier],
        count <= folders.len(),
    ensures
        first_places(same, count) == Seq::new(count, |i: int| i),
    decreases count,
{
    if count > 0 {
        lemma_all_places(folders, same, (count - 1) as nat);
        let earlier = first_places(same, (count - 1) as nat);
        assert(!seen(same, earlier, count - 1));
    }
    assert(first_places(same, count) =~= Seq::new(count, |i: int| i));
}

/// Whether which of some folders are the same is what is said of each two of them.
pub open spec fn is_told_by(
    same: Seq<Seq<bool>>,
    folders: Seq<Seq<char>>,
    one_path: spec_fn(Seq<char>, Seq<char>) -> bool,
) -> bool {
    &&& is_sameness(folders, same)
    &&& forall|earlier: int, at: int|
        0 <= earlier < at < folders.len() ==> #[trigger] same[at][earlier] == one_path(
            folders[earlier],
            folders[at],
        )
}

/// What is offered is offered again as it stands: where the same is said of two
/// folders whenever it is asked, whichever of them comes first, folders that are in
/// order and there once are left as they are.
pub proof fn what_is_offered_is_offered_again(
    folders: Seq<Seq<char>>,
    one_path: spec_fn(Seq<char>, Seq<char>) -> bool,
    same: Seq<Seq<bool>>,
    offered: Seq<Seq<char>>,
    same_again: Seq<Seq<bool>>,
    offered_again: Seq<Seq<char>>,
)
    requires
        forall|one: Seq<char>, other: Seq<char>| #[trigger] one_path(one, other) == one_path(other, one),
        is_told_by(same, folders, one_path),
        is_in_order_of(offered, each_once(folders, same)),
        is_told_by(same_again, offered, one_path),
        is_in_order_of(offered_again, each_once(offered, same_again)),
    ensures
        offered_again == offered,
{
    let places = first_places(same, folders.len());
    let kept = each_once(folders, same);
    let keys = lowered_all(kept);
    lemma_first_places(folders, same, folders.len());
    let order = choose|order: Seq<int>| #[trigger]
        puts_in_order(order, keys) && offered == picked(kept, order);
    assert forall|earlier: int, at: int|
        0 <= earlier < at < offered.len() implies !#[trigger] same_again[at][earlier] by {
        let one = order[earlier];
        let other = order[at];
        assert(goes_before(keys, one, other));
        lemma_goes_before_once(keys, one, one);
        assert(offered[earlier] == kept[one] && offered[at] == kept[other]);
        assert(kept[one] == folders[places[one]] && kept[other] == folders[places[other]]);
        if one < other {
            assert(!same[places[other]][places[one]]);
        } else {
            assert(!same[places[one]][places[other]]);
        }
        assert(one_path(offered[earlier], offered[at]) == one_path(offered[at], offered[earlier]));
    }
    different_folders_are_all_kept(offered, same_again);
    sorting_puts_in_order(kept, offered);
    sorting_leaves_what_is_in_order(offered, offered_again);
}

/// Ask of each folder whether it is the same as each before it.
pub fn sameness(folders: &[String]) -> (same: Vec<Vec<bool>>)
    ensures
        is_sameness(folders.deep_view(), same.deep_view()),
{
    let ghost all = folders.deep_view();
    let mut same: Vec<Vec<bool>> = Vec::new();
    for at in 0..folders.len()
        invariant
            all == folders.deep_view(),
            same@.len() == at,
            forall|i: int| 0 <= i < at ==> (#[trigger] same@[i])@.len() == i,
            forall|earlier: int, i: int|
                0 <= earlier < i < at && is_same(#[trigger] all[earlier], #[trigger] all[i])
                    ==> same@[i]@[earlier],
            forall|earlier: int, i: int|
                0 <= earlier < i < at && #[trigger] same@[i]@[earlier] ==> may_be_same(
                    all[earlier],
                    all[i],
                ),
    {
        let mut row: Vec<bool> = Vec::new();
        for earlier in 0..at
            invariant
                all == folders.deep_view(),
                at < folders@.len(),
                row@.len() == earlier,
                forall|i: int|
                    0 <= i < earlier && is_same(#[trigger] all[i], all[at as int]) ==> row@[i],
                forall|i: int|
                    0 <= i < earlier && #[trigger] row@[i] ==> may_be_same(
                        all[i],
                        all[at as int],
                    ),
        {
            assert(all[earlier as int] == folders@[earlier as int]@);
            assert(all[at as int] == folders@[at as int]@);
            row.push(same_path(folders[earlier].as_str(), folders[at].as_str()));
        }
        same.push(row);
    }
    assert forall|at: int| 0 <= at < same.deep_view().len() implies (#[trigger] same.deep_view()[at]).len()
        == at by {
        assert(same.deep_view()[at] == same@[at].deep_view());
    }
    assert forall|earlier: int, at: int|
        0 <= earlier < at < all.len() && is_same(
            #[trigger] all[earlier],
            #[trigger] all[at],
        ) implies same.deep_view()[at][earlier] by {
        assert(same@[at]@[earlier]);
        assert(same.deep_view()[at] == same@[at].deep_view());
    }
    assert forall|earlier: int, at: int|
        0 <= earlier < at < all.len()
            && #[trigger] same.deep_view()[at][earlier] implies may_be_same(
        all[earlier],
        all[at],
    ) by {
        assert(same.deep_view()[at] == same@[at].deep_view());
        assert(same@[at]@[earlier]);
    }
    same
}

/// The folders in the order they are offered, once it is known which of them are
/// the same.
pub fn sorted_given(folders: &[String], same: &Vec<Vec<bool>>) -> (sorted: Vec<String>)
    requires
        is_sameness(folders.deep_view(), same.deep_view()),
    ensures
        is_in_order_of(sorted.deep_view(), each_once(folders.deep_view(), same.deep_view())),
{
    let ghost all = folders.deep_view();
    let ghost table = same.deep_view();
    let mut places: Vec<usize> = Vec::new();
    let ghost mut found: Seq<int> = Seq::empty();
    for at in 0..folders.len()
        invariant
            all == folders.deep_view(),
            table == same.deep_view(),
            is_sameness(all, table),
            found == first_places(table, at as nat),
            found.len() == places@.len(),
            forall|i: int| 0 <= i < found.len() ==> found[i] == #[trigger] places@[i] && places@[i] < at,
    {
        let mut again = false;
        let mut i: usize = 0;
        while i < places.len()
            invariant
                all == folders.deep_view(),
                table == same.deep_view(),
                is_sameness(all, table),
                at < folders@.len(),
                i <= places@.len(),
                found.len() == places@.len(),
                forall|k: int|
                    0 <= k < found.len() ==> found[k] == #[trigger] places@[k] && places@[k] < at,
                again ==> seen(table, found, at as int),
                !again ==> forall|k: int| 0 <= k < i ==> !table[at as int][#[trigger] found[k]],
            decreases places.len() - i,
        {
            let place: usize = places[i];
            assert(found[i as int] == place);
            assert(table[at as int] == same@[at as int].deep_view());
            assert(table[at as int].len() == at);
            if same[at][place] {
                assert(table[at as int][found[i as int]]);
                again = true;
            }
            i = i + 1;
        }
        if !again {
            places.push(at);
            proof {
                assert(!seen(table, found, at as int));
                found = found.push(at as int);
            }
        }
    }
    let ghost kept = each_once(all, table);
    // The folders that are kept and, for each, its name in lower case.
    let mut names: Vec<String> = Vec::new();
    let mut keys: Vec<String> = Vec::new();
    for i in 0..places.len()
        invariant
            all == folders.deep_view(),
            kept == each_once(all, table),
            found == first_places(table, all.len()),
            found.len() == places@.len(),
            forall|k: int|
                0 <= k < found.len() ==> found[k] == #[trigger] places@[k] && places@[k] < all.len(),
            names@.len() == i,
            keys@.len() == i,
            forall|k: int| 0 <= k < i ==> (#[trigger] names@[k])@ == kept[k],
            forall|k: int| 0 <= k < i ==> (#[trigger] keys@[k])@ == lowercase(kept[k]),
    {
        let place: usize = places[i];
        assert(found[i as int] == place);
        assert(kept[i as int] == all[place as int]);
        assert(all[place as int] == folders@[place as int]@);
        let name = folders[place].clone();
        keys.push(lowered(name.as_str()));
        names.push(name);
    }
    assert(names.deep_view() =~= kept);
    assert(keys.deep_view() =~= lowered_all(kept));
    sorted_by(&names, &keys)
}

/// Some folders in the order of the letters each is put in order by.
pub fn sorted_by(names: &Vec<String>, lowered: &Vec<String>) -> (sorted: Vec<String>)
    requires
        lowered@.len() == names@.len(),
    ensures
        is_arranged_by(sorted.deep_view(), names.deep_view(), lowered.deep_view()),
{
    let ghost kept = names.deep_view();
    let order = order_of(lowered);
    let ghost chosen = order@.map_values(|at: usize| at as int);
    let mut sorted: Vec<String> = Vec::new();
    for i in 0..order.len()
        invariant
            chosen == order@.map_values(|at: usize| at as int),
            puts_in_order(chosen, lowered.deep_view()),
            lowered@.len() == names@.len(),
            kept == names.deep_view(),
            sorted.deep_view() == picked(kept, chosen).take(i as int),
    {
        let ghost so_far = sorted.deep_view();
        assert(chosen[i as int] == order@[i as int]);
        let name = names[order[i]].clone();
        assert(name@ == kept[chosen[i as int]]);
        sorted.push(name);
        assert(sorted.deep_view() =~= so_far.push(name@));
        assert(sorted.deep_view() =~= picked(kept, chosen).take(i + 1));
    }
    assert(sorted.deep_view() =~= picked(kept, chosen));
    sorted
}

/// The order that puts some pieces of text in alphabetical order.
pub fn order_of(texts: &Vec<String>) -> (order: Vec<usize>)
    ensures
        puts_in_order(order@.map_values(|at: usize| at as int), texts.deep_view()),
{
    let ghost all = texts.deep_view();
    let mut keys: Vec<Vec<char>> = Vec::new();
    for at in 0..texts.len()
        invariant
            all == texts.deep_view(),
            keys@.len() == at,
            forall|k: int| 0 <= k < at ==> (#[trigger] keys@[k])@ == all[k],
    {
        keys.push(letters(texts[at].as_str()));
    }
    let mut order: Vec<usize> = Vec::new();
    for at in 0..keys.len()
        invariant
            keys@.len() == all.len(),
            forall|k: int|
                0 <= k < all.len() ==> (#[trigger] keys@[k])@ == all[k],
            order@.len() == at,
            forall|i: int| 0 <= i < at ==> #[trigger] order@[i] < at,
            forall|k: usize| k < at ==> #[trigger] order@.contains(k),
            forall|i: int, j: int|
                0 <= i < j < at ==> goes_before(
                    all,
                    #[trigger] order@[i] as int,
                    #[trigger] order@[j] as int,
                ),
    {
        // In behind everything that does not come after it.
        let mut place: usize = order.len();
        while place > 0 && before(&keys[at], &keys[order[place - 1]])
            invariant
                keys@.len() == all.len(),
                at < all.len(),
                forall|k: int|
                    0 <= k < all.len() ==> (#[trigger] keys@[k])@ == all[k],
                place <= order@.len(),
                order@.len() == at,
                forall|i: int| 0 <= i < at ==> #[trigger] order@[i] < at,
                forall|i: int|
                    place <= i < at ==> goes_before(all, at as int, #[trigger] order@[i] as int),
            decreases place,
        {
            assert(order@[place - 1] < at);
            place = place - 1;
        }
        let ghost was = order@;
        proof {
            if place > 0 {
                assert(was[place - 1] < at);
                texts_stand_in_one_order(
                    all[at as int],
                    all[was[place - 1] as int],
                );
                assert(goes_before(all, was[place - 1] as int, at as int));
            }
            assert forall|i: int| 0 <= i < place implies goes_before(
                all,
                #[trigger] was[i] as int,
                at as int,
            ) by {
                if i < place - 1 {
                    assert(goes_before(all, was[i] as int, was[place - 1] as int));
                    lemma_goes_before_carries(
                        all,
                        was[i] as int,
                        was[place - 1] as int,
                        at as int,
                    );
                }
            }
        }
        order.insert(place, at);
        proof {
            let now = order@;
            assert forall|i: int| 0 <= i < at + 1 implies #[trigger] now[i] < at + 1 by {
                if i < place {
                    assert(now[i] == was[i]);
                } else if i > place {
                    assert(now[i] == was[i - 1]);
                }
            }
            assert forall|k: usize| k < at + 1 implies #[trigger] now.contains(k) by {
                if k < at {
                    assert(was.contains(k));
                    let i = choose|i: int| 0 <= i < was.len() && was[i] == k;
                    if i < place {
                        assert(now[i] == k);
                    } else {
                        assert(now[i + 1] == k);
                    }
                } else {
                    assert(now[place as int] == k);
                }
            }
            assert forall|i: int, j: int| 0 <= i < j < at + 1 implies goes_before(
                all,
                #[trigger] now[i] as int,
                #[trigger] now[j] as int,
            ) by {
                if j < place {
                    assert(now[i] == was[i] && now[j] == was[j]);
                } else if j == place {
                    assert(now[i] == was[i]);
                } else {
                    assert(now[j] == was[j - 1]);
                    if i < place {
                        assert(now[i] == was[i]);
                    } else if i > place {
                        assert(now[i] == was[i - 1]);
                    }
                }
            }
        }
    }
    proof {
        let chosen = order@.map_values(|at: usize| at as int);
        assert forall|at: int| 0 <= at < all.len() implies #[trigger] chosen.contains(at) by {
            assert(order@.contains(at as usize));
            let i = choose|i: int| 0 <= i < order@.len() && order@[i] == at as usize;
            assert(chosen[i] == at);
        }
        assert forall|i: int, j: int| 0 <= i < j < chosen.len() implies goes_before(
            all,
            #[trigger] chosen[i],
            #[trigger] chosen[j],
        ) by {
            assert(chosen[i] == order@[i] && chosen[j] == order@[j]);
        }
    }
    order
}

/// Whether some folders hold one.
pub fn holds_folder(folders: &[String], folder: &str) -> (held: bool)
    ensures
        forall|at: int|
            0 <= at < folders@.len() && is_same(#[trigger] folders.deep_view()[at], folder@) ==> held,
        held ==> exists|at: int|
            0 <= at < folders@.len() && may_be_same(
                #[trigger] folders.deep_view()[at],
                folder@,
            ),
{
    let ghost all = folders.deep_view();
    let mut at: usize = 0;
    while at < folders.len()
        invariant
            all == folders.deep_view(),
            at <= all.len(),
            forall|i: int| 0 <= i < at ==> !is_same(#[trigger] all[i], folder@),
        decreases folders.len() - at,
    {
        assert(all[at as int] == folders@[at as int]@);
        if same_path(folders[at].as_str(), folder) {
            return true;
        }
        at = at + 1;
    }
    false
}

} // verus!
