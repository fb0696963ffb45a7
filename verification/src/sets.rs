//! Pictures and the sets of copies a search puts them in.

use vstd::prelude::*;

verus! {

/// One picture of a set.
pub struct Member {
    pub file_id: i64,
    /// Where the file is, under the folder that was scanned.
    pub rel_path: String,
    pub width: u32,
    pub height: u32,
    pub format: String,
    pub size_bytes: i64,
    /// When it was last written, in whole seconds since the epoch.
    pub mtime_seconds: i64,
    /// Whether it is the copy of its set that the search would keep.
    pub auto_keep: bool,
}

/// What a picture is, as the contracts speak of it.
#[verifier::ext_equal]
pub struct MemberView {
    pub file_id: i64,
    pub rel_path: Seq<char>,
    pub width: u32,
    pub height: u32,
    pub format: Seq<char>,
    pub size_bytes: i64,
    pub mtime_seconds: i64,
    pub auto_keep: bool,
}

impl DeepView for Member {
    type V = MemberView;

    open spec fn deep_view(&self) -> MemberView {
        MemberView {
            file_id: self.file_id,
            rel_path: self.rel_path@,
            width: self.width,
            height: self.height,
            format: self.format@,
            size_bytes: self.size_bytes,
            mtime_seconds: self.mtime_seconds,
            auto_keep: self.auto_keep,
        }
    }
}

/// Pictures a search takes for copies of one another.
pub struct DuplicateSet {
    pub set_id: i64,
    pub members: Vec<Member>,
}

/// What a set is, as the contracts speak of it.
#[verifier::ext_equal]
pub struct SetView {
    pub set_id: i64,
    pub members: Seq<MemberView>,
}

impl DeepView for DuplicateSet {
    type V = SetView;

    open spec fn deep_view(&self) -> SetView {
        SetView { set_id: self.set_id, members: self.members.deep_view() }
    }
}

/// The file ids of some pictures, in their order.
pub open spec fn ids_of(members: Seq<MemberView>) -> Seq<i64> {
    members.map_values(|member: MemberView| member.file_id)
}

/// Whether a picture is one of some pictures.
pub open spec fn has_id(members: Seq<MemberView>, file_id: i64) -> bool {
    exists|at: int| 0 <= at < members.len() && (#[trigger] members[at]).file_id == file_id
}

/// Whether a picture is in one of some sets.
pub open spec fn in_sets(sets: Seq<SetView>, file_id: i64) -> bool {
    exists|at: int| 0 <= at < sets.len() && has_id((#[trigger] sets[at]).members, file_id)
}

/// Two pictures as a pair, the lower file id first, which is how a pair is
/// written down and how it is looked up.
pub open spec fn pair_of(one: i64, other: i64) -> (i64, i64) {
    if one <= other {
        (one, other)
    } else {
        (other, one)
    }
}

/// Two pictures as a pair, the lower file id first.
pub fn pair(one: i64, other: i64) -> (pair: (i64, i64))
    ensures
        pair == pair_of(one, other),
{
    if one <= other {
        (one, other)
    } else {
        (other, one)
    }
}

/// A pair is the same pair whichever of the two is named first.
pub proof fn a_pair_has_no_order(one: i64, other: i64)
    ensures
        pair_of(one, other) == pair_of(other, one),
{
}

/// One picture paired with each of the pictures that follow it.
pub open spec fn pairs_with(one: i64, others: Seq<i64>) -> Seq<(i64, i64)> {
    others.map_values(|other: i64| pair_of(one, other))
}

/// Every pair of some pictures: the first with each after it, then the second
/// with each after it, and so on.
pub open spec fn pairs(ids: Seq<i64>) -> Seq<(i64, i64)>
    decreases ids.len(),
{
    if ids.len() == 0 {
        Seq::empty()
    } else {
        pairs_with(ids[0], ids.drop_first()) + pairs(ids.drop_first())
    }
}

/// A pair is among the pairs of some pictures exactly where it is a pair of two
/// of them.
pub proof fn pairs_are_of_two_pictures(ids: Seq<i64>, wanted: (i64, i64))
    ensures
        pairs(ids).contains(wanted) <==> exists|i: int, j: int|
            0 <= i < j < ids.len() && wanted == pair_of(#[trigger] ids[i], #[trigger] ids[j]),
    decreases ids.len(),
{
    if ids.len() == 0 {
        return ;
    }
    let rest = ids.drop_first();
    let head = pairs_with(ids[0], rest);
    let all = pairs(ids);
    pairs_are_of_two_pictures(rest, wanted);
    if all.contains(wanted) {
        let at = choose|at: int| 0 <= at < all.len() && all[at] == wanted;
        if at < head.len() {
            assert(wanted == pair_of(ids[0], ids[at + 1]));
        } else {
            assert(pairs(rest)[at - head.len()] == wanted);
            assert(pairs(rest).contains(wanted));
            let (i, j) = choose|i: int, j: int|
                0 <= i < j < rest.len() && wanted == pair_of(#[trigger] rest[i], #[trigger] rest[j]);
            assert(wanted == pair_of(ids[i + 1], ids[j + 1]));
        }
    }
    if exists|i: int, j: int|
        0 <= i < j < ids.len() && wanted == pair_of(#[trigger] ids[i], #[trigger] ids[j]) {
        let (i, j) = choose|i: int, j: int|
            0 <= i < j < ids.len() && wanted == pair_of(#[trigger] ids[i], #[trigger] ids[j]);
        if i == 0 {
            assert(head[j - 1] == wanted);
            assert(all[j - 1] == wanted);
        } else {
            assert(wanted == pair_of(rest[i - 1], rest[j - 1]));
            let at = choose|at: int| 0 <= at < pairs(rest).len() && pairs(rest)[at] == wanted;
            assert(all[head.len() + at] == wanted);
        }
    }
}

impl Member {
    /// The same picture again.
    pub fn copy(&self) -> (copied: Member)
        ensures
            copied.deep_view() == self.deep_view(),
    {
        Member {
            file_id: self.file_id,
            rel_path: self.rel_path.clone(),
            width: self.width,
            height: self.height,
            format: self.format.clone(),
            size_bytes: self.size_bytes,
            mtime_seconds: self.mtime_seconds,
            auto_keep: self.auto_keep,
        }
    }
}

impl DuplicateSet {
    /// The file ids of the pictures in the set, in their order.
    pub fn ids(&self) -> (ids: Vec<i64>)
        ensures
            ids@ == ids_of(self.deep_view().members),
    {
        let mut ids: Vec<i64> = Vec::new();
        for at in 0..self.members.len()
            invariant
                ids@ == ids_of(self.deep_view().members).take(at as int),
        {
            ids.push(self.members[at].file_id);
            assert(ids@ =~= ids_of(self.deep_view().members).take(at + 1));
        }
        assert(ids@ =~= ids_of(self.deep_view().members));
        ids
    }
}

/// Every pair of pictures in a set, lower file id first, which is how a pair is
/// written down and how it is looked up.
pub fn pairs_of(set: &DuplicateSet) -> (found: Vec<(i64, i64)>)
    ensures
        found@ == pairs(ids_of(set.deep_view().members)),
{
    let ids = set.ids();
    let mut found: Vec<(i64, i64)> = Vec::new();
    let mut at: usize = 0;
    assert(ids@.skip(0) =~= ids@);
    assert(found@ + pairs(ids@) =~= pairs(ids@));
    while at < ids.len()
        invariant
            at <= ids@.len(),
            found@ + pairs(ids@.skip(at as int)) == pairs(ids@),
        decreases ids.len() - at,
    {
        let ghost before = found@;
        let ghost rest = ids@.skip(at as int).drop_first();
        assert(rest =~= ids@.skip(at + 1));
        let mut other: usize = at + 1;
        while other < ids.len()
            invariant
                at < ids@.len(),
                at + 1 <= other <= ids@.len(),
                rest == ids@.skip(at + 1),
                found@ == before + pairs_with(ids@[at as int], rest).take(other - at - 1),
            decreases ids.len() - other,
        {
            found.push(pair(ids[at], ids[other]));
            other = other + 1;
            assert(found@ =~= before + pairs_with(ids@[at as int], rest).take(other - at - 1));
        }
        assert(found@ =~= before + pairs_with(ids@[at as int], rest));
        assert(found@ + pairs(rest) =~= before + pairs(ids@.skip(at as int)));
        at = at + 1;
    }
    assert(found@ + pairs(ids@.skip(at as int)) =~= found@);
    found
}

} // verus!
