//! Pairs of pictures, as a set that can be asked about any pair.

use std::collections::HashSet;

use vstd::prelude::*;

verus! {

broadcast use vstd::std_specs::hash::group_hash_axioms;

/// The number a pair is held under: no two pairs share one.
pub open spec fn key_of(pair: (i64, i64)) -> int {
    pair.0 * 0x1_0000_0000_0000_0000 + pair.1 + 0x8000_0000_0000_0000
}

/// Some pairs of pictures.
pub struct Pairs {
    keys: HashSet<i128>,
}

impl View for Pairs {
    type V = Set<(i64, i64)>;

    closed spec fn view(&self) -> Set<(i64, i64)> {
        Set::new(|pair: (i64, i64)| self.keys@.contains(key_of(pair) as i128))
    }
}

proof fn lemma_keys_differ(one: (i64, i64), other: (i64, i64))
    ensures
        i128::MIN <= key_of(one) <= i128::MAX,
        key_of(one) as i128 == key_of(other) as i128 <==> one == other,
{
    assert(i128::MIN <= key_of(other) <= i128::MAX);
}

fn key(pair: (i64, i64)) -> (key: i128)
    ensures
        key == key_of(pair) as i128,
{
    pair.0 as i128 * 0x1_0000_0000_0000_0000 + (pair.1 as i128 + 0x8000_0000_0000_0000)
}

impl Pairs {
    /// No pairs.
    pub fn new() -> (pairs: Pairs)
        ensures
            pairs@ == Set::<(i64, i64)>::empty(),
    {
        let pairs = Pairs { keys: HashSet::new() };
        assert(pairs@ =~= Set::<(i64, i64)>::empty());
        pairs
    }

    /// Whether a pair is one of these.
    pub fn contains(&self, pair: (i64, i64)) -> (held: bool)
        ensures
            held == self@.contains(pair),
    {
        self.keys.contains(&key(pair))
    }

    /// Take a pair up.
    pub fn insert(&mut self, pair: (i64, i64))
        ensures
            final(self)@ == old(self)@.insert(pair),
    {
        self.keys.insert(key(pair));
        proof {
            assert forall|other: (i64, i64)|
                self@.contains(other) == old(self)@.insert(pair).contains(other) by {
                lemma_keys_differ(pair, other);
            }
            assert(self@ =~= old(self)@.insert(pair));
        }
    }

    /// Let a pair go.
    pub fn remove(&mut self, pair: (i64, i64))
        ensures
            final(self)@ == old(self)@.remove(pair),
    {
        self.keys.remove(&key(pair));
        proof {
            assert forall|other: (i64, i64)|
                self@.contains(other) == old(self)@.remove(pair).contains(other) by {
                lemma_keys_differ(pair, other);
            }
            assert(self@ =~= old(self)@.remove(pair));
        }
    }

    /// Let every pair go.
    pub fn clear(&mut self)
        ensures
            final(self)@ == Set::<(i64, i64)>::empty(),
    {
        self.keys.clear();
        assert(self@ =~= Set::<(i64, i64)>::empty());
    }

    /// Take up every pair of a list.
    pub fn extend(&mut self, pairs: &Vec<(i64, i64)>)
        ensures
            final(self)@ == old(self)@.union(pairs@.to_set()),
    {
        assert(self@ =~= old(self)@.union(pairs@.take(0).to_set()));
        for at in 0..pairs.len()
            invariant
                self@ == old(self)@.union(pairs@.take(at as int).to_set()),
        {
            self.insert(pairs[at]);
            proof {
                lemma_take_one_more(pairs@, at as int);
                assert(self@ =~= old(self)@.union(pairs@.take(at + 1).to_set()));
            }
        }
        assert(pairs@.take(pairs@.len() as int) =~= pairs@);
    }

    /// Let every pair of a list go.
    pub fn leave_out(&mut self, pairs: &Vec<(i64, i64)>)
        ensures
            final(self)@ == old(self)@.difference(pairs@.to_set()),
    {
        assert(self@ =~= old(self)@.difference(pairs@.take(0).to_set()));
        for at in 0..pairs.len()
            invariant
                self@ == old(self)@.difference(pairs@.take(at as int).to_set()),
        {
            self.remove(pairs[at]);
            proof {
                lemma_take_one_more(pairs@, at as int);
                assert(self@ =~= old(self)@.difference(pairs@.take(at + 1).to_set()));
            }
        }
        assert(pairs@.take(pairs@.len() as int) =~= pairs@);
    }
}

proof fn lemma_take_one_more(pairs: Seq<(i64, i64)>, at: int)
    requires
        0 <= at < pairs.len(),
    ensures
        pairs.take(at + 1).to_set() == pairs.take(at).to_set().insert(pairs[at]),
{
    let more = pairs.take(at + 1);
    let less = pairs.take(at);
    assert forall|pair: (i64, i64)|
        more.to_set().contains(pair) == less.to_set().insert(pairs[at]).contains(pair) by {
        if more.contains(pair) {
            let i = choose|i: int| 0 <= i < more.len() && more[i] == pair;
            if i < at {
                assert(less[i] == pair);
            }
        }
        if less.contains(pair) {
            let i = choose|i: int| 0 <= i < less.len() && less[i] == pair;
            assert(more[i] == pair);
        }
        assert(more[at] == pairs[at]);
    }
    assert(more.to_set() =~= less.to_set().insert(pairs[at]));
}

} // verus!
