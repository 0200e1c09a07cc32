//! Coordinates of the universe and finite sets of them.
//!
//! A coordinate is a pair of `i32`. A [`CoordSet`] stores each member as a
//! single `u64` key, so that the hash set underneath is keyed by a primitive
//! integer; the key is a bijection between `i32 x i32` and `u64`.

use std::collections::HashSet;
use vstd::prelude::*;
use vstd::std_specs::hash::spec_hash_keys_iter;
use vstd::std_specs::iter::IteratorSpec;

verus! {

/// Whether `v` fits in an `i32`.
pub open spec fn in_range(v: int) -> bool {
    i32::MIN <= v <= i32::MAX
}

/// The key that stands for the coordinate `(x, y)`.
pub(crate) open spec fn key_of(x: int, y: int) -> int {
    (x + 0x8000_0000) * 0x1_0000_0000 + (y + 0x8000_0000)
}

/// The first component of the coordinate that `k` stands for.
pub(crate) open spec fn key_x(k: int) -> int {
    k / 0x1_0000_0000 - 0x8000_0000
}

/// The second component of the coordinate that `k` stands for.
pub(crate) open spec fn key_y(k: int) -> int {
    k % 0x1_0000_0000 - 0x8000_0000
}

/// Computes the key of a coordinate.
pub(crate) fn pack(x: i32, y: i32) -> (k: u64)
    ensures
        k == key_of(x as int, y as int),
{
    let hi: u64 = (x as i64 + 0x8000_0000) as u64;
    let lo: u64 = (y as i64 + 0x8000_0000) as u64;
    hi * 0x1_0000_0000 + lo
}

/// Computes the coordinate of a key.
pub(crate) fn unpack(k: u64) -> (c: (i32, i32))
    ensures
        c.0 == key_x(k as int),
        c.1 == key_y(k as int),
        key_of(c.0 as int, c.1 as int) == k,
{
    let hi: u64 = k / 0x1_0000_0000;
    let lo: u64 = k % 0x1_0000_0000;
    ((hi as i64 - 0x8000_0000) as i32, (lo as i64 - 0x8000_0000) as i32)
}

/// The `i`-th coordinate of `coords`, as a pair of mathematical integers.
pub open spec fn coord_at(coords: Seq<(i32, i32)>, i: int) -> (int, int) {
    (coords[i].0 as int, coords[i].1 as int)
}

/// The set of the coordinates that occur in `coords`.
pub open spec fn coords_of(coords: Seq<(i32, i32)>) -> Set<(int, int)> {
    Set::new(
        |c: (int, int)| exists|i: int| 0 <= i < coords.len() && #[trigger] coord_at(coords, i) == c,
    )
}

/// A finite set of coordinates.
pub struct CoordSet {
    keys: HashSet<u64>,
}

impl View for CoordSet {
    type V = Set<(int, int)>;

    closed spec fn view(&self) -> Set<(int, int)> {
        Set::new(
            |c: (int, int)|
                in_range(c.0) && in_range(c.1) && self.keys@.contains(key_of(c.0, c.1) as u64),
        )
    }
}

impl CoordSet {
    /// The set with no members.
    pub fn new() -> (set: CoordSet)
        ensures
            set@ == Set::<(int, int)>::empty(),
    {
        CoordSet { keys: HashSet::new() }
    }

    /// Adds `coord`, and tells whether it was absent before.
    pub fn insert(&mut self, coord: (i32, i32)) -> (added: bool)
        ensures
            final(self)@ == old(self)@.insert((coord.0 as int, coord.1 as int)),
            added == !old(self)@.contains((coord.0 as int, coord.1 as int)),
    {
        let k = pack(coord.0, coord.1);
        self.keys.insert(k)
    }

    /// Whether `coord` is a member.
    pub fn contains(&self, coord: &(i32, i32)) -> (found: bool)
        ensures
            found == self@.contains((coord.0 as int, coord.1 as int)),
    {
        let k = pack(coord.0, coord.1);
        self.keys.contains(&k)
    }

    /// The number of members.
    pub fn len(&self) -> (n: usize)
        ensures
            self@.finite(),
            n == self@.len(),
    {
        proof {
            self.lemma_same_size();
        }
        self.keys.len()
    }

    /// Whether the set has no members.
    pub fn is_empty(&self) -> (empty: bool)
        ensures
            empty == (self@ == Set::<(int, int)>::empty()),
    {
        proof {
            self.lemma_same_size();
            if self.keys@.len() == 0 {
                assert(self@ =~= Set::<(int, int)>::empty());
            }
        }
        self.keys.len() == 0
    }

    /// A set is finite, and its members are pairs of `i32`.
    pub proof fn lemma_members(&self)
        ensures
            self@.finite(),
            forall|c: (int, int)| #[trigger] self@.contains(c) ==> in_range(c.0) && in_range(c.1),
    {
        self.lemma_same_size();
    }

    /// The set has as many members as it stores keys.
    proof fn lemma_same_size(&self)
        ensures
            self.keys@.finite(),
            self@.finite(),
            self@.len() == self.keys@.len(),
    {
        // Iteration lists every key, so the keys are finitely many.
        let listed = spec_hash_keys_iter(&self.keys).remaining().unref();
        assert(listed.to_set() == self.keys@);
        // The members are the coordinates of the keys, one for each key.
        let coord = |k: u64| (key_x(k as int), key_y(k as int));
        assert(self.keys@.map(coord) =~= self@);
        vstd::set_lib::lemma_map_size(self.keys@, self@, coord);
    }

    /// The members, each once, in no particular order.
    pub fn to_vec(&self) -> (coords: Vec<(i32, i32)>)
        ensures
            coords@.no_duplicates(),
            coords_of(coords@) == self@,
            coords@.len() == self@.len(),
    {
        let mut coords: Vec<(i32, i32)> = Vec::new();
        let ghost keys = spec_hash_keys_iter(&self.keys).remaining();
        for k in it: self.keys.iter()
            invariant
                it.seq() == keys,
                coords@.len() == it.index(),
                forall|i: int|
                    0 <= i < coords@.len() ==> key_of(
                        (#[trigger] coords@[i]).0 as int,
                        coords@[i].1 as int,
                    ) == *keys[i],
        {
            let c = unpack(*k);
            coords.push(c);
        }
        proof {
            self.lemma_same_size();
            assert forall|c: (int, int)| coords_of(coords@).contains(c) implies self@.contains(
                c,
            ) by {
                let i = choose|i: int| 0 <= i < coords@.len() && coord_at(coords@, i) == c;
                assert(keys.unref()[i] == *keys[i]);
            }
            assert forall|c: (int, int)| self@.contains(c) implies coords_of(coords@).contains(
                c,
            ) by {
                let k = key_of(c.0, c.1) as u64;
                let i = choose|i: int| 0 <= i < keys.unref().len() && keys.unref()[i] == k;
                assert(coord_at(coords@, i) == c);
            }
        }
        coords
    }
}

} // verus!
