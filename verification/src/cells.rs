//! Sets and maps of grid cells, kept in hash tables keyed by a packed
//! 64-bit form of the cell coordinates.
use std::collections::{HashMap, HashSet};
use vstd::prelude::*;

verus! {

broadcast use vstd::std_specs::hash::group_hash_axioms;

/// The 64-bit key of a cell: the bits of `x` above the bits of `y`.
pub open spec fn cell_key(x: i32, y: i32) -> u64 {
    ((x as u32 as u64) << 32u64) | (y as u32 as u64)
}

/// Distinct cells have distinct keys.
pub proof fn lemma_cell_key_injective(x1: i32, y1: i32, x2: i32, y2: i32)
    ensures
        cell_key(x1, y1) == cell_key(x2, y2) ==> x1 == x2 && y1 == y2,
{
    assert(((x1 as u32 as u64) << 32u64) | (y1 as u32 as u64) == ((x2 as u32 as u64) << 32u64)
        | (y2 as u32 as u64) ==> x1 == x2 && y1 == y2) by (bit_vector);
}

fn pack(x: i32, y: i32) -> (k: u64)
    ensures
        k == cell_key(x, y),
{
    ((x as u32 as u64) << 32u64) | (y as u32 as u64)
}

/// A finite set of grid cells.
pub struct CellSet {
    keys: HashSet<u64>,
}

impl View for CellSet {
    type V = Set<(i32, i32)>;

    closed spec fn view(&self) -> Set<(i32, i32)> {
        Set::new(|c: (i32, i32)| self.keys@.contains(cell_key(c.0, c.1)))
    }
}

impl CellSet {
    /// The empty set.
    pub fn new() -> (s: CellSet)
        ensures
            s@ == Set::<(i32, i32)>::empty(),
    {
        let s = CellSet { keys: HashSet::new() };
        assert(s@ =~= Set::<(i32, i32)>::empty());
        s
    }

    /// Whether the cell belongs to the set.
    pub fn contains(&self, x: i32, y: i32) -> (b: bool)
        ensures
            b == self@.contains((x, y)),
    {
        self.keys.contains(&pack(x, y))
    }

    /// Adds a cell.
    pub fn insert(&mut self, x: i32, y: i32)
        ensures
            final(self)@ == old(self)@.insert((x, y)),
    {
        let k = pack(x, y);
        self.keys.insert(k);
        assert forall|c: (i32, i32)| #[trigger] final(self)@.contains(c) == old(self)@.insert(
            (x, y),
        ).contains(c) by {
            lemma_cell_key_injective(c.0, c.1, x, y);
        }
        assert(final(self)@ =~= old(self)@.insert((x, y)));
    }

    /// Removes a cell.
    pub fn remove(&mut self, x: i32, y: i32)
        ensures
            final(self)@ == old(self)@.remove((x, y)),
    {
        let k = pack(x, y);
        self.keys.remove(&k);
        assert forall|c: (i32, i32)| #[trigger] final(self)@.contains(c) == old(self)@.remove(
            (x, y),
        ).contains(c) by {
            lemma_cell_key_injective(c.0, c.1, x, y);
        }
        assert(final(self)@ =~= old(self)@.remove((x, y)));
    }
}

/// A finite map from grid cells to values.
pub struct CellMap<V> {
    entries: HashMap<u64, V>,
}

impl<V> View for CellMap<V> {
    type V = Map<(i32, i32), V>;

    closed spec fn view(&self) -> Map<(i32, i32), V> {
        Map::new(
            |c: (i32, i32)| self.entries@.contains_key(cell_key(c.0, c.1)),
            |c: (i32, i32)| self.entries@[cell_key(c.0, c.1)],
        )
    }
}

impl<V: Copy> CellMap<V> {
    /// The empty map.
    pub fn new() -> (m: CellMap<V>)
        ensures
            m@ == Map::<(i32, i32), V>::empty(),
    {
        let m = CellMap { entries: HashMap::new() };
        assert(m@ =~= Map::<(i32, i32), V>::empty());
        m
    }

    /// The value at a cell, if any.
    pub fn get(&self, x: i32, y: i32) -> (v: Option<V>)
        ensures
            v == (if self@.contains_key((x, y)) { Some(self@[(x, y)]) } else { None }),
    {
        match self.entries.get(&pack(x, y)) {
            Some(v) => Some(*v),
            None => None,
        }
    }

    /// Sets the value at a cell, replacing any earlier one.
    pub fn insert(&mut self, x: i32, y: i32, v: V)
        ensures
            final(self)@ == old(self)@.insert((x, y), v),
    {
        let k = pack(x, y);
        self.entries.insert(k, v);
        assert forall|c: (i32, i32)| #[trigger] final(self)@.contains_key(c) == old(self)@.insert((x, y), v).contains_key(c) by {
            lemma_cell_key_injective(c.0, c.1, x, y);
        }
        assert forall|c: (i32, i32)| final(self)@.contains_key(c) implies #[trigger] final(self)@[c] == old(self)@.insert((x, y), v)[c] by {
            lemma_cell_key_injective(c.0, c.1, x, y);
        }
        assert(final(self)@ =~= old(self)@.insert((x, y), v));
    }
}

} // verus!
