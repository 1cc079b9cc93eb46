//! The sparse grid of cells that formulas read.
use vstd::prelude::*;
use crate::types::{Expr, Value};
use ahash::AHashMap;

verus! {

/// ahash's map, declared so that the sheet can hold one.
#[verifier::external_type_specification]
#[verifier::external_body]
#[verifier::reject_recursive_types(K)]
#[verifier::reject_recursive_types(V)]
#[verifier::reject_recursive_types(S)]
pub struct ExAHashMap<K, V, S>(AHashMap<K, V, S>);

/// The hasher state that `AHashMap` uses by default.
#[verifier::external_type_specification]
#[verifier::external_body]
pub struct ExRandomState(ahash::RandomState);

/// A cell: the value it holds and the formula that produced it, each optional.
#[derive(Debug)]
pub struct Cell {
    pub value: Option<Value>,
    pub expr: Option<Expr>,
}

/// The cells that a map holds, by position.
pub uninterp spec fn cells_of(m: AHashMap<(usize, usize), Cell>) -> Map<(usize, usize), Cell>;

/// Relies on `AHashMap::new`: a new map holds nothing.
#[verifier::external_body]
fn map_new() -> (r: AHashMap<(usize, usize), Cell>)
    ensures
        cells_of(r).is_empty(),
{
    AHashMap::new()
}

/// Relies on `AHashMap::get`: the cell stored under the key, if any.
#[verifier::external_body]
fn map_get(m: &AHashMap<(usize, usize), Cell>, k: (usize, usize)) -> (r: Option<&Cell>)
    ensures
        r is None <==> !cells_of(*m).contains_key(k),
        r matches Some(c) ==> *c == cells_of(*m)[k],
{
    m.get(&k)
}

/// Relies on `AHashMap::insert`: the key now maps to the cell, and the cell
/// that it mapped to before is handed back.
#[verifier::external_body]
fn map_insert(m: &mut AHashMap<(usize, usize), Cell>, k: (usize, usize), c: Cell) -> (r: Option<Cell>)
    ensures
        cells_of(*final(m)) == cells_of(*old(m)).insert(k, c),
        r is None <==> !cells_of(*old(m)).contains_key(k),
        r matches Some(p) ==> p == cells_of(*old(m))[k],
{
    m.insert(k, c)
}

/// Relies on `AHashMap::get_mut`: a borrow of the stored cell, if any; what
/// is written through it is what the map then holds under the key.
#[verifier::external_body]
fn map_get_mut(m: &mut AHashMap<(usize, usize), Cell>, k: (usize, usize)) -> (r: Option<&mut Cell>)
    ensures
        r is None <==> !cells_of(*old(m)).contains_key(k),
        r is None ==> cells_of(*final(m)) == cells_of(*old(m)),
        r matches Some(c) ==> *c == cells_of(*old(m))[k]
            && cells_of(*final(m)) == cells_of(*old(m)).insert(k, *final(c)),
{
    m.get_mut(&k)
}

/// Relies on `HashMap::len`, reached through `AHashMap`'s `Deref`: the
/// number of keys.
#[verifier::external_body]
fn map_len(m: &AHashMap<(usize, usize), Cell>) -> (r: usize)
    ensures
        r == cells_of(*m).dom().len(),
{
    m.len()
}

/// Relies on `HashMap::keys`, reached through `AHashMap`'s `Deref`: each key
/// once, in an order that is left open.
#[verifier::external_body]
fn map_keys(m: &AHashMap<(usize, usize), Cell>) -> (r: Vec<(usize, usize)>)
    ensures
        r@.no_duplicates(),
        r@.to_set() == cells_of(*m).dom(),
{
    m.keys().copied().collect()
}

/// A sparse sheet: only the positions that were set hold a cell.
pub struct Sheet {
    map: AHashMap<(usize, usize), Cell>,
}

impl Sheet {
    /// The cells of the sheet by (column, row).
    pub closed spec fn cells(&self) -> Map<(usize, usize), Cell> {
        cells_of(self.map)
    }

    /// A sheet without cells.
    pub fn new() -> (r: Sheet)
        ensures
            r.cells() == Map::<(usize, usize), Cell>::empty(),
    {
        Sheet { map: map_new() }
    }

    pub fn has_cell(&self, x: usize, y: usize) -> (r: bool)
        ensures
            r == self.cells().contains_key((x, y)),
    {
        map_get(&self.map, (x, y)).is_some()
    }

    pub fn get(&self, x: usize, y: usize) -> (r: Option<&Cell>)
        ensures
            r is None <==> !self.cells().contains_key((x, y)),
            r matches Some(c) ==> *c == self.cells()[(x, y)],
    {
        map_get(&self.map, (x, y))
    }

    /// A borrow of the cell at (x, y), if there is one; what is written
    /// through it is what the sheet then holds there.
    pub fn get_mut(&mut self, x: usize, y: usize) -> (r: Option<&mut Cell>)
        ensures
            r is None <==> !old(self).cells().contains_key((x, y)),
            r is None ==> final(self).cells() == old(self).cells(),
            r matches Some(c) ==> *c == old(self).cells()[(x, y)]
                && final(self).cells() == old(self).cells().insert((x, y), *final(c)),
    {
        map_get_mut(&mut self.map, (x, y))
    }

    /// Stores the cell at (x, y) and returns the cell that was there.
    pub fn set(&mut self, x: usize, y: usize, cell: Cell) -> (r: Option<Cell>)
        ensures
            final(self).cells() == old(self).cells().insert((x, y), cell),
            r is None <==> !old(self).cells().contains_key((x, y)),
            r matches Some(p) ==> p == old(self).cells()[(x, y)],
    {
        map_insert(&mut self.map, (x, y), cell)
    }

    /// The number of cells that are set.
    pub fn len(&self) -> (r: usize)
        ensures
            r == self.cells().dom().len(),
    {
        map_len(&self.map)
    }

    /// The cells that are set with their positions, each position once, in
    /// no fixed order.
    pub fn iter(&self) -> (r: Vec<((usize, usize), &Cell)>)
        ensures
            forall|i: int| 0 <= i < r.len() ==> self.cells().contains_key(#[trigger] r[i].0)
                && *r[i].1 == self.cells()[r[i].0],
            forall|p: (usize, usize)| self.cells().contains_key(p) ==> exists|i: int| 0 <= i < r.len() && #[trigger] r[i].0 == p,
            forall|i: int, j: int| 0 <= i < j < r.len() ==> r[i].0 != r[j].0,
    {
        let keys = map_keys(&self.map);
        let mut out: Vec<((usize, usize), &Cell)> = Vec::new();
        let mut k: usize = 0;
        while k < keys.len()
            invariant
                k <= keys.len(),
                keys@.no_duplicates(),
                keys@.to_set() == self.cells().dom(),
                out.len() == k,
                forall|i: int| 0 <= i < k ==> (#[trigger] out[i]).0 == keys[i] && *out[i].1 == self.cells()[keys[i]],
            decreases keys.len() - k,
        {
            let (x, y) = keys[k];
            assert(keys@.to_set().contains(keys@[k as int]));
            match self.get(x, y) {
                Some(c) => out.push(((x, y), c)),
                None => {},
            }
            k = k + 1;
        }
        assert forall|p: (usize, usize)| self.cells().contains_key(p) implies exists|i: int|
            0 <= i < out.len() && #[trigger] out[i].0 == p by {
            assert(keys@.to_set().contains(p));
            let i = choose|i: int| 0 <= i < keys.len() && keys@[i] == p;
            assert(out[i].0 == p);
        }
        assert forall|i: int| 0 <= i < out.len() implies self.cells().contains_key(#[trigger] out[i].0) by {
            assert(keys@.to_set().contains(keys@[i]));
        }
        out
    }
}

} // verus!
