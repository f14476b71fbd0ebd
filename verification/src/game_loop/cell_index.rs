//! A spatial index over grid cells: each cell holds a slab of identifiers,
//! and every entry is named by the cell's key and its slab key.

use vstd::prelude::*;
use vstd::std_specs::iter::IteratorSpec;

use std::collections::{BTreeSet, HashMap};

use slab::Slab;

use crate::collections::{
    index_slab_entries, index_slab_insert, index_slab_new, index_slab_next, index_slab_pairs,
    index_slab_remove, pairs_in_key_order,
};
use crate::game_loop::base::{key_of, lemma_point_key_injective, point_key};
use crate::vector::IVec2;

verus! {

broadcast use
    vstd::std_specs::hash::group_hash_axioms,
    vstd::std_specs::btree::group_btree_axioms,
    vstd::laws_cmp::group_laws_cmp,
;

/// Identifiers stored by grid cell.
pub struct CellIndex {
    cells: HashMap<i64, Slab<usize>>,
}

impl View for CellIndex {
    /// The identifier under each `(cell key, slab key)`.
    type V = Map<(i64, usize), usize>;

    closed spec fn view(&self) -> Map<(i64, usize), usize> {
        Map::new(
            |e: (i64, usize)|
                self.cells@.contains_key(e.0) && index_slab_entries(self.cells@[e.0]).contains_key(
                    e.1,
                ),
            |e: (i64, usize)| index_slab_entries(self.cells@[e.0])[e.1],
        )
    }
}

impl CellIndex {
    /// An empty index.
    pub fn new() -> (r: CellIndex)
        ensures
            r@ == Map::<(i64, usize), usize>::empty(),
    {
        let r = CellIndex { cells: HashMap::new() };
        assert(r@ =~= Map::<(i64, usize), usize>::empty());
        r
    }

    /// The slab key that the next identifier stored in `cell` gets: the
    /// next key of the cell's slab, or 0 for a cell that has none yet.
    pub closed spec fn next_slot(&self, cell: IVec2) -> usize {
        if self.cells@.contains_key(point_key(cell)) {
            index_slab_next(self.cells@[point_key(cell)])
        } else {
            0
        }
    }

    /// Stores `id` in `cell` and returns its slab key there, which was free.
    pub fn insert(&mut self, cell: IVec2, id: usize) -> (slot: usize)
        ensures
            slot == old(self).next_slot(cell),
            !old(self)@.contains_key((point_key(cell), slot)),
            final(self)@ == old(self)@.insert((point_key(cell), slot), id),
            forall|c: IVec2| point_key(c) != point_key(cell) ==> #[trigger] final(self).next_slot(c) == old(self).next_slot(c),
    {
        let ghost old_view = self@;
        let ghost old_cells = self.cells@;
        let k = key_of(cell);
        let mut slab = match self.cells.remove(&k) {
            Some(s) => s,
            None => index_slab_new(),
        };
        let ghost before = index_slab_entries(slab);
        proof {
            if old_cells.contains_key(k) {
                assert(before == index_slab_entries(old_cells[k]));
            } else {
                assert(before == Map::<usize, usize>::empty());
            }
        }
        let slot = index_slab_insert(&mut slab, id);
        self.cells.insert(k, slab);
        proof {
            assert(self.cells@ == old_cells.insert(k, slab));
            assert(self@ =~= old_view.insert((k, slot), id));
        }
        slot
    }

    /// Takes `(cell, slot)` out of the index and returns the identifier it
    /// held.
    pub fn remove(&mut self, cell: IVec2, slot: usize) -> (id: usize)
        requires
            old(self)@.contains_key((point_key(cell), slot)),
        ensures
            id == old(self)@[(point_key(cell), slot)],
            final(self)@ == old(self)@.remove((point_key(cell), slot)),
    {
        let ghost old_view = self@;
        let ghost old_cells = self.cells@;
        let k = key_of(cell);
        assert(old_view.contains_key((k, slot)));
        let mut s = self.cells.remove(&k).unwrap();
        assert(index_slab_entries(s) == index_slab_entries(old_cells[k]));
        let id = index_slab_remove(&mut s, slot);
        self.cells.insert(k, s);
        proof {
            assert(self.cells@ == old_cells.insert(k, s));
            assert(self@ =~= old_view.remove((k, slot)));
        }
        id
    }

    /// The entries of `cell` as `(slot, id)` pairs, in increasing slot
    /// order.
    pub fn entries(&self, cell: IVec2) -> (r: Vec<(usize, usize)>)
        ensures
            forall|i: int, j: int| 0 <= i < j < r@.len() ==> r@[i].0 < r@[j].0,
            forall|i: int|
                0 <= i < r@.len() ==> self@.contains_key((point_key(cell), #[trigger] r@[i].0))
                    && self@[(point_key(cell), r@[i].0)] == r@[i].1,
            forall|slot: usize|
                self@.contains_key((point_key(cell), slot)) ==> exists|i: int|
                    0 <= i < r@.len() && #[trigger] r@[i].0 == slot,
    {
        let k = key_of(cell);
        match self.cells.get(&k) {
            Some(s) => {
                let r = index_slab_pairs(s);
                proof {
                    assert(pairs_in_key_order(r@, index_slab_entries(self.cells@[k])));
                    assert forall|slot: usize| self@.contains_key((k, slot)) implies exists|i: int|
                        0 <= i < r@.len() && #[trigger] r@[i].0 == slot by {
                        assert(index_slab_entries(self.cells@[k]).contains_key(slot));
                    }
                    assert forall|i: int| 0 <= i < r@.len() implies self@.contains_key(
                        (k, #[trigger] r@[i].0),
                    ) && self@[(k, r@[i].0)] == r@[i].1 by {
                        assert(index_slab_entries(self.cells@[k]).contains_key(r@[i].0));
                    }
                }
                r
            },
            None => {
                let r: Vec<(usize, usize)> = Vec::new();
                proof {
                    assert forall|slot: usize| !self@.contains_key((k, slot)) by {}
                }
                r
            },
        }
    }
}

/// Keys that a `BTreeSet` of pairs lists in increasing order are sorted.
proof fn lemma_increasing_pairs_sorted(keys: Seq<&(usize, usize)>)
    requires
        vstd::std_specs::btree::increasing_seq(keys),
    ensures
        pairs_sorted(keys.unref()),
{
    assert(vstd::laws_cmp::obeys_cmp::<usize>());
    assert(vstd::laws_cmp::obeys_cmp::<(usize, usize)>());
    assert(vstd::laws_cmp::obeys_cmp::<&(usize, usize)>());
    assert forall|a: int, b: int| 0 <= a < b < keys.unref().len() implies pair_lt(keys.unref()[a], keys.unref()[b]) by {
        assert(vstd::std_specs::cmp::OrdSpec::cmp_spec(&keys[a], &keys[b]) is Less);
    }
}

/// Whether `a` comes before `b`: by slot, then by identifier.
pub open spec fn pair_lt(a: (usize, usize), b: (usize, usize)) -> bool {
    a.0 < b.0 || (a.0 == b.0 && a.1 < b.1)
}

/// Whether the pairs are in strictly increasing order.
pub open spec fn pairs_sorted(s: Seq<(usize, usize)>) -> bool {
    forall|i: int, j: int| 0 <= i < j < s.len() ==> pair_lt(s[i], s[j])
}

impl CellIndex {
    /// Whether the pair `(slot, id)` is stored in one of `cells`.
    pub open spec fn holds_in(m: Map<(i64, usize), usize>, cells: Seq<IVec2>, q: (usize, usize)) -> bool {
        exists|c: int|
            0 <= c < cells.len() && m.contains_key((point_key(#[trigger] cells[c]), q.0)) && m[(
                point_key(cells[c]),
                q.0,
            )] == q.1
    }

    /// The `(slot, id)` pairs stored in any of `cells`, each once, in
    /// increasing order: gathered in a `BTreeSet`, then listed in its order.
    pub fn collect(&self, cells: &Vec<IVec2>) -> (r: Vec<(usize, usize)>)
        ensures
            pairs_sorted(r@),
            forall|q: (usize, usize)| r@.contains(q) <==> Self::holds_in(self@, cells@, q),
    {
        let mut set: BTreeSet<(usize, usize)> = BTreeSet::new();
        let mut c: usize = 0;
        while c < cells.len()
            invariant
                c <= cells.len(),
                forall|q: (usize, usize)| #[trigger] set@.contains(q) <==> Self::holds_in(self@, cells@.subrange(0, c as int), q),
            decreases cells.len() - c,
        {
            let cell = cells[c];
            let pairs = self.entries(cell);
            let ghost before = set@;
            let mut e: usize = 0;
            while e < pairs.len()
                invariant
                    e <= pairs.len(),
                    forall|q: (usize, usize)| #[trigger] set@.contains(q) <==> before.contains(q) || exists|k: int| 0 <= k < e && pairs@[k] == q,
                decreases pairs.len() - e,
            {
                let ghost mid = set@;
                set.insert(pairs[e]);
                proof {
                    assert forall|q: (usize, usize)| #[trigger] set@.contains(q) <==> before.contains(q) || exists|k: int| 0 <= k < e + 1 && pairs@[k] == q by {
                        assert(set@.contains(q) == (mid.contains(q) || q == pairs@[e as int]));
                        assert(mid.contains(q) == (before.contains(q) || exists|k: int| 0 <= k < e && pairs@[k] == q));
                        if q == pairs@[e as int] {
                            assert(0 <= e < e + 1 && pairs@[e as int] == q);
                        }
                        if exists|k: int| 0 <= k < e + 1 && pairs@[k] == q {
                            let k = choose|k: int| 0 <= k < e + 1 && pairs@[k] == q;
                            if k < e {
                                assert(0 <= k < e && pairs@[k] == q);
                            }
                        }
                        if exists|k: int| 0 <= k < e && pairs@[k] == q {
                            let k = choose|k: int| 0 <= k < e && pairs@[k] == q;
                            assert(0 <= k < e + 1 && pairs@[k] == q);
                        }
                    }
                }
                e = e + 1;
            }
            proof {
                let prev = cells@.subrange(0, c as int);
                let next = cells@.subrange(0, c + 1);
                assert forall|q: (usize, usize)| set@.contains(q) <==> Self::holds_in(self@, next, q) by {
                    if set@.contains(q) {
                        if before.contains(q) {
                            let w = choose|w: int|
                                0 <= w < prev.len() && self@.contains_key((point_key(#[trigger] prev[w]), q.0)) && self@[(
                                    point_key(prev[w]),
                                    q.0,
                                )] == q.1;
                            assert(next[w] == prev[w]);
                        } else {
                            let k = choose|k: int| 0 <= k < e && pairs@[k] == q;
                            assert(next[c as int] == cell);
                        }
                    }
                    if Self::holds_in(self@, next, q) {
                        let w = choose|w: int|
                            0 <= w < next.len() && self@.contains_key((point_key(#[trigger] next[w]), q.0)) && self@[(
                                point_key(next[w]),
                                q.0,
                            )] == q.1;
                        if w < c {
                            assert(prev[w] == next[w]);
                        } else {
                            assert(next[w] == cell);
                            let k = choose|k: int| 0 <= k < pairs@.len() && #[trigger] pairs@[k].0 == q.0;
                            assert(self@[(point_key(cell), pairs@[k].0)] == pairs@[k].1);
                            assert(pairs@[k] == q);
                        }
                    }
                }
            }
            c = c + 1;
        }
        assert(cells@.subrange(0, cells.len() as int) == cells@);
        let mut r: Vec<(usize, usize)> = Vec::new();
        let ghost keys = vstd::std_specs::btree::spec_btree_keys_iter(&set).remaining();
        for p in it: set.iter()
            invariant
                it.seq() == keys,
                r@.len() == it.index(),
                forall|t: int| 0 <= t < it.index() ==> r@[t] == *keys[t],
        {
            r.push(*p);
        }
        proof {
            assert(r@.len() == keys.len());
            assert(r@ =~= keys.unref());
            assert(keys.unref().to_set() == set@);
            lemma_increasing_pairs_sorted(keys);
            assert forall|q: (usize, usize)| r@.contains(q) <==> set@.contains(q) by {
                if r@.contains(q) {
                    assert(keys.unref().to_set().contains(q));
                }
                if set@.contains(q) {
                    assert(keys.unref().to_set().contains(q));
                }
            }
        }
        r
    }
}

/// The index entry that a reference `(cell, slot)` names.
pub open spec fn ref_entry(r: (IVec2, usize)) -> (i64, usize) {
    (point_key(r.0), r.1)
}

/// The entries of `m` that hold another identifier than `id`.
pub open spec fn without_id(m: Map<(i64, usize), usize>, id: usize) -> Map<(i64, usize), usize> {
    Map::new(|e: (i64, usize)| m.contains_key(e) && m[e] != id, |e: (i64, usize)| m[e])
}

/// Whether `e` is the entry of one of the references `refs`.
pub open spec fn refers_to(refs: Seq<(IVec2, usize)>, e: (i64, usize)) -> bool {
    exists|j: int| 0 <= j < refs.len() && e == ref_entry(#[trigger] refs[j])
}

impl CellIndex {
    /// Stores `id` in every cell of `cells` and returns, for each, the cell
    /// and the slab key it got there.
    pub fn add_all(&mut self, cells: &Vec<IVec2>, id: usize) -> (refs: Vec<(IVec2, usize)>)
        requires
            cells@.no_duplicates(),
        ensures
            refs@.len() == cells@.len(),
            forall|j: int| 0 <= j < refs@.len() ==> (#[trigger] refs@[j]).0 == cells@[j],
            forall|j: int| 0 <= j < refs@.len() ==> (#[trigger] refs@[j]).1 == old(self).next_slot(cells@[j]),
            forall|j: int| 0 <= j < refs@.len() ==> !old(self)@.contains_key(ref_entry(#[trigger] refs@[j])),
            forall|e: (i64, usize)| #[trigger] final(self)@.contains_key(e) <==> old(self)@.contains_key(e) || refers_to(refs@, e),
            forall|e: (i64, usize)| old(self)@.contains_key(e) ==> #[trigger] final(self)@[e] == old(self)@[e],
            forall|j: int| 0 <= j < refs@.len() ==> final(self)@[ref_entry(#[trigger] refs@[j])] == id,
    {
        let ghost start = self@;
        let ghost start_index = *self;
        let mut refs: Vec<(IVec2, usize)> = Vec::new();
        let mut i: usize = 0;
        while i < cells.len()
            invariant
                i <= cells.len(),
                cells@.no_duplicates(),
                refs@.len() == i,
                forall|j: int| 0 <= j < i ==> (#[trigger] refs@[j]).0 == cells@[j],
                forall|j: int| 0 <= j < i ==> (#[trigger] refs@[j]).1 == start_index.next_slot(cells@[j]),
                forall|j: int| i <= j < cells@.len() ==> self.next_slot(#[trigger] cells@[j]) == start_index.next_slot(cells@[j]),
                forall|j: int| 0 <= j < i ==> !start.contains_key(ref_entry(#[trigger] refs@[j])),
                forall|e: (i64, usize)| #[trigger] self@.contains_key(e) <==> start.contains_key(e) || refers_to(refs@, e),
                forall|e: (i64, usize)| start.contains_key(e) ==> #[trigger] self@[e] == start[e],
                forall|j: int| 0 <= j < i ==> self@[ref_entry(#[trigger] refs@[j])] == id,
            decreases cells.len() - i,
        {
            let cell = cells[i];
            let ghost mid = self@;
            let ghost old_refs = refs@;
            let ghost before_index = *self;
            let slot = self.insert(cell, id);
            refs.push((cell, slot));
            proof {
                assert forall|j: int| i + 1 <= j < cells@.len() implies self.next_slot(#[trigger] cells@[j]) == start_index.next_slot(cells@[j]) by {
                    assert(cells@[j] != cells@[i as int]);
                    lemma_point_key_injective(cells@[j], cell);
                    assert(self.next_slot(cells@[j]) == before_index.next_slot(cells@[j]));
                }
                assert forall|j: int| 0 <= j < i + 1 implies (#[trigger] refs@[j]).1 == start_index.next_slot(cells@[j]) by {
                    if j < i {
                        assert(refs@[j] == old_refs[j]);
                    }
                }
                let ne = (point_key(cell), slot);
                assert(refs@[i as int] == (cell, slot));
                assert(ref_entry(refs@[i as int]) == ne);
                assert forall|j: int| 0 <= j < i implies ref_entry(#[trigger] refs@[j]) != ne by {
                    assert(refs@[j] == old_refs[j]);
                    assert(mid.contains_key(ref_entry(old_refs[j])));
                }
                assert forall|e: (i64, usize)| #[trigger] self@.contains_key(e) <==> start.contains_key(e) || refers_to(refs@, e) by {
                    if refers_to(old_refs, e) {
                        let j = choose|j: int| 0 <= j < old_refs.len() && e == ref_entry(#[trigger] old_refs[j]);
                        assert(refs@[j] == old_refs[j]);
                    }
                    if refers_to(refs@, e) {
                        let j = choose|j: int| 0 <= j < refs@.len() && e == ref_entry(#[trigger] refs@[j]);
                        if j < i {
                            assert(refs@[j] == old_refs[j]);
                            assert(refers_to(old_refs, e));
                        }
                    }
                    assert(mid.contains_key(e) <==> start.contains_key(e) || refers_to(old_refs, e));
                }
                assert forall|j: int| 0 <= j < i + 1 implies self@[ref_entry(#[trigger] refs@[j])] == id by {
                    if j < i {
                        assert(refs@[j] == old_refs[j]);
                        assert(mid.contains_key(ref_entry(old_refs[j])));
                    }
                }
                assert forall|j: int| 0 <= j < i + 1 implies !start.contains_key(ref_entry(#[trigger] refs@[j])) by {
                    if j < i {
                        assert(refs@[j] == old_refs[j]);
                    } else {
                        assert(!mid.contains_key(ne));
                    }
                }
                assert forall|e: (i64, usize)| start.contains_key(e) implies #[trigger] self@[e] == start[e] by {
                    assert(mid.contains_key(e));
                }
            }
            i = i + 1;
        }
        refs
    }

    /// Takes out of the index every entry that `refs` names; the cells of
    /// `refs` are distinct.
    pub fn remove_all(&mut self, refs: &Vec<(IVec2, usize)>)
        requires
            forall|j: int| 0 <= j < refs@.len() ==> old(self)@.contains_key(ref_entry(#[trigger] refs@[j])),
            forall|j: int, k: int| 0 <= j < k < refs@.len() ==> (#[trigger] refs@[j]).0 != (#[trigger] refs@[k]).0,
        ensures
            forall|e: (i64, usize)| #[trigger] final(self)@.contains_key(e) <==> old(self)@.contains_key(e) && !refers_to(refs@, e),
            forall|e: (i64, usize)| final(self)@.contains_key(e) ==> #[trigger] final(self)@[e] == old(self)@[e],
    {
        let ghost start = self@;
        let mut i: usize = 0;
        while i < refs.len()
            invariant
                i <= refs.len(),
                forall|j: int| 0 <= j < refs@.len() ==> start.contains_key(ref_entry(#[trigger] refs@[j])),
                forall|j: int, k: int| 0 <= j < k < refs@.len() ==> (#[trigger] refs@[j]).0 != (#[trigger] refs@[k]).0,
                forall|e: (i64, usize)| #[trigger] self@.contains_key(e) <==> start.contains_key(e) && !refers_to(refs@.subrange(0, i as int), e),
                forall|e: (i64, usize)| self@.contains_key(e) ==> #[trigger] self@[e] == start[e],
            decreases refs.len() - i,
        {
            let (cell, slot) = refs[i];
            let ghost mid = self@;
            let ghost e0 = ref_entry(refs@[i as int]);
            proof {
                assert(start.contains_key(e0));
                if refers_to(refs@.subrange(0, i as int), e0) {
                    let j = choose|j: int| 0 <= j < i && e0 == ref_entry(#[trigger] refs@.subrange(0, i as int)[j]);
                    assert(refs@.subrange(0, i as int)[j] == refs@[j]);
                    crate::game_loop::base::lemma_point_key_injective(refs@[j].0, refs@[i as int].0);
                    assert(false);
                }
                assert(mid.contains_key(e0));
            }
            self.remove(cell, slot);
            proof {
                let prev = refs@.subrange(0, i as int);
                let next = refs@.subrange(0, i + 1);
                assert forall|e: (i64, usize)| #[trigger] self@.contains_key(e) <==> start.contains_key(e) && !refers_to(next, e) by {
                    if refers_to(prev, e) {
                        let j = choose|j: int| 0 <= j < prev.len() && e == ref_entry(#[trigger] prev[j]);
                        assert(next[j] == prev[j]);
                    }
                    if refers_to(next, e) {
                        let j = choose|j: int| 0 <= j < next.len() && e == ref_entry(#[trigger] next[j]);
                        if j < i {
                            assert(next[j] == prev[j]);
                            assert(refers_to(prev, e));
                        } else {
                            assert(next[j] == refs@[i as int]);
                        }
                    }
                    if e == e0 {
                        assert(next[i as int] == refs@[i as int]);
                    }
                    assert(mid.contains_key(e) <==> start.contains_key(e) && !refers_to(prev, e));
                }
                assert forall|e: (i64, usize)| self@.contains_key(e) implies #[trigger] self@[e] == start[e] by {
                    assert(mid.contains_key(e));
                }
            }
            i = i + 1;
        }
        assert(refs@.subrange(0, refs.len() as int) == refs@);
    }
}

} // verus!
