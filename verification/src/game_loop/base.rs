//! Storage of ground bases: one base per integer cell, indexed both by
//! position and by the square grid cell of `GRID_SIZE` cells that holds it.

use vstd::prelude::*;

use std::collections::HashMap;
use std::rc::Rc;

use slab::Slab;

use crate::aabb::grid::{grid_point, grid_rect, grid_rect_ok, ToGridSpace};
use crate::aabb::grid::{lemma_grid_rect_covers, lemma_unit_cell_intersects};
use crate::aabb::iaabb2::{
    box_contains, boxes_intersect, height, iaabb2, lemma_walk_is_box, lemma_walk_no_duplicates,
    lemma_walk_in_row_order, rect, row_before, walk, width, IAabb2,
};
use crate::assets::Assets;
use crate::collections::{
    index_slab_entries, index_slab_insert, index_slab_new, index_slab_next, index_slab_pairs,
    index_slab_remove, pairs_in_key_order,
};
use crate::vector::{in_i32, IVec2};

verus! {

broadcast use vstd::std_specs::hash::group_hash_axioms;

/// A ground base.
#[derive(Clone, Copy, Debug, PartialEq, Eq)]
pub struct Base {
    pub spec_id: usize,
    pub position: IVec2,
}

impl Base {
    /// Creates a base.
    pub fn new(spec_id: usize, position: IVec2) -> (r: Base)
        ensures
            r == (Base { spec_id, position }),
    {
        Base { spec_id, position }
    }
}

/// A stored base with the places where the indices refer to it.
#[derive(Clone, Copy, Debug)]
pub struct BaseMeta {
    pub base: Base,
    pub grid_index_rev: (IVec2, usize),
    pub global_index_rev: IVec2,
}

/// The metadata that a slab of bases holds, by key.
pub uninterp spec fn base_slab_entries(s: Slab<BaseMeta>) -> Map<usize, BaseMeta>;

/// The key that the next insertion into a slab of bases uses.
pub uninterp spec fn base_slab_next(s: Slab<BaseMeta>) -> usize;

/// `Slab::new`: an empty slab.
#[verifier::external_body]
fn base_slab_new() -> (r: Slab<BaseMeta>)
    ensures
        base_slab_entries(r) =~= Map::empty(),
{
    Slab::new()
}

/// `Slab::vacant_key`: the key that the next insertion uses, which is not
/// occupied.
#[verifier::external_body]
fn base_slab_vacant_key(s: &Slab<BaseMeta>) -> (r: usize)
    ensures
        r == base_slab_next(*s),
        !base_slab_entries(*s).contains_key(r),
{
    s.vacant_key()
}

/// `Slab::insert`: stores `value` under the vacant key and returns it; the
/// other entries stay.
#[verifier::external_body]
fn base_slab_insert(s: &mut Slab<BaseMeta>, value: BaseMeta) -> (key: usize)
    ensures
        key == base_slab_next(*old(s)),
        !base_slab_entries(*old(s)).contains_key(key),
        base_slab_entries(*final(s)) == base_slab_entries(*old(s)).insert(key, value),
{
    s.insert(value)
}

/// `Slab::try_remove`: takes out the entry under `key`, if any.
#[verifier::external_body]
fn base_slab_try_remove(s: &mut Slab<BaseMeta>, key: usize) -> (r: Option<BaseMeta>)
    ensures
        r == base_slab_entries(*old(s)).get(key),
        base_slab_entries(*final(s)) == base_slab_entries(*old(s)).remove(key),
{
    s.try_remove(key)
}

/// `Slab::get`: the entry under `key`, if any.
#[verifier::external_body]
fn base_slab_get(s: &Slab<BaseMeta>, key: usize) -> (r: Option<BaseMeta>)
    ensures
        r == base_slab_entries(*s).get(key),
{
    s.get(key).copied()
}

/// The hash key of a point: `x * 2^32 + (y + 2^31)`, distinct for distinct
/// points.
pub open spec fn point_key(p: IVec2) -> i64 {
    (p.x * 0x1_0000_0000 + (p.y + 0x8000_0000)) as i64
}

proof fn lemma_key_range(p: IVec2)
    ensures
        i64::MIN <= p.x * 0x1_0000_0000 + (p.y + 0x8000_0000) <= i64::MAX,
        i64::MIN <= p.x * 0x1_0000_0000 <= i64::MAX - 0x8000_0000,
{
    let x = p.x as int;
    assert(-0x8000_0000 * 0x1_0000_0000 <= x * 0x1_0000_0000 <= 0x7fff_ffff * 0x1_0000_0000)
        by (nonlinear_arith)
        requires
            -0x8000_0000 <= x <= 0x7fff_ffff,
    ;
}

/// Computes the hash key of a point.
pub fn key_of(p: IVec2) -> (r: i64)
    ensures
        r == point_key(p),
{
    proof {
        lemma_key_range(p);
    }
    (p.x as i64) * 0x1_0000_0000i64 + ((p.y as i64) + 0x8000_0000i64)
}

/// Distinct points have distinct keys.
pub proof fn lemma_point_key_injective(p: IVec2, q: IVec2)
    ensures
        point_key(p) == point_key(q) <==> p == q,
{
    let (a, b) = (
        p.x * 0x1_0000_0000 + (p.y + 0x8000_0000),
        q.x * 0x1_0000_0000 + (q.y + 0x8000_0000),
    );
    lemma_key_range(p);
    lemma_key_range(q);
    if a == b {
        let (x1, x2) = (p.x as int, q.x as int);
        assert(x1 == x2) by (nonlinear_arith)
            requires
                x1 * 0x1_0000_0000 + (p.y + 0x8000_0000) == x2 * 0x1_0000_0000 + (q.y
                    + 0x8000_0000),
                -0x8000_0000 <= p.y <= 0x7fff_ffff,
                -0x8000_0000 <= q.y <= 0x7fff_ffff,
        ;
    }
}

/// The grid cell of a base at `p`.
pub open spec fn base_cell(p: IVec2) -> IVec2 {
    grid_point(p, 32)
}

/// The identifier of the base at `p` in `bases`, if any.
pub open spec fn base_at(bases: Map<usize, Base>, p: IVec2) -> Option<usize> {
    if exists|id: usize| bases.contains_key(id) && bases[id].position == p {
        Some(choose|id: usize| bases.contains_key(id) && bases[id].position == p)
    } else {
        None
    }
}

/// The bases found at the points of `s`, in the order of `s`.
pub open spec fn found_along(bases: Map<usize, Base>, s: Seq<IVec2>) -> Seq<(usize, Base)>
    decreases s.len(),
{
    if s.len() == 0 {
        Seq::empty()
    } else {
        let prev = found_along(bases, s.drop_last());
        match base_at(bases, s.last()) {
            Some(id) => prev.push((id, bases[id])),
            None => prev,
        }
    }
}

/// Whether every position of `bases` holds at most one base.
pub open spec fn positions_unique(bases: Map<usize, Base>) -> bool {
    forall|a: usize, b: usize|
        #![trigger bases[a], bases[b]]
        bases.contains_key(a) && bases.contains_key(b) && bases[a].position == bases[b].position
            ==> a == b
}

/// Whether the search of `rect` walks point by point (small rectangles) or
/// cell by cell.
pub open spec fn narrow_search(rect: IAabb2) -> bool {
    width(rect) * height(rect) <= 256
}

/// Whether the search of `rect` stays within `i32`.
pub open spec fn search_ok(rect: IAabb2) -> bool {
    &&& rect.max.sub_ok(rect.min)
    &&& in_i32(width(rect) * height(rect))
    &&& !narrow_search(rect) ==> grid_rect_ok(rect, 32)
}

/// Whether `r` lists exactly the bases of `bases` that lie in `rect`, each
/// once, with their identifiers.
pub open spec fn lists_bases_in(bases: Map<usize, Base>, rect: IAabb2, r: Seq<(usize, Base)>) -> bool {
    &&& forall|i: int|
        0 <= i < r.len() ==> bases.contains_key(#[trigger] r[i].0) && bases[r[i].0] == r[i].1
            && box_contains(rect, r[i].1.position)
    &&& forall|id: usize|
        bases.contains_key(id) && box_contains(rect, #[trigger] bases[id].position) ==> exists|
            i: int,
        |
            0 <= i < r.len() && #[trigger] r[i].0 == id
    &&& forall|i: int, j: int| 0 <= i < j < r.len() ==> r[i].0 != r[j].0
}

/// What a search of `rect` finds: along the walk over `rect` for small
/// rectangles; otherwise exactly the bases that lie in `rect`, each once.
pub open spec fn search_result(bases: Map<usize, Base>, rect: IAabb2, r: Seq<(usize, Base)>) -> bool {
    if narrow_search(rect) {
        r == found_along(bases, walk(rect))
    } else {
        lists_bases_in(bases, rect, r)
    }
}

/// Whether a search of `rect` finds anything.
pub open spec fn found_any(bases: Map<usize, Base>, rect: IAabb2) -> bool {
    if narrow_search(rect) {
        found_along(bases, walk(rect)).len() > 0
    } else {
        exists|id: usize| bases.contains_key(id) && box_contains(rect, #[trigger] bases[id].position)
    }
}

proof fn lemma_unit_walk(p: IVec2)
    requires
        in_i32(p.x + 1),
        in_i32(p.y + 1),
    ensures
        walk(rect(p.x as int, p.y as int, p.x + 1, p.y + 1)) =~= seq![p],
        narrow_search(rect(p.x as int, p.y as int, p.x + 1, p.y + 1)),
        search_ok(rect(p.x as int, p.y as int, p.x + 1, p.y + 1)),
{
    let r = rect(p.x as int, p.y as int, p.x + 1, p.y + 1);
    assert(width(r) * height(r) == 1);
    assert(crate::aabb::iaabb2::walk_point(r, 0) == p);
}

proof fn lemma_found_along_lists(bases: Map<usize, Base>, s: Seq<IVec2>)
    requires
        positions_unique(bases),
        s.no_duplicates(),
    ensures
        forall|i: int|
            0 <= i < found_along(bases, s).len() ==> {
                let e = #[trigger] found_along(bases, s)[i];
                &&& bases.contains_key(e.0)
                &&& bases[e.0] == e.1
                &&& s.contains(e.1.position)
            },
        forall|id: usize|
            bases.contains_key(id) && s.contains(#[trigger] bases[id].position) ==> exists|i: int|
                0 <= i < found_along(bases, s).len() && #[trigger] found_along(bases, s)[i].0 == id,
        forall|i: int, j: int|
            0 <= i < j < found_along(bases, s).len() ==> found_along(bases, s)[i].0 != found_along(
                bases,
                s,
            )[j].0,
    decreases s.len(),
{
    if s.len() > 0 {
        let init = s.drop_last();
        let last = s.last();
        assert(init.no_duplicates());
        lemma_found_along_lists(bases, init);
        let prev = found_along(bases, init);
        let r = found_along(bases, s);
        assert forall|q: IVec2| init.contains(q) implies s.contains(q) && q != last by {
            let k = choose|k: int| 0 <= k < init.len() && init[k] == q;
            assert(s[k] == q);
        }
        assert forall|q: IVec2| s.contains(q) && q != last implies init.contains(q) by {
            let k = choose|k: int| 0 <= k < s.len() && s[k] == q;
            assert(init[k] == q);
        }
        assert(s[s.len() - 1] == last);
        match base_at(bases, last) {
            Some(nid) => {
                assert(bases.contains_key(nid) && bases[nid].position == last);
                assert(r == prev.push((nid, bases[nid])));
                assert forall|i: int| 0 <= i < r.len() implies {
                    let e = #[trigger] r[i];
                    &&& bases.contains_key(e.0)
                    &&& bases[e.0] == e.1
                    &&& s.contains(e.1.position)
                } by {
                    if i < prev.len() {
                        assert(r[i] == prev[i]);
                    }
                }
                assert forall|id: usize|
                    bases.contains_key(id) && s.contains(#[trigger] bases[id].position) implies exists|
                    i: int,
                |
                    0 <= i < r.len() && #[trigger] r[i].0 == id by {
                    if bases[id].position == last {
                        assert(bases[nid].position == bases[id].position);
                        assert(r[prev.len() as int].0 == id);
                    } else {
                        assert(init.contains(bases[id].position));
                        let i = choose|i: int| 0 <= i < prev.len() && #[trigger] prev[i].0 == id;
                        assert(r[i] == prev[i]);
                    }
                }
                assert forall|i: int, j: int| 0 <= i < j < r.len() implies r[i].0 != r[j].0 by {
                    if j < prev.len() {
                        assert(r[i] == prev[i] && r[j] == prev[j]);
                    } else {
                        assert(r[i] == prev[i]);
                        let e = prev[i];
                        assert(init.contains(e.1.position));
                    }
                }
            },
            None => {
                assert(r == prev);
                assert forall|id: usize|
                    bases.contains_key(id) && s.contains(#[trigger] bases[id].position) implies exists|
                    i: int,
                |
                    0 <= i < r.len() && #[trigger] r[i].0 == id by {
                    assert(bases[id].position != last);
                    assert(init.contains(bases[id].position));
                }
            },
        }
    }
}

/// A search of `rect` lists exactly the bases that lie in `rect`, each once,
/// when no two bases share a position.
pub proof fn lemma_search_lists_bases_in(bases: Map<usize, Base>, rect: IAabb2, r: Seq<(usize, Base)>)
    requires
        positions_unique(bases),
        search_result(bases, rect, r),
    ensures
        lists_bases_in(bases, rect, r),
{
    if narrow_search(rect) {
        lemma_walk_is_box(rect);
        lemma_found_along_lists(bases, walk(rect));
        assert forall|id: usize|
            bases.contains_key(id) && box_contains(rect, #[trigger] bases[id].position) implies exists|
            i: int,
        |
            0 <= i < r.len() && #[trigger] r[i].0 == id by {
            assert(walk(rect).contains(bases[id].position));
        }
        assert forall|i: int|
            0 <= i < r.len() implies bases.contains_key(#[trigger] r[i].0) && bases[r[i].0] == r[i].1
            && box_contains(rect, r[i].1.position) by {
            let e = found_along(bases, walk(rect))[i];
            assert(walk(rect).contains(e.1.position));
        }
    }
}

/// An item inserted into a storage (of bases, blocks, ...) is stored under
/// the returned identifier, and no other identifier changes.
pub proof fn lemma_insert_then_get<V>(before: Map<usize, V>, after: Map<usize, V>, id: usize, item: V)
    requires
        after == before.insert(id, item),
    ensures
        after.get(id) == Some(item),
        forall|other: usize| other != id ==> after.get(other) == before.get(other),
{
}

/// Removing the identifier that an insertion into a storage returned gives
/// back the storage as it was before the insertion.
pub proof fn lemma_remove_undoes_insert<V>(
    before: Map<usize, V>,
    inserted: Map<usize, V>,
    removed: Map<usize, V>,
    id: usize,
    item: V,
)
    requires
        !before.contains_key(id),
        inserted == before.insert(id, item),
        removed == inserted.remove(id),
    ensures
        removed == before,
{
    assert(removed =~= before);
}

/// Inserting a base at a free position keeps positions unique.
pub proof fn lemma_insert_keeps_positions_unique(bases: Map<usize, Base>, id: usize, base: Base)
    requires
        positions_unique(bases),
        base_at(bases, base.position) is None,
    ensures
        positions_unique(bases.insert(id, base)),
{
    let after = bases.insert(id, base);
    assert forall|a: usize, b: usize|
        #![trigger after[a], after[b]]
        after.contains_key(a) && after.contains_key(b) && after[a].position == after[b].position
            implies a == b by {
        if a != id && b != id {
            assert(bases[a] == after[a] && bases[b] == after[b]);
        } else if a == id && b != id {
            assert(bases.contains_key(b) && bases[b].position == base.position);
        } else if b == id && a != id {
            assert(bases.contains_key(a) && bases[a].position == base.position);
        }
    }
}

/// Storage of ground bases.
pub struct BaseStorage {
    assets: Rc<Assets>,
    base_metas: Slab<BaseMeta>,
    grid_index: HashMap<i64, Slab<usize>>,
    global_index: HashMap<i64, usize>,
}

/// Whether a stored base is referenced by both indices.
pub open spec fn meta_indexed(
    m: BaseMeta,
    id: usize,
    grid: Map<i64, Slab<usize>>,
    glob: Map<i64, usize>,
) -> bool {
    let p = m.base.position;
    &&& m.global_index_rev == p
    &&& in_i32(p.x + 1)
    &&& in_i32(p.y + 1)
    &&& glob.contains_key(point_key(p))
    &&& glob[point_key(p)] == id
    &&& m.grid_index_rev.0 == base_cell(p)
    &&& grid.contains_key(point_key(base_cell(p)))
    &&& index_slab_entries(grid[point_key(base_cell(p))]).contains_key(m.grid_index_rev.1)
    &&& index_slab_entries(grid[point_key(base_cell(p))])[m.grid_index_rev.1] == id
}

impl View for BaseStorage {
    type V = Map<usize, Base>;

    closed spec fn view(&self) -> Map<usize, Base> {
        base_slab_entries(self.base_metas).map_values(|m: BaseMeta| m.base)
    }
}

impl BaseStorage {
    /// Side of the grid cells used to find bases near a rectangle.
    pub const GRID_SIZE: i32 = 32;

    /// Largest rectangle area searched point by point.
    pub const VOLUME_THRESHOLD: i32 = 256;

    /// Whether the indices agree with the stored bases.
    pub closed spec fn wf(&self) -> bool {
        let metas = base_slab_entries(self.base_metas);
        let grid = self.grid_index@;
        let glob = self.global_index@;
        &&& forall|id: usize|
            #[trigger] metas.contains_key(id) ==> meta_indexed(metas[id], id, grid, glob)
        &&& forall|k: i64|
            #[trigger] glob.contains_key(k) ==> metas.contains_key(glob[k]) && point_key(
                metas[glob[k]].base.position,
            ) == k
        &&& forall|k: i64, slot: usize|
            #![trigger index_slab_entries(grid[k]).contains_key(slot)]
            grid.contains_key(k) && index_slab_entries(grid[k]).contains_key(slot) ==> {
                let id = index_slab_entries(grid[k])[slot];
                &&& metas.contains_key(id)
                &&& point_key(metas[id].grid_index_rev.0) == k
                &&& metas[id].grid_index_rev.1 == slot
            }
    }

    /// No two stored bases share a position.
    pub proof fn lemma_positions_unique(&self)
        requires
            self.wf(),
        ensures
            positions_unique(self@),
    {
        let metas = base_slab_entries(self.base_metas);
        assert forall|a: usize, b: usize|
            #![trigger self@[a], self@[b]]
            self@.contains_key(a) && self@.contains_key(b) && self@[a].position == self@[b].position
                implies a == b by {
            assert(metas.contains_key(a) && metas.contains_key(b));
            assert(meta_indexed(metas[a], a, self.grid_index@, self.global_index@));
            assert(meta_indexed(metas[b], b, self.grid_index@, self.global_index@));
        }
    }

    /// The identifier that the next insertion gives: the slab's vacant key.
    pub closed spec fn next_id(&self) -> usize {
        base_slab_next(self.base_metas)
    }

    /// The key under which the base `id` is held in the index of its grid
    /// cell.
    pub closed spec fn grid_slot(&self, id: usize) -> usize {
        base_slab_entries(self.base_metas)[id].grid_index_rev.1
    }

    /// The key that the next base put in the grid cell `cell` gets in the
    /// cell's index: the next key of the cell's slab, or 0 for a cell that
    /// has none yet.
    pub closed spec fn cell_next_slot(&self, cell: IVec2) -> usize {
        if self.grid_index@.contains_key(point_key(cell)) {
            index_slab_next(self.grid_index@[point_key(cell)])
        } else {
            0
        }
    }

    /// Whether the bases of `r` come grid cell by grid cell, cells row by
    /// row, and within a cell by their key in the cell's index.
    pub open spec fn in_grid_order(&self, r: Seq<(usize, Base)>) -> bool {
        forall|i: int, j: int|
            #![trigger r[i], r[j]]
            0 <= i < j < r.len() ==> {
                let (a, b) = (base_cell(r[i].1.position), base_cell(r[j].1.position));
                row_before(a, b) || (a == b && self.grid_slot(r[i].0) < self.grid_slot(r[j].0))
            }
    }

    /// The assets the storage was made with.
    pub closed spec fn assets(&self) -> Rc<Assets> {
        self.assets
    }

    proof fn lemma_wf_lookup(&self, p: IVec2)
        requires
            self.wf(),
        ensures
            self.global_index@.contains_key(point_key(p)) <==> base_at(self@, p) is Some,
            self.global_index@.contains_key(point_key(p)) ==> base_at(self@, p) == Some(
                self.global_index@[point_key(p)],
            ),
            positions_unique(self@),
    {
        let metas = base_slab_entries(self.base_metas);
        let glob = self.global_index@;
        assert forall|a: usize, b: usize|
            #![trigger self@[a], self@[b]]
            self@.contains_key(a) && self@.contains_key(b) && self@[a].position
                == self@[b].position implies a == b by {
            assert(metas.contains_key(a) && metas.contains_key(b));
            assert(meta_indexed(metas[a], a, self.grid_index@, glob));
            assert(meta_indexed(metas[b], b, self.grid_index@, glob));
        }
        if glob.contains_key(point_key(p)) {
            let id = glob[point_key(p)];
            assert(metas.contains_key(id));
            lemma_point_key_injective(metas[id].base.position, p);
            assert(self@.contains_key(id) && self@[id].position == p);
            let c = choose|c: usize| self@.contains_key(c) && self@[c].position == p;
            assert(self@[c].position == self@[id].position);
        } else {
            if exists|id: usize| self@.contains_key(id) && self@[id].position == p {
                let id = choose|id: usize| self@.contains_key(id) && self@[id].position == p;
                assert(metas.contains_key(id));
                assert(meta_indexed(metas[id], id, self.grid_index@, glob));
            }
        }
    }

    /// The base at `p`, if any.
    fn lookup(&self, p: IVec2) -> (r: Option<(usize, Base)>)
        requires
            self.wf(),
        ensures
            r == match base_at(self@, p) {
                Some(id) => Some((id, self@[id])),
                None => None,
            },
    {
        proof {
            self.lemma_wf_lookup(p);
        }
        let k = key_of(p);
        match self.global_index.get(&k) {
            Some(id) => {
                let id = *id;
                let m = base_slab_get(&self.base_metas, id).unwrap();
                Some((id, m.base))
            },
            None => None,
        }
    }

    /// The base with identifier `id`, if any.
    pub fn get(&self, id: usize) -> (r: Option<Base>)
        requires
            self.wf(),
        ensures
            r == self@.get(id),
    {
        match base_slab_get(&self.base_metas, id) {
            Some(m) => Some(m.base),
            None => None,
        }
    }

    /// The bases found along the walk over `rect`, point by point.
    fn search_narrow(&self, rect: IAabb2) -> (r: Vec<(usize, Base)>)
        requires
            self.wf(),
        ensures
            r@ == found_along(self@, walk(rect)),
    {
        let pts = rect.points();
        let mut out: Vec<(usize, Base)> = Vec::new();
        let mut i: usize = 0;
        while i < pts.len()
            invariant
                self.wf(),
                pts@ == walk(rect),
                i <= pts@.len(),
                out@ == found_along(self@, pts@.take(i as int)),
            decreases pts@.len() - i,
        {
            assert(pts@.take(i + 1).drop_last() =~= pts@.take(i as int));
            assert(pts@.take(i + 1).last() == pts@[i as int]);
            match self.lookup(pts[i]) {
                Some(e) => {
                    out.push(e);
                },
                None => {},
            }
            i = i + 1;
        }
        assert(pts@.take(i as int) =~= pts@);
        out
    }

    /// Appends the bases of grid cell `cell_point` whose cell meets `rect`.
    #[verifier::rlimit(40)]
    fn collect_cell(&self, rect: IAabb2, cell_point: IVec2, out: &mut Vec<(usize, Base)>)
        requires
            self.wf(),
            self.grid_index@.contains_key(point_key(cell_point)),
            forall|i: int|
                0 <= i < old(out)@.len() ==> self@.contains_key(#[trigger] old(out)@[i].0)
                    && self@[old(out)@[i].0] == old(out)@[i].1 && base_cell(
                    old(out)@[i].1.position,
                ) != cell_point,
            forall|i: int, j: int|
                0 <= i < j < old(out)@.len() ==> old(out)@[i].0 != old(out)@[j].0,
        ensures
            old(out)@.len() <= final(out)@.len(),
            forall|i: int| 0 <= i < old(out)@.len() ==> final(out)@[i] == old(out)@[i],
            forall|i: int|
                old(out)@.len() <= i < final(out)@.len() ==> self@.contains_key(
                    #[trigger] final(out)@[i].0,
                ) && self@[final(out)@[i].0] == final(out)@[i].1 && box_contains(
                    rect,
                    final(out)@[i].1.position,
                ) && base_cell(final(out)@[i].1.position) == cell_point,
            forall|i: int, j: int|
                0 <= i < j < final(out)@.len() ==> final(out)@[i].0 != final(out)@[j].0,
            forall|id: usize|
                self@.contains_key(id) && box_contains(rect, #[trigger] self@[id].position)
                    && base_cell(self@[id].position) == cell_point ==> exists|i: int|
                    old(out)@.len() <= i < final(out)@.len() && #[trigger] final(out)@[i].0 == id,
            forall|i: int, j: int|
                #![trigger final(out)@[i], final(out)@[j]]
                old(out)@.len() <= i < j < final(out)@.len() ==> self.grid_slot(final(out)@[i].0) < self.grid_slot(
                    final(out)@[j].0,
                ),
    {
        let ghost metas = base_slab_entries(self.base_metas);
        let ghost grid = self.grid_index@;
        let ghost ck = point_key(cell_point);
        let ghost old_len = out@.len();
        let ghost out_before = out@;
        let cell = self.grid_index.get(&key_of(cell_point)).unwrap();
        let pairs = index_slab_pairs(cell);
        let ghost entries = index_slab_entries(*cell);
        let mut pi: usize = 0;
        while pi < pairs.len()
            invariant
                self.wf(),
                metas == base_slab_entries(self.base_metas),
                grid == self.grid_index@,
                ck == point_key(cell_point),
                grid.contains_key(ck),
                entries == index_slab_entries(grid[ck]),
                pairs_in_key_order(pairs@, entries),
                pi <= pairs@.len(),
                old_len == out_before.len(),
                old_len <= out@.len(),
                forall|i: int| 0 <= i < old_len ==> out@[i] == out_before[i],
                forall|i: int|
                    0 <= i < old_len ==> self@.contains_key(#[trigger] out_before[i].0)
                        && self@[out_before[i].0] == out_before[i].1 && base_cell(
                        out_before[i].1.position,
                    ) != cell_point,
                forall|i: int|
                    #![trigger out@[i]]
                    old_len <= i < out@.len() ==> self@.contains_key(out@[i].0) && self@[out@[i].0]
                        == out@[i].1 && box_contains(rect, out@[i].1.position) && base_cell(
                        out@[i].1.position,
                    ) == cell_point && exists|q: int|
                        0 <= q < pi && #[trigger] pairs@[q].1 == out@[i].0 && pairs@[q].0 == self.grid_slot(out@[i].0),
                forall|i: int, j: int| 0 <= i < j < out@.len() ==> out@[i].0 != out@[j].0,
                forall|i: int, j: int|
                    #![trigger out@[i], out@[j]]
                    old_len <= i < j < out@.len() ==> self.grid_slot(out@[i].0) < self.grid_slot(out@[j].0),
                forall|q: int|
                    0 <= q < pi && box_contains(rect, #[trigger] metas[pairs@[q].1].base.position)
                        ==> exists|i: int| old_len <= i < out@.len() && out@[i].0 == pairs@[q].1,
            decreases pairs@.len() - pi,
        {
            let (slot, id) = pairs[pi];
            let ghost gpi = pi as int;
            let ghost out_prev = out@;
            assert(entries.contains_key(slot) && entries[slot] == id);
            assert(metas.contains_key(id));
            let m = base_slab_get(&self.base_metas, id).unwrap();
            let p = m.base.position;
            proof {
                assert(meta_indexed(metas[id], id, grid, self.global_index@));
                lemma_point_key_injective(metas[id].grid_index_rev.0, cell_point);
                lemma_unit_cell_intersects(rect, p);
            }
            let base_rect = iaabb2(p, p.add(IVec2::one()));
            if rect.intersects(base_rect) {
                proof {
                    assert forall|i: int| 0 <= i < out@.len() implies out@[i].0 != id by {
                        if i >= old_len {
                            let q = choose|q: int| 0 <= q < pi && #[trigger] pairs@[q].1 == out@[i].0;
                            if out@[i].0 == id {
                                assert(entries[pairs@[q].0] == id);
                                assert(pairs@[q].0 < pairs@[gpi].0);
                            }
                        } else {
                            assert(out@[i] == out_before[i]);
                        }
                    }
                }
                out.push((id, m.base));
            }
            proof {
                assert forall|q: int|
                    0 <= q < gpi + 1 && box_contains(rect, #[trigger] metas[pairs@[q].1].base.position)
                        implies exists|i: int|
                    old_len <= i < out@.len() && out@[i].0 == pairs@[q].1 by {
                    if q < gpi {
                        let i = choose|i: int|
                            old_len <= i < out_prev.len() && out_prev[i].0 == pairs@[q].1;
                        assert(out@[i] == out_prev[i]);
                    } else {
                        assert(out@[out_prev.len() as int].0 == pairs@[q].1);
                    }
                }
                assert forall|i: int|
                    #![trigger out@[i]]
                    old_len <= i < out@.len() implies exists|q: int|
                        0 <= q < gpi + 1 && #[trigger] pairs@[q].1 == out@[i].0 by {
                    if i < out_prev.len() {
                        assert(out@[i] == out_prev[i]);
                        let q = choose|q: int| 0 <= q < gpi && #[trigger] pairs@[q].1 == out_prev[i].0;
                        assert(pairs@[q].1 == out@[i].0);
                    } else {
                        assert(pairs@[gpi].1 == out@[i].0);
                    }
                }
            }
            pi = pi + 1;
        }
        proof {
            assert forall|id: usize|
                self@.contains_key(id) && box_contains(rect, #[trigger] self@[id].position)
                    && base_cell(self@[id].position) == cell_point implies exists|i: int|
                old_len <= i < out@.len() && #[trigger] out@[i].0 == id by {
                assert(metas.contains_key(id));
                assert(meta_indexed(metas[id], id, grid, self.global_index@));
                let slot = metas[id].grid_index_rev.1;
                assert(entries.contains_key(slot));
                let q = choose|q: int| 0 <= q < pairs@.len() && #[trigger] pairs@[q].0 == slot;
                assert(pairs@[q].1 == id);
                assert(box_contains(rect, metas[pairs@[q].1].base.position));
            }
        }
    }

    /// The bases whose cell meets `rect`, found grid cell by grid cell.
    fn search_wide(&self, rect: IAabb2) -> (r: Vec<(usize, Base)>)
        requires
            self.wf(),
            grid_rect_ok(rect, 32),
        ensures
            forall|i: int|
                0 <= i < r@.len() ==> self@.contains_key(#[trigger] r@[i].0) && self@[r@[i].0]
                    == r@[i].1 && box_contains(rect, r@[i].1.position),
            forall|id: usize|
                self@.contains_key(id) && box_contains(rect, #[trigger] self@[id].position)
                    ==> exists|i: int| 0 <= i < r@.len() && #[trigger] r@[i].0 == id,
            forall|i: int, j: int| 0 <= i < j < r@.len() ==> r@[i].0 != r@[j].0,
            self.in_grid_order(r@),
    {
        let ghost metas = base_slab_entries(self.base_metas);
        let ghost grid = self.grid_index@;
        let grid_rect = rect.to_grid_space(32);
        let cells = grid_rect.points();
        proof {
            lemma_walk_no_duplicates(grid_rect);
        }
        let mut out: Vec<(usize, Base)> = Vec::new();
        let mut ci: usize = 0;
        while ci < cells.len()
            invariant
                self.wf(),
                metas == base_slab_entries(self.base_metas),
                grid == self.grid_index@,
                cells@ == walk(grid_rect),
                cells@.no_duplicates(),
                ci <= cells@.len(),
                forall|i: int|
                    0 <= i < out@.len() ==> self@.contains_key(#[trigger] out@[i].0)
                        && self@[out@[i].0] == out@[i].1 && box_contains(rect, out@[i].1.position)
                        && exists|c: int| 0 <= c < ci && cells@[c] == base_cell(out@[i].1.position),
                forall|i: int, j: int| 0 <= i < j < out@.len() ==> out@[i].0 != out@[j].0,
                self.in_grid_order(out@),
                forall|id: usize|
                    self@.contains_key(id) && box_contains(rect, #[trigger] self@[id].position) && (
                    exists|c: int| 0 <= c < ci && cells@[c] == base_cell(self@[id].position))
                        ==> exists|i: int| 0 <= i < out@.len() && #[trigger] out@[i].0 == id,
            decreases cells@.len() - ci,
        {
            let cell_point = cells[ci];
            let ghost gci = ci as int;
            let ghost out_prev = out@;
            if self.grid_index.contains_key(&key_of(cell_point)) {
                proof {
                    assert forall|i: int|
                        #![trigger out@[i]]
                        0 <= i < out@.len() implies base_cell(out@[i].1.position) != cell_point by {
                        assert(self@.contains_key(out@[i].0));
                        let c = choose|c: int| 0 <= c < gci && cells@[c] == base_cell(out@[i].1.position);
                        assert(0 <= c < gci < cells@.len());
                        assert(cells@.no_duplicates());
                        assert(cells@[c] != cells@[gci]);
                    }
                }
                self.collect_cell(rect, cell_point, &mut out);
                proof {
                    assert forall|i: int|
                        #![trigger out@[i]]
                        0 <= i < out@.len() implies self@.contains_key(out@[i].0)
                            && self@[out@[i].0] == out@[i].1 && box_contains(rect, out@[i].1.position)
                            && exists|c: int|
                            0 <= c < gci + 1 && cells@[c] == base_cell(out@[i].1.position) by {
                        if i < out_prev.len() {
                            assert(self@.contains_key(out_prev[i].0));
                            let c = choose|c: int|
                                0 <= c < gci && cells@[c] == base_cell(out_prev[i].1.position);
                            assert(out@[i] == out_prev[i]);
                            assert(cells@[c] == base_cell(out@[i].1.position));
                        } else {
                            assert(self@.contains_key(out@[i].0));
                            assert(cells@[gci] == base_cell(out@[i].1.position));
                        }
                    }
                    assert forall|i: int, j: int|
                        #![trigger out@[i], out@[j]]
                        0 <= i < j < out@.len() implies {
                            let (a, b) = (base_cell(out@[i].1.position), base_cell(out@[j].1.position));
                            row_before(a, b) || (a == b && self.grid_slot(out@[i].0) < self.grid_slot(out@[j].0))
                        } by {
                        if j < out_prev.len() {
                            assert(out@[i] == out_prev[i] && out@[j] == out_prev[j]);
                        } else if i < out_prev.len() {
                            assert(out@[i] == out_prev[i]);
                            assert(self@.contains_key(out_prev[i].0));
                            let c = choose|c: int| 0 <= c < gci && cells@[c] == base_cell(out_prev[i].1.position);
                            lemma_walk_in_row_order(grid_rect, c, gci);
                            assert(cells@[gci] == base_cell(out@[j].1.position));
                        }
                    }
                    assert forall|id: usize|
                        self@.contains_key(id) && box_contains(rect, #[trigger] self@[id].position)
                            && (exists|c: int| 0 <= c < gci + 1 && cells@[c] == base_cell(self@[id].position))
                            implies exists|i: int| 0 <= i < out@.len() && #[trigger] out@[i].0 == id by {
                        let c = choose|c: int| 0 <= c < gci + 1 && cells@[c] == base_cell(self@[id].position);
                        if c < gci {
                            let i = choose|i: int| 0 <= i < out_prev.len() && #[trigger] out_prev[i].0 == id;
                            assert(out@[i] == out_prev[i]);
                        }
                    }
                }
            } else {
                proof {
                    assert forall|id: usize|
                        self@.contains_key(id) && box_contains(rect, #[trigger] self@[id].position)
                            && (exists|c: int| 0 <= c < gci + 1 && cells@[c] == base_cell(self@[id].position))
                            implies exists|i: int| 0 <= i < out@.len() && #[trigger] out@[i].0 == id by {
                        let c = choose|c: int| 0 <= c < gci + 1 && cells@[c] == base_cell(self@[id].position);
                        assert(metas.contains_key(id));
                        assert(meta_indexed(metas[id], id, grid, self.global_index@));
                    }
                }
            }
            ci = ci + 1;
        }
        proof {
            assert forall|id: usize|
                self@.contains_key(id) && box_contains(rect, #[trigger] self@[id].position)
                    implies exists|i: int| 0 <= i < out@.len() && #[trigger] out@[i].0 == id by {
                let p = self@[id].position;
                lemma_grid_rect_covers(rect, p, 32);
                lemma_walk_is_box(grid_rect);
                assert(walk(grid_rect).contains(base_cell(p)));
                let c = choose|c: int| 0 <= c < cells@.len() && cells@[c] == base_cell(p);
            }
        }
        out
    }

    /// The bases found in `rect`, with their identifiers.
    ///
    /// Rectangles of area at most `VOLUME_THRESHOLD` are searched point by
    /// point along [`IAabb2::into_iter_points`]; larger ones grid cell by
    /// grid cell, cells row by row, keeping the bases that lie in `rect`,
    /// within a cell in the order of the cell's index.
    pub fn get_internal_by_rect(&self, rect: IAabb2) -> (r: Vec<(usize, Base)>)
        requires
            self.wf(),
            search_ok(rect),
        ensures
            search_result(self@, rect, r@),
            !narrow_search(rect) ==> self.in_grid_order(r@),
    {
        if rect.volume() <= Self::VOLUME_THRESHOLD {
            self.search_narrow(rect)
        } else {
            assert((rect.min.x as int) / 32 + 1 <= i32::MAX) by (nonlinear_arith)
                requires
                    rect.min.x <= i32::MAX,
            ;
            self.search_wide(rect)
        }
    }

    /// Whether a base lies in `rect` (as [`BaseStorage::get_internal_by_rect`]
    /// searches it).
    pub fn has_internal_by_rect(&self, rect: IAabb2) -> (r: bool)
        requires
            self.wf(),
            search_ok(rect),
        ensures
            r == found_any(self@, rect),
    {
        let found = self.get_internal_by_rect(rect);
        proof {
            if !narrow_search(rect) && found_any(self@, rect) {
                let id = choose|id: usize|
                    self@.contains_key(id) && box_contains(rect, #[trigger] self@[id].position);
                let i = choose|i: int| 0 <= i < found@.len() && #[trigger] found@[i].0 == id;
            }
            if !narrow_search(rect) && found@.len() > 0 {
                assert(self@.contains_key(found@[0].0));
            }
        }
        found.len() > 0
    }

    /// The bases found in the drawn rectangle, already truncated to whole
    /// cells by the caller; searched as [`BaseStorage::get_internal_by_rect`].
    pub fn get_rendering_by_rect(&self, rect: IAabb2) -> (r: Vec<(usize, Base)>)
        requires
            self.wf(),
            search_ok(rect),
        ensures
            search_result(self@, rect, r@),
            !narrow_search(rect) ==> self.in_grid_order(r@),
    {
        self.get_internal_by_rect(rect)
    }

    /// Whether a base lies in the drawn rectangle, already truncated to whole
    /// cells by the caller.
    pub fn has_rendering_by_rect(&self, rect: IAabb2) -> (r: bool)
        requires
            self.wf(),
            search_ok(rect),
        ensures
            r == found_any(self@, rect),
    {
        self.has_internal_by_rect(rect)
    }

    /// Adds a base and returns its identifier, or `None` (storage unchanged)
    /// when a base already occupies its position.
    pub fn insert(&mut self, base: Base) -> (r: Option<usize>)
        requires
            old(self).wf(),
            in_i32(base.position.x + 1),
            in_i32(base.position.y + 1),
        ensures
            final(self).wf(),
            final(self).assets() == old(self).assets(),
            match r {
                None => base_at(old(self)@, base.position) is Some && final(self)@ == old(self)@,
                Some(id) => id == old(self).next_id() && base_at(old(self)@, base.position) is None && !old(self)@.contains_key(
                    id,
                ) && final(self)@ == old(self)@.insert(id, base) && final(self).grid_slot(id) == old(self).cell_next_slot(
                    base_cell(base.position),
                ) && forall|other: usize|
                    #[trigger] old(self)@.contains_key(other) ==> final(self).grid_slot(other) == old(self).grid_slot(other),
            },
    {
        let p = base.position;
        let rect = iaabb2(p, p.add(IVec2::one()));
        proof {
            lemma_unit_walk(p);
            assert(found_along(self@, walk(rect)) == found_along(self@, seq![p].drop_last()) + (
            match base_at(self@, p) {
                Some(id) => seq![(id, self@[id])],
                None => Seq::<(usize, Base)>::empty(),
            }));
        }
        if self.has_internal_by_rect(rect) {
            return None;
        }
        let ghost old_metas = base_slab_entries(self.base_metas);
        let ghost old_grid = self.grid_index@;
        let ghost old_glob = self.global_index@;
        let ghost old_view = self@;
        proof {
            self.lemma_wf_lookup(p);
        }
        let base_id = base_slab_vacant_key(&self.base_metas);
        let grid_point = p.to_grid_space(32);
        let gk = key_of(grid_point);
        let mut cell = match self.grid_index.remove(&gk) {
            Some(c) => c,
            None => index_slab_new(),
        };
        let ghost old_entries = index_slab_entries(cell);
        let slot = index_slab_insert(&mut cell, base_id);
        self.grid_index.insert(gk, cell);
        self.global_index.insert(key_of(p), base_id);
        let meta = BaseMeta { base, grid_index_rev: (grid_point, slot), global_index_rev: p };
        base_slab_insert(&mut self.base_metas, meta);
        proof {
            let metas = base_slab_entries(self.base_metas);
            let grid = self.grid_index@;
            let glob = self.global_index@;
            assert(grid == old_grid.insert(gk, cell));
            assert(glob == old_glob.insert(point_key(p), base_id));
            assert(metas == old_metas.insert(base_id, meta));
            assert(old_grid.contains_key(gk) ==> old_entries == index_slab_entries(old_grid[gk]));
            assert(!old_grid.contains_key(gk) ==> old_entries == Map::<usize, usize>::empty());
            assert forall|id: usize| #[trigger] metas.contains_key(id) implies meta_indexed(
                metas[id],
                id,
                grid,
                glob,
            ) by {
                if id != base_id {
                    assert(old_metas.contains_key(id));
                    assert(meta_indexed(old_metas[id], id, old_grid, old_glob));
                    let q = old_metas[id].base.position;
                    assert(old_view.contains_key(id) && old_view[id].position == q);
                    lemma_point_key_injective(q, p);
                    if point_key(base_cell(q)) == gk {
                        assert(old_entries == index_slab_entries(old_grid[gk]));
                    }
                }
            }
            assert forall|k: i64| #[trigger] glob.contains_key(k) implies metas.contains_key(glob[k])
                && point_key(metas[glob[k]].base.position) == k by {
                if k != point_key(p) {
                    assert(old_glob.contains_key(k));
                    assert(old_metas.contains_key(old_glob[k]));
                }
            }
            assert forall|k: i64, sl: usize|
                #![trigger index_slab_entries(grid[k]).contains_key(sl)]
                grid.contains_key(k) && index_slab_entries(grid[k]).contains_key(sl) implies {
                let id = index_slab_entries(grid[k])[sl];
                &&& metas.contains_key(id)
                &&& point_key(metas[id].grid_index_rev.0) == k
                &&& metas[id].grid_index_rev.1 == sl
            } by {
                if k == gk {
                    if sl != slot {
                        assert(old_entries.contains_key(sl));
                        assert(index_slab_entries(old_grid[k]).contains_key(sl));
                    }
                } else {
                    assert(index_slab_entries(old_grid[k]).contains_key(sl));
                }
            }
            assert(self@ =~= old_view.insert(base_id, base));
        }
        Some(base_id)
    }

    /// Removes the base with identifier `id` and returns it, if any.
    pub fn remove(&mut self, id: usize) -> (r: Option<Base>)
        requires
            old(self).wf(),
        ensures
            final(self).wf(),
            final(self).assets() == old(self).assets(),
            r == old(self)@.get(id),
            final(self)@ == old(self)@.remove(id),
            forall|other: usize|
                #[trigger] final(self)@.contains_key(other) ==> final(self).grid_slot(other) == old(self).grid_slot(other),
    {
        let ghost old_metas = base_slab_entries(self.base_metas);
        let ghost old_grid = self.grid_index@;
        let ghost old_glob = self.global_index@;
        let ghost old_view = self@;
        match base_slab_try_remove(&mut self.base_metas, id) {
            None => {
                assert(self@ =~= old_view.remove(id));
                None
            },
            Some(meta) => {
                proof {
                    assert(meta_indexed(old_metas[id], id, old_grid, old_glob));
                }
                let grid_point = meta.grid_index_rev.0;
                let slot = meta.grid_index_rev.1;
                let gk = key_of(grid_point);
                let mut cell = self.grid_index.remove(&gk).unwrap();
                let ghost old_entries = index_slab_entries(cell);
                index_slab_remove(&mut cell, slot);
                self.grid_index.insert(gk, cell);
                self.global_index.remove(&key_of(meta.global_index_rev));
                proof {
                    let metas = base_slab_entries(self.base_metas);
                    let grid = self.grid_index@;
                    let glob = self.global_index@;
                    let p = meta.base.position;
                    assert(grid == old_grid.insert(gk, cell));
                    assert(glob == old_glob.remove(point_key(p)));
                    assert(metas == old_metas.remove(id));
                    assert(old_entries == index_slab_entries(old_grid[gk]));
                    assert forall|other: usize| #[trigger] metas.contains_key(other) implies meta_indexed(
                        metas[other],
                        other,
                        grid,
                        glob,
                    ) by {
                        assert(old_metas.contains_key(other));
                        assert(meta_indexed(old_metas[other], other, old_grid, old_glob));
                        let q = old_metas[other].base.position;
                        lemma_point_key_injective(q, p);
                    }
                    assert forall|k: i64| #[trigger] glob.contains_key(k) implies metas.contains_key(
                        glob[k],
                    ) && point_key(metas[glob[k]].base.position) == k by {
                        assert(old_glob.contains_key(k));
                        assert(old_metas.contains_key(old_glob[k]));
                        if old_glob[k] == id {
                            assert(point_key(old_metas[id].base.position) == k);
                        }
                    }
                    assert forall|k: i64, sl: usize|
                        #![trigger index_slab_entries(grid[k]).contains_key(sl)]
                        grid.contains_key(k) && index_slab_entries(grid[k]).contains_key(sl) implies {
                        let oid = index_slab_entries(grid[k])[sl];
                        &&& metas.contains_key(oid)
                        &&& point_key(metas[oid].grid_index_rev.0) == k
                        &&& metas[oid].grid_index_rev.1 == sl
                    } by {
                        assert(index_slab_entries(old_grid[k]).contains_key(sl));
                        let oid = index_slab_entries(old_grid[k])[sl];
                        assert(old_metas.contains_key(oid));
                        if oid == id {
                            lemma_point_key_injective(old_metas[id].grid_index_rev.0, grid_point);
                        }
                    }
                    assert(self@ =~= old_view.remove(id));
                }
                Some(meta.base)
            },
        }
    }

    /// Creates an empty storage.
    pub fn new(assets: Rc<Assets>) -> (r: BaseStorage)
        ensures
            r.wf(),
            r@ == Map::<usize, Base>::empty(),
            r.assets() == assets,
    {
        let r = BaseStorage {
            assets,
            base_metas: base_slab_new(),
            grid_index: HashMap::new(),
            global_index: HashMap::new(),
        };
        assert(r@ =~= Map::<usize, Base>::empty());
        r
    }
}

/// Removing the base that an insertion added gives back the same bases, each
/// under the same key of its grid cell's index, so every search lists what
/// it listed before the insertion, in the same order.
pub proof fn lemma_insert_remove_keeps_searches(
    before: BaseStorage,
    inserted: BaseStorage,
    removed: BaseStorage,
    id: usize,
    base: Base,
)
    requires
        !before@.contains_key(id),
        inserted@ == before@.insert(id, base),
        forall|other: usize|
            #[trigger] before@.contains_key(other) ==> inserted.grid_slot(other) == before.grid_slot(other),
        removed@ == inserted@.remove(id),
        forall|other: usize|
            #[trigger] removed@.contains_key(other) ==> removed.grid_slot(other) == inserted.grid_slot(other),
    ensures
        removed@ == before@,
        forall|other: usize| #[trigger] before@.contains_key(other) ==> removed.grid_slot(other) == before.grid_slot(other),
        forall|rect: IAabb2, r: Seq<(usize, Base)>|
            #[trigger] search_result(removed@, rect, r) == search_result(before@, rect, r),
        forall|r: Seq<(usize, Base)>|
            (forall|i: int| 0 <= i < r.len() ==> before@.contains_key(#[trigger] r[i].0)) ==> (
            #[trigger] removed.in_grid_order(r) == before.in_grid_order(r)),
{
    assert(removed@ =~= before@);
    assert forall|r: Seq<(usize, Base)>|
        (forall|i: int| 0 <= i < r.len() ==> before@.contains_key(#[trigger] r[i].0)) implies (
        #[trigger] removed.in_grid_order(r) == before.in_grid_order(r)) by {
        assert forall|i: int| 0 <= i < r.len() implies #[trigger] removed.grid_slot(r[i].0) == before.grid_slot(r[i].0) by {
            assert(before@.contains_key(r[i].0));
        }
    }
}

} // verus!
