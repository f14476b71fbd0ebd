//! Storage of blocks: each block covers a rectangle of cells given by its
//! kind, and no two stored blocks overlap. Blocks are indexed by the grid
//! cells of `INTERNAL_GRID_SIZE` that their rectangle covers, and by the
//! grid cells of the drawn rectangle that the caller computes for them.

use vstd::prelude::*;

use std::rc::Rc;

use slab::Slab;

use crate::aabb::grid::{grid_point, grid_rect, grid_rect_ok, lemma_grid_rect_covers, ToGridSpace};
use crate::aabb::iaabb2::{
    box_contains, box_nonempty, boxes_intersect, iaabb2, lemma_walk_is_box, lemma_walk_no_duplicates, rect, walk,
    width, IAabb2,
};
use crate::assets::Assets;
use crate::game_loop::base::lemma_point_key_injective;
use crate::game_loop::base::point_key;
use crate::game_loop::cell_index::{pairs_sorted, ref_entry, refers_to, without_id, CellIndex};
use crate::vector::{in_i32, IVec2};

verus! {

/// A block of the world.
#[derive(Clone, Copy, Debug, PartialEq, Eq)]
pub struct Block {
    pub spec_id: usize,
    pub position: IVec2,
    pub z_random: u8,
}

impl Block {
    /// Creates a block.
    pub fn new(spec_id: usize, position: IVec2, z_random: u8) -> (r: Block)
        ensures
            r == (Block { spec_id, position, z_random }),
    {
        Block { spec_id, position, z_random }
    }
}

/// A stored block with its drawn cells and the index entries that refer to
/// it.
pub struct BlockMeta {
    pub block: Block,
    pub rendering_cells: IAabb2,
    pub internal_grid_index_ref: Vec<(IVec2, usize)>,
    pub rendering_grid_index_ref: Vec<(IVec2, usize)>,
}

/// The metadata that a slab of blocks holds, by key.
pub uninterp spec fn block_slab_entries(s: Slab<BlockMeta>) -> Map<usize, BlockMeta>;

/// The key that the next insertion into a slab of blocks uses.
pub uninterp spec fn block_slab_next(s: Slab<BlockMeta>) -> usize;

/// `Slab::new`: an empty slab.
#[verifier::external_body]
fn block_slab_new() -> (r: Slab<BlockMeta>)
    ensures
        block_slab_entries(r) =~= Map::empty(),
{
    Slab::new()
}

/// `Slab::vacant_key`: the key that the next insertion uses, which is not
/// occupied.
#[verifier::external_body]
fn block_slab_vacant_key(s: &Slab<BlockMeta>) -> (r: usize)
    ensures
        r == block_slab_next(*s),
        !block_slab_entries(*s).contains_key(r),
{
    s.vacant_key()
}

/// `Slab::insert`: stores `value` under the vacant key and returns it; the
/// other entries stay.
#[verifier::external_body]
fn block_slab_insert(s: &mut Slab<BlockMeta>, value: BlockMeta) -> (key: usize)
    ensures
        key == block_slab_next(*old(s)),
        !block_slab_entries(*old(s)).contains_key(key),
        block_slab_entries(*final(s)) == block_slab_entries(*old(s)).insert(key, value),
{
    s.insert(value)
}

/// `Slab::try_remove`: takes out the entry under `key`, if any.
#[verifier::external_body]
fn block_slab_try_remove(s: &mut Slab<BlockMeta>, key: usize) -> (r: Option<BlockMeta>)
    ensures
        r == block_slab_entries(*old(s)).get(key),
        block_slab_entries(*final(s)) == block_slab_entries(*old(s)).remove(key),
{
    s.try_remove(key)
}

/// `Slab::get`: the block and drawn cells under `key`, if any.
#[verifier::external_body]
fn block_slab_get(s: &Slab<BlockMeta>, key: usize) -> (r: Option<(Block, IAabb2)>)
    ensures
        match block_slab_entries(*s).get(key) {
            Some(m) => r == Some((m.block, m.rendering_cells)),
            None => r is None,
        },
{
    s.get(key).map(|m| (m.block, m.rendering_cells))
}

/// The side of the grid cells that index blocks by their rectangle.
pub const INTERNAL_GRID_SIZE: i32 = 32;

/// The internal size of the kind of block `b`.
pub open spec fn internal_size_of(assets: Assets, b: Block) -> IVec2 {
    assets.block_specs@[b.spec_id as int].internal_size
}

/// The rectangle that a block of kind size `size` covers: from its position
/// to its position plus `size`.
pub open spec fn block_rect(b: Block, size: IVec2) -> IAabb2 {
    rect(b.position.x as int, b.position.y as int, b.position.x + size.x, b.position.y + size.y)
}

/// The grid cells that index a block of kind size `size`.
pub open spec fn block_cells(b: Block, size: IVec2) -> Seq<IVec2> {
    walk(grid_rect(block_rect(b, size), 32))
}

/// Whether the grid cells of `INTERNAL_GRID_SIZE` that `a` and `b` cover
/// share a cell.
pub open spec fn share_grid_cell(a: IAabb2, b: IAabb2) -> bool {
    exists|c: IVec2| box_contains(grid_rect(a, 32), c) && box_contains(grid_rect(b, 32), c)
}

/// Whether a search over `rect` finds a block `b` of kind size `size`: the
/// block's rectangle meets `rect` (as `IAabb2::intersects` tests it) and
/// shares a grid cell with it, through which the index reaches the block.
pub open spec fn found_by(rect: IAabb2, b: Block, size: IVec2) -> bool {
    boxes_intersect(rect, block_rect(b, size)) && share_grid_cell(rect, block_rect(b, size))
}

/// Whether a search over `rect` finds one of `blocks`.
pub open spec fn finds_block(blocks: Map<usize, (Block, IAabb2)>, assets: Assets, rect: IAabb2) -> bool {
    exists|id: usize|
        blocks.contains_key(id) && found_by(
            rect,
            #[trigger] blocks[id].0,
            internal_size_of(assets, blocks[id].0),
        )
}

/// What a block search lists, given the index pairs `(slot, id)` it visits
/// in order: each pair whose block's rectangle meets `rect`, as `(id,
/// block)`.
pub open spec fn listing(
    blocks: Map<usize, (Block, IAabb2)>,
    assets: Assets,
    rect: IAabb2,
    ps: Seq<(usize, usize)>,
) -> Seq<(usize, Block)>
    decreases ps.len(),
{
    if ps.len() == 0 {
        Seq::empty()
    } else {
        let prev = listing(blocks, assets, rect, ps.drop_last());
        let id = ps.last().1;
        let b = blocks[id].0;
        if boxes_intersect(rect, block_rect(b, internal_size_of(assets, b))) {
            prev.push((id, b))
        } else {
            prev
        }
    }
}

/// Between non-empty rectangles within the grid bound, a search over `rect`
/// finds the block exactly when the block's rectangle meets `rect`.
pub proof fn lemma_meeting_block_found(rect: IAabb2, b: Block, size: IVec2)
    requires
        grid_rect_ok(rect, 32),
        grid_rect_ok(block_rect(b, size), 32),
        box_nonempty(rect),
        box_nonempty(block_rect(b, size)),
    ensures
        found_by(rect, b, size) <==> boxes_intersect(rect, block_rect(b, size)),
{
    let br = block_rect(b, size);
    if boxes_intersect(rect, br) {
        let px = if rect.min.x >= br.min.x { rect.min.x } else { br.min.x };
        let py = if rect.min.y >= br.min.y { rect.min.y } else { br.min.y };
        let p = IVec2 { x: px, y: py };
        assert(box_contains(rect, p));
        assert(box_contains(br, p));
        lemma_grid_rect_covers(rect, p, 32);
        lemma_grid_rect_covers(br, p, 32);
    }
}

/// Whether a block of kind size `size` can be indexed within `i32` (its
/// drawn cells `rendering_cells` need nothing more).
pub open spec fn block_fits(b: Block, size: IVec2, rendering_cells: IAabb2) -> bool {
    &&& b.position.add_ok(size)
    &&& grid_rect_ok(block_rect(b, size), 32)
}

/// Computes [`block_fits`].
pub fn fits(b: Block, size: IVec2, rendering_cells: IAabb2) -> (r: bool)
    ensures
        r == block_fits(b, size, rendering_cells),
{
    let mx = b.position.x as i64 + size.x as i64;
    let my = b.position.y as i64 + size.y as i64;
    if mx > i32::MAX as i64 || mx <= i32::MIN as i64 || my > i32::MAX as i64 || my <= i32::MIN as i64 {
        proof {
            let r = block_rect(b, size);
            if b.position.add_ok(size) {
                assert(r.max.x == mx && r.max.y == my);
            }
        }
        return false;
    }
    proof {
        let r = block_rect(b, size);
        assert(r.max.x == mx && r.max.y == my);
        crate::vector::lemma_euclid_bounds(r.min.x as int, 32);
        crate::vector::lemma_euclid_bounds(r.min.y as int, 32);
        crate::vector::lemma_euclid_bounds(r.max.x - 1, 32);
        crate::vector::lemma_euclid_bounds(r.max.y - 1, 32);
        assert((r.max.x - 1) / 32 + 1 <= i32::MAX) by (nonlinear_arith)
            requires
                r.max.x - 1 < i32::MAX,
        ;
        assert((r.max.y - 1) / 32 + 1 <= i32::MAX) by (nonlinear_arith)
            requires
                r.max.y - 1 < i32::MAX,
        ;
        assert((r.min.x as int) / 32 + 1 <= i32::MAX) by (nonlinear_arith)
            requires
                r.min.x <= i32::MAX,
        ;
        assert(grid_rect_ok(r, 32));
    }
    true
}

/// Whether the references `refs` name, cell by cell along `cells`, entries
/// of `index` that hold `id`.
pub open spec fn refs_match(
    refs: Seq<(IVec2, usize)>,
    cells: Seq<IVec2>,
    index: Map<(i64, usize), usize>,
    id: usize,
) -> bool {
    &&& refs.len() == cells.len()
    &&& forall|j: int|
        0 <= j < refs.len() ==> {
            &&& (#[trigger] refs[j]).0 == cells[j]
            &&& index.contains_key(ref_entry(refs[j]))
            &&& index[ref_entry(refs[j])] == id
        }
}

/// Whether no two of `blocks` with non-empty rectangles overlap.
pub open spec fn blocks_apart(blocks: Map<usize, (Block, IAabb2)>, assets: Assets) -> bool {
    forall|a: usize, b: usize|
        #![trigger blocks[a], blocks[b]]
        blocks.contains_key(a) && blocks.contains_key(b) && a != b ==> {
            let ra = block_rect(blocks[a].0, internal_size_of(assets, blocks[a].0));
            let rb = block_rect(blocks[b].0, internal_size_of(assets, blocks[b].0));
            !(box_nonempty(ra) && box_nonempty(rb) && boxes_intersect(ra, rb))
        }
}

/// Storage of blocks.
pub struct BlockStorage {
    assets: Rc<Assets>,
    block_metas: Slab<BlockMeta>,
    internal_grid_index: CellIndex,
    rendering_grid_index: CellIndex,
}

impl View for BlockStorage {
    /// Each stored block with the grid cells it is drawn over, by
    /// identifier.
    type V = Map<usize, (Block, IAabb2)>;

    closed spec fn view(&self) -> Map<usize, (Block, IAabb2)> {
        block_slab_entries(self.block_metas).map_values(|m: BlockMeta| (m.block, m.rendering_cells))
    }
}

impl BlockStorage {
    /// The assets the storage was made with.
    pub closed spec fn assets(&self) -> Assets {
        *self.assets
    }

    /// Whether the indices agree with the stored blocks.
    pub closed spec fn wf(&self) -> bool {
        let metas = block_slab_entries(self.block_metas);
        let internal = self.internal_grid_index@;
        let rendering = self.rendering_grid_index@;
        let assets = *self.assets;
        &&& blocks_apart(self@, assets)
        &&& forall|id: usize|
            #[trigger] metas.contains_key(id) ==> {
                let m = metas[id];
                let size = internal_size_of(assets, m.block);
                &&& m.block.spec_id < assets.block_specs@.len()
                &&& block_fits(m.block, size, m.rendering_cells)
                &&& refs_match(m.internal_grid_index_ref@, block_cells(m.block, size), internal, id)
                &&& refs_match(m.rendering_grid_index_ref@, walk(m.rendering_cells), rendering, id)
            }
        &&& forall|e: (i64, usize)|
            #[trigger] internal.contains_key(e) ==> metas.contains_key(internal[e]) && refers_to(
                metas[internal[e]].internal_grid_index_ref@,
                e,
            )
        &&& forall|e: (i64, usize)|
            #[trigger] rendering.contains_key(e) ==> metas.contains_key(rendering[e]) && refers_to(
                metas[rendering[e]].rendering_grid_index_ref@,
                e,
            )
    }

    /// Creates an empty storage.
    pub fn new(assets: Rc<Assets>) -> (r: BlockStorage)
        ensures
            r.wf(),
            r@ == Map::<usize, (Block, IAabb2)>::empty(),
            r.assets() == *assets,
    {
        let r = BlockStorage {
            assets,
            block_metas: block_slab_new(),
            internal_grid_index: CellIndex::new(),
            rendering_grid_index: CellIndex::new(),
        };
        assert(r@ =~= Map::<usize, (Block, IAabb2)>::empty());
        r
    }

    /// The identifier that the next insertion gives: the slab's vacant key.
    pub closed spec fn next_id(&self) -> usize {
        block_slab_next(self.block_metas)
    }

    /// Every stored block is of a known kind and fits the grid bound, so a
    /// search over a rectangle within the bound finds a stored block of
    /// positive size exactly when their rectangles meet
    /// ([`lemma_meeting_block_found`]).
    pub proof fn lemma_stored_block_fits(&self, id: usize)
        requires
            self.wf(),
            self@.contains_key(id),
        ensures
            self@[id].0.spec_id < self.assets().block_specs@.len(),
            block_fits(self@[id].0, internal_size_of(self.assets(), self@[id].0), self@[id].1),
    {
        assert(block_slab_entries(self.block_metas).contains_key(id));
    }

    /// The entries of the index by drawn cells: `(cell key, slab key)` to
    /// identifier.
    pub closed spec fn rendering_index(&self) -> Map<(i64, usize), usize> {
        self.rendering_grid_index@
    }

    /// The entries of the index by rectangle: `(cell key, slab key)` to
    /// identifier.
    pub closed spec fn internal_index(&self) -> Map<(i64, usize), usize> {
        self.internal_grid_index@
    }

    /// The slab key that the next block indexed in `cell` by rectangle gets.
    pub closed spec fn internal_next_slot(&self, cell: IVec2) -> usize {
        self.internal_grid_index.next_slot(cell)
    }

    /// The slab key that the next block indexed in `cell` by drawn cells
    /// gets.
    pub closed spec fn rendering_next_slot(&self, cell: IVec2) -> usize {
        self.rendering_grid_index.next_slot(cell)
    }

    /// The internal size of the kind of block `spec_id`.
    pub fn kind_size(&self, spec_id: usize) -> (r: IVec2)
        requires
            spec_id < self.assets().block_specs@.len(),
        ensures
            r == self.assets().block_specs@[spec_id as int].internal_size,
    {
        self.assets.block_specs[spec_id].internal_size
    }

    /// No two stored blocks with non-empty rectangles overlap.
    pub proof fn lemma_blocks_apart(&self)
        requires
            self.wf(),
        ensures
            blocks_apart(self@, self.assets()),
    {
    }

    /// The block with identifier `id`, if any.
    pub fn get(&self, id: usize) -> (r: Option<Block>)
        requires
            self.wf(),
        ensures
            match self@.get(id) {
                Some(e) => r == Some(e.0),
                None => r is None,
            },
    {
        match block_slab_get(&self.block_metas, id) {
            Some(e) => Some(e.0),
            None => None,
        }
    }

    /// A block that meets `rect` is indexed in a grid cell that the walk over
    /// the grid cells of `rect` visits.
    proof fn lemma_indexed_in_walk(&self, rect: IAabb2, id: usize)
        requires
            self.wf(),
            self@.contains_key(id),
            found_by(rect, self@[id].0, internal_size_of(self.assets(), self@[id].0)),
        ensures
            exists|c: int, slot: usize|
                #![trigger walk(grid_rect(rect, 32))[c], self.internal_grid_index@[(crate::game_loop::base::point_key(walk(grid_rect(rect, 32))[c]), slot)]]
                0 <= c < walk(grid_rect(rect, 32)).len()
                    && self.internal_grid_index@.contains_key((crate::game_loop::base::point_key(walk(grid_rect(rect, 32))[c]), slot))
                    && self.internal_grid_index@[(crate::game_loop::base::point_key(walk(grid_rect(rect, 32))[c]), slot)] == id,
    {
        let metas = block_slab_entries(self.block_metas);
        assert(metas.contains_key(id));
        let m = metas[id];
        let b = m.block;
        let size = internal_size_of(self.assets(), b);
        let br = block_rect(b, size);
        let g = choose|g: IVec2| box_contains(grid_rect(rect, 32), g) && box_contains(grid_rect(br, 32), g);
        lemma_walk_is_box(grid_rect(rect, 32));
        lemma_walk_is_box(grid_rect(br, 32));
        assert(walk(grid_rect(rect, 32)).contains(g));
        assert(walk(grid_rect(br, 32)).contains(g));
        let c = choose|c: int| 0 <= c < walk(grid_rect(rect, 32)).len() && walk(grid_rect(rect, 32))[c] == g;
        let j = choose|j: int| 0 <= j < walk(grid_rect(br, 32)).len() && walk(grid_rect(br, 32))[j] == g;
        let refs = m.internal_grid_index_ref@;
        assert(refs[j].0 == block_cells(b, size)[j]);
        let slot = refs[j].1;
        assert(ref_entry(refs[j]) == (crate::game_loop::base::point_key(g), slot));
    }

    /// The blocks found by a search over `rect` (see [`found_by`]), through
    /// the grid cells of `rect`: the index pairs `(slot, id)` of those cells,
    /// each once in increasing order, give the order, so a block that spans
    /// several grid cells may be listed more than once.
    pub fn get_internal_by_rect(&self, rect: IAabb2) -> (r: Vec<(usize, Block)>)
        requires
            self.wf(),
            grid_rect_ok(rect, 32),
        ensures
            forall|i: int|
                0 <= i < r@.len() ==> {
                    let (id, b) = #[trigger] r@[i];
                    &&& self@.contains_key(id)
                    &&& self@[id].0 == b
                    &&& found_by(rect, b, internal_size_of(self.assets(), b))
                },
            forall|id: usize|
                self@.contains_key(id) && found_by(
                    rect,
                    #[trigger] self@[id].0,
                    internal_size_of(self.assets(), self@[id].0),
                ) ==> exists|i: int| 0 <= i < r@.len() && #[trigger] r@[i].0 == id,
            exists|ps: Seq<(usize, usize)>|
                pairs_sorted(ps) && (forall|q: (usize, usize)|
                    #[trigger] ps.contains(q) <==> CellIndex::holds_in(
                        self.internal_index(),
                        walk(grid_rect(rect, 32)),
                        q,
                    )) && r@ == listing(self@, self.assets(), rect, ps),
    {
        let grid = rect.to_grid_space(INTERNAL_GRID_SIZE);
        let cells = grid.points();
        let pairs = self.internal_grid_index.collect(&cells);
        let ghost metas = block_slab_entries(self.block_metas);
        let ghost assets = self.assets();
        let mut out: Vec<(usize, Block)> = Vec::new();
        let mut k: usize = 0;
        while k < pairs.len()
            invariant
                k <= pairs.len(),
                self.wf(),
                metas == block_slab_entries(self.block_metas),
                assets == self.assets(),
                forall|q: (usize, usize)| #[trigger] pairs@.contains(q) <==> CellIndex::holds_in(self.internal_grid_index@, cells@, q),
                cells@ == walk(grid_rect(rect, 32)),
                pairs_sorted(pairs@),
                out@ == listing(self@, assets, rect, pairs@.take(k as int)),
                forall|i: int|
                    0 <= i < out@.len() ==> {
                        let (id, b) = #[trigger] out@[i];
                        &&& self@.contains_key(id)
                        &&& self@[id].0 == b
                        &&& found_by(rect, b, internal_size_of(assets, b))
                    },
                forall|t: int|
                    0 <= t < k && boxes_intersect(
                        rect,
                        block_rect(metas[(#[trigger] pairs@[t]).1].block, internal_size_of(assets, metas[pairs@[t].1].block)),
                    ) ==> exists|i: int| 0 <= i < out@.len() && #[trigger] out@[i].0 == pairs@[t].1,
            decreases pairs.len() - k,
        {
            let (slot, id) = pairs[k];
            proof {
                assert(pairs@.contains(pairs@[k as int]));
                let c = choose|c: int|
                    0 <= c < cells@.len() && self.internal_grid_index@.contains_key(
                        (crate::game_loop::base::point_key(#[trigger] cells@[c]), slot),
                    ) && self.internal_grid_index@[(crate::game_loop::base::point_key(cells@[c]), slot)] == id;
                let e = (crate::game_loop::base::point_key(cells@[c]), slot);
                assert(self.internal_grid_index@.contains_key(e));
                assert(metas.contains_key(id));
                let m = metas[id];
                let sz = internal_size_of(assets, m.block);
                let refs = m.internal_grid_index_ref@;
                let j = choose|j: int| 0 <= j < refs.len() && e == ref_entry(#[trigger] refs[j]);
                assert(refs[j].0 == block_cells(m.block, sz)[j]);
                lemma_point_key_injective(refs[j].0, cells@[c]);
                lemma_walk_is_box(grid_rect(rect, 32));
                lemma_walk_is_box(grid_rect(block_rect(m.block, sz), 32));
                assert(walk(grid_rect(rect, 32)).contains(cells@[c]));
                assert(block_cells(m.block, sz).contains(cells@[c]));
                assert(box_contains(grid_rect(rect, 32), cells@[c]) && box_contains(grid_rect(block_rect(m.block, sz), 32), cells@[c]));
                assert(share_grid_cell(rect, block_rect(m.block, sz)));
            }
            let ghost before = out@;
            proof {
                assert(pairs@.take(k + 1).drop_last() =~= pairs@.take(k as int));
                assert(pairs@.take(k + 1).last() == (slot, id));
            }
            match block_slab_get(&self.block_metas, id) {
                Some((b, _)) => {
                    proof {
                        assert(metas.contains_key(id));
                        assert(metas[id].block == b);
                        assert(self@[id].0 == b);
                    }
                    let size = self.assets.block_specs[b.spec_id].internal_size;
                    let br = iaabb2(b.position, b.position.add(size));
                    if rect.intersects(br) {
                        out.push((id, b));
                        proof {
                            assert(out@[before.len() as int].0 == id);
                        }
                    }
                    proof {
                        assert forall|t: int|
                            0 <= t < k + 1 && boxes_intersect(
                                rect,
                                block_rect(metas[(#[trigger] pairs@[t]).1].block, internal_size_of(assets, metas[pairs@[t].1].block)),
                            ) implies exists|i: int| 0 <= i < out@.len() && #[trigger] out@[i].0 == pairs@[t].1 by {
                            if t < k {
                                let i = choose|i: int| 0 <= i < before.len() && #[trigger] before[i].0 == pairs@[t].1;
                                assert(out@[i] == before[i]);
                            } else {
                                assert(out@[before.len() as int].0 == id);
                            }
                        }
                        assert forall|i: int| 0 <= i < out@.len() implies {
                            let (id, b) = #[trigger] out@[i];
                            &&& self@.contains_key(id)
                            &&& self@[id].0 == b
                            &&& found_by(rect, b, internal_size_of(assets, b))
                        } by {
                            if i < before.len() {
                                assert(out@[i] == before[i]);
                            }
                        }
                    }
                },
                None => {
                    assert(false);
                },
            }
            k = k + 1;
        }
        proof {
            assert forall|id: usize|
                self@.contains_key(id) && found_by(
                    rect,
                    #[trigger] self@[id].0,
                    internal_size_of(self.assets(), self@[id].0),
                ) implies exists|i: int| 0 <= i < out@.len() && #[trigger] out@[i].0 == id by {
                self.lemma_indexed_in_walk(rect, id);
                let (c, slot) = choose|c: int, slot: usize|
                    #![trigger walk(grid_rect(rect, 32))[c], self.internal_grid_index@[(crate::game_loop::base::point_key(walk(grid_rect(rect, 32))[c]), slot)]]
                    0 <= c < walk(grid_rect(rect, 32)).len()
                        && self.internal_grid_index@.contains_key((crate::game_loop::base::point_key(walk(grid_rect(rect, 32))[c]), slot))
                        && self.internal_grid_index@[(crate::game_loop::base::point_key(walk(grid_rect(rect, 32))[c]), slot)] == id;
                assert(cells@[c] == walk(grid_rect(rect, 32))[c]);
                assert(CellIndex::holds_in(self.internal_grid_index@, cells@, (slot, id)));
                assert(pairs@.contains((slot, id)));
                let t = choose|t: int| 0 <= t < pairs@.len() && pairs@[t] == (slot, id);
                assert(metas.contains_key(id));
                assert(self@[id].0 == metas[id].block);
            }
            assert(pairs@.take(pairs@.len() as int) =~= pairs@);
            assert(self.internal_index() == self.internal_grid_index@);
        }
        out
    }

    /// The blocks drawn over any of the grid cells `cells`, which the caller
    /// computed from the drawn rectangle it looks at, and whose own drawn
    /// rectangle the caller then tests: one entry per index pair `(slot, id)`
    /// of those cells, in increasing order, so a block drawn over several of
    /// those cells may be listed more than once.
    pub fn get_rendering_by_rect(&self, cells: IAabb2) -> (r: Vec<(usize, Block)>)
        requires
            self.wf(),
        ensures
            exists|ps: Seq<(usize, usize)>|
                pairs_sorted(ps) && (forall|q: (usize, usize)|
                    #[trigger] ps.contains(q) <==> CellIndex::holds_in(self.rendering_index(), walk(cells), q))
                    && r@.len() == ps.len() && forall|t: int|
                    0 <= t < ps.len() ==> self@.contains_key(ps[t].1) && #[trigger] r@[t] == (
                        ps[t].1,
                        self@[ps[t].1].0,
                    ),
            forall|i: int|
                0 <= i < r@.len() ==> {
                    let (id, b) = #[trigger] r@[i];
                    &&& self@.contains_key(id)
                    &&& self@[id].0 == b
                    &&& exists|c: IVec2| walk(cells).contains(c) && walk(self@[id].1).contains(c)
                },
            forall|id: usize|
                self@.contains_key(id) && (exists|c: IVec2|
                    walk(cells).contains(c) && walk((#[trigger] self@[id]).1).contains(c)) ==> exists|
                    i: int,
                | 0 <= i < r@.len() && #[trigger] r@[i].0 == id,
    {
        let points = cells.points();
        let pairs = self.rendering_grid_index.collect(&points);
        let ghost metas = block_slab_entries(self.block_metas);
        let ghost rendering = self.rendering_grid_index@;
        let mut out: Vec<(usize, Block)> = Vec::new();
        let mut k: usize = 0;
        while k < pairs.len()
            invariant
                k <= pairs.len(),
                self.wf(),
                metas == block_slab_entries(self.block_metas),
                rendering == self.rendering_grid_index@,
                points@ == walk(cells),
                pairs_sorted(pairs@),
                forall|q: (usize, usize)| #[trigger] pairs@.contains(q) <==> CellIndex::holds_in(rendering, points@, q),
                out@.len() == k,
                forall|t: int| 0 <= t < k ==> (#[trigger] out@[t]).0 == pairs@[t].1 && metas.contains_key(pairs@[t].1) && out@[t].1 == metas[pairs@[t].1].block,
            decreases pairs.len() - k,
        {
            let (slot, id) = pairs[k];
            proof {
                assert(pairs@.contains(pairs@[k as int]));
                let c = choose|c: int|
                    0 <= c < points@.len() && rendering.contains_key(
                        (crate::game_loop::base::point_key(#[trigger] points@[c]), slot),
                    ) && rendering[(crate::game_loop::base::point_key(points@[c]), slot)] == id;
                assert(rendering.contains_key((crate::game_loop::base::point_key(points@[c]), slot)));
            }
            match block_slab_get(&self.block_metas, id) {
                Some((b, _)) => {
                    out.push((id, b));
                },
                None => {
                    assert(false);
                },
            }
            k = k + 1;
        }
        proof {
            assert forall|i: int| 0 <= i < out@.len() implies {
                let (id, b) = #[trigger] out@[i];
                &&& self@.contains_key(id)
                &&& self@[id].0 == b
                &&& exists|c: IVec2| walk(cells).contains(c) && walk(self@[id].1).contains(c)
            } by {
                let (slot, id) = pairs@[i];
                assert(pairs@.contains(pairs@[i]));
                let c = choose|c: int|
                    0 <= c < points@.len() && rendering.contains_key(
                        (crate::game_loop::base::point_key(#[trigger] points@[c]), slot),
                    ) && rendering[(crate::game_loop::base::point_key(points@[c]), slot)] == id;
                let e = (crate::game_loop::base::point_key(points@[c]), slot);
                assert(rendering.contains_key(e));
                let m = metas[id];
                let refs = m.rendering_grid_index_ref@;
                let j = choose|j: int| 0 <= j < refs.len() && e == ref_entry(#[trigger] refs[j]);
                assert(refs[j].0 == walk(m.rendering_cells)[j]);
                lemma_point_key_injective(refs[j].0, points@[c]);
                assert(walk(cells)[c] == points@[c]);
                assert(walk(cells).contains(points@[c]));
                assert(walk(m.rendering_cells).contains(points@[c]));
                assert(out@[i].0 == id);
                assert(self@.contains_key(id));
                assert(self@[id] == (m.block, m.rendering_cells));
                assert(walk(cells).contains(points@[c]) && walk(self@[id].1).contains(points@[c]));
            }
            assert forall|id: usize|
                self@.contains_key(id) && (exists|c: IVec2|
                    walk(cells).contains(c) && walk((#[trigger] self@[id]).1).contains(c)) implies exists|
                i: int,
            | 0 <= i < out@.len() && #[trigger] out@[i].0 == id by {
                let c = choose|c: IVec2| walk(cells).contains(c) && walk(self@[id].1).contains(c);
                let m = metas[id];
                assert(metas.contains_key(id));
                let a = choose|a: int| 0 <= a < walk(cells).len() && walk(cells)[a] == c;
                let j = choose|j: int| 0 <= j < walk(m.rendering_cells).len() && walk(m.rendering_cells)[j] == c;
                let refs = m.rendering_grid_index_ref@;
                assert(refs[j].0 == walk(m.rendering_cells)[j]);
                let slot = refs[j].1;
                assert(ref_entry(refs[j]) == (crate::game_loop::base::point_key(c), slot));
                assert(points@[a] == c);
                assert(CellIndex::holds_in(rendering, points@, (slot, id)));
                assert(pairs@.contains((slot, id)));
                let t = choose|t: int| 0 <= t < pairs@.len() && pairs@[t] == (slot, id);
                assert(out@[t].0 == id);
            }
            assert(self.rendering_index() == rendering);
            assert(points@ == walk(cells));
            assert(out@.len() == pairs@.len());
            assert forall|t: int| 0 <= t < pairs@.len() implies #[trigger] self@.dom().contains(pairs@[t].1) by {
                assert(out@[t].0 == pairs@[t].1);
                assert(metas.contains_key(pairs@[t].1));
            }
            assert forall|t: int| 0 <= t < pairs@.len() implies #[trigger] out@[t] == (
                pairs@[t].1,
                self@[pairs@[t].1].0,
            ) by {
                assert(out@[t].0 == pairs@[t].1);
                assert(metas.contains_key(pairs@[t].1));
            }
        }
        out
    }

    /// Adds a block drawn over the grid cells `rendering_cells` and returns
    /// its identifier, or `None` (storage unchanged) when the search of
    /// [`BlockStorage::get_internal_by_rect`] over its rectangle finds a
    /// block.
    pub fn insert(&mut self, block: Block, rendering_cells: IAabb2) -> (r: Option<usize>)
        requires
            old(self).wf(),
            block.spec_id < old(self).assets().block_specs@.len(),
            block_fits(block, internal_size_of(old(self).assets(), block), rendering_cells),
        ensures
            final(self).wf(),
            final(self).assets() == old(self).assets(),
            match r {
                None => final(self)@ == old(self)@ && finds_block(
                    old(self)@,
                    old(self).assets(),
                    block_rect(block, internal_size_of(old(self).assets(), block)),
                ),
                Some(id) => !finds_block(
                    old(self)@,
                    old(self).assets(),
                    block_rect(block, internal_size_of(old(self).assets(), block)),
                ) && id == old(self).next_id() && !old(self)@.contains_key(id) && final(self)@ == old(self)@.insert(
                    id,
                    (block, rendering_cells),
                ) && old(self).internal_index() == without_id(final(self).internal_index(), id)
                    && old(self).rendering_index() == without_id(final(self).rendering_index(), id),
            },
            r matches Some(id) ==> forall|e: (i64, usize)|
                (#[trigger] final(self).internal_index().contains_key(e) && final(self).internal_index()[e] == id)
                    <==> exists|c: IVec2|
                    block_cells(block, internal_size_of(old(self).assets(), block)).contains(c) && e == (
                        point_key(c),
                        old(self).internal_next_slot(c),
                    ),
            r matches Some(id) ==> forall|e: (i64, usize)|
                (#[trigger] final(self).rendering_index().contains_key(e) && final(self).rendering_index()[e] == id)
                    <==> exists|c: IVec2| walk(rendering_cells).contains(c) && e == (
                    point_key(c),
                    old(self).rendering_next_slot(c),
                ),
    {
        let ghost assets = self.assets();
        let size = self.assets.block_specs[block.spec_id].internal_size;
        let rect = iaabb2(block.position, block.position.add(size));
        assert(rect == block_rect(block, size));
        if self.has_internal_by_rect(rect) {
            return None;
        }
        let ghost old_metas = block_slab_entries(self.block_metas);
        let ghost old_internal = self.internal_grid_index@;
        let ghost old_rendering = self.rendering_grid_index@;
        let ghost old_view = self@;
        let id = block_slab_vacant_key(&self.block_metas);
        let cells = rect.to_grid_space(INTERNAL_GRID_SIZE).points();
        proof {
            lemma_walk_no_duplicates(grid_rect(rect, 32));
            lemma_walk_no_duplicates(rendering_cells);
        }
        let ghost old_self = *self;
        let internal_refs = self.internal_grid_index.add_all(&cells, id);
        let drawn = rendering_cells.points();
        let rendering_refs = self.rendering_grid_index.add_all(&drawn, id);
        let meta = BlockMeta {
            block,
            rendering_cells,
            internal_grid_index_ref: internal_refs,
            rendering_grid_index_ref: rendering_refs,
        };
        block_slab_insert(&mut self.block_metas, meta);
        proof {
            let metas = block_slab_entries(self.block_metas);
            let internal = self.internal_grid_index@;
            let rendering = self.rendering_grid_index@;
            assert(metas == old_metas.insert(id, meta));
            assert(self.assets() == assets);
            assert forall|other: usize| #[trigger] metas.contains_key(other) implies {
                let m = metas[other];
                let sz = internal_size_of(assets, m.block);
                &&& m.block.spec_id < assets.block_specs@.len()
                &&& block_fits(m.block, sz, m.rendering_cells)
                &&& refs_match(m.internal_grid_index_ref@, block_cells(m.block, sz), internal, other)
                &&& refs_match(m.rendering_grid_index_ref@, walk(m.rendering_cells), rendering, other)
            } by {
                if other != id {
                    assert(old_metas.contains_key(other));
                    let m = old_metas[other];
                    assert(metas[other] == m);
                    let sz = internal_size_of(assets, m.block);
                    assert(refs_match(m.internal_grid_index_ref@, block_cells(m.block, sz), old_internal, other));
                    assert(refs_match(m.rendering_grid_index_ref@, walk(m.rendering_cells), old_rendering, other));
                    assert forall|j: int| 0 <= j < m.internal_grid_index_ref@.len() implies {
                        &&& (#[trigger] m.internal_grid_index_ref@[j]).0 == block_cells(m.block, sz)[j]
                        &&& internal.contains_key(ref_entry(m.internal_grid_index_ref@[j]))
                        &&& internal[ref_entry(m.internal_grid_index_ref@[j])] == other
                    } by {
                        assert(old_internal.contains_key(ref_entry(m.internal_grid_index_ref@[j])));
                    }
                    assert forall|j: int| 0 <= j < m.rendering_grid_index_ref@.len() implies {
                        &&& (#[trigger] m.rendering_grid_index_ref@[j]).0 == walk(m.rendering_cells)[j]
                        &&& rendering.contains_key(ref_entry(m.rendering_grid_index_ref@[j]))
                        &&& rendering[ref_entry(m.rendering_grid_index_ref@[j])] == other
                    } by {
                        assert(old_rendering.contains_key(ref_entry(m.rendering_grid_index_ref@[j])));
                    }
                } else {
                    assert(metas[id] == meta);
                    assert forall|j: int| 0 <= j < meta.internal_grid_index_ref@.len() implies internal.contains_key(
                        ref_entry(#[trigger] meta.internal_grid_index_ref@[j]),
                    ) by {
                        assert(refers_to(internal_refs@, ref_entry(internal_refs@[j])));
                    }
                    assert forall|j: int| 0 <= j < meta.rendering_grid_index_ref@.len() implies rendering.contains_key(
                        ref_entry(#[trigger] meta.rendering_grid_index_ref@[j]),
                    ) by {
                        assert(refers_to(rendering_refs@, ref_entry(rendering_refs@[j])));
                    }
                }
            }
            assert forall|e: (i64, usize)| #[trigger] internal.contains_key(e) implies metas.contains_key(internal[e])
                && refers_to(metas[internal[e]].internal_grid_index_ref@, e) by {
                if old_internal.contains_key(e) {
                    assert(internal[e] == old_internal[e]);
                    assert(old_metas.contains_key(old_internal[e]));
                    assert(old_internal[e] != id);
                } else {
                    let j = choose|j: int| 0 <= j < internal_refs@.len() && e == ref_entry(#[trigger] internal_refs@[j]);
                    assert(internal[e] == id);
                }
            }
            assert forall|e: (i64, usize)| #[trigger] rendering.contains_key(e) implies metas.contains_key(rendering[e])
                && refers_to(metas[rendering[e]].rendering_grid_index_ref@, e) by {
                if old_rendering.contains_key(e) {
                    assert(rendering[e] == old_rendering[e]);
                    assert(old_metas.contains_key(old_rendering[e]));
                    assert(old_rendering[e] != id);
                } else {
                    let j = choose|j: int| 0 <= j < rendering_refs@.len() && e == ref_entry(#[trigger] rendering_refs@[j]);
                    assert(rendering[e] == id);
                }
            }
            assert forall|e: (i64, usize)| #[trigger] without_id(internal, id).contains_key(e) <==> old_internal.contains_key(e) by {
                if old_internal.contains_key(e) {
                    assert(old_metas.contains_key(old_internal[e]));
                    assert(internal[e] == old_internal[e]);
                }
                if internal.contains_key(e) && internal[e] != id && !old_internal.contains_key(e) {
                    let j = choose|j: int| 0 <= j < internal_refs@.len() && e == ref_entry(#[trigger] internal_refs@[j]);
                }
            }
            assert(old_internal =~= without_id(internal, id));
            assert forall|e: (i64, usize)| #[trigger] without_id(rendering, id).contains_key(e) <==> old_rendering.contains_key(e) by {
                if old_rendering.contains_key(e) {
                    assert(old_metas.contains_key(old_rendering[e]));
                    assert(rendering[e] == old_rendering[e]);
                }
                if rendering.contains_key(e) && rendering[e] != id && !old_rendering.contains_key(e) {
                    let j = choose|j: int| 0 <= j < rendering_refs@.len() && e == ref_entry(#[trigger] rendering_refs@[j]);
                }
            }
            assert(old_rendering =~= without_id(rendering, id));
            assert forall|e: (i64, usize)|
                (#[trigger] internal.contains_key(e) && internal[e] == id) <==> exists|c: IVec2|
                    cells@.contains(c) && e == (point_key(c), old_self.internal_next_slot(c)) by {
                if internal.contains_key(e) && internal[e] == id {
                    if old_internal.contains_key(e) {
                        assert(old_metas.contains_key(old_internal[e]));
                    }
                    let j = choose|j: int| 0 <= j < internal_refs@.len() && e == ref_entry(#[trigger] internal_refs@[j]);
                    assert(cells@.contains(cells@[j]));
                }
                if exists|c: IVec2| cells@.contains(c) && e == (point_key(c), old_self.internal_next_slot(c)) {
                    let c = choose|c: IVec2| cells@.contains(c) && e == (point_key(c), old_self.internal_next_slot(c));
                    let j = choose|j: int| 0 <= j < cells@.len() && cells@[j] == c;
                    assert(ref_entry(internal_refs@[j]) == e);
                }
            }
            assert forall|e: (i64, usize)|
                (#[trigger] rendering.contains_key(e) && rendering[e] == id) <==> exists|c: IVec2|
                    drawn@.contains(c) && e == (point_key(c), old_self.rendering_next_slot(c)) by {
                if rendering.contains_key(e) && rendering[e] == id {
                    if old_rendering.contains_key(e) {
                        assert(old_metas.contains_key(old_rendering[e]));
                    }
                    let j = choose|j: int| 0 <= j < rendering_refs@.len() && e == ref_entry(#[trigger] rendering_refs@[j]);
                    assert(drawn@.contains(drawn@[j]));
                }
                if exists|c: IVec2| drawn@.contains(c) && e == (point_key(c), old_self.rendering_next_slot(c)) {
                    let c = choose|c: IVec2| drawn@.contains(c) && e == (point_key(c), old_self.rendering_next_slot(c));
                    let j = choose|j: int| 0 <= j < drawn@.len() && drawn@[j] == c;
                    assert(ref_entry(rendering_refs@[j]) == e);
                }
            }
            assert(self@ =~= old_view.insert(id, (block, rendering_cells)));
            let view = self@;
            assert forall|a: usize, b: usize|
                #![trigger view[a], view[b]]
                view.contains_key(a) && view.contains_key(b) && a != b implies {
                    let ra = block_rect(view[a].0, internal_size_of(assets, view[a].0));
                    let rb = block_rect(view[b].0, internal_size_of(assets, view[b].0));
                    !(box_nonempty(ra) && box_nonempty(rb) && boxes_intersect(ra, rb))
                } by {
                if a != id && b != id {
                    assert(view[a] == old_view[a] && view[b] == old_view[b]);
                } else if a == id {
                    assert(view[b] == old_view[b]);
                    assert(old_view.contains_key(b));
                    let rb = block_rect(old_view[b].0, internal_size_of(assets, old_view[b].0));
                    if box_nonempty(rect) && box_nonempty(rb) && boxes_intersect(rect, rb) {
                        assert(old_metas.contains_key(b) && old_metas[b].block == old_view[b].0);
                        lemma_meeting_block_found(rect, old_view[b].0, internal_size_of(assets, old_view[b].0));
                        assert(false);
                    }
                } else {
                    assert(view[a] == old_view[a]);
                    assert(old_view.contains_key(a));
                    let ra = block_rect(old_view[a].0, internal_size_of(assets, old_view[a].0));
                    if box_nonempty(rect) && box_nonempty(ra) && boxes_intersect(ra, rect) {
                        assert(old_metas.contains_key(a) && old_metas[a].block == old_view[a].0);
                        lemma_meeting_block_found(rect, old_view[a].0, internal_size_of(assets, old_view[a].0));
                        assert(false);
                    }
                }
            }
        }
        Some(id)
    }

    /// Removes the block with identifier `id` and returns it, if any.
    pub fn remove(&mut self, id: usize) -> (r: Option<Block>)
        requires
            old(self).wf(),
        ensures
            final(self).wf(),
            final(self).assets() == old(self).assets(),
            match old(self)@.get(id) {
                Some(e) => r == Some(e.0),
                None => r is None,
            },
            final(self)@ == old(self)@.remove(id),
            final(self).internal_index() == without_id(old(self).internal_index(), id),
            final(self).rendering_index() == without_id(old(self).rendering_index(), id),
    {
        let ghost assets = self.assets();
        let ghost old_metas = block_slab_entries(self.block_metas);
        let ghost old_internal = self.internal_grid_index@;
        let ghost old_rendering = self.rendering_grid_index@;
        let ghost old_view = self@;
        match block_slab_try_remove(&mut self.block_metas, id) {
            None => {
                assert(self@ =~= old_view.remove(id));
                assert forall|e: (i64, usize)| #[trigger] old_internal.contains_key(e) implies old_internal[e] != id by {
                    assert(old_metas.contains_key(old_internal[e]));
                }
                assert forall|e: (i64, usize)| #[trigger] old_rendering.contains_key(e) implies old_rendering[e] != id by {
                    assert(old_metas.contains_key(old_rendering[e]));
                }
                assert(old_internal =~= without_id(old_internal, id));
                assert(old_rendering =~= without_id(old_rendering, id));
                None
            },
            Some(meta) => {
                proof {
                    assert(old_metas.contains_key(id));
                    let sz = internal_size_of(assets, meta.block);
                    lemma_walk_no_duplicates(grid_rect(block_rect(meta.block, sz), 32));
                    lemma_walk_no_duplicates(meta.rendering_cells);
                    assert(refs_match(meta.internal_grid_index_ref@, block_cells(meta.block, sz), old_internal, id));
                    assert(refs_match(meta.rendering_grid_index_ref@, walk(meta.rendering_cells), old_rendering, id));
                    assert forall|j: int, k: int| 0 <= j < k < meta.internal_grid_index_ref@.len() implies (#[trigger] meta.internal_grid_index_ref@[j]).0
                        != (#[trigger] meta.internal_grid_index_ref@[k]).0 by {
                        assert(block_cells(meta.block, sz)[j] != block_cells(meta.block, sz)[k]);
                    }
                    assert forall|j: int, k: int| 0 <= j < k < meta.rendering_grid_index_ref@.len() implies (#[trigger] meta.rendering_grid_index_ref@[j]).0
                        != (#[trigger] meta.rendering_grid_index_ref@[k]).0 by {
                        assert(walk(meta.rendering_cells)[j] != walk(meta.rendering_cells)[k]);
                    }
                }
                self.internal_grid_index.remove_all(&meta.internal_grid_index_ref);
                self.rendering_grid_index.remove_all(&meta.rendering_grid_index_ref);
                proof {
                    let metas = block_slab_entries(self.block_metas);
                    let internal = self.internal_grid_index@;
                    let rendering = self.rendering_grid_index@;
                    assert(metas == old_metas.remove(id));
                    assert(self.assets() == assets);
                    assert forall|other: usize| #[trigger] metas.contains_key(other) implies {
                        let m = metas[other];
                        let sz = internal_size_of(assets, m.block);
                        &&& m.block.spec_id < assets.block_specs@.len()
                        &&& block_fits(m.block, sz, m.rendering_cells)
                        &&& refs_match(m.internal_grid_index_ref@, block_cells(m.block, sz), internal, other)
                        &&& refs_match(m.rendering_grid_index_ref@, walk(m.rendering_cells), rendering, other)
                    } by {
                        assert(old_metas.contains_key(other));
                        let m = old_metas[other];
                        let sz = internal_size_of(assets, m.block);
                        assert(refs_match(m.internal_grid_index_ref@, block_cells(m.block, sz), old_internal, other));
                        assert(refs_match(m.rendering_grid_index_ref@, walk(m.rendering_cells), old_rendering, other));
                        assert forall|j: int| 0 <= j < m.internal_grid_index_ref@.len() implies {
                            &&& (#[trigger] m.internal_grid_index_ref@[j]).0 == block_cells(m.block, sz)[j]
                            &&& internal.contains_key(ref_entry(m.internal_grid_index_ref@[j]))
                            &&& internal[ref_entry(m.internal_grid_index_ref@[j])] == other
                        } by {
                            let e = ref_entry(m.internal_grid_index_ref@[j]);
                            assert(old_internal.contains_key(e) && old_internal[e] == other);
                            if refers_to(meta.internal_grid_index_ref@, e) {
                                let k = choose|k: int| 0 <= k < meta.internal_grid_index_ref@.len() && e == ref_entry(#[trigger] meta.internal_grid_index_ref@[k]);
                                assert(old_internal[e] == id);
                            }
                        }
                        assert forall|j: int| 0 <= j < m.rendering_grid_index_ref@.len() implies {
                            &&& (#[trigger] m.rendering_grid_index_ref@[j]).0 == walk(m.rendering_cells)[j]
                            &&& rendering.contains_key(ref_entry(m.rendering_grid_index_ref@[j]))
                            &&& rendering[ref_entry(m.rendering_grid_index_ref@[j])] == other
                        } by {
                            let e = ref_entry(m.rendering_grid_index_ref@[j]);
                            assert(old_rendering.contains_key(e) && old_rendering[e] == other);
                            if refers_to(meta.rendering_grid_index_ref@, e) {
                                let k = choose|k: int| 0 <= k < meta.rendering_grid_index_ref@.len() && e == ref_entry(#[trigger] meta.rendering_grid_index_ref@[k]);
                                assert(old_rendering[e] == id);
                            }
                        }
                    }
                    assert forall|e: (i64, usize)| #[trigger] internal.contains_key(e) implies metas.contains_key(internal[e])
                        && refers_to(metas[internal[e]].internal_grid_index_ref@, e) by {
                        assert(old_internal.contains_key(e));
                        assert(internal[e] == old_internal[e]);
                        assert(old_metas.contains_key(old_internal[e]));
                        if old_internal[e] == id {
                            assert(refers_to(old_metas[id].internal_grid_index_ref@, e));
                        }
                    }
                    assert forall|e: (i64, usize)| #[trigger] rendering.contains_key(e) implies metas.contains_key(rendering[e])
                        && refers_to(metas[rendering[e]].rendering_grid_index_ref@, e) by {
                        assert(old_rendering.contains_key(e));
                        assert(rendering[e] == old_rendering[e]);
                        assert(old_metas.contains_key(old_rendering[e]));
                        if old_rendering[e] == id {
                            assert(refers_to(old_metas[id].rendering_grid_index_ref@, e));
                        }
                    }
                    assert(self@ =~= old_view.remove(id));
                    assert forall|e: (i64, usize)| #[trigger] without_id(old_internal, id).contains_key(e) <==> internal.contains_key(e) by {
                        if old_internal.contains_key(e) && old_internal[e] == id {
                            assert(refers_to(old_metas[id].internal_grid_index_ref@, e));
                        }
                        if old_internal.contains_key(e) && old_internal[e] != id && refers_to(meta.internal_grid_index_ref@, e) {
                            let k = choose|k: int| 0 <= k < meta.internal_grid_index_ref@.len() && e == ref_entry(#[trigger] meta.internal_grid_index_ref@[k]);
                        }
                    }
                    assert(internal =~= without_id(old_internal, id));
                    assert forall|e: (i64, usize)| #[trigger] without_id(old_rendering, id).contains_key(e) <==> rendering.contains_key(e) by {
                        if old_rendering.contains_key(e) && old_rendering[e] == id {
                            assert(refers_to(old_metas[id].rendering_grid_index_ref@, e));
                        }
                        if old_rendering.contains_key(e) && old_rendering[e] != id && refers_to(meta.rendering_grid_index_ref@, e) {
                            let k = choose|k: int| 0 <= k < meta.rendering_grid_index_ref@.len() && e == ref_entry(#[trigger] meta.rendering_grid_index_ref@[k]);
                        }
                    }
                    assert(rendering =~= without_id(old_rendering, id));
                    let view = self@;
                    assert forall|a: usize, b: usize|
                        #![trigger view[a], view[b]]
                        view.contains_key(a) && view.contains_key(b) && a != b implies {
                            let ra = block_rect(view[a].0, internal_size_of(assets, view[a].0));
                            let rb = block_rect(view[b].0, internal_size_of(assets, view[b].0));
                            !(box_nonempty(ra) && box_nonempty(rb) && boxes_intersect(ra, rb))
                        } by {
                        assert(view[a] == old_view[a] && view[b] == old_view[b]);
                    }
                }
                Some(meta.block)
            },
        }
    }

    /// Whether the search of [`BlockStorage::get_internal_by_rect`] finds a
    /// block.
    pub fn has_internal_by_rect(&self, rect: IAabb2) -> (r: bool)
        requires
            self.wf(),
            grid_rect_ok(rect, 32),
        ensures
            r == finds_block(self@, self.assets(), rect),
    {
        let found = self.get_internal_by_rect(rect);
        proof {
            if found@.len() > 0 {
                let (id, b) = found@[0];
                assert(self@.contains_key(id) && self@[id].0 == b);
            }
            if finds_block(self@, self.assets(), rect) {
                let id = choose|id: usize|
                    self@.contains_key(id) && found_by(
                        rect,
                        #[trigger] self@[id].0,
                        internal_size_of(self.assets(), self@[id].0),
                    );
                let i = choose|i: int| 0 <= i < found@.len() && #[trigger] found@[i].0 == id;
            }
        }
        found.len() > 0
    }
}

/// Removing the block that an insertion added gives back the storage as it
/// was: the same blocks, assets and index entries, so every search lists
/// what it listed before the insertion, in the same order.
pub proof fn lemma_insert_remove_keeps_searches(
    before: BlockStorage,
    inserted: BlockStorage,
    removed: BlockStorage,
    id: usize,
    entry: (Block, IAabb2),
)
    requires
        !before@.contains_key(id),
        inserted.assets() == before.assets(),
        inserted@ == before@.insert(id, entry),
        before.internal_index() == without_id(inserted.internal_index(), id),
        before.rendering_index() == without_id(inserted.rendering_index(), id),
        removed.assets() == inserted.assets(),
        removed@ == inserted@.remove(id),
        removed.internal_index() == without_id(inserted.internal_index(), id),
        removed.rendering_index() == without_id(inserted.rendering_index(), id),
    ensures
        removed@ == before@,
        removed.assets() == before.assets(),
        removed.internal_index() == before.internal_index(),
        removed.rendering_index() == before.rendering_index(),
        forall|rect: IAabb2|
            finds_block(removed@, removed.assets(), rect) == #[trigger] finds_block(before@, before.assets(), rect),
{
    assert(removed@ =~= before@);
}

} // verus!
