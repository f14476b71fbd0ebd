//! World generation: the first time a grid cell of `GENERATION_GRID_SIZE`
//! comes into view, every generation rule is applied to its positions.
//!
//! The random draws of the rules (whether a position gets something, and
//! the random height of a block) are made by the caller, position by
//! position, and handed over as [`Draw`]s.

use vstd::prelude::*;

use std::collections::HashSet;

use crate::aabb::grid::{grid_point, lemma_cell_square_iff_grid_point};
use crate::assets::GenerationSpec;
use crate::game_loop::base::{base_at, Base, BaseStorage};
use crate::game_loop::block::{block_fits, block_rect, finds_block, fits, internal_size_of, Block, BlockStorage};
use crate::aabb::iaabb2::{box_contains, boxes_intersect, height, rect, width, IAabb2};
use crate::assets::Assets;
use crate::vector::{in_i32, IVec2};

verus! {

broadcast use vstd::std_specs::hash::group_hash_axioms;

/// The side of the grid cells generated at once.
pub const GENERATION_GRID_SIZE: i32 = 32;

/// The number of points of `r` visited by [`product_points`].
pub open spec fn product_len(r: IAabb2) -> int {
    if width(r) > 0 && height(r) > 0 {
        width(r) * height(r)
    } else {
        0
    }
}

/// The `i`-th point of `r` in the generator's order: `x` varies slowest.
pub open spec fn product_point(r: IAabb2, i: int) -> IVec2 {
    IVec2::from_ints(r.min.x + i / height(r), r.min.y + i % height(r))
}

/// The points of `r` in the generator's order.
pub open spec fn product(r: IAabb2) -> Seq<IVec2> {
    Seq::new(product_len(r) as nat, |i: int| product_point(r, i))
}

proof fn lemma_div_mod_split(a: int, b: int, h: int)
    requires
        h > 0,
        a >= 0,
        0 <= b < h,
    ensures
        (a * h + b) / h == a,
        (a * h + b) % h == b,
{
    assert((a * h + b) / h == a && (a * h + b) % h == b) by (nonlinear_arith)
        requires
            h > 0,
            a >= 0,
            0 <= b < h,
    ;
}

/// Lists the points of `r`, `x` varying slowest.
pub fn product_points(r: IAabb2) -> (out: Vec<IVec2>)
    ensures
        out@ == product(r),
{
    let mut out: Vec<IVec2> = Vec::new();
    if r.max.x <= r.min.x || r.max.y <= r.min.y {
        assert(out@ =~= product(r));
        return out;
    }
    let ghost h = height(r);
    let mut x: i32 = r.min.x;
    while x < r.max.x
        invariant
            r.min.x <= x <= r.max.x,
            h == height(r),
            h > 0,
            out@.len() == (x - r.min.x) * h,
            forall|k: int| 0 <= k < out@.len() ==> #[trigger] out@[k] == product_point(r, k),
        decreases r.max.x - x,
    {
        let mut y: i32 = r.min.y;
        while y < r.max.y
            invariant
                r.min.x <= x < r.max.x,
                r.min.y <= y <= r.max.y,
                h == height(r),
                h > 0,
                out@.len() == (x - r.min.x) * h + (y - r.min.y),
                forall|k: int| 0 <= k < out@.len() ==> #[trigger] out@[k] == product_point(r, k),
            decreases r.max.y - y,
        {
            proof {
                lemma_div_mod_split(x - r.min.x, y - r.min.y, h);
            }
            out.push(IVec2 { x, y });
            y = y + 1;
        }
        proof {
            assert((x - r.min.x) * h + h == (x + 1 - r.min.x) * h) by (nonlinear_arith);
        }
        x = x + 1;
    }
    proof {
        assert(out@.len() == width(r) * h);
        assert(out@ =~= product(r));
    }
    out
}

/// The square of positions that the grid cell `cell` covers.
pub open spec fn cell_rect(cell: IVec2) -> IAabb2 {
    rect(cell.x * 32, cell.y * 32, (cell.x + 1) * 32, (cell.y + 1) * 32)
}

/// Whether the positions of the grid cell `cell` stay within `i32`, one past
/// its last position included.
pub open spec fn cell_ok(cell: IVec2) -> bool {
    &&& in_i32(cell.x * 32)
    &&& in_i32(cell.y * 32)
    &&& in_i32((cell.x + 1) * 32)
    &&& in_i32((cell.y + 1) * 32)
}

/// Lists the positions of the grid cell `cell`, `x` varying slowest.
pub fn cell_positions(cell: IVec2) -> (r: Vec<IVec2>)
    requires
        cell_ok(cell),
    ensures
        r@ == product(cell_rect(cell)),
        r@.len() == 1024,
        forall|i: int|
            0 <= i < r@.len() ==> grid_point(#[trigger] r@[i], 32) == cell && in_i32(r@[i].x + 1)
                && in_i32(r@[i].y + 1),
{
    let r = product_points(
        IAabb2 {
            min: IVec2 { x: cell.x * 32, y: cell.y * 32 },
            max: IVec2 { x: (cell.x + 1) * 32, y: (cell.y + 1) * 32 },
        },
    );
    proof {
        let cr = cell_rect(cell);
        assert(width(cr) == 32 && height(cr) == 32);
        assert forall|i: int| 0 <= i < r@.len() implies grid_point(#[trigger] r@[i], 32) == cell
            && in_i32(r@[i].x + 1) && in_i32(r@[i].y + 1) by {
            assert(0 <= i / 32 < 32 && 0 <= i % 32 < 32) by (nonlinear_arith)
                requires
                    0 <= i < 1024,
            ;
            assert(box_contains(cr, r@[i]));
            lemma_cell_square_iff_grid_point(cell, r@[i], 32);
        }
    }
    r
}

/// What the caller drew for one position of a random rule: nothing, or
/// something placed there (a block also gets its random height and the grid
/// cells it is drawn over).
#[derive(Clone, Copy, Debug, PartialEq, Eq)]
pub enum Draw {
    Skip,
    Place { z_random: u8, rendering_cells: IAabb2 },
}

/// The grid cells already generated, by cell.
pub struct GenerationSystem {
    grid_flags: HashSet<i64>,
}

impl View for GenerationSystem {
    type V = Set<IVec2>;

    closed spec fn view(&self) -> Set<IVec2> {
        Set::new(|c: IVec2| self.grid_flags@.contains(crate::game_loop::base::point_key(c)))
    }
}

/// The cells of `cells`, in the generator's order, that `generated` does
/// not hold.
pub open spec fn pending_cells(generated: Set<IVec2>, cells: IAabb2) -> Seq<IVec2> {
    product(cells).filter(|c: IVec2| !generated.contains(c))
}

impl GenerationSystem {
    /// A generator that has generated nothing.
    pub fn new() -> (r: GenerationSystem)
        ensures
            r@ == Set::<IVec2>::empty(),
    {
        let r = GenerationSystem { grid_flags: HashSet::new() };
        assert(r@ =~= Set::<IVec2>::empty());
        r
    }

    /// The cells of `cells` not generated yet, in the generator's order.
    pub fn pending(&self, cells: IAabb2) -> (r: Vec<IVec2>)
        ensures
            r@ == pending_cells(self@, cells),
    {
        let all = product_points(cells);
        let ghost pred = |c: IVec2| !self@.contains(c);
        let mut r: Vec<IVec2> = Vec::new();
        let mut i: usize = 0;
        while i < all.len()
            invariant
                i <= all.len(),
                all@ == product(cells),
                pred == (|c: IVec2| !self@.contains(c)),
                r@ == all@.subrange(0, i as int).filter(pred),
            decreases all.len() - i,
        {
            let c = all[i];
            proof {
                reveal(Seq::filter);
                assert(all@.subrange(0, i + 1).drop_last() == all@.subrange(0, i as int));
                assert(all@.subrange(0, i + 1).last() == c);
            }
            if !self.grid_flags.contains(&crate::game_loop::base::key_of(c)) {
                r.push(c);
            }
            i = i + 1;
        }
        assert(all@.subrange(0, all.len() as int) == all@);
        r
    }

    /// Records every cell of `cells` as generated.
    pub fn mark_generated(&mut self, cells: IAabb2)
        ensures
            final(self)@ == old(self)@.union(product(cells).to_set()),
    {
        let all = product_points(cells);
        let ghost start = self@;
        let mut i: usize = 0;
        while i < all.len()
            invariant
                i <= all.len(),
                all@ == product(cells),
                self@ == start.union(all@.subrange(0, i as int).to_set()),
            decreases all.len() - i,
        {
            let ghost before = self@;
            let c = all[i];
            self.grid_flags.insert(crate::game_loop::base::key_of(c));
            proof {
                assert forall|d: IVec2| self@.contains(d) <==> before.contains(d) || d == c by {
                    crate::game_loop::base::lemma_point_key_injective(c, d);
                }
                assert(self@ =~= before.insert(c));
                assert(all@.subrange(0, i + 1) == all@.subrange(0, i as int).push(c));
                all@.subrange(0, i as int).lemma_push_to_set_commute(c);
                assert(all@.subrange(0, i + 1).to_set() =~= all@.subrange(0, i as int).to_set().insert(c));
                assert(self@ =~= start.union(all@.subrange(0, i + 1).to_set()));
            }
            i = i + 1;
        }
        assert(all@.subrange(0, all.len() as int) == all@);
    }
}

/// Whether `b` keeps every entry of `a`.
pub open spec fn keeps<V>(a: Map<usize, V>, b: Map<usize, V>) -> bool {
    forall|id: usize| #[trigger] a.contains_key(id) ==> b.contains_key(id) && b[id] == a[id]
}

/// Whether every position of `positions` stays within `i32` one past it.
pub open spec fn positions_ok(positions: Seq<IVec2>) -> bool {
    forall|i: int| 0 <= i < positions.len() ==> in_i32((#[trigger] positions[i]).x + 1) && in_i32(positions[i].y + 1)
}

/// Whether every base of `new` that `old` lacks is of kind `spec_id` and
/// lies at one of `positions`.
pub open spec fn new_bases_from(old: Map<usize, Base>, new: Map<usize, Base>, spec_id: usize, positions: Seq<IVec2>) -> bool {
    forall|id: usize|
        #[trigger] new.contains_key(id) && !old.contains_key(id) ==> new[id].spec_id == spec_id
            && positions.contains(new[id].position)
}

proof fn lemma_base_at_kept(a: Map<usize, Base>, b: Map<usize, Base>, p: IVec2)
    requires
        keeps(a, b),
        base_at(a, p) is Some,
    ensures
        base_at(b, p) is Some,
{
    let id = choose|id: usize| a.contains_key(id) && a[id].position == p;
    assert(b.contains_key(id) && b[id].position == p);
}

/// Puts a base of kind `spec_id` at every free position of `positions`, in
/// order.
pub fn fill_bases(bases: &mut BaseStorage, positions: &Vec<IVec2>, spec_id: usize)
    requires
        old(bases).wf(),
        positions_ok(positions@),
    ensures
        final(bases).wf(),
        final(bases).assets() == old(bases).assets(),
        keeps(old(bases)@, final(bases)@),
        new_bases_from(old(bases)@, final(bases)@, spec_id, positions@),
        forall|i: int| 0 <= i < positions@.len() ==> base_at(final(bases)@, #[trigger] positions@[i]) is Some,
{
    let ghost start = bases@;
    let mut i: usize = 0;
    while i < positions.len()
        invariant
            i <= positions.len(),
            bases.wf(),
            bases.assets() == old(bases).assets(),
            start == old(bases)@,
            positions_ok(positions@),
            keeps(start, bases@),
            new_bases_from(start, bases@, spec_id, positions@),
            forall|j: int| 0 <= j < i ==> base_at(bases@, #[trigger] positions@[j]) is Some,
        decreases positions.len() - i,
    {
        let p = positions[i];
        let ghost before = bases@;
        let r = bases.insert(Base::new(spec_id, p));
        proof {
            assert(keeps(before, bases@));
            assert forall|j: int| 0 <= j < i + 1 implies base_at(bases@, #[trigger] positions@[j]) is Some by {
                if j < i {
                    lemma_base_at_kept(before, bases@, positions@[j]);
                } else {
                    match r {
                        Some(id) => {
                            assert(bases@.contains_key(id) && bases@[id].position == p);
                        },
                        None => {
                        },
                    }
                }
            }
            assert forall|id: usize| #[trigger] bases@.contains_key(id) && !start.contains_key(id) implies bases@[id].spec_id == spec_id
                && positions@.contains(bases@[id].position) by {
                if !before.contains_key(id) {
                    assert(positions@[i as int] == p);
                }
            }
        }
        i = i + 1;
    }
}

/// Whether every base of `new` that `old` lacks lies at a position of
/// `positions` whose draw places something.
pub open spec fn new_bases_drawn(old: Map<usize, Base>, new: Map<usize, Base>, positions: Seq<IVec2>, draws: Seq<Draw>) -> bool {
    forall|id: usize|
        #[trigger] new.contains_key(id) && !old.contains_key(id) ==> exists|j: int|
            0 <= j < positions.len() && positions[j] == new[id].position && (#[trigger] draws[j]) is Place
}

/// Puts a base of kind `spec_id` at every free position of `positions`
/// whose draw places something, in order.
pub fn scatter_bases(bases: &mut BaseStorage, positions: &Vec<IVec2>, spec_id: usize, draws: &Vec<Draw>)
    requires
        old(bases).wf(),
        positions_ok(positions@),
        draws@.len() == positions@.len(),
    ensures
        final(bases).wf(),
        final(bases).assets() == old(bases).assets(),
        keeps(old(bases)@, final(bases)@),
        new_bases_from(old(bases)@, final(bases)@, spec_id, positions@),
        new_bases_drawn(old(bases)@, final(bases)@, positions@, draws@),
        forall|i: int|
            0 <= i < positions@.len() && (#[trigger] draws@[i]) is Place ==> base_at(final(bases)@, positions@[i]) is Some,
{
    let ghost start = bases@;
    let mut i: usize = 0;
    while i < positions.len()
        invariant
            i <= positions.len(),
            draws@.len() == positions@.len(),
            bases.wf(),
            bases.assets() == old(bases).assets(),
            start == old(bases)@,
            positions_ok(positions@),
            keeps(start, bases@),
            new_bases_from(start, bases@, spec_id, positions@),
            new_bases_drawn(start, bases@, positions@, draws@),
            forall|j: int| 0 <= j < i && (#[trigger] draws@[j]) is Place ==> base_at(bases@, positions@[j]) is Some,
        decreases positions.len() - i,
    {
        let p = positions[i];
        let ghost before = bases@;
        if let Draw::Place { .. } = draws[i] {
            let r = bases.insert(Base::new(spec_id, p));
            proof {
                assert forall|j: int| 0 <= j < i + 1 && (#[trigger] draws@[j]) is Place implies base_at(bases@, positions@[j]) is Some by {
                    if j < i {
                        lemma_base_at_kept(before, bases@, positions@[j]);
                    } else {
                        match r {
                            Some(id) => {
                                assert(bases@.contains_key(id) && bases@[id].position == p);
                            },
                            None => {
                            },
                        }
                    }
                }
                assert forall|id: usize| #[trigger] bases@.contains_key(id) && !start.contains_key(id) implies bases@[id].spec_id == spec_id
                    && positions@.contains(bases@[id].position) by {
                    if !before.contains_key(id) {
                        assert(positions@[i as int] == p);
                    }
                }
                assert forall|id: usize| #[trigger] bases@.contains_key(id) && !start.contains_key(id) implies exists|j: int|
                    0 <= j < positions@.len() && positions@[j] == bases@[id].position && (#[trigger] draws@[j]) is Place by {
                    if !before.contains_key(id) {
                        assert(positions@[i as int] == p && draws@[i as int] is Place);
                    }
                }
            }
        }
        i = i + 1;
    }
}

/// Whether every block of `new` that `old` lacks is of kind `spec_id`, lies
/// at one of `positions`, and has the height and drawn cells drawn there.
pub open spec fn new_blocks_from(
    old: Map<usize, (Block, IAabb2)>,
    new: Map<usize, (Block, IAabb2)>,
    spec_id: usize,
    positions: Seq<IVec2>,
    draws: Seq<Draw>,
) -> bool {
    forall|id: usize|
        #[trigger] new.contains_key(id) && !old.contains_key(id) ==> new[id].0.spec_id == spec_id
            && exists|i: int|
            0 <= i < positions.len() && positions[i] == new[id].0.position && draws[i] == (Draw::Place {
                z_random: new[id].0.z_random,
                rendering_cells: new[id].1,
            })
}

/// Whether `blocks` holds the block `b` drawn over `rendering_cells`, or a
/// block that overlaps it.
pub open spec fn block_settled(
    blocks: Map<usize, (Block, IAabb2)>,
    assets: Assets,
    b: Block,
    rendering_cells: IAabb2,
) -> bool {
    exists|id: usize|
        #[trigger] blocks.contains_key(id) && (blocks[id] == (b, rendering_cells) || boxes_intersect(
            block_rect(b, internal_size_of(assets, b)),
            block_rect(blocks[id].0, internal_size_of(assets, blocks[id].0)),
        ))
}

/// Whether a drawn block of kind `spec_id` at `p` is settled in `blocks`:
/// when the draw places one that fits `i32`, a stored block is that block or
/// overlaps it.
pub open spec fn drawn_block_done(
    blocks: Map<usize, (Block, IAabb2)>,
    assets: Assets,
    spec_id: usize,
    p: IVec2,
    draw: Draw,
) -> bool {
    match draw {
        Draw::Place { z_random, rendering_cells } => {
            let b = Block { spec_id, position: p, z_random };
            block_fits(b, internal_size_of(assets, b), rendering_cells) ==> block_settled(
                blocks,
                assets,
                b,
                rendering_cells,
            )
        },
        Draw::Skip => true,
    }
}

proof fn lemma_drawn_block_kept(
    a: Map<usize, (Block, IAabb2)>,
    b: Map<usize, (Block, IAabb2)>,
    assets: Assets,
    spec_id: usize,
    p: IVec2,
    draw: Draw,
)
    requires
        keeps(a, b),
        drawn_block_done(a, assets, spec_id, p, draw),
    ensures
        drawn_block_done(b, assets, spec_id, p, draw),
{
    if let Draw::Place { z_random, rendering_cells } = draw {
        let bl = Block { spec_id, position: p, z_random };
        if block_fits(bl, internal_size_of(assets, bl), rendering_cells) {
            assert(block_settled(a, assets, bl, rendering_cells));
            let id = choose|id: usize|
                #[trigger] a.contains_key(id) && (a[id] == (bl, rendering_cells) || boxes_intersect(
                    block_rect(bl, internal_size_of(assets, bl)),
                    block_rect(a[id].0, internal_size_of(assets, a[id].0)),
                ));
            assert(b.contains_key(id) && b[id] == a[id]);
            assert(block_settled(b, assets, bl, rendering_cells));
        }
    }
}

/// Whether `after` is what [`BlockStorage::insert`] leaves of `before` for
/// the block `c` (with the cells it is drawn over), once tested to fit
/// `i32`: `before` with `c` under a new identifier when it fits and the
/// search over its rectangle finds no block; otherwise `before` unchanged.
pub open spec fn insert_step(
    before: Map<usize, (Block, IAabb2)>,
    after: Map<usize, (Block, IAabb2)>,
    assets: Assets,
    c: (Block, IAabb2),
) -> bool {
    let size = internal_size_of(assets, c.0);
    if block_fits(c.0, size, c.1) && !finds_block(before, assets, block_rect(c.0, size)) {
        exists|id: usize| !before.contains_key(id) && after == before.insert(id, c)
    } else {
        after == before
    }
}

/// Whether `after` is what one draw of a block of kind `spec_id` at `p`
/// leaves of `before`: nothing changes on a skip; a placed block is
/// inserted as [`insert_step`] says.
pub open spec fn draw_step(
    before: Map<usize, (Block, IAabb2)>,
    after: Map<usize, (Block, IAabb2)>,
    assets: Assets,
    spec_id: usize,
    p: IVec2,
    draw: Draw,
) -> bool {
    match draw {
        Draw::Skip => after == before,
        Draw::Place { z_random, rendering_cells } => insert_step(
            before,
            after,
            assets,
            (Block { spec_id, position: p, z_random }, rendering_cells),
        ),
    }
}

/// Whether `maps` are the stored blocks before each draw of `draws` at
/// `positions` and after the last one, each draw taken in turn.
pub open spec fn scatter_chain(
    maps: Seq<Map<usize, (Block, IAabb2)>>,
    assets: Assets,
    spec_id: usize,
    positions: Seq<IVec2>,
    draws: Seq<Draw>,
) -> bool {
    &&& maps.len() == positions.len() + 1
    &&& forall|i: int|
        #![trigger draws[i]]
        0 <= i < positions.len() ==> draw_step(maps[i], maps[i + 1], assets, spec_id, positions[i], draws[i])
}

/// Whether `after` is what taking the draws of blocks of kind `spec_id` at
/// `positions` in order, each inserted as [`BlockStorage::insert`] does,
/// leaves of `before`: so of two overlapping drawn blocks the earlier stays.
pub open spec fn blocks_scattered(
    before: Map<usize, (Block, IAabb2)>,
    after: Map<usize, (Block, IAabb2)>,
    assets: Assets,
    spec_id: usize,
    positions: Seq<IVec2>,
    draws: Seq<Draw>,
) -> bool {
    exists|maps: Seq<Map<usize, (Block, IAabb2)>>|
        #[trigger] scatter_chain(maps, assets, spec_id, positions, draws) && maps[0] == before && maps[positions.len()
            as int] == after
}

/// Puts a block of kind `spec_id` at every position of `positions` whose
/// draw places one, unless it would overlap a stored block, or its
/// rectangle or drawn cells would leave `i32`; in order.
pub fn scatter_blocks(blocks: &mut BlockStorage, positions: &Vec<IVec2>, spec_id: usize, draws: &Vec<Draw>)
    requires
        old(blocks).wf(),
        spec_id < old(blocks).assets().block_specs@.len(),
        draws@.len() == positions@.len(),
    ensures
        final(blocks).wf(),
        final(blocks).assets() == old(blocks).assets(),
        keeps(old(blocks)@, final(blocks)@),
        new_blocks_from(old(blocks)@, final(blocks)@, spec_id, positions@, draws@),
        forall|i: int|
            0 <= i < positions@.len() ==> drawn_block_done(
                final(blocks)@,
                old(blocks).assets(),
                spec_id,
                positions@[i],
                #[trigger] draws@[i],
            ),
        blocks_scattered(old(blocks)@, final(blocks)@, old(blocks).assets(), spec_id, positions@, draws@),
{
    let ghost start = blocks@;
    let ghost mut maps: Seq<Map<usize, (Block, IAabb2)>> = seq![blocks@];
    let mut i: usize = 0;
    while i < positions.len()
        invariant
            i <= positions.len(),
            draws@.len() == positions@.len(),
            blocks.wf(),
            blocks.assets() == old(blocks).assets(),
            spec_id < blocks.assets().block_specs@.len(),
            start == old(blocks)@,
            keeps(start, blocks@),
            new_blocks_from(start, blocks@, spec_id, positions@, draws@),
            forall|j: int|
                0 <= j < i ==> drawn_block_done(blocks@, blocks.assets(), spec_id, positions@[j], #[trigger] draws@[j]),
            maps.len() == i + 1,
            maps[0] == start,
            maps[i as int] == blocks@,
            forall|j: int|
                #![trigger draws@[j]]
                0 <= j < i ==> draw_step(maps[j], maps[j + 1], blocks.assets(), spec_id, positions@[j], draws@[j]),
        decreases positions.len() - i,
    {
        let p = positions[i];
        let ghost before = blocks@;
        proof {
            assert forall|j: int| 0 <= j < i implies drawn_block_done(blocks@, blocks.assets(), spec_id, positions@[j], #[trigger] draws@[j]) by {}
        }
        if let Draw::Place { z_random, rendering_cells } = draws[i] {
            let block = Block::new(spec_id, p, z_random);
            let size = blocks.kind_size(spec_id);
            if fits(block, size, rendering_cells) {
                let r = blocks.insert(block, rendering_cells);
                proof {
                    let assets = blocks.assets();
                    assert forall|j: int| 0 <= j < i + 1 implies drawn_block_done(blocks@, assets, spec_id, positions@[j], #[trigger] draws@[j]) by {
                        if j < i {
                            lemma_drawn_block_kept(before, blocks@, assets, spec_id, positions@[j], draws@[j]);
                        } else {
                            assert(draws@[j] == (Draw::Place { z_random, rendering_cells }));
                            match r {
                                Some(id) => {
                                    assert(blocks@.contains_key(id) && blocks@[id] == (block, rendering_cells));
                                    assert(block_settled(blocks@, assets, block, rendering_cells));
                                },
                                None => {
                                    let oid = choose|oid: usize|
                                        before.contains_key(oid) && boxes_intersect(
                                            block_rect(block, internal_size_of(assets, block)),
                                            block_rect(#[trigger] before[oid].0, internal_size_of(assets, before[oid].0)),
                                        );
                                    assert(blocks@.contains_key(oid) && blocks@[oid] == before[oid]);
                                    assert(block_settled(blocks@, assets, block, rendering_cells));
                                },
                            }
                        }
                    }
                }
                proof {
                    assert forall|id: usize| #[trigger] blocks@.contains_key(id) && !start.contains_key(id) implies blocks@[id].0.spec_id == spec_id
                        && exists|k: int|
                        0 <= k < positions@.len() && positions@[k] == blocks@[id].0.position && draws@[k] == (Draw::Place {
                            z_random: blocks@[id].0.z_random,
                            rendering_cells: blocks@[id].1,
                        }) by {
                        if !before.contains_key(id) {
                            assert(positions@[i as int] == p);
                            assert(draws@[i as int] == (Draw::Place { z_random, rendering_cells }));
                        }
                    }
                }
            } else {
                proof {
                    assert(drawn_block_done(blocks@, blocks.assets(), spec_id, positions@[i as int], draws@[i as int]));
                }
            }
        }
        proof {
            assert(draw_step(before, blocks@, blocks.assets(), spec_id, positions@[i as int], draws@[i as int]));
            maps = maps.push(blocks@);
            assert forall|j: int|
                #![trigger draws@[j]]
                0 <= j < i + 1 implies draw_step(maps[j], maps[j + 1], blocks.assets(), spec_id, positions@[j], draws@[j]) by {
            }
        }
        i = i + 1;
    }
    assert(scatter_chain(maps, blocks.assets(), spec_id, positions@, draws@));
}

proof fn lemma_filter_within<A>(s: Seq<A>, pred: spec_fn(A) -> bool, i: int)
    requires
        0 <= i < s.filter(pred).len(),
    ensures
        s.contains(s.filter(pred)[i]),
    decreases s.len(),
{
    reveal(Seq::filter);
    if s.len() > 0 {
        let sub = s.drop_last().filter(pred);
        if i < sub.len() {
            lemma_filter_within(s.drop_last(), pred, i);
            assert(s.filter(pred)[i] == sub[i]);
            let j = choose|j: int| 0 <= j < s.drop_last().len() && s.drop_last()[j] == sub[i];
            assert(s[j] == sub[i]);
        } else {
            assert(s[s.len() - 1] == s.filter(pred)[i]);
        }
    }
}

proof fn lemma_filter_no_duplicates<A>(s: Seq<A>, pred: spec_fn(A) -> bool)
    requires
        s.no_duplicates(),
    ensures
        s.filter(pred).no_duplicates(),
    decreases s.len(),
{
    reveal(Seq::filter);
    if s.len() > 0 {
        let d = s.drop_last();
        assert forall|i: int, j: int| 0 <= i < d.len() && 0 <= j < d.len() && i != j implies d[i] != d[j] by {
            assert(d[i] == s[i] && d[j] == s[j]);
        }
        lemma_filter_no_duplicates(d, pred);
        let sub = d.filter(pred);
        if pred(s.last()) {
            assert forall|i: int| 0 <= i < sub.len() implies sub[i] != s.last() by {
                lemma_filter_within(d, pred, i);
                let j = choose|j: int| 0 <= j < d.len() && d[j] == sub[i];
                assert(s[j] == sub[i]);
            }
            assert(s.filter(pred) == sub.push(s.last()));
        } else {
            assert(s.filter(pred) == sub);
        }
    }
}

/// The points of a box, in the generator's order, are all distinct.
proof fn lemma_product_no_duplicates(r: IAabb2)
    ensures
        product(r).no_duplicates(),
{
    let (w, h) = (width(r), height(r));
    assert forall|i: int, j: int|
        0 <= i < product(r).len() && 0 <= j < product(r).len() && i != j implies product(r)[i] != product(r)[j] by {
        assert(w > 0 && h > 0);
        assert(0 <= i / h < w && 0 <= i % h < h && 0 <= j / h < w && 0 <= j % h < h) by (nonlinear_arith)
            requires
                h > 0,
                0 <= i < w * h,
                0 <= j < w * h,
        ;
        assert(i / h != j / h || i % h != j % h) by (nonlinear_arith)
            requires
                h > 0,
                i != j,
        {
            vstd::arithmetic::div_mod::lemma_fundamental_div_mod(i, h);
            vstd::arithmetic::div_mod::lemma_fundamental_div_mod(j, h);
        }
    }
}

/// The `i`-th position of a cell lies in that cell, with its coordinates
/// one past it within `i32`.
proof fn lemma_cell_point(cell: IVec2, i: int)
    requires
        cell_ok(cell),
        0 <= i < 1024,
    ensures
        product(cell_rect(cell)).len() == 1024,
        grid_point(product(cell_rect(cell))[i], 32) == cell,
        in_i32(product(cell_rect(cell))[i].x + 1),
        in_i32(product(cell_rect(cell))[i].y + 1),
{
    let cr = cell_rect(cell);
    assert(width(cr) == 32 && height(cr) == 32);
    assert(0 <= i / 32 < 32 && 0 <= i % 32 < 32) by (nonlinear_arith)
        requires
            0 <= i < 1024,
    ;
    assert(product(cr)[i] == product_point(cr, i));
    assert(box_contains(cr, product(cr)[i]));
    lemma_cell_square_iff_grid_point(cell, product(cr)[i], 32);
}

/// A cell of a box of cells whose positions fit `i32` has its own positions
/// within `i32`.
proof fn lemma_cell_of_cells_ok(cells: IAabb2, cell: IVec2)
    requires
        cells_ok(cells),
        product(cells).contains(cell),
    ensures
        cell_ok(cell),
{
    let c = choose|c: int| 0 <= c < product(cells).len() && product(cells)[c] == cell;
    let h = height(cells);
    assert(0 <= c / h < width(cells) && 0 <= c % h < h) by (nonlinear_arith)
        requires
            0 <= c < width(cells) * h,
            h > 0,
    ;
}

/// A base at `p` in `a` stays the base at `p` in `b`, which keeps `a` and
/// has no two bases at one position.
proof fn lemma_base_at_same(a: Map<usize, Base>, b: Map<usize, Base>, p: IVec2, id: usize)
    requires
        keeps(a, b),
        crate::game_loop::base::positions_unique(b),
        base_at(a, p) == Some(id),
    ensures
        base_at(b, p) == Some(id),
{
    assert(a.contains_key(id) && a[id].position == p);
    assert(b.contains_key(id) && b[id].position == p);
    let other = choose|x: usize| b.contains_key(x) && b[x].position == p;
    assert(b[other].position == b[id].position);
}

/// What `b`, which keeps `a`, holds at `p` when none of its new bases lies
/// there: what `a` holds.
proof fn lemma_base_at_unchanged(a: Map<usize, Base>, b: Map<usize, Base>, p: IVec2)
    requires
        keeps(a, b),
        crate::game_loop::base::positions_unique(b),
        forall|id: usize| #[trigger] b.contains_key(id) && !a.contains_key(id) ==> b[id].position != p,
    ensures
        base_at(b, p) == base_at(a, p),
{
    match base_at(a, p) {
        Some(id) => lemma_base_at_same(a, b, p, id),
        None => {
            if exists|x: usize| b.contains_key(x) && b[x].position == p {
                let x = choose|x: usize| b.contains_key(x) && b[x].position == p;
                assert(!a.contains_key(x));
            }
        },
    }
}

proof fn lemma_base_generated_kept(
    before: Map<usize, Base>,
    a: Map<usize, Base>,
    b: Map<usize, Base>,
    rules: Seq<GenerationSpec>,
    draws: Seq<Vec<Draw>>,
    i: int,
    n: int,
    p: IVec2,
)
    requires
        base_generated(before, a, rules, draws, i, n, p),
        keeps(a, b),
        base_at(b, p) == base_at(a, p),
    ensures
        base_generated(before, b, rules, draws, i, n, p),
{
    if let Some(id) = base_at(a, p) {
        assert(a.contains_key(id));
    }
}

/// One more rule applied to the positions `positions` of a cell keeps
/// [`base_generated`] at position `i`.
proof fn lemma_rule_step_bases(
    start: Map<usize, Base>,
    before: Map<usize, Base>,
    after: Map<usize, Base>,
    rules: Seq<GenerationSpec>,
    draws: Seq<Vec<Draw>>,
    s: int,
    positions: Seq<IVec2>,
    i: int,
)
    requires
        0 <= s < rules.len(),
        0 <= i < positions.len(),
        positions.no_duplicates(),
        keeps(before, after),
        crate::game_loop::base::positions_unique(after),
        base_generated(start, before, rules, draws, i, s, positions[i]),
        match rules[s] {
            GenerationSpec::FillBase { base_spec_id, .. } => new_bases_from(before, after, base_spec_id, positions)
                && base_at(after, positions[i]) is Some,
            GenerationSpec::RandomBase { base_spec_id, .. } => new_bases_from(before, after, base_spec_id, positions)
                && new_bases_drawn(before, after, positions, draws[s]@) && (draws[s]@[i] is Place ==> base_at(
                after,
                positions[i],
            ) is Some),
            GenerationSpec::RandomBlock { .. } => after == before,
        },
    ensures
        base_generated(start, after, rules, draws, i, s + 1, positions[i]),
{
    let p = positions[i];
    match base_at(start, p) {
        Some(id) => {
            lemma_base_at_same(before, after, p, id);
        },
        None => {
            match first_base_rule(rules, draws, i, s) {
                Some(t) => {
                    let id = base_at(before, p)->Some_0;
                    lemma_base_at_same(before, after, p, id);
                    assert(before.contains_key(id));
                },
                None => {
                    assert(base_at(before, p) is None);
                    if places_base(rules[s], draws[s]@[i]) {
                        let id = base_at(after, p)->Some_0;
                        assert(after.contains_key(id) && after[id].position == p);
                        assert(!before.contains_key(id));
                    } else if exists|x: usize| after.contains_key(x) && after[x].position == p {
                        let x = choose|x: usize| after.contains_key(x) && after[x].position == p;
                        assert(!before.contains_key(x));
                        if rules[s] is RandomBase {
                            let j = choose|j: int|
                                0 <= j < positions.len() && positions[j] == after[x].position && (#[trigger] draws[s]@[j]) is Place;
                            assert(positions[j] == positions[i]);
                        }
                    }
                },
            }
        },
    }
}

/// Whether every grid cell of `cells` has its positions within `i32`, one
/// past the last included.
pub open spec fn cells_ok(cells: IAabb2) -> bool {
    width(cells) > 0 && height(cells) > 0 ==> {
        &&& in_i32(cells.min.x * 32)
        &&& in_i32(cells.min.y * 32)
        &&& in_i32(cells.max.x * 32)
        &&& in_i32(cells.max.y * 32)
    }
}

/// Whether every block rule of `rules` names a kind among `kinds`.
pub open spec fn rules_ok(rules: Seq<GenerationSpec>, kinds: nat) -> bool {
    forall|s: int|
        0 <= s < rules.len() ==> match #[trigger] rules[s] {
            GenerationSpec::RandomBlock { block_spec_id, .. } => block_spec_id < kinds,
            _ => true,
        }
}

/// Whether a rule draws at random.
pub open spec fn is_random(rule: GenerationSpec) -> bool {
    rule is RandomBase || rule is RandomBlock
}

/// Whether `draws` holds, for each of `cells` pending cells and each rule,
/// one draw per position of the cell for the random rules.
pub open spec fn draws_ok(draws: Seq<Vec<Vec<Draw>>>, cells: int, rules: Seq<GenerationSpec>) -> bool {
    &&& draws.len() == cells
    &&& forall|k: int| 0 <= k < cells ==> (#[trigger] draws[k])@.len() == rules.len()
    &&& forall|k: int, s: int|
        0 <= k < cells && 0 <= s < rules.len() && is_random(rules[s]) ==> (#[trigger] draws[k]@[s])@.len()
            == 1024
}

/// Whether some rule of `rules` of the base kind `spec_id` places bases.
pub open spec fn base_rule(rules: Seq<GenerationSpec>, spec_id: usize) -> bool {
    exists|s: int|
        0 <= s < rules.len() && match #[trigger] rules[s] {
            GenerationSpec::FillBase { base_spec_id, .. } => base_spec_id == spec_id,
            GenerationSpec::RandomBase { base_spec_id, .. } => base_spec_id == spec_id,
            _ => false,
        }
}

/// Whether some rule of `rules` of the block kind `spec_id` places blocks.
pub open spec fn block_rule(rules: Seq<GenerationSpec>, spec_id: usize) -> bool {
    exists|s: int|
        0 <= s < rules.len() && match #[trigger] rules[s] {
            GenerationSpec::RandomBlock { block_spec_id, .. } => block_spec_id == spec_id,
            _ => false,
        }
}

/// Whether `rule` puts a base at a free position whose draw is `draw`: a
/// fill rule always, a random base rule when the draw places one.
pub open spec fn places_base(rule: GenerationSpec, draw: Draw) -> bool {
    match rule {
        GenerationSpec::FillBase { .. } => true,
        GenerationSpec::RandomBase { .. } => draw is Place,
        GenerationSpec::RandomBlock { .. } => false,
    }
}

/// The kind of base that a base rule puts.
pub open spec fn base_kind(rule: GenerationSpec) -> usize {
    match rule {
        GenerationSpec::FillBase { base_spec_id, .. } => base_spec_id,
        GenerationSpec::RandomBase { base_spec_id, .. } => base_spec_id,
        GenerationSpec::RandomBlock { .. } => 0,
    }
}

/// The first of the rules `rules[0..n]` that puts a base at position `i` of
/// a cell whose draws, rule by rule, are `draws`.
pub open spec fn first_base_rule(rules: Seq<GenerationSpec>, draws: Seq<Vec<Draw>>, i: int, n: int) -> Option<int>
    decreases n,
{
    if n <= 0 {
        None
    } else {
        match first_base_rule(rules, draws, i, n - 1) {
            Some(t) => Some(t),
            None => if places_base(rules[n - 1], draws[n - 1]@[i]) {
                Some(n - 1)
            } else {
                None
            },
        }
    }
}

/// Whether `after` holds at `p`, position `i` of a cell, what generating
/// the cell with the rules `rules[0..n]` over `before` leaves there: the
/// base that was there, else a base of the kind of the first rule that puts
/// one there, else none.
pub open spec fn base_generated(
    before: Map<usize, Base>,
    after: Map<usize, Base>,
    rules: Seq<GenerationSpec>,
    draws: Seq<Vec<Draw>>,
    i: int,
    n: int,
    p: IVec2,
) -> bool {
    match base_at(before, p) {
        Some(id) => base_at(after, p) == Some(id),
        None => match first_base_rule(rules, draws, i, n) {
            Some(t) => match base_at(after, p) {
                Some(id) => after[id].spec_id == base_kind(rules[t]),
                None => false,
            },
            None => base_at(after, p) is None,
        },
    }
}

/// Whether the block `entry` (with the cells it is drawn over) was drawn by
/// a random block rule of its kind at its position, in one of the first `n`
/// of `cells`, with its height and drawn cells.
pub open spec fn drawn_by_rules(
    rules: Seq<GenerationSpec>,
    draws: Seq<Vec<Vec<Draw>>>,
    cells: Seq<IVec2>,
    n: int,
    entry: (Block, IAabb2),
) -> bool {
    exists|k: int, s: int, i: int|
        #![trigger draws[k]@[s]@[i]]
        0 <= k < n && 0 <= s < rules.len() && 0 <= i < 1024 && rules[s] is RandomBlock
            && rules[s]->RandomBlock_block_spec_id == entry.0.spec_id && product(cell_rect(cells[k]))[i] == entry.0.position && draws[k]@[s]@[i] == (Draw::Place {
            z_random: entry.0.z_random,
            rendering_cells: entry.1,
        })
}

/// Whether `after` is what the rule `rule` leaves of the stored blocks
/// `before` in the grid cell `cell`, whose draws for that rule are `draws`:
/// a block rule scatters its drawn blocks as [`blocks_scattered`] says;
/// other rules put no block.
pub open spec fn rule_blocks_step(
    before: Map<usize, (Block, IAabb2)>,
    after: Map<usize, (Block, IAabb2)>,
    assets: Assets,
    rule: GenerationSpec,
    draws: Seq<Draw>,
    cell: IVec2,
) -> bool {
    match rule {
        GenerationSpec::RandomBlock { block_spec_id, .. } => blocks_scattered(
            before,
            after,
            assets,
            block_spec_id,
            product(cell_rect(cell)),
            draws,
        ),
        _ => after == before,
    }
}

/// Whether `maps` are the stored blocks before each of the first `n` rules
/// of `rules` and after the last of them, as the rules are applied in turn
/// to `cell`.
pub open spec fn rules_chain(
    maps: Seq<Map<usize, (Block, IAabb2)>>,
    assets: Assets,
    rules: Seq<GenerationSpec>,
    draws: Seq<Vec<Draw>>,
    cell: IVec2,
    n: int,
) -> bool {
    &&& maps.len() == n + 1
    &&& forall|s: int|
        #![trigger rules[s]]
        0 <= s < n ==> rule_blocks_step(maps[s], maps[s + 1], assets, rules[s], draws[s]@, cell)
}

/// Whether `maps` are the stored blocks before the generation of each of
/// the first `n` of `cells` and after the last of them, the cells taken in
/// turn, and `rule_maps[k]` those of the `k`-th cell before each rule and
/// after the last one, the rules taken in turn.
pub open spec fn cells_chain(
    maps: Seq<Map<usize, (Block, IAabb2)>>,
    rule_maps: Seq<Seq<Map<usize, (Block, IAabb2)>>>,
    assets: Assets,
    rules: Seq<GenerationSpec>,
    draws: Seq<Vec<Vec<Draw>>>,
    cells: Seq<IVec2>,
    n: int,
) -> bool {
    &&& maps.len() == n + 1
    &&& rule_maps.len() == n
    &&& forall|k: int|
        #![trigger cells[k]]
        0 <= k < n ==> rules_chain(rule_maps[k], assets, rules, draws[k]@, cells[k], rules.len() as int)
            && rule_maps[k][0] == maps[k] && rule_maps[k][rules.len() as int] == maps[k + 1]
}

/// Whether `after` is what generating `cells` in turn, each with the rules
/// in turn, each rule with its draws in position order, leaves of the
/// stored blocks `before`: every drawn block is inserted as
/// [`BlockStorage::insert`] does, so of two overlapping drawn blocks the
/// one drawn first stays.
pub open spec fn blocks_generated(
    before: Map<usize, (Block, IAabb2)>,
    after: Map<usize, (Block, IAabb2)>,
    assets: Assets,
    rules: Seq<GenerationSpec>,
    draws: Seq<Vec<Vec<Draw>>>,
    cells: Seq<IVec2>,
) -> bool {
    exists|maps: Seq<Map<usize, (Block, IAabb2)>>, rule_maps: Seq<Seq<Map<usize, (Block, IAabb2)>>>|
        #[trigger] cells_chain(maps, rule_maps, assets, rules, draws, cells, cells.len() as int) && maps[0]
            == before && maps[cells.len() as int] == after
}

/// Whether rule `s` has done its work at position `i` of the `k`-th of
/// `cells`: a fill rule left a base there; a random base rule, when its draw
/// places one; a random block rule, when its draw places one that fits
/// `i32`, left that block or one that overlaps it.
pub open spec fn rule_done(
    bases: Map<usize, Base>,
    blocks: Map<usize, (Block, IAabb2)>,
    assets: Assets,
    rules: Seq<GenerationSpec>,
    draws: Seq<Vec<Vec<Draw>>>,
    cells: Seq<IVec2>,
    k: int,
    s: int,
    i: int,
) -> bool {
    let p = product(cell_rect(cells[k]))[i];
    match rules[s] {
        GenerationSpec::FillBase { .. } => base_at(bases, p) is Some,
        GenerationSpec::RandomBase { .. } => draws[k]@[s]@[i] is Place ==> base_at(bases, p) is Some,
        GenerationSpec::RandomBlock { block_spec_id, .. } => drawn_block_done(
            blocks,
            assets,
            block_spec_id,
            p,
            draws[k]@[s]@[i],
        ),
    }
}

proof fn lemma_rule_done_kept(
    bases_a: Map<usize, Base>,
    bases_b: Map<usize, Base>,
    blocks_a: Map<usize, (Block, IAabb2)>,
    blocks_b: Map<usize, (Block, IAabb2)>,
    assets: Assets,
    rules: Seq<GenerationSpec>,
    draws: Seq<Vec<Vec<Draw>>>,
    cells: Seq<IVec2>,
    k: int,
    s: int,
    i: int,
)
    requires
        keeps(bases_a, bases_b),
        keeps(blocks_a, blocks_b),
        rule_done(bases_a, blocks_a, assets, rules, draws, cells, k, s, i),
    ensures
        rule_done(bases_b, blocks_b, assets, rules, draws, cells, k, s, i),
{
    let p = product(cell_rect(cells[k]))[i];
    match rules[s] {
        GenerationSpec::FillBase { .. } => {
            lemma_base_at_kept(bases_a, bases_b, p);
        },
        GenerationSpec::RandomBase { .. } => {
            if draws[k]@[s]@[i] is Place {
                lemma_base_at_kept(bases_a, bases_b, p);
            }
        },
        GenerationSpec::RandomBlock { block_spec_id, .. } => {
            lemma_drawn_block_kept(blocks_a, blocks_b, assets, block_spec_id, p, draws[k]@[s]@[i]);
        },
    }
}

impl GenerationSystem {
    /// Generates every cell of `cells` not generated yet: for each such cell
    /// in order, each rule in order puts bases or blocks at the cell's
    /// positions (a fill rule at every free position, a random rule where the
    /// caller's draw for that cell, rule and position places something); then
    /// records every cell of `cells` as generated. So a free position gets
    /// the base of the first rule that puts one there, or none, and a new
    /// block stands only where a block rule of its kind drew it.
    ///
    /// A block is put only where it overlaps no stored block and its
    /// rectangle and drawn cells stay within `i32`.
    pub fn generate(
        &mut self,
        cells: IAabb2,
        rules: &Vec<GenerationSpec>,
        bases: &mut BaseStorage,
        blocks: &mut BlockStorage,
        draws: &Vec<Vec<Vec<Draw>>>,
    )
        requires
            cells_ok(cells),
            old(bases).wf(),
            old(blocks).wf(),
            rules_ok(rules@, old(blocks).assets().block_specs@.len()),
            draws_ok(draws@, pending_cells(old(self)@, cells).len() as int, rules@),
        ensures
            final(self)@ == old(self)@.union(product(cells).to_set()),
            final(bases).wf(),
            final(bases).assets() == old(bases).assets(),
            final(blocks).wf(),
            final(blocks).assets() == old(blocks).assets(),
            keeps(old(bases)@, final(bases)@),
            keeps(old(blocks)@, final(blocks)@),
            forall|id: usize|
                #[trigger] final(bases)@.contains_key(id) && !old(bases)@.contains_key(id) ==> base_rule(
                    rules@,
                    final(bases)@[id].spec_id,
                ) && pending_cells(old(self)@, cells).contains(grid_point(final(bases)@[id].position, 32)),
            forall|id: usize|
                #[trigger] final(blocks)@.contains_key(id) && !old(blocks)@.contains_key(id) ==> block_rule(
                    rules@,
                    final(blocks)@[id].0.spec_id,
                ) && pending_cells(old(self)@, cells).contains(grid_point(final(blocks)@[id].0.position, 32)),
            forall|k: int, s: int, i: int|
                0 <= k < pending_cells(old(self)@, cells).len() && 0 <= s < rules@.len() && 0 <= i < 1024
                    ==> #[trigger] rule_done(
                    final(bases)@,
                    final(blocks)@,
                    old(blocks).assets(),
                    rules@,
                    draws@,
                    pending_cells(old(self)@, cells),
                    k,
                    s,
                    i,
                ),
            forall|k: int, i: int|
                0 <= k < pending_cells(old(self)@, cells).len() && 0 <= i < 1024 ==> #[trigger] base_generated(
                    old(bases)@,
                    final(bases)@,
                    rules@,
                    draws@[k]@,
                    i,
                    rules@.len() as int,
                    product(cell_rect(pending_cells(old(self)@, cells)[k]))[i],
                ),
            forall|id: usize|
                #[trigger] final(blocks)@.contains_key(id) && !old(blocks)@.contains_key(id) ==> drawn_by_rules(
                    rules@,
                    draws@,
                    pending_cells(old(self)@, cells),
                    pending_cells(old(self)@, cells).len() as int,
                    final(blocks)@[id],
                ),
            blocks_generated(
                old(blocks)@,
                final(blocks)@,
                old(blocks).assets(),
                rules@,
                draws@,
                pending_cells(old(self)@, cells),
            ),
    {
        let pending = self.pending(cells);
        let ghost gen_cells = pending@;
        proof {
            assert forall|j: int| 0 <= j < gen_cells.len() implies product(cells).contains(#[trigger] gen_cells[j]) by {
                lemma_filter_within(product(cells), |c: IVec2| !self@.contains(c), j);
            }
            lemma_product_no_duplicates(cells);
            lemma_filter_no_duplicates(product(cells), |c: IVec2| !self@.contains(c));
        }
        let ghost start_bases = bases@;
        let ghost start_blocks = blocks@;
        let ghost assets = blocks.assets();
        let ghost mut cell_maps: Seq<Map<usize, (Block, IAabb2)>> = seq![blocks@];
        let ghost mut cell_rule_maps: Seq<Seq<Map<usize, (Block, IAabb2)>>> = Seq::empty();
        let mut k: usize = 0;
        while k < pending.len()
            invariant
                k <= pending.len(),
                gen_cells == pending@,
                cells_ok(cells),
                forall|j: int| 0 <= j < gen_cells.len() ==> product(cells).contains(#[trigger] gen_cells[j]),
                bases.wf(),
                blocks.wf(),
                bases.assets() == old(bases).assets(),
                blocks.assets() == assets,
                rules_ok(rules@, blocks.assets().block_specs@.len()),
                draws_ok(draws@, gen_cells.len() as int, rules@),
                start_bases == old(bases)@,
                start_blocks == old(blocks)@,
                keeps(start_bases, bases@),
                keeps(start_blocks, blocks@),
                forall|id: usize|
                    #[trigger] bases@.contains_key(id) && !start_bases.contains_key(id) ==> base_rule(rules@, bases@[id].spec_id)
                        && gen_cells.contains(grid_point(bases@[id].position, 32)),
                forall|id: usize|
                    #[trigger] blocks@.contains_key(id) && !start_blocks.contains_key(id) ==> block_rule(rules@, blocks@[id].0.spec_id)
                        && gen_cells.contains(grid_point(blocks@[id].0.position, 32)),
                forall|kk: int, s: int, i: int|
                    0 <= kk < k && 0 <= s < rules@.len() && 0 <= i < 1024 ==> #[trigger] rule_done(
                        bases@,
                        blocks@,
                        assets,
                        rules@,
                        draws@,
                        gen_cells,
                        kk,
                        s,
                        i,
                    ),
                gen_cells.no_duplicates(),
                forall|id: usize|
                    #[trigger] bases@.contains_key(id) && !start_bases.contains_key(id) ==> exists|kk: int|
                        0 <= kk < k && gen_cells[kk] == grid_point(bases@[id].position, 32),
                forall|id: usize|
                    #[trigger] blocks@.contains_key(id) && !start_blocks.contains_key(id) ==> drawn_by_rules(
                        rules@,
                        draws@,
                        gen_cells,
                        k as int,
                        blocks@[id],
                    ),
                forall|kk: int, i: int|
                    0 <= kk < k && 0 <= i < 1024 ==> #[trigger] base_generated(
                        start_bases,
                        bases@,
                        rules@,
                        draws@[kk]@,
                        i,
                        rules@.len() as int,
                        product(cell_rect(gen_cells[kk]))[i],
                    ),
                cells_chain(cell_maps, cell_rule_maps, assets, rules@, draws@, gen_cells, k as int),
                cell_maps[0] == start_blocks,
                cell_maps[k as int] == blocks@,
            decreases pending.len() - k,
        {
            let cell = pending[k];
            proof {
                assert(product(cells).contains(cell));
                let c = choose|c: int| 0 <= c < product(cells).len() && product(cells)[c] == cell;
                let h = height(cells);
                assert(0 <= c / h < width(cells) && 0 <= c % h < h) by (nonlinear_arith)
                    requires
                        0 <= c < width(cells) * h,
                        h > 0,
                ;
            }
            let positions = cell_positions(cell);
            let ghost cell_start_bases = bases@;
            let ghost cell_start_blocks = blocks@;
            let ghost mut rule_maps: Seq<Map<usize, (Block, IAabb2)>> = seq![blocks@];
            proof {
                lemma_product_no_duplicates(cell_rect(cell));
                bases.lemma_positions_unique();
                assert forall|i: int| 0 <= i < 1024 implies #[trigger] base_generated(
                    start_bases,
                    bases@,
                    rules@,
                    draws@[k as int]@,
                    i,
                    0,
                    positions@[i],
                ) by {
                    let p = positions@[i];
                    assert(grid_point(p, 32) == cell);
                    assert forall|id: usize| #[trigger] bases@.contains_key(id) && !start_bases.contains_key(id) implies bases@[id].position != p by {
                        let kk = choose|kk: int| 0 <= kk < k && gen_cells[kk] == grid_point(bases@[id].position, 32);
                        assert(gen_cells[kk] != gen_cells[k as int]);
                    }
                    lemma_base_at_unchanged(start_bases, bases@, p);
                }
            }
            let mut s: usize = 0;
            while s < rules.len()
                invariant
                    s <= rules.len(),
                    k < pending.len(),
                    gen_cells == pending@,
                    cell == gen_cells[k as int],
                    positions@ == product(cell_rect(cell)),
                    positions@.len() == 1024,
                    forall|i: int| 0 <= i < positions@.len() ==> grid_point(#[trigger] positions@[i], 32) == cell
                        && in_i32(positions@[i].x + 1) && in_i32(positions@[i].y + 1),
                    bases.wf(),
                    blocks.wf(),
                    bases.assets() == old(bases).assets(),
                    blocks.assets() == assets,
                    rules_ok(rules@, blocks.assets().block_specs@.len()),
                    draws_ok(draws@, gen_cells.len() as int, rules@),
                    start_bases == old(bases)@,
                    start_blocks == old(blocks)@,
                    keeps(start_bases, bases@),
                    keeps(start_blocks, blocks@),
                    keeps(cell_start_bases, bases@),
                    keeps(cell_start_blocks, blocks@),
                    forall|id: usize|
                        #[trigger] bases@.contains_key(id) && !start_bases.contains_key(id) ==> base_rule(rules@, bases@[id].spec_id)
                            && gen_cells.contains(grid_point(bases@[id].position, 32)),
                    forall|id: usize|
                        #[trigger] blocks@.contains_key(id) && !start_blocks.contains_key(id) ==> block_rule(rules@, blocks@[id].0.spec_id)
                            && gen_cells.contains(grid_point(blocks@[id].0.position, 32)),
                    forall|kk: int, t: int, i: int|
                        0 <= kk < k && 0 <= t < rules@.len() && 0 <= i < 1024 ==> #[trigger] rule_done(
                            cell_start_bases,
                            cell_start_blocks,
                            assets,
                            rules@,
                            draws@,
                            gen_cells,
                            kk,
                            t,
                            i,
                        ),
                    forall|t: int, i: int|
                        0 <= t < s && 0 <= i < 1024 ==> #[trigger] rule_done(
                            bases@,
                            blocks@,
                            assets,
                            rules@,
                            draws@,
                            gen_cells,
                            k as int,
                            t,
                            i,
                        ),
                    gen_cells.no_duplicates(),
                    positions@.no_duplicates(),
                    forall|id: usize|
                        #[trigger] cell_start_bases.contains_key(id) && !start_bases.contains_key(id) ==> exists|kk: int|
                            0 <= kk < k && gen_cells[kk] == grid_point(cell_start_bases[id].position, 32),
                    forall|id: usize|
                        #[trigger] bases@.contains_key(id) && !cell_start_bases.contains_key(id) ==> grid_point(
                            bases@[id].position,
                            32,
                        ) == cell,
                    forall|id: usize|
                        #[trigger] blocks@.contains_key(id) && !start_blocks.contains_key(id) ==> drawn_by_rules(
                            rules@,
                            draws@,
                            gen_cells,
                            k + 1,
                            blocks@[id],
                        ),
                    forall|kk: int, i: int|
                        0 <= kk < k && 0 <= i < 1024 ==> #[trigger] base_generated(
                            start_bases,
                            cell_start_bases,
                            rules@,
                            draws@[kk]@,
                            i,
                            rules@.len() as int,
                            product(cell_rect(gen_cells[kk]))[i],
                        ),
                    forall|i: int|
                        0 <= i < 1024 ==> #[trigger] base_generated(
                            start_bases,
                            bases@,
                            rules@,
                            draws@[k as int]@,
                            i,
                            s as int,
                            positions@[i],
                        ),
                    cells_chain(cell_maps, cell_rule_maps, assets, rules@, draws@, gen_cells, k as int),
                    cell_maps[0] == start_blocks,
                    cell_maps[k as int] == cell_start_blocks,
                    rules_chain(rule_maps, assets, rules@, draws@[k as int]@, cell, s as int),
                    rule_maps[0] == cell_start_blocks,
                    rule_maps[s as int] == blocks@,
                decreases rules.len() - s,
            {
                let ghost before_bases = bases@;
                let ghost before_blocks = blocks@;
                proof {
                    assert(positions_ok(positions@));
                    assert(gen_cells.contains(cell));
                }
                match &rules[s] {
                    GenerationSpec::FillBase { base_spec_id, .. } => {
                        fill_bases(bases, &positions, *base_spec_id);
                        proof {
                            assert forall|id: usize|
                                #[trigger] bases@.contains_key(id) && !start_bases.contains_key(id) implies base_rule(rules@, bases@[id].spec_id)
                                    && gen_cells.contains(grid_point(bases@[id].position, 32)) by {
                                if !before_bases.contains_key(id) {
                                    let i = choose|i: int| 0 <= i < positions@.len() && positions@[i] == bases@[id].position;
                                    assert(grid_point(positions@[i], 32) == cell);
                                    assert(rules@[s as int] is FillBase);
                                }
                            }
                            assert forall|id: usize| #[trigger] bases@.contains_key(id) && !cell_start_bases.contains_key(id) implies grid_point(
                                bases@[id].position,
                                32,
                            ) == cell by {
                                if !before_bases.contains_key(id) {
                                    let i = choose|i: int| 0 <= i < positions@.len() && positions@[i] == bases@[id].position;
                                }
                            }
                        }
                    },
                    GenerationSpec::RandomBase { base_spec_id, .. } => {
                        scatter_bases(bases, &positions, *base_spec_id, &draws[k][s]);
                        proof {
                            assert forall|id: usize| #[trigger] bases@.contains_key(id) && !cell_start_bases.contains_key(id) implies grid_point(
                                bases@[id].position,
                                32,
                            ) == cell by {
                                if !before_bases.contains_key(id) {
                                    let i = choose|i: int| 0 <= i < positions@.len() && positions@[i] == bases@[id].position;
                                }
                            }
                            assert forall|id: usize|
                                #[trigger] bases@.contains_key(id) && !start_bases.contains_key(id) implies base_rule(rules@, bases@[id].spec_id)
                                    && gen_cells.contains(grid_point(bases@[id].position, 32)) by {
                                if !before_bases.contains_key(id) {
                                    let i = choose|i: int| 0 <= i < positions@.len() && positions@[i] == bases@[id].position;
                                    assert(grid_point(positions@[i], 32) == cell);
                                }
                            }
                        }
                    },
                    GenerationSpec::RandomBlock { block_spec_id, .. } => {
                        scatter_blocks(blocks, &positions, *block_spec_id, &draws[k][s]);
                        proof {
                            assert forall|id: usize| #[trigger] blocks@.contains_key(id) && !start_blocks.contains_key(id) implies drawn_by_rules(
                                rules@,
                                draws@,
                                gen_cells,
                                k + 1,
                                blocks@[id],
                            ) by {
                                if !before_blocks.contains_key(id) {
                                    let j = choose|j: int|
                                        0 <= j < positions@.len() && positions@[j] == blocks@[id].0.position && draws@[k as int]@[s as int]@[j] == (Draw::Place {
                                            z_random: blocks@[id].0.z_random,
                                            rendering_cells: blocks@[id].1,
                                        });
                                    assert(product(cell_rect(gen_cells[k as int]))[j] == positions@[j]);
                                    assert(draws@[k as int]@[s as int]@[j] == (Draw::Place {
                                        z_random: blocks@[id].0.z_random,
                                        rendering_cells: blocks@[id].1,
                                    }));
                                }
                            }
                            assert forall|id: usize|
                                #[trigger] blocks@.contains_key(id) && !start_blocks.contains_key(id) implies block_rule(rules@, blocks@[id].0.spec_id)
                                    && gen_cells.contains(grid_point(blocks@[id].0.position, 32)) by {
                                if !before_blocks.contains_key(id) {
                                    let i = choose|i: int| 0 <= i < positions@.len() && positions@[i] == blocks@[id].0.position;
                                    assert(grid_point(positions@[i], 32) == cell);
                                }
                            }
                        }
                    },
                }
                proof {
                    assert(rule_blocks_step(before_blocks, blocks@, assets, rules@[s as int], draws@[k as int]@[s as int]@, cell));
                    let old_rule_maps = rule_maps;
                    rule_maps = rule_maps.push(blocks@);
                    assert forall|t: int|
                        #![trigger rules@[t]]
                        0 <= t < s + 1 implies rule_blocks_step(
                        rule_maps[t],
                        rule_maps[t + 1],
                        assets,
                        rules@[t],
                        draws@[k as int]@[t]@,
                        cell,
                    ) by {
                        if t < s {
                            assert(rule_maps[t] == old_rule_maps[t] && rule_maps[t + 1] == old_rule_maps[t + 1]);
                        }
                    }
                    assert(rules_chain(rule_maps, assets, rules@, draws@[k as int]@, cell, s + 1));
                    bases.lemma_positions_unique();
                    assert forall|i: int| 0 <= i < 1024 implies #[trigger] base_generated(
                        start_bases,
                        bases@,
                        rules@,
                        draws@[k as int]@,
                        i,
                        s + 1,
                        positions@[i],
                    ) by {
                        lemma_rule_step_bases(start_bases, before_bases, bases@, rules@, draws@[k as int]@, s as int, positions@, i);
                    }
                    assert forall|t: int, i: int| 0 <= t < s + 1 && 0 <= i < 1024 implies #[trigger] rule_done(
                        bases@,
                        blocks@,
                        assets,
                        rules@,
                        draws@,
                        gen_cells,
                        k as int,
                        t,
                        i,
                    ) by {
                        assert(product(cell_rect(gen_cells[k as int]))[i] == positions@[i]);
                        if t < s {
                            lemma_rule_done_kept(before_bases, bases@, before_blocks, blocks@, assets, rules@, draws@, gen_cells, k as int, t, i);
                        }
                    }
                }
                s = s + 1;
            }
            proof {
                assert forall|kk: int, t: int, i: int|
                    0 <= kk < k + 1 && 0 <= t < rules@.len() && 0 <= i < 1024 implies #[trigger] rule_done(
                    bases@,
                    blocks@,
                    assets,
                    rules@,
                    draws@,
                    gen_cells,
                    kk,
                    t,
                    i,
                ) by {
                    if kk < k {
                        lemma_rule_done_kept(cell_start_bases, bases@, cell_start_blocks, blocks@, assets, rules@, draws@, gen_cells, kk, t, i);
                    }
                }
                bases.lemma_positions_unique();
                assert forall|kk: int, i: int| 0 <= kk < k + 1 && 0 <= i < 1024 implies #[trigger] base_generated(
                    start_bases,
                    bases@,
                    rules@,
                    draws@[kk]@,
                    i,
                    rules@.len() as int,
                    product(cell_rect(gen_cells[kk]))[i],
                ) by {
                    if kk < k {
                        let p = product(cell_rect(gen_cells[kk]))[i];
                        assert(product(cells).contains(gen_cells[kk]));
                        lemma_cell_of_cells_ok(cells, gen_cells[kk]);
                        lemma_cell_point(gen_cells[kk], i);
                        assert(gen_cells[kk] != gen_cells[k as int]);
                        assert forall|id: usize| #[trigger] bases@.contains_key(id) && !cell_start_bases.contains_key(id) implies bases@[id].position != p by {
                        }
                        lemma_base_at_unchanged(cell_start_bases, bases@, p);
                        lemma_base_generated_kept(start_bases, cell_start_bases, bases@, rules@, draws@[kk]@, i, rules@.len() as int, p);
                    } else {
                        assert(product(cell_rect(gen_cells[kk]))[i] == positions@[i]);
                    }
                }
                assert(rules_chain(rule_maps, assets, rules@, draws@[k as int]@, gen_cells[k as int], rules@.len() as int));
                let old_cell_maps = cell_maps;
                let old_cell_rule_maps = cell_rule_maps;
                cell_maps = cell_maps.push(blocks@);
                cell_rule_maps = cell_rule_maps.push(rule_maps);
                assert forall|kk: int|
                    #![trigger gen_cells[kk]]
                    0 <= kk < k + 1 implies rules_chain(cell_rule_maps[kk], assets, rules@, draws@[kk]@, gen_cells[kk], rules@.len() as int)
                        && cell_rule_maps[kk][0] == cell_maps[kk] && cell_rule_maps[kk][rules@.len() as int] == cell_maps[kk + 1] by {
                    if kk < k {
                        assert(cell_maps[kk] == old_cell_maps[kk] && cell_maps[kk + 1] == old_cell_maps[kk + 1]);
                        assert(cell_rule_maps[kk] == old_cell_rule_maps[kk]);
                    }
                }
                assert(cells_chain(cell_maps, cell_rule_maps, assets, rules@, draws@, gen_cells, k + 1));
                assert forall|id: usize| #[trigger] bases@.contains_key(id) && !start_bases.contains_key(id) implies exists|kk: int|
                    0 <= kk < k + 1 && gen_cells[kk] == grid_point(bases@[id].position, 32) by {
                    if !cell_start_bases.contains_key(id) {
                        assert(gen_cells[k as int] == grid_point(bases@[id].position, 32));
                    } else {
                        assert(bases@[id] == cell_start_bases[id]);
                    }
                }
            }
            k = k + 1;
        }
        proof {
            assert(cells_chain(cell_maps, cell_rule_maps, assets, rules@, draws@, gen_cells, gen_cells.len() as int));
        }
        self.mark_generated(cells);
    }
}

/// Once every cell of `cells` is generated, none of them is pending: a
/// second generation of the same cells puts nothing.
pub proof fn lemma_generated_cells_not_pending(generated: Set<IVec2>, cells: IAabb2)
    requires
        product(cells).to_set().subset_of(generated),
    ensures
        pending_cells(generated, cells).len() == 0,
{
    let pred = |c: IVec2| !generated.contains(c);
    if pending_cells(generated, cells).len() > 0 {
        product(cells).lemma_filter_pred(pred, 0);
        lemma_filter_within(product(cells), pred, 0);
        let c = pending_cells(generated, cells)[0];
        assert(product(cells).to_set().contains(c));
    }
}

/// Generating marks every cell of `cells`, so generating the same cells
/// again finds none pending.
pub proof fn lemma_generate_once(before: Set<IVec2>, after: Set<IVec2>, cells: IAabb2)
    requires
        after == before.union(product(cells).to_set()),
    ensures
        pending_cells(after, cells).len() == 0,
{
    lemma_generated_cells_not_pending(after, cells);
}

/// When no cell is pending, a generation that keeps every stored base and
/// adds bases only in pending cells leaves the bases as they were.
pub proof fn lemma_no_pending_no_new_bases(old: Map<usize, Base>, new: Map<usize, Base>, pending: Seq<IVec2>)
    requires
        pending.len() == 0,
        keeps(old, new),
        forall|id: usize|
            #[trigger] new.contains_key(id) && !old.contains_key(id) ==> pending.contains(
                grid_point(new[id].position, 32),
            ),
    ensures
        new == old,
{
    assert forall|id: usize| new.contains_key(id) implies old.contains_key(id) by {
        if !old.contains_key(id) {
            assert(pending.contains(grid_point(new[id].position, 32)));
        }
    }
    assert(new =~= old);
}

/// When no cell is pending, a generation that keeps every stored block and
/// adds blocks only in pending cells leaves the blocks as they were.
pub proof fn lemma_no_pending_no_new_blocks(
    old: Map<usize, (Block, IAabb2)>,
    new: Map<usize, (Block, IAabb2)>,
    pending: Seq<IVec2>,
)
    requires
        pending.len() == 0,
        keeps(old, new),
        forall|id: usize|
            #[trigger] new.contains_key(id) && !old.contains_key(id) ==> pending.contains(
                grid_point(new[id].0.position, 32),
            ),
    ensures
        new == old,
{
    assert forall|id: usize| new.contains_key(id) implies old.contains_key(id) by {
        if !old.contains_key(id) {
            assert(pending.contains(grid_point(new[id].0.position, 32)));
        }
    }
    assert(new =~= old);
}

/// After a generation, a fill rule has put a base at every position of each
/// cell that was pending.
pub proof fn lemma_fill_rule_covers_cell(
    bases: Map<usize, Base>,
    blocks: Map<usize, (Block, IAabb2)>,
    assets: Assets,
    rules: Seq<GenerationSpec>,
    draws: Seq<Vec<Vec<Draw>>>,
    cells: Seq<IVec2>,
    k: int,
    s: int,
    p: IVec2,
)
    requires
        0 <= k < cells.len(),
        0 <= s < rules.len(),
        rules[s] is FillBase,
        cell_ok(cells[k]),
        box_contains(cell_rect(cells[k]), p),
        forall|i: int| 0 <= i < 1024 ==> #[trigger] rule_done(bases, blocks, assets, rules, draws, cells, k, s, i),
    ensures
        base_at(bases, p) is Some,
{
    let r = cell_rect(cells[k]);
    assert(width(r) == 32 && height(r) == 32) by (nonlinear_arith)
        requires
            r == cell_rect(cells[k]),
            cell_ok(cells[k]),
    ;
    let a = p.x - r.min.x;
    let b = p.y - r.min.y;
    let i = a * 32 + b;
    lemma_div_mod_split(a, b, 32);
    assert(product_len(r) == 1024);
    assert(0 <= i < 1024);
    assert(product(r)[i] == product_point(r, i));
    assert(product(r)[i] == p);
    assert(rule_done(bases, blocks, assets, rules, draws, cells, k, s, i));
}

} // verus!
