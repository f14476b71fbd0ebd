//! Layout of texture atlases: on which page and where each texture goes, and
//! the texture coordinates that a renderer samples it at.
//!
//! The placement itself is computed by the `rectangle_pack` crate; the pages
//! are drawn with the `image` crate by the program that uses the layout.

use vstd::prelude::*;

use vstd::arithmetic::power2::{lemma2_to64, lemma_pow2_strictly_increases, lemma_pow2_unfold, pow2};

use std::collections::BTreeMap;

use rectangle_pack::{
    contains_smallest_box, pack_rects, volume_heuristic, GroupedRectsToPlace, RectToInsert,
    RectanglePackError, TargetBin,
};

verus! {

#[verifier::external_type_specification]
#[verifier::external_body]
pub struct ExRectanglePackError(RectanglePackError);

/// A way of mip generation: none at all (`NoLeak`), mip levels down to one
/// pixel with `padding` pixels around each texture, or mip levels down to one
/// pixel per block with textures aligned on blocks.
#[derive(Clone, Copy, Debug, PartialEq, Eq)]
pub enum AtlasLeakOption {
    NoLeak,
    Padding(u32),
    Block(u32),
}

/// A way of texture wrapping.
#[derive(Clone, Copy, Debug, PartialEq, Eq)]
pub enum AtlasEntryLeakOption {
    Single,
    Repeat,
}

/// A texture coordinate, in pixels of a page of side `size`.
#[derive(Clone, Copy, Debug, PartialEq, Eq)]
pub struct Texcoord {
    pub page: u32,
    pub min_x: u32,
    pub min_y: u32,
    pub max_x: u32,
    pub max_y: u32,
    pub size: u32,
}

impl Default for Texcoord {
    fn default() -> (r: Texcoord)
        ensures
            r == (Texcoord { page: 0, min_x: 0, min_y: 0, max_x: 0, max_y: 0, size: 0 }),
    {
        Texcoord { page: 0, min_x: 0, min_y: 0, max_x: 0, max_y: 0, size: 0 }
    }
}

/// Why the rectangles could not be packed.
#[derive(Clone, Copy, Debug, PartialEq, Eq)]
pub enum PackError {
    /// The rectangles can't be placed into the pages.
    NotEnoughBinSpace,
}

/// Why an atlas could not be laid out.
#[derive(Clone, Copy, Debug, PartialEq, Eq)]
pub enum AtlasError {
    ZeroPageCount,
    InvalidSize(u32),
    InvalidBlockSize(u32),
    ZeroEntryCount,
    Packing(PackError),
}

/// Where every texture of an atlas goes.
///
/// `texcoords[i]` belongs to the `i`-th entry. The texture, grown by
/// `padding` on each side, is drawn with its corner at
/// `(min_x - padding, min_y - padding)` of its page.
#[derive(Clone, Debug)]
pub struct AtlasLayout {
    pub page_count: u32,
    pub size: u32,
    pub mip_level_count: u32,
    pub padding: u32,
    pub texcoords: Vec<Texcoord>,
}

/// Whether `n` is a power of two.
pub open spec fn is_power_of_two(n: int) -> bool {
    exists|k: nat| pow2(k) == n
}

/// Where `rectangle_pack` places boxes of the given `(width, height,
/// depth)` in one bin of the given `(width, height, depth)`: the corner
/// `(x, y, z)` of each box, by index, or `None` when they do not all fit.
pub uninterp spec fn packed_layout(sizes: Seq<(u32, u32, u32)>, bin: (u32, u32, u32)) -> Option<
    Seq<(u32, u32, u32)>,
>;

/// Whether a box of `size` with its corner at `loc` lies within `bin`.
pub open spec fn fits_in_bin(loc: (u32, u32, u32), size: (u32, u32, u32), bin: (u32, u32, u32)) -> bool {
    &&& loc.0 + size.0 <= bin.0
    &&& loc.1 + size.1 <= bin.1
    &&& loc.2 + size.2 <= bin.2
}

/// Whether every box of `sizes` placed at its location of `locs` lies within
/// `bin`.
pub open spec fn all_fit(locs: Seq<(u32, u32, u32)>, sizes: Seq<(u32, u32, u32)>, bin: (u32, u32, u32)) -> bool {
    &&& locs.len() == sizes.len()
    &&& forall|i: int| 0 <= i < locs.len() ==> fits_in_bin(#[trigger] locs[i], sizes[i], bin)
}

/// Whether the box of `sa` at `a` and the box of `sb` at `b` share no point:
/// they lie apart along `x`, `y` or `z`.
pub open spec fn boxes_apart(a: (u32, u32, u32), sa: (u32, u32, u32), b: (u32, u32, u32), sb: (u32, u32, u32)) -> bool {
    ||| a.0 + sa.0 <= b.0
    ||| b.0 + sb.0 <= a.0
    ||| a.1 + sa.1 <= b.1
    ||| b.1 + sb.1 <= a.1
    ||| a.2 + sa.2 <= b.2
    ||| b.2 + sb.2 <= a.2
}

/// Whether a box of `size` holds a point: no side is zero.
pub open spec fn box_size_nonempty(size: (u32, u32, u32)) -> bool {
    size.0 > 0 && size.1 > 0 && size.2 > 0
}

/// Whether no two non-empty boxes of `sizes` placed at `locs` overlap.
pub open spec fn no_overlap(locs: Seq<(u32, u32, u32)>, sizes: Seq<(u32, u32, u32)>) -> bool {
    forall|i: int, j: int|
        0 <= i < locs.len() && 0 <= j < locs.len() && i != j && box_size_nonempty(sizes[i])
            && box_size_nonempty(sizes[j]) ==> boxes_apart(
            #[trigger] locs[i],
            sizes[i],
            #[trigger] locs[j],
            sizes[j],
        )
}

/// `rectangle_pack::pack_rects`: places the boxes `sizes` (box `i` under
/// the identifier `i`) in one bin of side `bin`, and lists the corner of
/// each by index.
///
/// Claimed of the crate's source: the result depends on the sizes and the bin
/// alone (its sorts are stable and its maps ordered); a success places every
/// box (the crate documents that the packed locations hold every incoming
/// rectangle) and lists them in identifier order (its map of locations is a
/// `BTreeMap`, as the hash map it names instead needs a `std` cfg flag that
/// cargo does not set); and every box lies within the bin, as the bin's free
/// sections are cut from the bin and a box is placed only at the corner of a
/// section it does not exceed; and no two non-empty boxes overlap, as each
/// placement takes the corner of a free section and splits the rest of that
/// section into three new sections that do not overlap it or each other, and
/// free sections never overlap placed boxes. Which corner each box gets is left
/// to the name [`packed_layout`].
#[verifier::external_body]
fn pack_layout(sizes: &Vec<(u32, u32, u32)>, bin: (u32, u32, u32)) -> (r: Result<
    Vec<(u32, u32, u32)>,
    RectanglePackError,
>)
    ensures
        match r {
            Ok(locs) => packed_layout(sizes@, bin) == Some(locs@) && all_fit(locs@, sizes@, bin)
                && no_overlap(locs@, sizes@),
            Err(_) => packed_layout(sizes@, bin) is None,
        },
{
    let mut rects = GroupedRectsToPlace::<usize, ()>::new();
    for (i, &(w, h, d)) in sizes.iter().enumerate() {
        rects.push_rect(i, None, RectToInsert::new(w, h, d));
    }
    let mut bins = BTreeMap::new();
    bins.insert((), TargetBin::new(bin.0, bin.1, bin.2));
    let packed = pack_rects(&rects, &mut bins, &volume_heuristic, &contains_smallest_box)?;
    Ok(packed.packed_locations().values().map(|(_, l)| (l.x(), l.y(), l.z())).collect())
}

/// The exponent `k` with `2^k == n`, or `None` when `n` is not a power of
/// two.
pub fn power_of_two_exponent(n: u32) -> (r: Option<u32>)
    ensures
        match r {
            Some(k) => pow2(k as nat) == n,
            None => !is_power_of_two(n as int),
        },
{
    proof {
        lemma2_to64();
    }
    let mut k: u32 = 0;
    let mut p: u64 = 1;
    while p < n as u64
        invariant
            p == pow2(k as nat),
            k <= 32,
            forall|j: nat| j < k ==> pow2(j) < n,
            pow2(0) == 1,
            pow2(32) == 0x1_0000_0000,
        decreases 32 - k,
    {
        proof {
            if k >= 32 {
                if k > 32 {
                    lemma_pow2_strictly_increases(32, k as nat);
                }
                assert(false);
            }
            lemma_pow2_unfold((k + 1) as nat);
        }
        p = p * 2;
        k = k + 1;
    }
    if p == n as u64 {
        Some(k)
    } else {
        proof {
            assert forall|j: nat| pow2(j) != n by {
                if j > k {
                    lemma_pow2_strictly_increases(k as nat, j);
                }
            }
        }
        None
    }
}

/// One more than the largest page that `locs` uses (`0` for no location).
pub open spec fn pages_used(locs: Seq<(u32, u32, u32)>) -> int
    decreases locs.len(),
{
    if locs.len() == 0 {
        0
    } else {
        let rest = pages_used(locs.drop_last());
        if locs.last().2 + 1 > rest {
            locs.last().2 + 1
        } else {
            rest
        }
    }
}

/// The boxes packed for textures of the given `(width, height)`, grown by
/// `padding` on each side.
pub open spec fn padded_sizes(entries: Seq<(u32, u32)>, padding: u32) -> Seq<(u32, u32, u32)> {
    Seq::new(
        entries.len(),
        |i: int| ((entries[i].0 + 2 * padding) as u32, (entries[i].1 + 2 * padding) as u32, 1u32),
    )
}

/// The texture coordinate of a texture of `entry` (width, height) packed,
/// grown by `padding`, with its corner at `loc`.
pub open spec fn padded_texcoord(loc: (u32, u32, u32), entry: (u32, u32), padding: u32, size: u32) -> Texcoord {
    Texcoord {
        page: loc.2,
        min_x: (loc.0 + padding) as u32,
        min_y: (loc.1 + padding) as u32,
        max_x: (loc.0 + padding + entry.0) as u32,
        max_y: (loc.1 + padding + entry.1) as u32,
        size,
    }
}

/// Whether every texture of `entries` can grow by `padding` on each side
/// within `u32`.
pub open spec fn padding_ok(entries: Seq<(u32, u32)>, padding: u32) -> bool {
    forall|i: int|
        0 <= i < entries.len() ==> #[trigger] entries[i].0 + 2 * padding <= u32::MAX && entries[i].1
            + 2 * padding <= u32::MAX
}

/// Whether `r` is the layout of textures `entries` grown by `padding` and
/// packed at `locs` on pages of side `size`.
pub open spec fn is_padded_layout(
    r: AtlasLayout,
    locs: Seq<(u32, u32, u32)>,
    entries: Seq<(u32, u32)>,
    size: u32,
    padding: u32,
    mip_level_count: u32,
) -> bool {
    &&& r.page_count == pages_used(locs)
    &&& r.size == size
    &&& r.padding == padding
    &&& r.mip_level_count == mip_level_count
    &&& r.texcoords@.len() == entries.len()
    &&& forall|i: int|
        0 <= i < entries.len() ==> #[trigger] r.texcoords@[i] == padded_texcoord(
            locs[i],
            entries[i],
            padding,
            size,
        )
}

/// Whether every texture coordinate of `r` lies on one of its pages, with
/// its margin of `r.padding` pixels around it.
pub open spec fn texcoords_on_pages(r: AtlasLayout) -> bool {
    forall|i: int|
        0 <= i < r.texcoords@.len() ==> {
            let t = #[trigger] r.texcoords@[i];
            &&& t.page < r.page_count
            &&& r.padding <= t.min_x <= t.max_x
            &&& t.max_x + r.padding <= r.size
            &&& r.padding <= t.min_y <= t.max_y
            &&& t.max_y + r.padding <= r.size
        }
}

/// The page count that `locs` use: one more than their largest page.
pub fn page_count_of(locs: &Vec<(u32, u32, u32)>, page_limit: u32) -> (r: u32)
    requires
        forall|i: int| 0 <= i < locs.len() ==> #[trigger] locs@[i].2 < page_limit,
    ensures
        r == pages_used(locs@),
        r <= page_limit,
{
    let mut r: u32 = 0;
    let mut i: usize = 0;
    while i < locs.len()
        invariant
            i <= locs.len(),
            r == pages_used(locs@.subrange(0, i as int)),
            r <= page_limit,
            forall|j: int| 0 <= j < locs.len() ==> #[trigger] locs@[j].2 < page_limit,
        decreases locs.len() - i,
    {
        assert(locs@.subrange(0, i + 1).drop_last() == locs@.subrange(0, i as int));
        let z = locs[i].2;
        if z + 1 > r {
            r = z + 1;
        }
        i = i + 1;
    }
    assert(locs@.subrange(0, locs.len() as int) == locs@);
    r
}

/// Lays out textures of the given `(width, height)`, grown by `padding` on
/// each side and packed at `locs` on pages of side `size`.
pub fn padded_layout(
    locs: &Vec<(u32, u32, u32)>,
    entries: &Vec<(u32, u32)>,
    page_limit: u32,
    size: u32,
    padding: u32,
    mip_level_count: u32,
) -> (r: AtlasLayout)
    requires
        padding_ok(entries@, padding),
        all_fit(locs@, padded_sizes(entries@, padding), (size, size, page_limit)),
    ensures
        is_padded_layout(r, locs@, entries@, size, padding, mip_level_count),
        texcoords_on_pages(r),
        r.page_count <= page_limit,
{
    let ghost sizes = padded_sizes(entries@, padding);
    let page_count = page_count_of(locs, page_limit);
    let mut texcoords: Vec<Texcoord> = Vec::new();
    let mut i: usize = 0;
    while i < locs.len()
        invariant
            i <= locs.len(),
            sizes == padded_sizes(entries@, padding),
            padding_ok(entries@, padding),
            all_fit(locs@, sizes, (size, size, page_limit)),
            texcoords@.len() == i,
            forall|j: int|
                0 <= j < i ==> #[trigger] texcoords@[j] == padded_texcoord(
                    locs@[j],
                    entries@[j],
                    padding,
                    size,
                ),
        decreases locs.len() - i,
    {
        assert(fits_in_bin(locs@[i as int], sizes[i as int], (size, size, page_limit)));
        assert(padding_ok(entries@, padding) ==> entries@[i as int].0 + 2 * padding <= u32::MAX);
        let (x, y, z) = locs[i];
        let (w, h) = entries[i];
        texcoords.push(
            Texcoord {
                page: z,
                min_x: x + padding,
                min_y: y + padding,
                max_x: x + padding + w,
                max_y: y + padding + h,
                size,
            },
        );
        i = i + 1;
    }
    let r = AtlasLayout { page_count, size, mip_level_count, padding, texcoords };
    proof {
        assert forall|i: int| 0 <= i < r.texcoords@.len() implies {
            let t = #[trigger] r.texcoords@[i];
            &&& t.page < r.page_count
            &&& r.padding <= t.min_x <= t.max_x
            &&& t.max_x + r.padding <= r.size
            &&& r.padding <= t.min_y <= t.max_y
            &&& t.max_y + r.padding <= r.size
        } by {
            assert(fits_in_bin(locs@[i], sizes[i], (size, size, page_limit)));
            lemma_page_within_pages_used(locs@, i);
        }
    }
    r
}

proof fn lemma_page_within_pages_used(locs: Seq<(u32, u32, u32)>, i: int)
    requires
        0 <= i < locs.len(),
    ensures
        locs[i].2 < pages_used(locs),
    decreases locs.len(),
{
    if i < locs.len() - 1 {
        lemma_page_within_pages_used(locs.drop_last(), i);
    }
}

/// What [`create_atlas_with_padding`] returns: the first failed check, in
/// order, or the layout of the packed textures.
pub open spec fn padding_outcome(
    page_count: u32,
    size: u32,
    mip: bool,
    padding: u32,
    entries: Seq<(u32, u32)>,
    r: Result<AtlasLayout, AtlasError>,
) -> bool {
    if page_count == 0 {
        r == Err::<AtlasLayout, AtlasError>(AtlasError::ZeroPageCount)
    } else if !is_power_of_two(size as int) {
        r == Err::<AtlasLayout, AtlasError>(AtlasError::InvalidSize(size))
    } else if entries.len() == 0 {
        r == Err::<AtlasLayout, AtlasError>(AtlasError::ZeroEntryCount)
    } else {
        match packed_layout(padded_sizes(entries, padding), (size, size, page_count)) {
            None => r == Err::<AtlasLayout, AtlasError>(
                AtlasError::Packing(PackError::NotEnoughBinSpace),
            ),
            Some(locs) => r matches Ok(l) && is_padded_layout(
                l,
                locs,
                entries,
                size,
                padding,
                l.mip_level_count,
            ) && (mip ==> l.mip_level_count >= 1 && pow2((l.mip_level_count - 1) as nat) == size)
                && (!mip ==> l.mip_level_count == 1) && texcoords_on_pages(l) && l.page_count
                <= page_count && all_fit(locs, padded_sizes(entries, padding), (size, size, page_count))
                && no_overlap(locs, padded_sizes(entries, padding)),
        }
    }
}

/// Lays out an atlas of textures of the given `(width, height)` on at most
/// `page_count` pages of side `size`, each grown by `padding` on each side;
/// with `mip`, mip levels go down to one pixel.
///
/// Fails, in this order of checks, when `page_count` is zero, `size` is not a
/// power of two, `entries` is empty, or the textures do not fit.
pub fn create_atlas_with_padding(
    page_count: u32,
    size: u32,
    mip: bool,
    padding: u32,
    entries: &Vec<(u32, u32)>,
) -> (r: Result<AtlasLayout, AtlasError>)
    requires
        page_count != 0 && is_power_of_two(size as int) ==> padding_ok(entries@, padding),
    ensures
        padding_outcome(page_count, size, mip, padding, entries@, r),
{
    if page_count == 0 {
        return Err(AtlasError::ZeroPageCount);
    }
    let exponent = match power_of_two_exponent(size) {
        Some(k) => k,
        None => {
            return Err(AtlasError::InvalidSize(size));
        },
    };
    proof {
        assert(is_power_of_two(size as int));
    }
    if entries.len() == 0 {
        return Err(AtlasError::ZeroEntryCount);
    }
    let mut sizes: Vec<(u32, u32, u32)> = Vec::new();
    let mut i: usize = 0;
    while i < entries.len()
        invariant
            i <= entries.len(),
            padding_ok(entries@, padding),
            sizes@ == padded_sizes(entries@, padding).subrange(0, i as int),
        decreases entries.len() - i,
    {
        let (w, h) = entries[i];
        sizes.push((w + 2 * padding, h + 2 * padding, 1));
        i = i + 1;
    }
    assert(sizes@ == padded_sizes(entries@, padding));
    proof {
        if exponent >= 32 {
            lemma2_to64();
            if exponent > 32 {
                lemma_pow2_strictly_increases(32, exponent as nat);
            }
        }
    }
    let mip_level_count: u32 = if mip {
        exponent + 1
    } else {
        1
    };
    match pack_layout(&sizes, (size, size, page_count)) {
        Err(_) => Err(AtlasError::Packing(PackError::NotEnoughBinSpace)),
        Ok(locs) => Ok(padded_layout(&locs, entries, page_count, size, padding, mip_level_count)),
    }
}

/// The blocks of side `block_size` that a texture side of `len` pixels
/// takes, with half a block of margin on each side: `ceil((len +
/// block_size) / block_size)`.
pub open spec fn blocks_for(len: u32, block_size: u32) -> int {
    (len + block_size) / (block_size as int) + if (len + block_size) % (block_size as int) == 0 {
        0int
    } else {
        1int
    }
}

/// The boxes, in blocks, packed for textures of the given `(width,
/// height)`.
pub open spec fn block_sizes(entries: Seq<(u32, u32)>, block_size: u32) -> Seq<(u32, u32, u32)> {
    Seq::new(
        entries.len(),
        |i: int|
            (
                blocks_for(entries[i].0, block_size) as u32,
                blocks_for(entries[i].1, block_size) as u32,
                1u32,
            ),
    )
}

/// The texture coordinate of a texture of `entry` (width, height) packed at
/// block `loc`, half a block inside it.
pub open spec fn block_texcoord(loc: (u32, u32, u32), entry: (u32, u32), block_size: u32, size: u32) -> Texcoord {
    Texcoord {
        page: loc.2,
        min_x: (loc.0 * block_size + block_size / 2) as u32,
        min_y: (loc.1 * block_size + block_size / 2) as u32,
        max_x: (loc.0 * block_size + block_size / 2 + entry.0) as u32,
        max_y: (loc.1 * block_size + block_size / 2 + entry.1) as u32,
        size,
    }
}

/// Whether every texture of `entries` plus one block stays within `u32`.
pub open spec fn block_ok(entries: Seq<(u32, u32)>, block_size: u32) -> bool {
    forall|i: int|
        0 <= i < entries.len() ==> #[trigger] entries[i].0 + block_size <= u32::MAX && entries[i].1
            + block_size <= u32::MAX
}

/// Whether `r` is the layout of textures `entries` packed at blocks `locs`
/// of side `block_size` on pages of side `size`.
pub open spec fn is_block_layout(
    r: AtlasLayout,
    locs: Seq<(u32, u32, u32)>,
    entries: Seq<(u32, u32)>,
    size: u32,
    block_size: u32,
    mip_level_count: u32,
) -> bool {
    &&& r.page_count == pages_used(locs)
    &&& r.size == size
    &&& r.padding == block_size / 2
    &&& r.mip_level_count == mip_level_count
    &&& r.texcoords@.len() == entries.len()
    &&& forall|i: int|
        0 <= i < entries.len() ==> #[trigger] r.texcoords@[i] == block_texcoord(
            locs[i],
            entries[i],
            block_size,
            size,
        )
}

proof fn lemma_blocks_for_bound(w: u32, bs: u32)
    requires
        bs > 0,
        w + bs <= u32::MAX,
    ensures
        1 <= blocks_for(w, bs) <= w + bs,
{
    let a = w + bs;
    let b = bs as int;
    let q = a / b;
    let m = a % b;
    assert(q * b + m == a && 0 <= m < b) by (nonlinear_arith)
        requires
            b > 0,
            q == a / b,
            m == a % b,
    ;
    assert(1 <= q) by (nonlinear_arith)
        requires
            b > 0,
            a >= b,
            q * b + m == a,
            m < b,
    ;
    if m == 0 {
        assert(q <= a) by (nonlinear_arith)
            requires
                b >= 1,
                q * b == a,
                q >= 1,
        ;
    } else {
        assert(q + 1 <= a) by (nonlinear_arith)
            requires
                b >= 2,
                q * b + m == a,
                q >= 1,
                m >= 1,
        ;
    }
}

proof fn lemma_block_within(x: int, w: int, bs: int, rw: int, size: int)
    requires
        bs > 0,
        w >= 0,
        x >= 0,
        size >= 0,
        rw == (w + bs) / bs + if (w + bs) % bs == 0 {
            0int
        } else {
            1int
        },
        x + rw <= size / bs,
    ensures
        x * bs + bs / 2 + w <= size,
        x * bs + bs / 2 + w + bs / 2 <= size,
{
    let q = (w + bs) / bs;
    let m = (w + bs) % bs;
    assert(q * bs + m == w + bs && 0 <= m < bs) by (nonlinear_arith)
        requires
            bs > 0,
            q == (w + bs) / bs,
            m == (w + bs) % bs,
    ;
    assert(rw * bs >= w + bs) by (nonlinear_arith)
        requires
            bs > 0,
            q * bs + m == w + bs,
            0 <= m < bs,
            rw == q + if m == 0 {
                0int
            } else {
                1int
            },
    ;
    assert((x + rw) * bs <= (size / bs) * bs) by (nonlinear_arith)
        requires
            bs > 0,
            x + rw <= size / bs,
    ;
    assert((size / bs) * bs <= size) by (nonlinear_arith)
        requires
            bs > 0,
            size >= 0,
    ;
    assert((x + rw) * bs == x * bs + rw * bs) by (nonlinear_arith);
}

/// Lays out textures of the given `(width, height)` packed at blocks `locs`
/// of side `block_size` on pages of side `size`.
pub fn block_layout(
    locs: &Vec<(u32, u32, u32)>,
    entries: &Vec<(u32, u32)>,
    page_limit: u32,
    size: u32,
    block_size: u32,
    mip_level_count: u32,
) -> (r: AtlasLayout)
    requires
        block_size > 0,
        block_ok(entries@, block_size),
        all_fit(locs@, block_sizes(entries@, block_size), (size / block_size, size / block_size, page_limit)),
    ensures
        is_block_layout(r, locs@, entries@, size, block_size, mip_level_count),
        texcoords_on_pages(r),
        r.page_count <= page_limit,
{
    let ghost sizes = block_sizes(entries@, block_size);
    let ghost bin = (size / block_size, size / block_size, page_limit);
    let page_count = page_count_of(locs, page_limit);
    let padding = block_size / 2;
    let mut texcoords: Vec<Texcoord> = Vec::new();
    let mut i: usize = 0;
    while i < locs.len()
        invariant
            i <= locs.len(),
            block_size > 0,
            padding == block_size / 2,
            sizes == block_sizes(entries@, block_size),
            bin == (size / block_size, size / block_size, page_limit),
            block_ok(entries@, block_size),
            all_fit(locs@, sizes, bin),
            texcoords@.len() == i,
            forall|j: int|
                0 <= j < i ==> #[trigger] texcoords@[j] == block_texcoord(
                    locs@[j],
                    entries@[j],
                    block_size,
                    size,
                ),
        decreases locs.len() - i,
    {
        let (x, y, z) = locs[i];
        let (w, h) = entries[i];
        proof {
            assert(fits_in_bin(locs@[i as int], sizes[i as int], bin));
            assert(entries@[i as int].0 + block_size <= u32::MAX);
            lemma_blocks_for_bound(w, block_size);
            lemma_blocks_for_bound(h, block_size);
            lemma_block_within(x as int, w as int, block_size as int, blocks_for(w, block_size), size as int);
            lemma_block_within(y as int, h as int, block_size as int, blocks_for(h, block_size), size as int);
        }
        let base_x = x * block_size + padding;
        let base_y = y * block_size + padding;
        texcoords.push(
            Texcoord {
                page: z,
                min_x: base_x,
                min_y: base_y,
                max_x: base_x + w,
                max_y: base_y + h,
                size,
            },
        );
        i = i + 1;
    }
    let r = AtlasLayout { page_count, size, mip_level_count, padding, texcoords };
    proof {
        assert forall|i: int| 0 <= i < r.texcoords@.len() implies {
            let t = #[trigger] r.texcoords@[i];
            &&& t.page < r.page_count
            &&& r.padding <= t.min_x <= t.max_x
            &&& t.max_x + r.padding <= r.size
            &&& r.padding <= t.min_y <= t.max_y
            &&& t.max_y + r.padding <= r.size
        } by {
            assert(fits_in_bin(locs@[i], sizes[i], bin));
            assert(entries@[i].0 + block_size <= u32::MAX);
            lemma_blocks_for_bound(entries@[i].0, block_size);
            lemma_blocks_for_bound(entries@[i].1, block_size);
            lemma_block_within(locs@[i].0 as int, entries@[i].0 as int, block_size as int, blocks_for(entries@[i].0, block_size), size as int);
            lemma_block_within(locs@[i].1 as int, entries@[i].1 as int, block_size as int, blocks_for(entries@[i].1, block_size), size as int);
            lemma_page_within_pages_used(locs@, i);
        }
    }
    r
}

/// What [`create_atlas_with_block`] returns: the first failed check, in
/// order, or the layout of the packed textures.
pub open spec fn block_outcome(
    page_count: u32,
    size: u32,
    block_size: u32,
    entries: Seq<(u32, u32)>,
    r: Result<AtlasLayout, AtlasError>,
) -> bool {
    if page_count == 0 {
        r == Err::<AtlasLayout, AtlasError>(AtlasError::ZeroPageCount)
    } else if !is_power_of_two(size as int) {
        r == Err::<AtlasLayout, AtlasError>(AtlasError::InvalidSize(size))
    } else if !is_power_of_two(block_size as int) {
        r == Err::<AtlasLayout, AtlasError>(AtlasError::InvalidBlockSize(block_size))
    } else if entries.len() == 0 {
        r == Err::<AtlasLayout, AtlasError>(AtlasError::ZeroEntryCount)
    } else {
        match packed_layout(
            block_sizes(entries, block_size),
            (size / block_size, size / block_size, page_count),
        ) {
            None => r == Err::<AtlasLayout, AtlasError>(
                AtlasError::Packing(PackError::NotEnoughBinSpace),
            ),
            Some(locs) => r matches Ok(l) && is_block_layout(
                l,
                locs,
                entries,
                size,
                block_size,
                l.mip_level_count,
            ) && l.mip_level_count >= 1 && pow2((l.mip_level_count - 1) as nat) == block_size
                && texcoords_on_pages(l) && l.page_count <= page_count && all_fit(
                locs,
                block_sizes(entries, block_size),
                (size / block_size, size / block_size, page_count),
            ) && no_overlap(locs, block_sizes(entries, block_size)),
        }
    }
}

/// Lays out an atlas of textures of the given `(width, height)` on at most
/// `page_count` pages of side `size`, in blocks of side `block_size`; each
/// texture keeps half a block of margin around it, and mip levels go down to
/// one pixel per block.
///
/// Fails, in this order of checks, when `page_count` is zero, `size` is not a
/// power of two, `block_size` is not a power of two, `entries` is empty, or
/// the textures do not fit.
pub fn create_atlas_with_block(
    page_count: u32,
    size: u32,
    block_size: u32,
    entries: &Vec<(u32, u32)>,
) -> (r: Result<AtlasLayout, AtlasError>)
    requires
        page_count != 0 && is_power_of_two(size as int) && is_power_of_two(block_size as int)
            ==> block_ok(entries@, block_size),
    ensures
        block_outcome(page_count, size, block_size, entries@, r),
{
    if page_count == 0 {
        return Err(AtlasError::ZeroPageCount);
    }
    if power_of_two_exponent(size).is_none() {
        return Err(AtlasError::InvalidSize(size));
    }
    let exponent = match power_of_two_exponent(block_size) {
        Some(k) => k,
        None => {
            return Err(AtlasError::InvalidBlockSize(block_size));
        },
    };
    proof {
        assert(is_power_of_two(block_size as int));
        lemma2_to64();
        if exponent > 32 {
            lemma_pow2_strictly_increases(32, exponent as nat);
        }
        if exponent == 0 {
        } else {
            lemma_pow2_strictly_increases(0, exponent as nat);
        }
    }
    if entries.len() == 0 {
        return Err(AtlasError::ZeroEntryCount);
    }
    let mut sizes: Vec<(u32, u32, u32)> = Vec::new();
    let mut i: usize = 0;
    while i < entries.len()
        invariant
            i <= entries.len(),
            block_size > 0,
            block_ok(entries@, block_size),
            sizes@ == block_sizes(entries@, block_size).subrange(0, i as int),
        decreases entries.len() - i,
    {
        let (w, h) = entries[i];
        proof {
            assert(entries@[i as int].0 + block_size <= u32::MAX);
            lemma_blocks_for_bound(w, block_size);
            lemma_blocks_for_bound(h, block_size);
        }
        let (sw, sh) = (w + block_size, h + block_size);
        let bw = sw / block_size + if sw % block_size == 0 {
            0
        } else {
            1
        };
        let bh = sh / block_size + if sh % block_size == 0 {
            0
        } else {
            1
        };
        sizes.push((bw, bh, 1));
        i = i + 1;
    }
    assert(sizes@ == block_sizes(entries@, block_size));
    let bin_size = size / block_size;
    match pack_layout(&sizes, (bin_size, bin_size, page_count)) {
        Err(_) => Err(AtlasError::Packing(PackError::NotEnoughBinSpace)),
        Ok(locs) => Ok(block_layout(&locs, entries, page_count, size, block_size, exponent + 1)),
    }
}

/// Whether the textures `entries` can be grown as `leak` asks within `u32`.
pub open spec fn leak_ok(entries: Seq<(u32, u32)>, leak: AtlasLeakOption) -> bool {
    match leak {
        AtlasLeakOption::NoLeak => true,
        AtlasLeakOption::Padding(padding) => padding_ok(entries, padding),
        AtlasLeakOption::Block(block_size) => block_ok(entries, block_size),
    }
}

/// Lays out an atlas of textures of the given `(width, height)` on at most
/// `page_count` pages of side `size`, as `leak` asks: without margins or mip
/// levels, with `padding` pixels around each texture and mip levels down to
/// one pixel, or in blocks (see [`create_atlas_with_block`]).
pub fn create_atlas(page_count: u32, size: u32, leak: AtlasLeakOption, entries: &Vec<(u32, u32)>) -> (r: Result<AtlasLayout, AtlasError>)
    requires
        page_count != 0 && is_power_of_two(size as int) && (leak matches AtlasLeakOption::Block(b)
            ==> is_power_of_two(b as int)) ==> leak_ok(entries@, leak),
    ensures
        match leak {
            AtlasLeakOption::NoLeak => padding_outcome(page_count, size, false, 0, entries@, r),
            AtlasLeakOption::Padding(padding) => padding_outcome(page_count, size, true, padding, entries@, r),
            AtlasLeakOption::Block(block_size) => block_outcome(page_count, size, block_size, entries@, r),
        },
{
    match leak {
        AtlasLeakOption::NoLeak => create_atlas_with_padding(page_count, size, false, 0, entries),
        AtlasLeakOption::Padding(padding) => create_atlas_with_padding(page_count, size, true, padding, entries),
        AtlasLeakOption::Block(block_size) => create_atlas_with_block(page_count, size, block_size, entries),
    }
}

/// The boxes packed for textures of the given size in blocks, each grown by
/// one block for the margins that mip levels need.
pub open spec fn margin_sizes(sizes: Seq<(u32, u32)>) -> Seq<(u32, u32, u32)> {
    Seq::new(sizes.len(), |i: int| ((sizes[i].0 + 1) as u32, (sizes[i].1 + 1) as u32, 1u32))
}

/// Where textures measured in blocks go on pages of `grid` by `grid` blocks.
#[derive(Clone, Debug)]
pub struct BlockPlan {
    /// One more than the largest page used.
    pub page_count: u32,
    /// The block corner `(x, y, page)` of each texture, by index.
    pub locations: Vec<(u32, u32, u32)>,
}

/// Places textures of the given size in blocks, each grown by one block, on
/// at most `max_pages` pages of `grid` by `grid` blocks; `None` when they do
/// not all fit.
pub fn plan_in_blocks(sizes: &Vec<(u32, u32)>, grid: u32, max_pages: u32) -> (r: Option<BlockPlan>)
    requires
        forall|i: int| 0 <= i < sizes.len() ==> #[trigger] sizes@[i].0 < u32::MAX && sizes@[i].1 < u32::MAX,
    ensures
        match packed_layout(margin_sizes(sizes@), (grid, grid, max_pages)) {
            None => r is None,
            Some(locs) => r matches Some(p) && p.locations@ == locs && p.page_count == pages_used(locs)
                && p.page_count <= max_pages && all_fit(locs, margin_sizes(sizes@), (grid, grid, max_pages))
                && no_overlap(locs, margin_sizes(sizes@)),
        },
{
    let mut boxes: Vec<(u32, u32, u32)> = Vec::new();
    let mut i: usize = 0;
    while i < sizes.len()
        invariant
            i <= sizes.len(),
            forall|j: int| 0 <= j < sizes.len() ==> #[trigger] sizes@[j].0 < u32::MAX && sizes@[j].1 < u32::MAX,
            boxes@ == margin_sizes(sizes@).subrange(0, i as int),
        decreases sizes.len() - i,
    {
        let (w, h) = sizes[i];
        boxes.push((w + 1, h + 1, 1));
        i = i + 1;
    }
    assert(boxes@ == margin_sizes(sizes@));
    match pack_layout(&boxes, (grid, grid, max_pages)) {
        Err(_) => None,
        Ok(locations) => {
            proof {
                assert forall|j: int| 0 <= j < locations.len() implies #[trigger] locations@[j].2 < max_pages by {
                    assert(fits_in_bin(locations@[j], boxes@[j], (grid, grid, max_pages)));
                }
            }
            let page_count = page_count_of(&locations, max_pages);
            Some(BlockPlan { page_count, locations })
        },
    }
}

/// Where a texture of `width` by `height` blocks placed at block `loc` is
/// sampled, in pixels of `size_per_block` per block: its page, the corner
/// half a block inside its place, and its size.
pub open spec fn block_texcoord_pixels(loc: (u32, u32, u32), width: u32, height: u32, size_per_block: u32) -> (u32, u32, u32, u32, u32) {
    (
        loc.2,
        (size_per_block * loc.0 + size_per_block / 2) as u32,
        (size_per_block * loc.1 + size_per_block / 2) as u32,
        (size_per_block * width) as u32,
        (size_per_block * height) as u32,
    )
}

/// Computes [`block_texcoord_pixels`] for a texture that lies within a page
/// of `grid` blocks of `size_per_block` pixels, whose side fits in `u32`.
pub fn texcoord_pixels(loc: (u32, u32, u32), width: u32, height: u32, size_per_block: u32, grid: u32) -> (r: (u32, u32, u32, u32, u32))
    requires
        loc.0 + width + 1 <= grid,
        loc.1 + height + 1 <= grid,
        size_per_block * grid <= u32::MAX,
    ensures
        r == block_texcoord_pixels(loc, width, height, size_per_block),
{
    proof {
        assert(size_per_block * (loc.0 + 1) <= size_per_block * grid && size_per_block * (loc.1 + 1)
            <= size_per_block * grid && size_per_block * width <= size_per_block * grid
            && size_per_block * height <= size_per_block * grid) by (nonlinear_arith)
            requires
                loc.0 + width + 1 <= grid,
                loc.1 + height + 1 <= grid,
        ;
        assert(size_per_block * (loc.0 + 1) == size_per_block * loc.0 + size_per_block) by (nonlinear_arith);
        assert(size_per_block * (loc.1 + 1) == size_per_block * loc.1 + size_per_block) by (nonlinear_arith);
    }
    (
        loc.2,
        size_per_block * loc.0 + size_per_block / 2,
        size_per_block * loc.1 + size_per_block / 2,
        size_per_block * width,
        size_per_block * height,
    )
}

/// Where copies of a texture of `width` x `height` pixels go in its padded
/// image, which has `padding` pixels on each side: once at the padding's
/// corner, or, to repeat, also shifted by one texture width and height in
/// every direction, in the order of `dx` and then `dy` from -1 to 1.
pub open spec fn entry_copies(width: u32, height: u32, padding: u32, leak: AtlasEntryLeakOption) -> Seq<(i64, i64)> {
    match leak {
        AtlasEntryLeakOption::Single => seq![(padding as i64, padding as i64)],
        AtlasEntryLeakOption::Repeat => Seq::new(
            9,
            |k: int| ((padding + width * (k / 3 - 1)) as i64, (padding + height * (k % 3 - 1)) as i64),
        ),
    }
}

/// The side lengths of the padded image of an entry, and the places where
/// the entry is copied into it ([`entry_copies`]).
pub fn entry_with_padding_plan(width: u32, height: u32, padding: u32, leak: AtlasEntryLeakOption) -> (r: (
    (u32, u32),
    Vec<(i64, i64)>,
))
    requires
        width + 2 * padding <= u32::MAX,
        height + 2 * padding <= u32::MAX,
    ensures
        r.0 == ((width + 2 * padding) as u32, (height + 2 * padding) as u32),
        r.1@ == entry_copies(width, height, padding, leak),
{
    let extent = (width + padding * 2, height + padding * 2);
    let mut copies: Vec<(i64, i64)> = Vec::new();
    match leak {
        AtlasEntryLeakOption::Single => {
            copies.push((padding as i64, padding as i64));
            assert(copies@ =~= entry_copies(width, height, padding, leak));
        },
        AtlasEntryLeakOption::Repeat => {
            let mut dx: i64 = -1;
            while dx <= 1
                invariant
                    leak == AtlasEntryLeakOption::Repeat,
                    -1 <= dx <= 2,
                    copies@.len() == 3 * (dx + 1),
                    forall|k: int| 0 <= k < copies@.len() ==> #[trigger] copies@[k] == entry_copies(width, height, padding, leak)[k],
                decreases 2 - dx,
            {
                let mut dy: i64 = -1;
                while dy <= 1
                    invariant
                        leak == AtlasEntryLeakOption::Repeat,
                        -1 <= dx <= 1,
                        -1 <= dy <= 2,
                        copies@.len() == 3 * (dx + 1) + dy + 1,
                        forall|k: int| 0 <= k < copies@.len() ==> #[trigger] copies@[k] == entry_copies(width, height, padding, leak)[k],
                    decreases 2 - dy,
                {
                    proof {
                        assert(-(width as int) <= width * dx <= width) by (nonlinear_arith)
                            requires -1 <= dx <= 1;
                        assert(-(height as int) <= height * dy <= height) by (nonlinear_arith)
                            requires -1 <= dy <= 1;
                    }
                    let x: i64 = padding as i64 + width as i64 * dx;
                    let y: i64 = padding as i64 + height as i64 * dy;
                    let ghost k = 3 * (dx + 1) + dy + 1;
                    proof {
                        assert(k / 3 == dx + 1 && k % 3 == dy + 1) by (nonlinear_arith)
                            requires k == 3 * (dx + 1) + dy + 1, 0 <= dy + 1 < 3;
                        assert(0 <= k < 9);
                        assert(entry_copies(width, height, padding, leak)[k] == (x, y));
                    }
                    copies.push((x, y));
                    assert(copies@[k] == entry_copies(width, height, padding, leak)[k]);
                    dy = dy + 1;
                }
                dx = dx + 1;
            }
            assert(copies@ =~= entry_copies(width, height, padding, leak));
        },
    }
    (extent, copies)
}

} // verus!
