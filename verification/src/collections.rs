//! The slab collection of the `slab` crate, as the storages use it.
//!
//! A slab stores values under `usize` keys that it chooses itself: `insert`
//! uses the key that `vacant_key` reports, which is never occupied, and
//! `try_remove` frees a key for later insertions. What a slab holds is
//! named as a map from keys to values; each wrapper below states what the
//! `slab` source shows its method does to that map.

use vstd::prelude::*;

use slab::Slab;

verus! {

#[verifier::external_type_specification]
#[verifier::external_body]
#[verifier::reject_recursive_types(T)]
pub struct ExSlab<T>(Slab<T>);

/// The values that a slab of indices holds, by key.
pub uninterp spec fn index_slab_entries(s: Slab<usize>) -> Map<usize, usize>;

/// The key that the next insertion into a slab of indices uses: the slab's
/// `next` field, which `Slab::insert` takes as the new key.
pub uninterp spec fn index_slab_next(s: Slab<usize>) -> usize;

/// Whether the pairs are the entries of `m`, with strictly increasing keys.
pub open spec fn pairs_in_key_order(pairs: Seq<(usize, usize)>, m: Map<usize, usize>) -> bool {
    &&& forall|i: int, j: int| 0 <= i < j < pairs.len() ==> pairs[i].0 < pairs[j].0
    &&& forall|i: int|
        0 <= i < pairs.len() ==> m.contains_key(#[trigger] pairs[i].0) && m[pairs[i].0]
            == pairs[i].1
    &&& forall|k: usize|
        m.contains_key(k) ==> exists|i: int| 0 <= i < pairs.len() && #[trigger] pairs[i].0 == k
}

/// `Slab::new`: an empty slab, whose next key is 0.
#[verifier::external_body]
pub fn index_slab_new() -> (r: Slab<usize>)
    ensures
        index_slab_entries(r) =~= Map::empty(),
        index_slab_next(r) == 0,
{
    Slab::new()
}

/// `Slab::insert`: stores `value` under the slab's next key, which was not
/// occupied, and returns that key; the other entries stay.
#[verifier::external_body]
pub fn index_slab_insert(s: &mut Slab<usize>, value: usize) -> (key: usize)
    ensures
        key == index_slab_next(*old(s)),
        !index_slab_entries(*old(s)).contains_key(key),
        index_slab_entries(*final(s)) == index_slab_entries(*old(s)).insert(key, value),
{
    s.insert(value)
}

/// `Slab::remove` on an occupied key: frees the key; the other entries stay.
#[verifier::external_body]
pub fn index_slab_remove(s: &mut Slab<usize>, key: usize) -> (value: usize)
    requires
        index_slab_entries(*old(s)).contains_key(key),
    ensures
        value == index_slab_entries(*old(s))[key],
        index_slab_entries(*final(s)) == index_slab_entries(*old(s)).remove(key),
{
    s.remove(key)
}

/// `Slab::iter`: the entries as `(key, value)` pairs in increasing key
/// order.
#[verifier::external_body]
pub fn index_slab_pairs(s: &Slab<usize>) -> (r: Vec<(usize, usize)>)
    ensures
        pairs_in_key_order(r@, index_slab_entries(*s)),
{
    s.iter().map(|(k, v)| (k, *v)).collect()
}

} // verus!
