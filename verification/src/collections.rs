//! The hash maps and sets of the `ahash` crate, as far as the library uses them.
//!
//! `ahash` seeds its hashers at run time, so the order in which a map is walked
//! is not stated anywhere here: a walk hands out each entry once, in some order.

use vstd::prelude::*;

use crate::voxelle::VoxelCoord;

verus! {

/// `ahash::RandomState`, which makes the hashers; nothing is stated of it.
#[verifier::external_type_specification]
#[verifier::external_body]
pub struct ExRandomState(ahash::RandomState);

/// `ahash::AHashMap`; what a map holds is stated by `entries` and `bucket_entries`.
#[verifier::external_type_specification]
#[verifier::external_body]
#[verifier::reject_recursive_types(K)]
#[verifier::reject_recursive_types(V)]
#[verifier::reject_recursive_types(S)]
pub struct ExAHashMap<K, V, S>(ahash::AHashMap<K, V, S>);

/// `ahash::AHashSet`; what a set holds is stated by `members`.
#[verifier::external_type_specification]
#[verifier::external_body]
#[verifier::reject_recursive_types(T)]
#[verifier::reject_recursive_types(S)]
pub struct ExAHashSet<T, S>(ahash::AHashSet<T, S>);

/// Map from a cell to a position in some list.
pub type CoordMap = ahash::AHashMap<VoxelCoord, usize>;

/// Map from a colour and material tag to a position in some list.
pub type BucketMap = ahash::AHashMap<(u32, u8), usize>;

/// Set of cells.
pub type CoordSet = ahash::AHashSet<VoxelCoord>;

/// What a cell map holds.
pub uninterp spec fn entries(m: ahash::AHashMap<VoxelCoord, usize>) -> Map<VoxelCoord, usize>;

/// What a bucket map holds.
pub uninterp spec fn bucket_entries(m: ahash::AHashMap<(u32, u8), usize>) -> Map<(u32, u8), usize>;

/// What a cell set holds.
pub uninterp spec fn members(s: ahash::AHashSet<VoxelCoord>) -> Set<VoxelCoord>;

/// `AHashMap::new`: the new map holds nothing.
#[verifier::external_body]
pub(crate) fn coord_map_new() -> (m: CoordMap)
    ensures
        (entries(m) == Map::<VoxelCoord, usize>::empty()),
{
    ahash::AHashMap::new()
}

/// `AHashMap::get`: the value stored under the key, if the key is present.
#[verifier::external_body]
pub(crate) fn coord_map_get(m: &CoordMap, k: &VoxelCoord) -> (r: Option<usize>)
    ensures
        r == (if entries(*m).contains_key(*k) {
            Some(entries(*m)[*k])
        } else {
            None
        }),
{
    m.get(k).copied()
}

/// `AHashMap::insert`: the key now maps to the value, every other key is as before.
#[verifier::external_body]
pub(crate) fn coord_map_insert(m: &mut CoordMap, k: VoxelCoord, v: usize)
    ensures
        entries(*final(m)) == entries(*old(m)).insert(k, v),
{
    m.insert(k, v);
}

/// `AHashMap::remove`: the key is gone, every other key is as before.
#[verifier::external_body]
pub(crate) fn coord_map_remove(m: &mut CoordMap, k: &VoxelCoord)
    ensures
        entries(*final(m)) == entries(*old(m)).remove(*k),
{
    m.remove(k);
}

/// `AHashMap::keys`: each key of the map once. Their order is not stated.
#[verifier::external_body]
pub(crate) fn coord_map_keys(m: &CoordMap) -> (r: Vec<VoxelCoord>)
    ensures
        r@.no_duplicates(),
        r@.to_set() == entries(*m).dom(),
{
    m.keys().copied().collect()
}

/// `AHashMap::new`: the new map holds nothing.
#[verifier::external_body]
pub(crate) fn bucket_map_new() -> (m: BucketMap)
    ensures
        (bucket_entries(m) == Map::<(u32, u8), usize>::empty()),
{
    ahash::AHashMap::new()
}

/// `AHashMap::get`: the value stored under the key, if the key is present.
#[verifier::external_body]
pub(crate) fn bucket_map_get(m: &BucketMap, k: &(u32, u8)) -> (r: Option<usize>)
    ensures
        r == (if bucket_entries(*m).contains_key(*k) {
            Some(bucket_entries(*m)[*k])
        } else {
            None
        }),
{
    m.get(k).copied()
}

/// `AHashMap::insert`: the key now maps to the value, every other key is as before.
#[verifier::external_body]
pub(crate) fn bucket_map_insert(m: &mut BucketMap, k: (u32, u8), v: usize)
    ensures
        bucket_entries(*final(m)) == bucket_entries(*old(m)).insert(k, v),
{
    m.insert(k, v);
}

/// `AHashMap::keys`: each key of the map once. Their order is not stated.
#[verifier::external_body]
pub(crate) fn bucket_map_keys(m: &BucketMap) -> (r: Vec<(u32, u8)>)
    ensures
        r@.no_duplicates(),
        r@.to_set() == bucket_entries(*m).dom(),
{
    m.keys().copied().collect()
}

/// `AHashSet::new`: the new set holds nothing.
#[verifier::external_body]
pub(crate) fn coord_set_new() -> (s: CoordSet)
    ensures
        members(s) == Set::<VoxelCoord>::empty(),
{
    ahash::AHashSet::new()
}

/// `AHashSet::insert`: the cell is a member now; the result says whether it was not before.
#[verifier::external_body]
pub(crate) fn coord_set_insert(s: &mut CoordSet, c: VoxelCoord) -> (fresh: bool)
    ensures
        members(*final(s)) == members(*old(s)).insert(c),
        fresh == !members(*old(s)).contains(c),
{
    s.insert(c)
}

/// `AHashSet::contains`: whether the cell is a member.
#[verifier::external_body]
pub(crate) fn coord_set_contains(s: &CoordSet, c: &VoxelCoord) -> (r: bool)
    ensures
        r == members(*s).contains(*c),
{
    s.contains(c)
}

/// Whether a cell comes before another or is the same: by x, then by y, then by z.
pub open spec fn cell_le(a: VoxelCoord, b: VoxelCoord) -> bool {
    a.0 < b.0 || (a.0 == b.0 && (a.1 < b.1 || (a.1 == b.1 && a.2 <= b.2)))
}

/// The cells are in order.
pub open spec fn cells_sorted(s: Seq<VoxelCoord>) -> bool {
    forall|i: int, j: int| 0 <= i < j < s.len() ==> #[trigger] cell_le(s[i], s[j])
}

/// `slice::sort_unstable`: the same cells, each as often as before, now in order.
/// Tuples are ordered by their first component, then the second, then the third.
#[verifier::external_body]
pub(crate) fn sort_cells(cells: &mut Vec<VoxelCoord>)
    ensures
        final(cells)@.to_multiset() == old(cells)@.to_multiset(),
        cells_sorted(final(cells)@),
{
    cells.sort_unstable();
}

} // verus!
