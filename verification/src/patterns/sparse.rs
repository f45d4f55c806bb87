//! The sparse store that maps a declared child index to the slot of its pattern.

use vstd::prelude::*;
use sparse_vec::SparseVec;

verus! {

/// The sparse store of the `sparse_vec` crate, `SparseVec`: nothing inside it is
/// seen here, what it holds is named by `sparse_contents`.
#[verifier::external_type_specification]
#[verifier::external_body]
#[verifier::reject_recursive_types(T)]
pub struct ExSparseVec<T>(SparseVec<T>);

/// What a sparse store holds: the value stored at each address that holds one.
pub uninterp spec fn sparse_contents(cells: SparseVec<usize>) -> Map<u64, usize>;

/// The contents of a store that holds nothing.
pub open spec fn no_cells() -> Map<u64, usize> {
    Map::empty()
}

/// The address ranges `ranges` are non-empty, ascending and apart, and cover
/// exactly the addresses in `addresses`.
pub open spec fn ranges_cover(ranges: Seq<(u64, u64)>, addresses: Set<u64>) -> bool {
    &&& forall|k: int| 0 <= k < ranges.len() ==> (#[trigger] ranges[k]).0 < ranges[k].1
    &&& forall|j: int, k: int|
        0 <= j < k < ranges.len() ==> (#[trigger] ranges[j]).1 <= (#[trigger] ranges[k]).0
    &&& forall|address: u64| #[trigger]
        addresses.contains(address) <==> exists|k: int|
            0 <= k < ranges.len() && (#[trigger] ranges[k]).0 <= address < ranges[k].1
}

/// Makes an empty store.
///
/// Calls `SparseVec::default`. Claimed of it: the new store holds nothing.
#[verifier::external_body]
pub(crate) fn sparse_new() -> (out: SparseVec<usize>)
    ensures
        sparse_contents(out) == no_cells(),
{
    SparseVec::default()
}

/// Stores `slot` at the address `index`, which holds nothing yet.
///
/// Calls `SparseVec::insert` with a block of the one value. Claimed of it: after
/// the call the store holds `slot` at `index`, and at every other address what it
/// held before. The address after `index` must exist, as the call computes it.
#[verifier::external_body]
pub(crate) fn sparse_insert(cells: &mut SparseVec<usize>, index: u64, slot: usize)
    requires
        index < u64::MAX,
        !sparse_contents(*old(cells)).dom().contains(index),
    ensures
        sparse_contents(*final(cells)) == sparse_contents(*old(cells)).insert(index, slot),
{
    cells.insert(vec![slot], index)
}

/// Looks up the one address `start`, given with the address `end` after it.
///
/// Calls `SparseVec::get` with the range from `start` to `end`. Claimed of it:
/// where the store holds a value at `start` it returns that one value, and
/// nothing where it holds none.
#[verifier::external_body]
pub(crate) fn sparse_get(
    cells: &SparseVec<usize>,
    start: u64,
    end: u64,
) -> (out: Option<Vec<usize>>)
    requires
        end == start + 1,
    ensures
        match out {
            Some(found) => sparse_contents(*cells).dom().contains(start) && found@ == seq![
                sparse_contents(*cells)[start],
            ],
            None => !sparse_contents(*cells).dom().contains(start),
        },
{
    cells.get(start..end).map(|found| found.to_vec())
}

/// Lists the address ranges that hold values, each as its first address and the
/// address after its last.
///
/// Calls `SparseVec::ranges`. Claimed of it: the ranges come in ascending order,
/// none is empty, none overlaps another, and together they cover exactly the
/// addresses at which the store holds a value.
#[verifier::external_body]
pub(crate) fn sparse_ranges(cells: &SparseVec<usize>) -> (out: Vec<(u64, u64)>)
    ensures
        ranges_cover(out@, sparse_contents(*cells).dom()),
{
    cells.ranges().map(|range| (range.start, range.end)).collect()
}

} // verus!
