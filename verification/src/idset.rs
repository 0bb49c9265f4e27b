use vstd::prelude::*;

verus! {

// Connection ids are dense 64-bit integers, and rooms and namespaces keep
// whole sets of them. Those sets are roaring bitmaps, so that union and
// subtraction during broadcast target resolution stay cheap. The bitmap
// type is opaque to the verifier; `id_set_contents` names what a bitmap
// holds, and every operation below is specified against it.

#[verifier::external_type_specification]
#[verifier::external_body]
pub struct ExRoaringTreemap(roaring::RoaringTreemap);

/// The set of ids a roaring bitmap holds.
pub uninterp spec fn id_set_contents(s: roaring::RoaringTreemap) -> Set<u64>;

/// Relies on roaring::RoaringTreemap::new: a fresh bitmap is empty.
#[verifier::external_body]
pub(crate) fn id_set_new() -> (r: roaring::RoaringTreemap)
    ensures
        id_set_contents(r) == Set::<u64>::empty(),
{
    roaring::RoaringTreemap::new()
}

/// Relies on roaring::RoaringTreemap::insert: adds the value and reports
/// whether it was absent.
#[verifier::external_body]
pub(crate) fn id_set_insert(s: &mut roaring::RoaringTreemap, value: u64) -> (r: bool)
    ensures
        id_set_contents(*final(s)) == id_set_contents(*old(s)).insert(value),
        r == !id_set_contents(*old(s)).contains(value),
{
    s.insert(value)
}

/// Relies on roaring::RoaringTreemap::remove: removes the value and reports
/// whether it was present.
#[verifier::external_body]
pub(crate) fn id_set_remove(s: &mut roaring::RoaringTreemap, value: u64) -> (r: bool)
    ensures
        id_set_contents(*final(s)) == id_set_contents(*old(s)).remove(value),
        r == id_set_contents(*old(s)).contains(value),
{
    s.remove(value)
}

/// Relies on roaring::RoaringTreemap::len: the number of ids held.
#[verifier::external_body]
pub(crate) fn id_set_len(s: &roaring::RoaringTreemap) -> (r: u64)
    ensures
        id_set_contents(*s).finite() ==> r == id_set_contents(*s).len(),
{
    s.len()
}

/// Relies on roaring::RoaringTreemap::is_empty.
#[verifier::external_body]
pub(crate) fn id_set_is_empty(s: &roaring::RoaringTreemap) -> (r: bool)
    ensures
        r == (id_set_contents(*s) =~= Set::<u64>::empty()),
{
    s.is_empty()
}

/// Relies on roaring::RoaringTreemap's Clone: the copy holds the same ids.
#[verifier::external_body]
pub(crate) fn id_set_clone(s: &roaring::RoaringTreemap) -> (r: roaring::RoaringTreemap)
    ensures
        id_set_contents(r) == id_set_contents(*s),
{
    s.clone()
}

/// Relies on roaring::RoaringTreemap's BitOrAssign with a borrowed operand:
/// in-place union.
#[verifier::external_body]
pub(crate) fn id_set_union_with(s: &mut roaring::RoaringTreemap, other: &roaring::RoaringTreemap)
    ensures
        id_set_contents(*final(s)) == id_set_contents(*old(s)).union(id_set_contents(*other)),
{
    *s |= other;
}

/// Relies on roaring::RoaringTreemap's SubAssign with a borrowed operand:
/// in-place set difference.
#[verifier::external_body]
pub(crate) fn id_set_difference_with(
    s: &mut roaring::RoaringTreemap,
    other: &roaring::RoaringTreemap,
)
    ensures
        id_set_contents(*final(s)) == id_set_contents(*old(s)).difference(id_set_contents(*other)),
{
    *s -= other;
}

/// Relies on roaring::RoaringTreemap::iter: yields exactly the ids held,
/// in ascending order.
#[verifier::external_body]
pub(crate) fn id_set_to_vec(s: &roaring::RoaringTreemap) -> (r: Vec<u64>)
    ensures
        r@.to_set() == id_set_contents(*s),
        forall|i: int, j: int| 0 <= i < j < r@.len() ==> r@[i] < r@[j],
{
    s.iter().collect()
}

} // verus!
