//! Trusted view of the fixed-capacity byte buffer both sides build frames in.
//!
//! The buffer is `heapless::Vec<u8, 32>`: a stack-allocated vector with a
//! compile-time capacity, which keeps the protocol allocation-free. Verus does
//! not read `heapless`, so the type is declared opaque, its contents are named
//! by [`hv_contents`], and each method the protocol calls is wrapped with the
//! contract that `heapless`'s source shows.

use vstd::prelude::*;

verus! {

#[verifier::external_type_specification]
#[verifier::external_body]
#[verifier::reject_recursive_types(T)]
pub struct ExHeaplessVec<T, const N: usize>(heapless::Vec<T, N>);

/// The bytes a frame buffer holds, in order.
pub uninterp spec fn hv_contents(v: heapless::Vec<u8, 32>) -> Seq<u8>;

/// Relies on `heapless::Vec::new`: constructs an empty vector.
#[verifier::external_body]
pub fn hv_new() -> (r: heapless::Vec<u8, 32>)
    ensures
        hv_contents(r) == Seq::<u8>::empty(),
{
    heapless::Vec::new()
}

/// Relies on `heapless::Vec::clear`: removes all elements.
#[verifier::external_body]
pub fn hv_clear(v: &mut heapless::Vec<u8, 32>)
    ensures
        hv_contents(*final(v)) == Seq::<u8>::empty(),
{
    v.clear()
}

/// Relies on `heapless::Vec::push`: appends when the vector is below its
/// capacity of 32 and otherwise returns the item back unchanged.
#[verifier::external_body]
pub fn hv_push(v: &mut heapless::Vec<u8, 32>, b: u8) -> (r: Result<(), u8>)
    ensures
        hv_contents(*old(v)).len() < 32 ==> r is Ok,
        hv_contents(*old(v)).len() < 32 ==> hv_contents(*final(v)) == hv_contents(*old(v)).push(b),
        hv_contents(*old(v)).len() >= 32 ==> r is Err,
        hv_contents(*old(v)).len() >= 32 ==> hv_contents(*final(v)) == hv_contents(*old(v)),
{
    v.push(b)
}

/// Relies on `<heapless::Vec as Deref>::deref` and `<[u8]>::len`: the number
/// of elements the vector holds.
#[verifier::external_body]
pub fn hv_len(v: &heapless::Vec<u8, 32>) -> (r: usize)
    ensures
        r == hv_contents(*v).len(),
{
    v.len()
}

/// Relies on `<heapless::Vec as Deref>::deref` and slice indexing: the element
/// at `i`.
#[verifier::external_body]
pub fn hv_get(v: &heapless::Vec<u8, 32>, i: usize) -> (r: u8)
    requires
        i < hv_contents(*v).len(),
    ensures
        r == hv_contents(*v)[i as int],
{
    v[i]
}

/// Relies on `heapless::Vec::as_slice`: a slice of all elements in order.
#[verifier::external_body]
pub fn hv_as_slice(v: &heapless::Vec<u8, 32>) -> (r: &[u8])
    ensures
        r@ == hv_contents(*v),
{
    v.as_slice()
}

} // verus!
