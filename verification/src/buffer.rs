use vstd::prelude::*;

use arrayvec::ArrayVec;

verus! {

/// Frames and payloads are returned in a fixed-capacity vector from the
/// `arrayvec` crate, so encoding and decoding never allocate. The capacity is
/// a generous implementation ceiling: an encoded frame is at most 522 bytes
/// and a decoded payload at most 260.
#[verifier::external_type_specification]
#[verifier::external_body]
#[verifier::reject_recursive_types(T)]
pub struct ExArrayVec<T, const CAP: usize>(ArrayVec<T, CAP>);

/// The bytes held by an output buffer, in order.
pub uninterp spec fn buf_bytes(v: ArrayVec<u8, 1024>) -> Seq<u8>;

/// Relies on arrayvec::ArrayVec::new: returns a vector holding no elements.
#[verifier::external_body]
pub(crate) fn buf_new() -> (r: ArrayVec<u8, 1024>)
    ensures
        buf_bytes(r) == Seq::<u8>::empty(),
{
    ArrayVec::new()
}

/// Relies on arrayvec::ArrayVec::push: appends one element at the end. It
/// panics on a full vector, so spare capacity is required here.
#[verifier::external_body]
pub(crate) fn buf_push(v: &mut ArrayVec<u8, 1024>, b: u8)
    requires
        buf_bytes(*old(v)).len() < 1024,
    ensures
        buf_bytes(*final(v)) == buf_bytes(*old(v)).push(b),
{
    v.push(b)
}

/// Relies on arrayvec::ArrayVec::len: returns the number of elements held.
#[verifier::external_body]
pub(crate) fn buf_len(v: &ArrayVec<u8, 1024>) -> (r: usize)
    ensures
        r as nat == buf_bytes(*v).len(),
{
    v.len()
}

} // verus!
