//! The fixed-capacity byte buffer that the decoder works in.
//!
//! The buffer is `heapless::Vec<u8, 1024>`.  Verus does not look inside it:
//! [`buffer_bytes`] names the bytes it holds, and the functions below state
//! what each operation of the collection does to them.  Their contracts are
//! taken on trust from the collection's source.
use vstd::prelude::*;

verus! {

/// How many bytes a buffer can hold.
pub const BUFFER_CAPACITY: usize = 1024;

#[verifier::external_type_specification]
#[verifier::external_body]
#[verifier::reject_recursive_types(T)]
pub struct ExHeaplessVec<T, const N: usize>(heapless::Vec<T, N>);

/// The bytes that a buffer holds, first to last.
pub uninterp spec fn buffer_bytes(buf: heapless::Vec<u8, 1024>) -> Seq<u8>;

/// `heapless::Vec::new`: a buffer that holds nothing.
#[verifier::external_body]
pub(crate) fn buffer_new() -> (buf: heapless::Vec<u8, 1024>)
    ensures
        buffer_bytes(buf) == Seq::<u8>::empty(),
{
    heapless::Vec::new()
}

/// The length of the slice that `heapless::Vec` dereferences to: the number
/// of bytes held, which never exceeds the capacity.
#[verifier::external_body]
pub(crate) fn buffer_len(buf: &heapless::Vec<u8, 1024>) -> (len: usize)
    ensures
        len == buffer_bytes(*buf).len(),
        len <= BUFFER_CAPACITY,
{
    buf.len()
}

/// `heapless::Vec::clear`: afterwards the buffer holds nothing.
#[verifier::external_body]
pub(crate) fn buffer_clear(buf: &mut heapless::Vec<u8, 1024>)
    ensures
        buffer_bytes(*final(buf)) == Seq::<u8>::empty(),
{
    buf.clear()
}

/// `heapless::Vec::push`: appends the byte while there is room; a full
/// buffer stays as it is and the byte comes back as the error.
#[verifier::external_body]
pub(crate) fn buffer_push(buf: &mut heapless::Vec<u8, 1024>, byte: u8) -> (pushed: Result<(), u8>)
    ensures
        pushed is Ok <==> buffer_bytes(*old(buf)).len() < BUFFER_CAPACITY,
        pushed is Ok ==> buffer_bytes(*final(buf)) == buffer_bytes(*old(buf)).push(byte),
        pushed is Err ==> buffer_bytes(*final(buf)) == buffer_bytes(*old(buf)),
        pushed matches Err(back) ==> back == byte,
{
    buf.push(byte)
}

/// `heapless::Vec::extend_from_slice`: appends all of `other` if the result
/// fits the capacity; otherwise nothing is changed and the call fails.
#[verifier::external_body]
pub(crate) fn buffer_extend_from_slice(buf: &mut heapless::Vec<u8, 1024>, other: &[u8]) -> (extended:
    Result<(), ()>)
    ensures
        extended is Ok <==> buffer_bytes(*old(buf)).len() + other@.len() <= BUFFER_CAPACITY,
        extended is Ok ==> buffer_bytes(*final(buf)) == buffer_bytes(*old(buf)) + other@,
        extended is Err ==> buffer_bytes(*final(buf)) == buffer_bytes(*old(buf)),
{
    buf.extend_from_slice(other)
}

/// `heapless::Vec::as_slice`: the held bytes as a slice.
#[verifier::external_body]
pub(crate) fn buffer_as_slice(buf: &heapless::Vec<u8, 1024>) -> (slice: &[u8])
    ensures
        slice@ == buffer_bytes(*buf),
{
    buf.as_slice()
}

/// `heapless::Vec::as_mut_slice`: the held bytes as a slice to write
/// through; what the slice holds in the end is what the buffer holds.
#[verifier::external_body]
pub(crate) fn buffer_as_mut_slice(buf: &mut heapless::Vec<u8, 1024>) -> (slice: &mut [u8])
    ensures
        slice@ == buffer_bytes(*old(buf)),
        final(slice)@ == buffer_bytes(*final(buf)),
{
    buf.as_mut_slice()
}

} // verus!
