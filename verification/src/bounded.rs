//! The fixed-capacity byte buffers of `heapless` that the library builds OS call
//! arguments in, with the contracts that the library relies on.
use vstd::prelude::*;

verus! {

#[verifier::external_type_specification]
#[verifier::external_body]
#[verifier::reject_recursive_types(T)]
pub struct ExHeaplessVec<T, const N: usize>(heapless::Vec<T, N>);

/// The bytes that a 256-byte syntax buffer holds, in order.
pub uninterp spec fn syntax_buffer_bytes(v: heapless::Vec<u8, 256>) -> Seq<u8>;

/// The bytes that a 128-byte host name buffer holds, in order.
pub uninterp spec fn host_buffer_bytes(v: heapless::Vec<u8, 128>) -> Seq<u8>;

/// `heapless::Vec::<u8, 256>::new`: the buffer it returns holds nothing.
#[verifier::external_body]
pub(crate) fn syntax_buffer_new() -> (v: heapless::Vec<u8, 256>)
    ensures
        syntax_buffer_bytes(v) == Seq::<u8>::empty(),
{
    heapless::Vec::new()
}

/// `heapless::Vec::<u8, 256>::push`: appends the byte when fewer than 256 bytes are held;
/// otherwise leaves the buffer as it was and returns the byte as the error.
#[verifier::external_body]
pub(crate) fn syntax_buffer_push(v: &mut heapless::Vec<u8, 256>, b: u8) -> (r: Result<(), u8>)
    ensures
        syntax_buffer_bytes(*old(v)).len() < 256 ==> r is Ok && syntax_buffer_bytes(*final(v))
            == syntax_buffer_bytes(*old(v)).push(b),
        syntax_buffer_bytes(*old(v)).len() >= 256 ==> r is Err && syntax_buffer_bytes(*final(v))
            == syntax_buffer_bytes(*old(v)),
        r matches Err(x) ==> x == b,
{
    v.push(b)
}

/// `heapless::Vec::<u8, 256>::extend_from_slice`: appends all of `bytes` when they fit in
/// the 256 bytes of capacity; otherwise leaves the buffer as it was and returns an error.
#[verifier::external_body]
pub(crate) fn syntax_buffer_extend(v: &mut heapless::Vec<u8, 256>, bytes: &[u8]) -> (r: Result<(), ()>)
    ensures
        syntax_buffer_bytes(*old(v)).len() + bytes@.len() <= 256 ==> r is Ok && syntax_buffer_bytes(
            *final(v),
        ) == syntax_buffer_bytes(*old(v)) + bytes@,
        syntax_buffer_bytes(*old(v)).len() + bytes@.len() > 256 ==> r is Err && syntax_buffer_bytes(
            *final(v),
        ) == syntax_buffer_bytes(*old(v)),
{
    v.extend_from_slice(bytes)
}

/// `heapless::Vec::<u8, 128>::new`: the buffer it returns holds nothing.
#[verifier::external_body]
pub(crate) fn host_buffer_new() -> (v: heapless::Vec<u8, 128>)
    ensures
        host_buffer_bytes(v) == Seq::<u8>::empty(),
{
    heapless::Vec::new()
}

/// `heapless::Vec::<u8, 128>::push`: appends the byte when fewer than 128 bytes are held;
/// otherwise leaves the buffer as it was and returns the byte as the error.
#[verifier::external_body]
pub(crate) fn host_buffer_push(v: &mut heapless::Vec<u8, 128>, b: u8) -> (r: Result<(), u8>)
    ensures
        host_buffer_bytes(*old(v)).len() < 128 ==> r is Ok && host_buffer_bytes(*final(v))
            == host_buffer_bytes(*old(v)).push(b),
        host_buffer_bytes(*old(v)).len() >= 128 ==> r is Err && host_buffer_bytes(*final(v))
            == host_buffer_bytes(*old(v)),
        r matches Err(x) ==> x == b,
{
    v.push(b)
}

} // verus!
