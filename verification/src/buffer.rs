//! The byte queue that both halves of the encrypted stream keep their
//! plaintext in.

use vstd::prelude::*;

verus! {

/// Declares `bytes::BytesMut`, a growable queue of bytes. Nothing is known
/// of a value of it but what the functions below say.
#[verifier::external_type_specification]
#[verifier::external_body]
pub struct ExBytesMut(bytes::BytesMut);

/// The bytes that a `bytes::BytesMut` holds, the oldest first: what its
/// `as_ref` would show.
pub uninterp spec fn held(queue: bytes::BytesMut) -> Seq<u8>;

/// Calls `bytes::BytesMut::new`, which makes a queue that holds nothing.
#[verifier::external_body]
pub(crate) fn queue_new() -> (queue: bytes::BytesMut)
    ensures
        held(queue) == Seq::<u8>::empty(),
{
    bytes::BytesMut::new()
}

/// Calls `bytes::BytesMut::len`, the number of bytes held.
#[verifier::external_body]
pub(crate) fn queue_len(queue: &bytes::BytesMut) -> (n: usize)
    ensures
        n == held(*queue).len(),
{
    queue.len()
}

/// Calls `bytes::BufMut::put_slice` on the queue, which copies the slice to
/// its end. It panics where the new length would not fit a `usize`.
#[verifier::external_body]
pub(crate) fn queue_put(queue: &mut bytes::BytesMut, data: &[u8])
    requires
        held(*old(queue)).len() + data@.len() <= usize::MAX,
    ensures
        held(*final(queue)) == held(*old(queue)) + data@,
{
    bytes::BufMut::put_slice(queue, data)
}

/// Calls `bytes::Buf::copy_to_bytes` on the queue, which takes its first `n`
/// bytes out and leaves the rest; it panics where fewer are held. The bytes
/// taken are handed on as a vector.
#[verifier::external_body]
pub(crate) fn queue_take(queue: &mut bytes::BytesMut, n: usize) -> (taken: Vec<u8>)
    requires
        n <= held(*old(queue)).len(),
    ensures
        taken@ == held(*old(queue)).subrange(0, n as int),
        held(*final(queue)) == held(*old(queue)).subrange(n as int, held(*old(queue)).len() as int),
{
    bytes::Buf::copy_to_bytes(queue, n).to_vec()
}

} // verus!
