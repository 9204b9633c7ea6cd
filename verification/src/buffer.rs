use vstd::prelude::*;

verus! {

/// The growable byte buffer of the `bytes` crate.
#[verifier::external_type_specification]
#[verifier::external_body]
pub struct ExBytesMut(bytes::BytesMut);

/// The bytes a `BytesMut` holds, in order.
pub uninterp spec fn bytes_mut_view(b: bytes::BytesMut) -> Seq<u8>;

/// Calls `BytesMut::new()`. Claims the buffer is empty.
#[verifier::external_body]
pub(crate) fn bytes_mut_new() -> (b: bytes::BytesMut)
    ensures
        bytes_mut_view(b) == Seq::<u8>::empty(),
{
    bytes::BytesMut::new()
}

/// Calls `BytesMut::with_capacity(capacity)`. Claims the buffer is empty.
#[verifier::external_body]
pub(crate) fn bytes_mut_with_capacity(capacity: usize) -> (b: bytes::BytesMut)
    ensures
        bytes_mut_view(b) == Seq::<u8>::empty(),
{
    bytes::BytesMut::with_capacity(capacity)
}

/// Calls `BytesMut::extend_from_slice`. Claims the data is appended.
#[verifier::external_body]
pub(crate) fn bytes_mut_extend(b: &mut bytes::BytesMut, data: &[u8])
    ensures
        bytes_mut_view(*final(b)) == bytes_mut_view(*old(b)) + data@,
{
    b.extend_from_slice(data)
}

/// Calls `BytesMut::len`. Claims it is the number of bytes held.
#[verifier::external_body]
pub(crate) fn bytes_mut_len(b: &bytes::BytesMut) -> (r: usize)
    ensures
        r == bytes_mut_view(*b).len(),
{
    b.len()
}

/// Calls `BytesMut::clear`. Claims the buffer is then empty.
#[verifier::external_body]
pub(crate) fn bytes_mut_clear(b: &mut bytes::BytesMut)
    ensures
        bytes_mut_view(*final(b)) == Seq::<u8>::empty(),
{
    b.clear()
}

/// Calls `BytesMut::split_to(at)` and copies the split-off part into a
/// vector. Claims: the first `at` bytes are handed out, the rest stay.
#[verifier::external_body]
pub(crate) fn bytes_mut_split_to(b: &mut bytes::BytesMut, at: usize) -> (r: Vec<u8>)
    requires
        at <= bytes_mut_view(*old(b)).len(),
    ensures
        r@ == bytes_mut_view(*old(b)).take(at as int),
        bytes_mut_view(*final(b)) == bytes_mut_view(*old(b)).skip(at as int),
{
    b.split_to(at).to_vec()
}

/// Calls `BytesMut::split()` and copies what it hands out into a vector.
/// Claims: every byte is handed out and the buffer is left empty.
#[verifier::external_body]
pub(crate) fn bytes_mut_take_all(b: &mut bytes::BytesMut) -> (r: Vec<u8>)
    ensures
        r@ == bytes_mut_view(*old(b)),
        bytes_mut_view(*final(b)) == Seq::<u8>::empty(),
{
    b.split().to_vec()
}

/// Copies the first `n` bytes held (`b[..n].to_vec()`). Claims they are
/// those bytes.
#[verifier::external_body]
pub(crate) fn bytes_mut_prefix(b: &bytes::BytesMut, n: usize) -> (r: Vec<u8>)
    requires
        n <= bytes_mut_view(*b).len(),
    ensures
        r@ == bytes_mut_view(*b).take(n as int),
{
    b[..n].to_vec()
}

} // verus!
