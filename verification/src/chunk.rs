//! Chunks of request and response bodies.
use vstd::prelude::*;

verus! {

/// A reference-counted byte buffer of the `bytes` crate.
#[verifier::external_type_specification]
#[verifier::external_body]
pub struct ExBytes(bytes::Bytes);

/// The bytes that a chunk holds.
pub uninterp spec fn chunk_data(chunk: bytes::Bytes) -> Seq<u8>;

/// The smaller of two lengths.
pub open spec fn shorter(a: nat, b: nat) -> nat {
    if a <= b {
        a
    } else {
        b
    }
}

/// Calls `bytes::Bytes::from` with a vector, which makes a chunk of its bytes.
#[verifier::external_body]
pub(crate) fn chunk_from(data: Vec<u8>) -> (chunk: bytes::Bytes)
    ensures
        chunk_data(chunk) == data@,
{
    bytes::Bytes::from(data)
}

/// Calls `bytes::Bytes::len`, the number of bytes that a chunk still holds.
#[verifier::external_body]
pub(crate) fn chunk_len(chunk: &bytes::Bytes) -> (len: usize)
    ensures
        len == chunk_data(*chunk).len(),
{
    chunk.len()
}

/// Calls `read` of `bytes::buf::Reader`, which moves bytes from the front of a chunk into
/// a buffer, as many as both allow, and never fails.
#[verifier::external_body]
pub(crate) fn read_chunk(
    chunk: &mut bytes::Bytes,
    buffer: &mut [u8],
    from: usize,
    to: usize,
) -> (count: usize)
    requires
        from <= to <= old(buffer)@.len(),
    ensures
        count == shorter((to - from) as nat, chunk_data(*old(chunk)).len()),
        chunk_data(*final(chunk)) == chunk_data(*old(chunk)).skip(count as int),
        final(buffer)@ == old(buffer)@.take(from as int) + chunk_data(*old(chunk)).take(
            count as int,
        ) + old(buffer)@.skip(from + count),
{
    std::io::Read::read(&mut bytes::Buf::reader(chunk), &mut buffer[from..to]).unwrap()
}

} // verus!
