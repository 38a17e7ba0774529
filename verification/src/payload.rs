//! Payloads are held in `bytes::Bytes`; this module states what the library relies on.

use vstd::prelude::*;
use bytes::Bytes;

verus! {

#[verifier::external_type_specification]
#[verifier::external_body]
pub struct ExBytes(bytes::Bytes);

/// The bytes that a `Bytes` value holds, in order.
pub uninterp spec fn contents(b: Bytes) -> Seq<u8>;

/// `Bytes::from(&[u8])`: a new buffer that holds a copy of the slice.
#[verifier::external_body]
pub(crate) fn bytes_from_slice(data: &[u8]) -> (r: Bytes)
    ensures
        contents(r) == data@,
{
    Bytes::from(data)
}

/// `Bytes::from(Vec<u8>)`: a buffer that holds the bytes of the vector.
#[verifier::external_body]
pub(crate) fn bytes_from_vec(data: Vec<u8>) -> (r: Bytes)
    ensures
        contents(r) == data@,
{
    Bytes::from(data)
}

/// `Bytes::len`: the number of bytes held.
#[verifier::external_body]
pub(crate) fn bytes_len(b: &Bytes) -> (r: usize)
    ensures
        r == contents(*b).len(),
{
    b.len()
}

/// `Bytes::as_ref`: the bytes held, as a slice.
#[verifier::external_body]
pub(crate) fn bytes_as_slice(b: &Bytes) -> (r: &[u8])
    ensures
        r@ == contents(*b),
{
    b.as_ref()
}

/// `Bytes::clone`: a second handle to the same bytes.
#[verifier::external_body]
pub(crate) fn bytes_clone(b: &Bytes) -> (r: Bytes)
    ensures
        contents(r) == contents(*b),
{
    b.clone()
}

} // verus!
