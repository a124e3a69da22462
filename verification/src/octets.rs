//! Reference-counted byte strings from the `bytes` crate.
use bytes::Bytes;
use vstd::prelude::*;

verus! {

/// `bytes::Bytes`: an immutable, cheaply cloneable byte string.
#[verifier::external_type_specification]
#[verifier::external_body]
pub struct ExBytes(bytes::Bytes);

/// The bytes that a `Bytes` holds, in order.
pub uninterp spec fn content(b: bytes::Bytes) -> Seq<u8>;

/// `Bytes::copy_from_slice` makes a byte string that holds a copy of the slice.
pub assume_specification[ bytes::Bytes::copy_from_slice ](data: &[u8]) -> (r: bytes::Bytes)
    ensures
        content(r) == data@,
;

/// `Bytes::new` makes the empty byte string.
pub assume_specification[ bytes::Bytes::new ]() -> (r: bytes::Bytes)
    ensures
        content(r) == Seq::<u8>::empty(),
;

/// `Bytes::clone` makes a byte string that holds the same bytes.
pub assume_specification[ <bytes::Bytes as std::clone::Clone>::clone ](b: &bytes::Bytes) -> (r:
    bytes::Bytes)
    ensures
        content(r) == content(*b),
;

/// Calls `==` on two `Bytes`, which compares the bytes they hold.
#[verifier::external_body]
pub(crate) fn same_octets(a: &Bytes, b: &Bytes) -> (r: bool)
    ensures
        r == (content(*a) == content(*b)),
{
    a == b
}

/// Calls `to_vec` on the slice that a `Bytes` derefs to: a copy of its bytes.
#[verifier::external_body]
pub(crate) fn to_vec(b: &Bytes) -> (r: Vec<u8>)
    ensures
        r@ == content(*b),
{
    b.to_vec()
}

/// Calls `Bytes::from` on a vector, which takes the vector's bytes over.
#[verifier::external_body]
pub(crate) fn from_vec(v: Vec<u8>) -> (r: Bytes)
    ensures
        content(r) == v@,
{
    Bytes::from(v)
}

} // verus!
