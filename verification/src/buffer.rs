use bytes::Bytes;
use vstd::prelude::*;
use vstd::slice::slice_to_vec;

verus! {

/// `bytes::Bytes`, an immutable run of bytes.
#[verifier::external_type_specification]
#[verifier::external_body]
pub struct ExBytes(bytes::Bytes);

/// The bytes that a `Bytes` holds, in order.
pub uninterp spec fn bytes_contents(bytes: Bytes) -> Seq<u8>;

/// `Bytes::new` makes an empty run.
pub assume_specification[ Bytes::new ]() -> (bytes: Bytes)
    ensures
        bytes_contents(bytes) == Seq::<u8>::empty(),
;

/// `Bytes::len` counts the bytes of the run.
pub assume_specification[ Bytes::len ](bytes: &Bytes) -> (len: usize)
    ensures
        len == bytes_contents(*bytes).len(),
;

/// `Bytes::slice` on a range of places: the bytes from `start` up to, not
/// with, `end`. It panics where the range does not lie inside the run.
#[verifier::external_body]
pub(crate) fn bytes_slice(bytes: &Bytes, start: usize, end: usize) -> (slice: Bytes)
    requires
        start <= end <= bytes_contents(*bytes).len(),
    ensures
        bytes_contents(slice) == bytes_contents(*bytes).subrange(start as int, end as int),
{
    bytes.slice(start..end)
}

/// `<Bytes as AsRef<[u8]>>::as_ref` lends the bytes of the run as a slice.
#[verifier::external_body]
pub(crate) fn bytes_as_slice(bytes: &Bytes) -> (slice: &[u8])
    ensures
        slice@ == bytes_contents(*bytes),
{
    bytes.as_ref()
}

/// `<Bytes as From<Vec<u8>>>::from` takes the vector's bytes over as they are.
#[verifier::external_body]
pub(crate) fn bytes_from_vec(data: Vec<u8>) -> (bytes: Bytes)
    ensures
        bytes_contents(bytes) == data@,
{
    Bytes::from(data)
}

/// One run that holds `first` and `second`, in this order.
pub fn join_slices(first: &[u8], second: &[u8]) -> (joined: Bytes)
    ensures
        bytes_contents(joined) == first@ + second@,
{
    let mut output: Vec<u8> = slice_to_vec(first);
    output.extend_from_slice(second);
    assert(output@ =~= first@ + second@);
    bytes_from_vec(output)
}

} // verus!
