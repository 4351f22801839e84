//! Pixel storage at the alignment that the graphics processor reads from.

use vstd::prelude::*;
use aligned_vec::AVec;
use aligned_vec::ConstAlign;
use crate::error::AllocationError;

verus! {

/// The alignment of pixel storage, in bytes.
pub const PIXEL_ALIGNMENT: usize = 16;

/// A byte buffer whose first byte lies at a multiple of 16: an
/// `aligned_vec::AVec` of bytes. Its bytes are fixed when it is made.
#[verifier::external_body]
#[derive(Debug)]
pub struct AlignedBytes {
    inner: AVec<u8, ConstAlign<16>>,
}

/// The bytes that an aligned buffer holds, in order.
pub uninterp spec fn aligned_contents(buffer: AlignedBytes) -> Seq<u8>;

impl View for AlignedBytes {
    type V = Seq<u8>;

    open spec fn view(&self) -> Seq<u8> {
        aligned_contents(*self)
    }
}

/// Calls `AVec::from_slice` with an alignment of 16. Trusted: the new buffer
/// holds a copy of the slice. A slice longer than `isize::MAX` is left out:
/// there the crate panics with a capacity overflow.
#[verifier::external_body]
fn avec_from_slice(bytes: &[u8]) -> (buffer: AlignedBytes)
    requires
        bytes@.len() <= isize::MAX,
    ensures
        aligned_contents(buffer) == bytes@,
{
    AlignedBytes { inner: AVec::from_slice(PIXEL_ALIGNMENT, bytes) }
}

/// Calls `AVec::as_slice`. Trusted: the slice is the buffer's contents.
#[verifier::external_body]
fn avec_as_slice(buffer: &AlignedBytes) -> (bytes: &[u8])
    ensures
        bytes@ == aligned_contents(*buffer),
{
    buffer.inner.as_slice()
}

impl AlignedBytes {
    /// Copies `bytes` into aligned storage. A buffer of more than
    /// `isize::MAX` bytes cannot be allocated and is refused.
    pub fn from_slice(bytes: &[u8]) -> (result: Result<AlignedBytes, AllocationError>)
        ensures
            match result {
                Ok(buffer) => buffer@ == bytes@ && bytes@.len() <= isize::MAX,
                Err(e) => bytes@.len() > isize::MAX && e.requested_size == bytes@.len(),
            },
    {
        if bytes.len() > isize::MAX as usize {
            Err(AllocationError { requested_size: bytes.len() })
        } else {
            Ok(avec_from_slice(bytes))
        }
    }

    /// The bytes of the buffer.
    pub fn as_slice(&self) -> (bytes: &[u8])
        ensures
            bytes@ == self@,
    {
        avec_as_slice(self)
    }

    /// The number of bytes in the buffer.
    pub fn len(&self) -> (len: usize)
        ensures
            len == self@.len(),
    {
        avec_as_slice(self).len()
    }
}

} // verus!
