//! Little-endian integers in a byte sequence, and splitting of byte slices.

use vstd::prelude::*;

verus! {

/// The 16-bit little-endian integer that starts at index `at` of `s`.
pub open spec fn le_u16(s: Seq<u8>, at: int) -> u16 {
    (s[at] as int + 0x100 * (s[at + 1] as int)) as u16
}

/// The 32-bit little-endian integer that starts at index `at` of `s`.
pub open spec fn le_u32(s: Seq<u8>, at: int) -> u32 {
    (s[at] as int + 0x100 * (s[at + 1] as int) + 0x1_0000 * (s[at + 2] as int) + 0x100_0000 * (
    s[at + 3] as int)) as u32
}

/// Reads the 16-bit little-endian integer at `at`.
pub(crate) fn read_u16(bytes: &[u8], at: usize) -> (v: u16)
    requires
        at + 2 <= bytes.len(),
    ensures
        v == le_u16(bytes@, at as int),
{
    let b0: u16 = bytes[at] as u16;
    let b1: u16 = bytes[at + 1] as u16;
    b0 + 0x100 * b1
}

/// Reads the 32-bit little-endian integer at `at`.
pub(crate) fn read_u32(bytes: &[u8], at: usize) -> (v: u32)
    requires
        at + 4 <= bytes.len(),
    ensures
        v == le_u32(bytes@, at as int),
{
    let b0: u32 = bytes[at] as u32;
    let b1: u32 = bytes[at + 1] as u32;
    let b2: u32 = bytes[at + 2] as u32;
    let b3: u32 = bytes[at + 3] as u32;
    b0 + 0x100 * b1 + 0x1_0000 * b2 + 0x100_0000 * b3
}

/// `zerocopy::ByteSlice::split_at` on a shared byte slice: the part before
/// index `mid` and the part from `mid` on, both borrowed from `bytes`. The
/// outside function panics where `mid` exceeds the length.
#[verifier::external_body]
pub(crate) fn split_bytes<'a>(bytes: &'a [u8], mid: usize) -> (parts: (&'a [u8], &'a [u8]))
    requires
        mid <= bytes.len(),
    ensures
        parts.0@ == bytes@.subrange(0, mid as int),
        parts.1@ == bytes@.subrange(mid as int, bytes@.len() as int),
{
    zerocopy::ByteSlice::split_at(bytes, mid)
}

} // verus!
