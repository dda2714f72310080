//! Dual-endian integers: every multi-byte number is recorded twice, first with
//! the least significant byte first, then with the most significant byte first.

use vstd::prelude::*;

verus! {

/// The number whose four bytes, least significant first, start at `at` in `bytes`.
pub open spec fn spec_le_u32(bytes: Seq<u8>, at: int) -> int {
    bytes[at] + 0x100 * bytes[at + 1] + 0x1_0000 * bytes[at + 2] + 0x100_0000 * bytes[at + 3]
}

/// Decodes the dual-endian 32-bit field that starts at `at`. The
/// little-endian copy is authoritative; the big-endian copy that follows it
/// is not consulted.
pub fn both_endian32(bytes: &[u8], at: usize) -> (value: u32)
    requires
        at + 8 <= bytes@.len(),
    ensures
        value == spec_le_u32(bytes@, at as int),
{
    let b0: u32 = bytes[at] as u32;
    let b1: u32 = bytes[at + 1] as u32;
    let b2: u32 = bytes[at + 2] as u32;
    let b3: u32 = bytes[at + 3] as u32;
    b0 + 0x100 * b1 + 0x1_0000 * b2 + 0x100_0000 * b3
}

} // verus!
