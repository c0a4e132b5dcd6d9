//! Multi-byte unsigned integers as they lie in a byte sequence, and bounds-
//! checked readers for them.

use vstd::prelude::*;

verus! {

/// The 16-bit value whose most significant byte is `s[at]`.
pub open spec fn be16(s: Seq<u8>, at: int) -> int {
    s[at] * 0x100 + s[at + 1]
}

/// The 16-bit value whose least significant byte is `s[at]`.
pub open spec fn le16(s: Seq<u8>, at: int) -> int {
    s[at] + s[at + 1] * 0x100
}

/// The 32-bit value whose most significant byte is `s[at]`.
pub open spec fn be32(s: Seq<u8>, at: int) -> int {
    s[at] * 0x100_0000 + s[at + 1] * 0x1_0000 + s[at + 2] * 0x100 + s[at + 3]
}

/// The 32-bit value whose least significant byte is `s[at]`.
pub open spec fn le32(s: Seq<u8>, at: int) -> int {
    s[at] + s[at + 1] * 0x100 + s[at + 2] * 0x1_0000 + s[at + 3] * 0x100_0000
}

/// The four bytes of `s` from `at` on are `a`, `b`, `c`, `d`, and all of them
/// lie inside `s`.
pub open spec fn tag_at(s: Seq<u8>, at: int, a: u8, b: u8, c: u8, d: u8) -> bool {
    &&& 0 <= at
    &&& at + 4 <= s.len()
    &&& s[at] == a
    &&& s[at + 1] == b
    &&& s[at + 2] == c
    &&& s[at + 3] == d
}

/// Reads a big-endian 16-bit value.
pub(crate) fn read_be16(data: &[u8], at: usize) -> (value: u16)
    requires
        at + 2 <= data@.len(),
    ensures
        value == be16(data@, at as int),
{
    (data[at] as u16) * 0x100 + (data[at + 1] as u16)
}

/// Reads a little-endian 16-bit value.
pub(crate) fn read_le16(data: &[u8], at: usize) -> (value: u16)
    requires
        at + 2 <= data@.len(),
    ensures
        value == le16(data@, at as int),
{
    (data[at] as u16) + (data[at + 1] as u16) * 0x100
}

/// Reads a big-endian 32-bit value.
pub(crate) fn read_be32(data: &[u8], at: usize) -> (value: u32)
    requires
        at + 4 <= data@.len(),
    ensures
        value == be32(data@, at as int),
{
    (data[at] as u32) * 0x100_0000 + (data[at + 1] as u32) * 0x1_0000 + (data[at + 2] as u32)
        * 0x100 + (data[at + 3] as u32)
}

/// Reads a little-endian 32-bit value.
pub(crate) fn read_le32(data: &[u8], at: usize) -> (value: u32)
    requires
        at + 4 <= data@.len(),
    ensures
        value == le32(data@, at as int),
{
    (data[at] as u32) + (data[at + 1] as u32) * 0x100 + (data[at + 2] as u32) * 0x1_0000 + (
    data[at + 3] as u32) * 0x100_0000
}

/// Whether the four bytes of `data` from `at` on are `a`, `b`, `c`, `d`.
pub(crate) fn has_tag(data: &[u8], at: usize, a: u8, b: u8, c: u8, d: u8) -> (found: bool)
    requires
        at + 4 <= data@.len(),
    ensures
        found == tag_at(data@, at as int, a, b, c, d),
{
    data[at] == a && data[at + 1] == b && data[at + 2] == c && data[at + 3] == d
}

} // verus!
