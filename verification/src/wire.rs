//! Little-endian integers in byte sequences.

use vstd::prelude::*;

verus! {

/// The two bytes of `x`, least significant first.
pub open spec fn le16(x: u16) -> Seq<u8> {
    seq![(x % 256) as u8, (x / 256) as u8]
}

/// The four bytes of `x`, least significant first.
pub open spec fn le32(x: u32) -> Seq<u8> {
    seq![
        (x % 256) as u8,
        (x / 0x100 % 256) as u8,
        (x / 0x1_0000 % 256) as u8,
        (x / 0x100_0000) as u8,
    ]
}

/// The eight bytes of `x`, least significant first.
pub open spec fn le64(x: u64) -> Seq<u8> {
    le32((x % 0x1_0000_0000) as u32) + le32((x / 0x1_0000_0000) as u32)
}

/// The number whose bytes, least significant first, are the four of `s` from `at` on.
pub open spec fn value32(s: Seq<u8>, at: int) -> int {
    s[at] + 0x100 * s[at + 1] + 0x1_0000 * s[at + 2] + 0x100_0000 * s[at + 3]
}

/// Appends the bytes of `x`, least significant first.
pub fn push_u16(out: &mut Vec<u8>, x: u16)
    ensures
        final(out)@ == old(out)@ + le16(x),
{
    out.push((x % 256) as u8);
    out.push((x / 256) as u8);
    assert(out@ =~= old(out)@ + le16(x));
}

/// Appends the bytes of `x`, least significant first.
pub fn push_u32(out: &mut Vec<u8>, x: u32)
    ensures
        final(out)@ == old(out)@ + le32(x),
{
    out.push((x % 256) as u8);
    out.push((x / 0x100 % 256) as u8);
    out.push((x / 0x1_0000 % 256) as u8);
    out.push((x / 0x100_0000) as u8);
    assert(out@ =~= old(out)@ + le32(x));
}

/// Appends the bytes of `x`, least significant first.
pub fn push_u64(out: &mut Vec<u8>, x: u64)
    ensures
        final(out)@ == old(out)@ + le64(x),
{
    push_u32(out, (x % 0x1_0000_0000) as u32);
    push_u32(out, (x / 0x1_0000_0000) as u32);
    assert(out@ =~= old(out)@ + le64(x));
}

/// Reads four bytes from `at` on, least significant first.
pub fn read_u32(bytes: &[u8], at: usize) -> (r: u32)
    requires
        at + 4 <= bytes@.len(),
    ensures
        r == value32(bytes@, at as int),
{
    bytes[at] as u32 + 0x100 * (bytes[at + 1] as u32) + 0x1_0000 * (bytes[at + 2] as u32)
        + 0x100_0000 * (bytes[at + 3] as u32)
}

/// Reading the bytes of a number gives the number back.
pub proof fn lemma_le32_value(x: u32)
    ensures
        value32(le32(x), 0) == x,
{
    assert(x / 0x100 / 0x100 == x / 0x1_0000);
    assert(x / 0x1_0000 / 0x100 == x / 0x100_0000);
}

/// Four bytes are the bytes of the number they spell.
pub proof fn lemma_value_le32(s: Seq<u8>, at: int)
    requires
        0 <= at,
        at + 4 <= s.len(),
    ensures
        0 <= value32(s, at) <= u32::MAX,
        le32(value32(s, at) as u32) == s.subrange(at, at + 4),
{
    let x = value32(s, at);
    assert(x % 256 == s[at]);
    assert(x / 0x100 == s[at + 1] + 0x100 * s[at + 2] + 0x1_0000 * s[at + 3]);
    assert(x / 0x1_0000 == s[at + 2] + 0x100 * s[at + 3]);
    assert(x / 0x100_0000 == s[at + 3]);
    assert(le32(x as u32) =~= s.subrange(at, at + 4));
}

/// The bytes of a number are its digits to the base 256, the least significant
/// first.
pub proof fn law_bytes_are_digits(x: u16, y: u32, z: u64)
    ensures
        le16(x).len() == 2,
        le16(x)[0] + 0x100 * le16(x)[1] == x,
        le32(y).len() == 4,
        le32(y)[0] + 0x100 * le32(y)[1] + 0x1_0000 * le32(y)[2] + 0x100_0000 * le32(y)[3] == y,
        le64(z).len() == 8,
        le64(z)[0] + 0x100 * le64(z)[1] + 0x1_0000 * le64(z)[2] + 0x100_0000 * le64(z)[3]
            + 0x1_0000_0000 * le64(z)[4] + 0x100_0000_0000 * le64(z)[5] + 0x1_0000_0000_0000 * le64(
            z,
        )[6] + 0x100_0000_0000_0000 * le64(z)[7] == z,
{
    lemma_le32_value(y);
    let low = (z % 0x1_0000_0000) as u32;
    let high = (z / 0x1_0000_0000) as u32;
    lemma_le32_value(low);
    lemma_le32_value(high);
}

/// Reading takes the byte at the place given as the least significant, and the
/// three after it in turn.
pub proof fn law_reading_starts_with_the_least(s: Seq<u8>, at: int)
    ensures
        value32(s, at) % 0x100 == s[at],
        value32(s, at) / 0x100 % 0x100 == s[at + 1],
        value32(s, at) / 0x1_0000 % 0x100 == s[at + 2],
        value32(s, at) / 0x100_0000 == s[at + 3],
{
}

} // verus!
