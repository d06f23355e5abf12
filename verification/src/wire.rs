//! Integers as they stand on the wire: unsigned, most significant byte first.

use vstd::prelude::*;

verus! {

/// The two bytes of `x`.
#[verifier::opaque]
pub open spec fn u16_bytes(x: u16) -> Seq<u8> {
    seq![(x / 256) as u8, (x % 256) as u8]
}

/// The four bytes of `x`.
#[verifier::opaque]
pub open spec fn u32_bytes(x: u32) -> Seq<u8> {
    u16_bytes((x / 0x1_0000) as u16) + u16_bytes((x % 0x1_0000) as u16)
}

/// The eight bytes of `x`.
#[verifier::opaque]
pub open spec fn u64_bytes(x: u64) -> Seq<u8> {
    u32_bytes((x / 0x1_0000_0000) as u32) + u32_bytes((x % 0x1_0000_0000) as u32)
}

/// The number that the two bytes of `s` from index `at` on denote.
#[verifier::opaque]
pub open spec fn u16_at(s: Seq<u8>, at: int) -> u16 {
    (s[at] as int * 256 + s[at + 1] as int) as u16
}

/// The number that the four bytes of `s` from index `at` on denote.
#[verifier::opaque]
pub open spec fn u32_at(s: Seq<u8>, at: int) -> u32 {
    (u16_at(s, at) as int * 0x1_0000 + u16_at(s, at + 2) as int) as u32
}

/// The number that the eight bytes of `s` from index `at` on denote.
#[verifier::opaque]
pub open spec fn u64_at(s: Seq<u8>, at: int) -> u64 {
    (u32_at(s, at) as int * 0x1_0000_0000 + u32_at(s, at + 4) as int) as u64
}

/// A number of 16, 32 or 64 bits takes two, four or eight bytes.
pub proof fn lemma_widths(a: u16, b: u32, c: u64)
    ensures
        u16_bytes(a).len() == 2,
        u32_bytes(b).len() == 4,
        u64_bytes(c).len() == 8,
{
    reveal(u16_bytes);
    reveal(u32_bytes);
    reveal(u64_bytes);
    assert(u32_bytes(b).len() == 4);
    assert(u32_bytes((c / 0x1_0000_0000) as u32).len() == 4);
    assert(u32_bytes((c % 0x1_0000_0000) as u32).len() == 4);
}

/// Reading back the two bytes of a number gives the number.
pub proof fn lemma_u16_round_trip(s: Seq<u8>, at: int, x: u16)
    requires
        0 <= at,
        at + 2 <= s.len(),
        s.subrange(at, at + 2) == u16_bytes(x),
    ensures
        u16_at(s, at) == x,
{
    reveal(u16_bytes);
    reveal(u16_at);
    let part = s.subrange(at, at + 2);
    assert(part[0] == s[at]);
    assert(part[1] == s[at + 1]);
}

/// Reading back the four bytes of a number gives the number.
pub proof fn lemma_u32_round_trip(s: Seq<u8>, at: int, x: u32)
    requires
        0 <= at,
        at + 4 <= s.len(),
        s.subrange(at, at + 4) == u32_bytes(x),
    ensures
        u32_at(s, at) == x,
{
    reveal(u32_bytes);
    reveal(u32_at);
    let part = s.subrange(at, at + 4);
    let high = (x / 0x1_0000) as u16;
    let low = (x % 0x1_0000) as u16;
    lemma_widths(high, 0, 0);
    lemma_widths(low, 0, 0);
    assert(s.subrange(at, at + 2) =~= part.subrange(0, 2));
    assert(s.subrange(at + 2, at + 4) =~= part.subrange(2, 4));
    assert(part.subrange(0, 2) =~= u16_bytes(high));
    assert(part.subrange(2, 4) =~= u16_bytes(low));
    lemma_u16_round_trip(s, at, high);
    lemma_u16_round_trip(s, at + 2, low);
}

/// Reading back the eight bytes of a number gives the number.
pub proof fn lemma_u64_round_trip(s: Seq<u8>, at: int, x: u64)
    requires
        0 <= at,
        at + 8 <= s.len(),
        s.subrange(at, at + 8) == u64_bytes(x),
    ensures
        u64_at(s, at) == x,
{
    reveal(u64_bytes);
    reveal(u64_at);
    let part = s.subrange(at, at + 8);
    let high = (x / 0x1_0000_0000) as u32;
    let low = (x % 0x1_0000_0000) as u32;
    lemma_widths(0, high, 0);
    lemma_widths(0, low, 0);
    assert(s.subrange(at, at + 4) =~= part.subrange(0, 4));
    assert(s.subrange(at + 4, at + 8) =~= part.subrange(4, 8));
    assert(part.subrange(0, 4) =~= u32_bytes(high));
    assert(part.subrange(4, 8) =~= u32_bytes(low));
    lemma_u32_round_trip(s, at, high);
    lemma_u32_round_trip(s, at + 4, low);
}

/// What is read at an index depends on the bytes read and on nothing else.
pub proof fn lemma_same_bytes_same_numbers(s: Seq<u8>, t: Seq<u8>, at: int, width: int)
    requires
        0 <= at,
        width == 2 || width == 4 || width == 8,
        at + width <= s.len(),
        at + width <= t.len(),
        s.subrange(at, at + width) == t.subrange(at, at + width),
    ensures
        width == 2 ==> u16_at(s, at) == u16_at(t, at),
        width == 4 ==> u32_at(s, at) == u32_at(t, at),
        width == 8 ==> u64_at(s, at) == u64_at(t, at),
{
    reveal(u16_at);
    reveal(u32_at);
    reveal(u64_at);
    let p = s.subrange(at, at + width);
    let q = t.subrange(at, at + width);
    assert(p[0] == s[at] && q[0] == t[at]);
    assert(p[1] == s[at + 1] && q[1] == t[at + 1]);
    if width >= 4 {
        assert(p[2] == s[at + 2] && q[2] == t[at + 2]);
        assert(p[3] == s[at + 3] && q[3] == t[at + 3]);
    }
    if width >= 8 {
        assert(p[4] == s[at + 4] && q[4] == t[at + 4]);
        assert(p[5] == s[at + 5] && q[5] == t[at + 5]);
        assert(p[6] == s[at + 6] && q[6] == t[at + 6]);
        assert(p[7] == s[at + 7] && q[7] == t[at + 7]);
    }
}

/// Appends the two bytes of `x` to `out`.
pub fn put_u16(out: &mut Vec<u8>, x: u16)
    ensures
        final(out)@ == old(out)@ + u16_bytes(x),
{
    reveal(u16_bytes);
    out.push((x / 256) as u8);
    out.push((x % 256) as u8);
    assert(out@ =~= old(out)@ + u16_bytes(x));
}

/// Appends the four bytes of `x` to `out`.
pub fn put_u32(out: &mut Vec<u8>, x: u32)
    ensures
        final(out)@ == old(out)@ + u32_bytes(x),
{
    reveal(u32_bytes);
    put_u16(out, (x / 0x1_0000) as u16);
    put_u16(out, (x % 0x1_0000) as u16);
    assert(out@ =~= old(out)@ + u32_bytes(x));
}

/// Appends the eight bytes of `x` to `out`.
pub fn put_u64(out: &mut Vec<u8>, x: u64)
    ensures
        final(out)@ == old(out)@ + u64_bytes(x),
{
    reveal(u64_bytes);
    put_u32(out, (x / 0x1_0000_0000) as u32);
    put_u32(out, (x % 0x1_0000_0000) as u32);
    assert(out@ =~= old(out)@ + u64_bytes(x));
}

/// Reads the two bytes of `buf` from index `at` on.
pub fn get_u16(buf: &[u8], at: usize) -> (x: u16)
    requires
        at + 2 <= buf@.len(),
    ensures
        x == u16_at(buf@, at as int),
{
    reveal(u16_at);
    (buf[at] as u16) * 256 + (buf[at + 1] as u16)
}

/// Reads the four bytes of `buf` from index `at` on.
pub fn get_u32(buf: &[u8], at: usize) -> (x: u32)
    requires
        at + 4 <= buf@.len(),
    ensures
        x == u32_at(buf@, at as int),
{
    reveal(u32_at);
    let len: usize = buf.len();
    assert(at + 4 <= len);
    let high: u16 = get_u16(buf, at);
    let low: u16 = get_u16(buf, at + 2);
    (high as u32) * 0x1_0000 + (low as u32)
}

/// Reads the eight bytes of `buf` from index `at` on.
pub fn get_u64(buf: &[u8], at: usize) -> (x: u64)
    requires
        at + 8 <= buf@.len(),
    ensures
        x == u64_at(buf@, at as int),
{
    reveal(u64_at);
    let len: usize = buf.len();
    assert(at + 8 <= len);
    let high: u32 = get_u32(buf, at);
    let low: u32 = get_u32(buf, at + 4);
    (high as u64) * 0x1_0000_0000 + (low as u64)
}

} // verus!
