//! Little-endian integers inside byte sequences.

use vstd::prelude::*;

verus! {

/// The two bytes of `x`, least significant first.
pub open spec fn u16_bytes(x: u16) -> Seq<u8> {
    seq![(x % 256) as u8, (x / 256 % 256) as u8]
}

/// The four bytes of `x`, least significant first.
pub open spec fn u32_bytes(x: u32) -> Seq<u8> {
    seq![
        (x % 256) as u8,
        (x / 256 % 256) as u8,
        (x / 256 / 256 % 256) as u8,
        (x / 256 / 256 / 256 % 256) as u8,
    ]
}

/// The eight bytes of `x`, least significant first.
pub open spec fn u64_bytes(x: u64) -> Seq<u8> {
    seq![
        (x % 256) as u8,
        (x / 256 % 256) as u8,
        (x / 256 / 256 % 256) as u8,
        (x / 256 / 256 / 256 % 256) as u8,
        (x / 256 / 256 / 256 / 256 % 256) as u8,
        (x / 256 / 256 / 256 / 256 / 256 % 256) as u8,
        (x / 256 / 256 / 256 / 256 / 256 / 256 % 256) as u8,
        (x / 256 / 256 / 256 / 256 / 256 / 256 / 256 % 256) as u8,
    ]
}

/// The little-endian 16-bit value that starts at `at`.
pub open spec fn u16_at(s: Seq<u8>, at: int) -> u16 {
    (s[at] + 0x100 * s[at + 1]) as u16
}

/// The little-endian 32-bit value that starts at `at`.
pub open spec fn u32_at(s: Seq<u8>, at: int) -> u32 {
    (s[at] + 0x100 * s[at + 1] + 0x1_0000 * s[at + 2] + 0x100_0000 * s[at + 3]) as u32
}

/// The little-endian 64-bit value that starts at `at`.
pub open spec fn u64_at(s: Seq<u8>, at: int) -> u64 {
    (s[at] + 0x100 * s[at + 1] + 0x1_0000 * s[at + 2] + 0x100_0000 * s[at + 3] + 0x1_0000_0000
        * s[at + 4] + 0x100_0000_0000 * s[at + 5] + 0x1_0000_0000_0000 * s[at + 6]
        + 0x100_0000_0000_0000 * s[at + 7]) as u64
}

/// A run of `n` zero bytes.
pub open spec fn zeros(n: nat) -> Seq<u8> {
    Seq::new(n, |i: int| 0u8)
}

/// Every byte of `s` is zero.
pub open spec fn all_zero(s: Seq<u8>) -> bool {
    forall|i: int| 0 <= i < s.len() ==> s[i] == 0
}

/// A sequence that holds the bytes of `x` from `at` on holds the value `x` there.
pub proof fn u16_round_trip(s: Seq<u8>, at: int, x: u16)
    requires
        0 <= at,
        at + 2 <= s.len(),
        s.subrange(at, at + 2) == u16_bytes(x),
    ensures
        u16_at(s, at) == x,
{
    let t = s.subrange(at, at + 2);
    assert(t[0] == s[at] && t[1] == s[at + 1]);
}

/// A sequence that holds the bytes of `x` from `at` on holds the value `x` there.
pub proof fn u32_round_trip(s: Seq<u8>, at: int, x: u32)
    requires
        0 <= at,
        at + 4 <= s.len(),
        s.subrange(at, at + 4) == u32_bytes(x),
    ensures
        u32_at(s, at) == x,
{
    let t = s.subrange(at, at + 4);
    assert(t[0] == s[at] && t[1] == s[at + 1] && t[2] == s[at + 2] && t[3] == s[at + 3]);
}

/// A sequence that holds the bytes of `x` from `at` on holds the value `x` there.
pub proof fn u64_round_trip(s: Seq<u8>, at: int, x: u64)
    requires
        0 <= at,
        at + 8 <= s.len(),
        s.subrange(at, at + 8) == u64_bytes(x),
    ensures
        u64_at(s, at) == x,
{
    let t = s.subrange(at, at + 8);
    assert(t[0] == s[at] && t[1] == s[at + 1] && t[2] == s[at + 2] && t[3] == s[at + 3]);
    assert(t[4] == s[at + 4] && t[5] == s[at + 5] && t[6] == s[at + 6] && t[7] == s[at + 7]);
}

/// Reads the little-endian 16-bit value at `offset`.
pub fn read_u16(bytes: &[u8], offset: usize) -> (value: u16)
    requires
        offset + 2 <= bytes@.len(),
    ensures
        value == u16_at(bytes@, offset as int),
{
    bytes[offset] as u16 + 0x100 * bytes[offset + 1] as u16
}

/// Reads the little-endian 32-bit value at `offset`.
pub fn read_u32(bytes: &[u8], offset: usize) -> (value: u32)
    requires
        offset + 4 <= bytes@.len(),
    ensures
        value == u32_at(bytes@, offset as int),
{
    bytes[offset] as u32 + 0x100 * bytes[offset + 1] as u32 + 0x1_0000 * bytes[offset + 2] as u32
        + 0x100_0000 * bytes[offset + 3] as u32
}

/// Reads the little-endian 64-bit value at `offset`.
pub fn read_u64(bytes: &[u8], offset: usize) -> (value: u64)
    requires
        offset + 8 <= bytes@.len(),
    ensures
        value == u64_at(bytes@, offset as int),
{
    bytes[offset] as u64 + 0x100 * bytes[offset + 1] as u64 + 0x1_0000 * bytes[offset + 2] as u64
        + 0x100_0000 * bytes[offset + 3] as u64 + 0x1_0000_0000 * bytes[offset + 4] as u64
        + 0x100_0000_0000 * bytes[offset + 5] as u64 + 0x1_0000_0000_0000 * bytes[offset + 6] as u64
        + 0x100_0000_0000_0000 * bytes[offset + 7] as u64
}

/// Appends the bytes of `x`.
pub fn push_u16(out: &mut Vec<u8>, x: u16)
    ensures
        final(out)@ == old(out)@ + u16_bytes(x),
{
    out.push((x % 256) as u8);
    out.push((x / 256 % 256) as u8);
    assert(out@ =~= old(out)@ + u16_bytes(x));
}

/// Appends the bytes of `x`.
pub fn push_u32(out: &mut Vec<u8>, x: u32)
    ensures
        final(out)@ == old(out)@ + u32_bytes(x),
{
    out.push((x % 256) as u8);
    out.push((x / 256 % 256) as u8);
    out.push((x / 256 / 256 % 256) as u8);
    out.push((x / 256 / 256 / 256 % 256) as u8);
    assert(out@ =~= old(out)@ + u32_bytes(x));
}

/// Appends the bytes of `x`.
pub fn push_u64(out: &mut Vec<u8>, x: u64)
    ensures
        final(out)@ == old(out)@ + u64_bytes(x),
{
    out.push((x % 256) as u8);
    out.push((x / 256 % 256) as u8);
    out.push((x / 256 / 256 % 256) as u8);
    out.push((x / 256 / 256 / 256 % 256) as u8);
    out.push((x / 256 / 256 / 256 / 256 % 256) as u8);
    out.push((x / 256 / 256 / 256 / 256 / 256 % 256) as u8);
    out.push((x / 256 / 256 / 256 / 256 / 256 / 256 % 256) as u8);
    out.push((x / 256 / 256 / 256 / 256 / 256 / 256 / 256 % 256) as u8);
    assert(out@ =~= old(out)@ + u64_bytes(x));
}

/// Appends every byte of `src`.
pub fn push_slice(out: &mut Vec<u8>, src: &[u8])
    ensures
        final(out)@ == old(out)@ + src@,
{
    let ghost before = out@;
    let n: usize = src.len();
    for i in 0..n
        invariant
            n == src@.len(),
            out@ == before + src@.subrange(0, i as int),
    {
        out.push(src[i]);
        assert(out@ =~= before + src@.subrange(0, i + 1));
    }
    assert(src@.subrange(0, n as int) =~= src@);
}

/// Appends `n` zero bytes.
pub fn push_zeros(out: &mut Vec<u8>, n: usize)
    ensures
        final(out)@ == old(out)@ + zeros(n as nat),
{
    let ghost before = out@;
    for i in 0..n
        invariant
            out@ == before + zeros(i as nat),
    {
        out.push(0u8);
        assert(out@ =~= before + zeros((i + 1) as nat));
    }
}

/// A copy of the bytes in `[from, to)`.
pub fn copy_range(src: &[u8], from: usize, to: usize) -> (out: Vec<u8>)
    requires
        from <= to <= src@.len(),
    ensures
        out@ == src@.subrange(from as int, to as int),
{
    let mut out: Vec<u8> = Vec::new();
    for i in from..to
        invariant
            from <= i <= to <= src@.len(),
            out@ == src@.subrange(from as int, i as int),
    {
        out.push(src[i]);
        assert(out@ =~= src@.subrange(from as int, i + 1));
    }
    out
}

/// Tells whether every byte in `[from, to)` is zero.
pub fn range_is_zero(src: &[u8], from: usize, to: usize) -> (zero: bool)
    requires
        from <= to <= src@.len(),
    ensures
        zero == all_zero(src@.subrange(from as int, to as int)),
{
    for i in from..to
        invariant
            from <= i <= to <= src@.len(),
            forall|j: int| from <= j < i ==> src@[j] == 0,
    {
        if src[i] != 0 {
            assert(src@.subrange(from as int, to as int)[i - from] == src@[i as int]);
            return false;
        }
    }
    true
}

/// Tells whether two slices hold the same bytes.
pub fn same_bytes(a: &[u8], b: &[u8]) -> (same: bool)
    ensures
        same == (a@ == b@),
{
    if a.len() != b.len() {
        return false;
    }
    let n: usize = a.len();
    for i in 0..n
        invariant
            n == a@.len(),
            n == b@.len(),
            forall|j: int| 0 <= j < i ==> a@[j] == b@[j],
    {
        if a[i] != b[i] {
            return false;
        }
    }
    assert(a@ =~= b@);
    true
}

} // verus!
