//! Big-endian integers inside byte buffers.

use vstd::prelude::*;

verus! {

/// The value of two bytes read in network order.
pub open spec fn be16(hi: u8, lo: u8) -> u16 {
    (hi as int * 256 + lo as int) as u16
}

/// The two bytes of `v` in network order.
pub open spec fn be16_bytes(v: u16) -> Seq<u8> {
    seq![(v / 256) as u8, (v % 256) as u8]
}

/// The value of the two bytes of `s` at `at`.
pub open spec fn be16_at(s: Seq<u8>, at: int) -> u16 {
    be16(s[at], s[at + 1])
}

pub proof fn lemma_be16_round_trip(v: u16)
    ensures
        be16(be16_bytes(v)[0], be16_bytes(v)[1]) == v,
        be16_bytes(v).len() == 2,
{
}

pub proof fn lemma_be16_bytes_round_trip(hi: u8, lo: u8)
    ensures
        be16_bytes(be16(hi, lo)) == seq![hi, lo],
{
    assert(be16_bytes(be16(hi, lo)) =~= seq![hi, lo]);
}

/// The value of four bytes read in network order.
pub open spec fn be32(b0: u8, b1: u8, b2: u8, b3: u8) -> u32 {
    (b0 as int * 0x1000000 + b1 as int * 0x10000 + b2 as int * 0x100 + b3 as int) as u32
}

/// The four bytes of `v` in network order.
pub open spec fn be32_bytes(v: u32) -> Seq<u8> {
    seq![(v / 0x1000000) as u8, (v / 0x10000 % 0x100) as u8, (v / 0x100 % 0x100) as u8, (v % 0x100) as u8]
}

/// The value of three bytes read in network order.
pub open spec fn be24(b0: u8, b1: u8, b2: u8) -> u32 {
    (b0 as int * 0x10000 + b1 as int * 0x100 + b2 as int) as u32
}

/// The three low bytes of `v` in network order.
pub open spec fn be24_bytes(v: u32) -> Seq<u8> {
    seq![(v / 0x10000 % 0x100) as u8, (v / 0x100 % 0x100) as u8, (v % 0x100) as u8]
}

pub proof fn lemma_be32_round_trip(v: u32)
    ensures
        be32(be32_bytes(v)[0], be32_bytes(v)[1], be32_bytes(v)[2], be32_bytes(v)[3]) == v,
        be32_bytes(v).len() == 4,
{
    let b = be32_bytes(v);
    assert(b[0] as int * 0x1000000 + b[1] as int * 0x10000 + b[2] as int * 0x100 + b[3] as int == v) by (nonlinear_arith)
        requires
            b[0] == (v / 0x1000000) as u8,
            b[1] == (v / 0x10000 % 0x100) as u8,
            b[2] == (v / 0x100 % 0x100) as u8,
            b[3] == (v % 0x100) as u8,
    ;
}

pub proof fn lemma_be24_round_trip(v: u32)
    requires
        v < 0x1000000,
    ensures
        be24(be24_bytes(v)[0], be24_bytes(v)[1], be24_bytes(v)[2]) == v,
        be24_bytes(v).len() == 3,
{
    let b = be24_bytes(v);
    assert(b[0] as int * 0x10000 + b[1] as int * 0x100 + b[2] as int == v) by (nonlinear_arith)
        requires
            v < 0x1000000,
            b[0] == (v / 0x10000 % 0x100) as u8,
            b[1] == (v / 0x100 % 0x100) as u8,
            b[2] == (v % 0x100) as u8,
    ;
}

/// Reads the two bytes of `b` at `at` as a big-endian integer.
pub fn read_be16(b: &[u8], at: usize) -> (r: u16)
    requires
        at + 2 <= b@.len(),
    ensures
        r == be16_at(b@, at as int),
{
    (b[at] as u16) * 256 + (b[at + 1] as u16)
}

/// Reads the three bytes of `b` at `at` as a big-endian integer.
pub fn read_be24(b: &[u8], at: usize) -> (r: u32)
    requires
        at + 3 <= b@.len(),
    ensures
        r == be24(b@[at as int], b@[at + 1], b@[at + 2]),
        r < 0x1000000,
{
    (b[at] as u32) * 0x10000 + (b[at + 1] as u32) * 0x100 + (b[at + 2] as u32)
}

/// Reads the four bytes of `b` at `at` as a big-endian integer.
pub fn read_be32(b: &[u8], at: usize) -> (r: u32)
    requires
        at + 4 <= b@.len(),
    ensures
        r == be32(b@[at as int], b@[at + 1], b@[at + 2], b@[at + 3]),
{
    (b[at] as u32) * 0x1000000 + (b[at + 1] as u32) * 0x10000 + (b[at + 2] as u32) * 0x100 + (
    b[at + 3] as u32)
}

/// Appends the three low bytes of `v` in network order.
pub fn push_be24(buf: &mut Vec<u8>, v: u32)
    ensures
        final(buf)@ == old(buf)@ + be24_bytes(v),
{
    buf.push((v / 0x10000 % 0x100) as u8);
    buf.push((v / 0x100 % 0x100) as u8);
    buf.push((v % 0x100) as u8);
    assert(buf@ =~= old(buf)@ + be24_bytes(v));
}

/// Appends the four bytes of `v` in network order.
pub fn push_be32(buf: &mut Vec<u8>, v: u32)
    ensures
        final(buf)@ == old(buf)@ + be32_bytes(v),
{
    buf.push((v / 0x1000000) as u8);
    buf.push((v / 0x10000 % 0x100) as u8);
    buf.push((v / 0x100 % 0x100) as u8);
    buf.push((v % 0x100) as u8);
    assert(buf@ =~= old(buf)@ + be32_bytes(v));
}

/// Appends the two bytes of `v` in network order.
pub fn push_be16(buf: &mut Vec<u8>, v: u16)
    ensures
        final(buf)@ == old(buf)@ + be16_bytes(v),
{
    buf.push((v / 256) as u8);
    buf.push((v % 256) as u8);
    assert(buf@ =~= old(buf)@ + be16_bytes(v));
}

/// Overwrites the two bytes of `buf` at `at` with `v` in network order.
pub fn write_be16(buf: &mut Vec<u8>, at: usize, v: u16)
    requires
        at + 2 <= old(buf)@.len(),
    ensures
        final(buf)@ == old(buf)@.update(at as int, (v / 256) as u8).update(at + 1, (v % 256) as u8),
{
    let n: usize = buf.len();
    assert(at + 2 <= n);
    let next: usize = at + 1;
    buf[at] = (v / 256) as u8;
    buf[next] = (v % 256) as u8;
}

/// A new vector that holds the bytes of `src`.
pub fn copy_bytes(src: &[u8]) -> (r: Vec<u8>)
    ensures
        r@ == src@,
{
    let mut r: Vec<u8> = Vec::new();
    push_bytes(&mut r, src);
    assert(r@ =~= src@);
    r
}

/// Appends the bytes of `src` in order.
pub fn push_bytes(buf: &mut Vec<u8>, src: &[u8])
    ensures
        final(buf)@ == old(buf)@ + src@,
{
    let ghost start = buf@;
    let mut i: usize = 0;
    while i < src.len()
        invariant
            0 <= i <= src@.len(),
            buf@ == start + src@.subrange(0, i as int),
        decreases src@.len() - i,
    {
        buf.push(src[i]);
        i = i + 1;
        assert(buf@ =~= start + src@.subrange(0, i as int));
    }
    assert(src@.subrange(0, i as int) =~= src@);
}

} // verus!
