use vstd::prelude::*;

verus! {

/// Big-endian bytes of a 16-bit value.
pub open spec fn be16(x: u16) -> Seq<u8> {
    seq![(x >> 8u16) as u8, x as u8]
}

/// Big-endian bytes of a 32-bit value.
pub open spec fn be32(x: u32) -> Seq<u8> {
    seq![(x >> 24u32) as u8, (x >> 16u32) as u8, (x >> 8u32) as u8, x as u8]
}

/// Big-endian bytes of a 64-bit value.
pub open spec fn be64(x: u64) -> Seq<u8> {
    be32((x >> 32u64) as u32) + be32(x as u32)
}

pub open spec fn read16(s: Seq<u8>, i: int) -> u16 {
    ((s[i] as u16) << 8u16) | (s[i + 1] as u16)
}

pub open spec fn read32(s: Seq<u8>, i: int) -> u32 {
    ((s[i] as u32) << 24u32) | ((s[i + 1] as u32) << 16u32) | ((s[i + 2] as u32) << 8u32) | (
    s[i + 3] as u32)
}

pub open spec fn read64(s: Seq<u8>, i: int) -> u64 {
    ((read32(s, i) as u64) << 32u64) | (read32(s, i + 4) as u64)
}

pub proof fn lemma_be16(x: u16)
    ensures
        read16(be16(x), 0) == x,
{
    let a = (x >> 8u16) as u8;
    let b = x as u8;
    assert((((a as u16) << 8u16) | (b as u16)) == x) by (bit_vector)
        requires
            a == (x >> 8u16) as u8,
            b == x as u8,
    ;
}

pub proof fn lemma_be32(x: u32)
    ensures
        read32(be32(x), 0) == x,
{
    let a = (x >> 24u32) as u8;
    let b = (x >> 16u32) as u8;
    let c = (x >> 8u32) as u8;
    let d = x as u8;
    assert((((a as u32) << 24u32) | ((b as u32) << 16u32) | ((c as u32) << 8u32) | (d as u32))
        == x) by (bit_vector)
        requires
            a == (x >> 24u32) as u8,
            b == (x >> 16u32) as u8,
            c == (x >> 8u32) as u8,
            d == x as u8,
    ;
}

pub proof fn lemma_be64(x: u64)
    ensures
        read64(be64(x), 0) == x,
{
    let hi = (x >> 32u64) as u32;
    let lo = x as u32;
    lemma_be32(hi);
    lemma_be32(lo);
    let s = be64(x);
    assert(read32(s, 0) == read32(be32(hi), 0));
    assert(read32(s, 4) == read32(be32(lo), 0));
    assert((((hi as u64) << 32u64) | (lo as u64)) == x) by (bit_vector)
        requires
            hi == (x >> 32u64) as u32,
            lo == x as u32,
    ;
}


pub fn push16(v: &mut Vec<u8>, x: u16)
    ensures
        final(v)@ == old(v)@ + be16(x),
{
    v.push((x >> 8u16) as u8);
    v.push(x as u8);
}

pub fn push32(v: &mut Vec<u8>, x: u32)
    ensures
        final(v)@ == old(v)@ + be32(x),
{
    v.push((x >> 24u32) as u8);
    v.push((x >> 16u32) as u8);
    v.push((x >> 8u32) as u8);
    v.push(x as u8);
}

pub fn push64(v: &mut Vec<u8>, x: u64)
    ensures
        final(v)@ == old(v)@ + be64(x),
{
    push32(v, (x >> 32u64) as u32);
    push32(v, x as u32);
    assert(final(v)@ =~= old(v)@ + be64(x));
}

pub fn get16(b: &Vec<u8>, i: usize) -> (r: u16)
    requires
        i + 2 <= b@.len(),
    ensures
        r == read16(b@, i as int),
{
    let _n = b.len();
    ((b[i] as u16) << 8u16) | (b[i + 1] as u16)
}

pub fn get32(b: &Vec<u8>, i: usize) -> (r: u32)
    requires
        i + 4 <= b@.len(),
    ensures
        r == read32(b@, i as int),
{
    let _n = b.len();
    ((b[i] as u32) << 24u32) | ((b[i + 1] as u32) << 16u32) | ((b[i + 2] as u32) << 8u32) | (b[i
        + 3] as u32)
}

pub fn get64(b: &Vec<u8>, i: usize) -> (r: u64)
    requires
        i + 8 <= b@.len(),
    ensures
        r == read64(b@, i as int),
{
    let _n = b.len();
    ((get32(b, i) as u64) << 32u64) | (get32(b, i + 4) as u64)
}

/// Reading four bytes at `i` only looks at those bytes.
pub proof fn lemma_read32_at(a: Seq<u8>, b: Seq<u8>, i: int, j: int)
    requires
        0 <= i,
        i + 4 <= a.len(),
        0 <= j,
        j + 4 <= b.len(),
        a[i] == b[j],
        a[i + 1] == b[j + 1],
        a[i + 2] == b[j + 2],
        a[i + 3] == b[j + 3],
    ensures
        read32(a, i) == read32(b, j),
{
}

/// Reading eight bytes at `i` only looks at those bytes.
pub proof fn lemma_read64_at(a: Seq<u8>, b: Seq<u8>, i: int, j: int)
    requires
        0 <= i,
        i + 8 <= a.len(),
        0 <= j,
        j + 8 <= b.len(),
        a.subrange(i, i + 8) == b.subrange(j, j + 8),
    ensures
        read64(a, i) == read64(b, j),
{
    let sa = a.subrange(i, i + 8);
    let sb = b.subrange(j, j + 8);
    assert(a[i] == sa[0] && sb[0] == b[j]);
    assert(a[i + 1] == sa[1] && sb[1] == b[j + 1]);
    assert(a[i + 2] == sa[2] && sb[2] == b[j + 2]);
    assert(a[i + 3] == sa[3] && sb[3] == b[j + 3]);
    assert(a[i + 4] == sa[4] && sb[4] == b[j + 4]);
    assert(a[i + 5] == sa[5] && sb[5] == b[j + 5]);
    assert(a[i + 6] == sa[6] && sb[6] == b[j + 6]);
    assert(a[i + 7] == sa[7] && sb[7] == b[j + 7]);
    lemma_read32_at(a, b, i, j);
    lemma_read32_at(a, b, i + 4, j + 4);
}

} // verus!
