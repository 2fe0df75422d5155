//! Little-endian field encoding shared by every fixed-layout record.
use vstd::prelude::*;

verus! {

/// The unsigned integer that the two bytes at `at` encode, least significant first.
pub open spec fn le_u16(b: Seq<u8>, at: int) -> u16 {
    (b[at] + 256 * b[at + 1]) as u16
}

/// The unsigned integer that the four bytes at `at` encode, least significant first.
pub open spec fn le_u32(b: Seq<u8>, at: int) -> u32 {
    (b[at] + 256 * b[at + 1] + 65536 * b[at + 2] + 16777216 * b[at + 3]) as u32
}

/// The unsigned integer that the eight bytes at `at` encode, least significant first.
pub open spec fn le_u64(b: Seq<u8>, at: int) -> u64 {
    (le_u32(b, at) + 4294967296 * le_u32(b, at + 4)) as u64
}

/// Byte `k` (least significant first) of `v`.
pub open spec fn byte_of(v: int, k: nat) -> u8
    decreases k,
{
    if k == 0 {
        (v % 256) as u8
    } else {
        byte_of(v / 256, (k - 1) as nat)
    }
}

/// `b` with the two bytes at `at` replaced by the encoding of `v`.
pub open spec fn put_u16(b: Seq<u8>, at: int, v: u16) -> Seq<u8> {
    b.update(at, byte_of(v as int, 0)).update(at + 1, byte_of(v as int, 1))
}

/// `b` with the four bytes at `at` replaced by the encoding of `v`.
#[verifier::opaque]
pub open spec fn put_u32(b: Seq<u8>, at: int, v: u32) -> Seq<u8> {
    b.update(at, byte_of(v as int, 0)).update(at + 1, byte_of(v as int, 1)).update(
        at + 2,
        byte_of(v as int, 2),
    ).update(at + 3, byte_of(v as int, 3))
}

/// `b` with the eight bytes at `at` replaced by the encoding of `v`.
pub open spec fn put_u64(b: Seq<u8>, at: int, v: u64) -> Seq<u8> {
    put_u32(put_u32(b, at, (v % 4294967296) as u32), at + 4, (v / 4294967296) as u32)
}

/// A read of the two bytes at `at` after writing `v` there gives back `v`;
/// every other byte keeps its value.
pub proof fn lemma_put_u16(b: Seq<u8>, at: int, v: u16)
    requires
        0 <= at,
        at + 2 <= b.len(),
    ensures
        put_u16(b, at, v).len() == b.len(),
        le_u16(put_u16(b, at, v), at) == v,
        forall|i: int| 0 <= i < b.len() && !(at <= i < at + 2) ==> put_u16(b, at, v)[i] == b[i],
{
    reveal_with_fuel(byte_of, 2);
    let x = v as int;
    assert(x == x % 256 + 256 * ((x / 256) % 256)) by (nonlinear_arith)
        requires
            0 <= x < 65536,
    ;
}

/// A read of the four bytes at `at` after writing `v` there gives back
/// `v`; every other byte keeps its value.
pub proof fn lemma_put_u32(b: Seq<u8>, at: int, v: u32)
    requires
        0 <= at,
        at + 4 <= b.len(),
    ensures
        put_u32(b, at, v).len() == b.len(),
        le_u32(put_u32(b, at, v), at) == v,
        forall|i: int| 0 <= i < b.len() && !(at <= i < at + 4) ==> put_u32(b, at, v)[i] == b[i],
{
    reveal(put_u32);
    reveal_with_fuel(byte_of, 4);
    let x = v as int;
    assert(x == x % 256 + 256 * ((x / 256) % 256) + 65536 * (((x / 256) / 256) % 256) + 16777216
        * ((((x / 256) / 256) / 256) % 256)) by (nonlinear_arith)
        requires
            0 <= x < 4294967296,
    ;
}

/// Reading the word at `p` after a write of the word at `at` elsewhere.
pub proof fn lemma_put_u32_apart(b: Seq<u8>, at: int, v: u32, p: int)
    requires
        0 <= at,
        at + 4 <= b.len(),
        0 <= p,
        p + 4 <= b.len(),
        p + 4 <= at || at + 4 <= p,
    ensures
        le_u32(put_u32(b, at, v), p) == le_u32(b, p),
{
    lemma_put_u32(b, at, v);
    let c = put_u32(b, at, v);
    assert(c[p] == b[p] && c[p + 1] == b[p + 1] && c[p + 2] == b[p + 2] && c[p + 3] == b[p + 3]);
}

/// A read of the eight bytes at `at` after writing `v` there gives back
/// `v`; every other byte keeps its value.
pub proof fn lemma_put_u64(b: Seq<u8>, at: int, v: u64)
    requires
        0 <= at,
        at + 8 <= b.len(),
    ensures
        put_u64(b, at, v).len() == b.len(),
        le_u64(put_u64(b, at, v), at) == v,
        forall|i: int| 0 <= i < b.len() && !(at <= i < at + 8) ==> put_u64(b, at, v)[i] == b[i],
{
    let lo = (v % 4294967296) as u32;
    let hi = (v / 4294967296) as u32;
    let b1 = put_u32(b, at, lo);
    lemma_put_u32(b, at, lo);
    lemma_put_u32(b1, at + 4, hi);
    let b2 = put_u32(b1, at + 4, hi);
    assert(le_u32(b2, at) == lo);
    let x = v as int;
    assert(x == x % 4294967296 + 4294967296 * (x / 4294967296)) by (nonlinear_arith);
}

/// Reads the little-endian `u16` at `at`.
pub fn read_u16(b: &[u8], at: usize) -> (r: u16)
    requires
        at + 2 <= b@.len(),
    ensures
        r == le_u16(b@, at as int),
{
    b[at] as u16 + (b[at + 1] as u16) * 256
}

/// Reads the little-endian `u32` at `at`.
pub fn read_u32(b: &[u8], at: usize) -> (r: u32)
    requires
        at + 4 <= b@.len(),
    ensures
        r == le_u32(b@, at as int),
{
    b[at] as u32 + (b[at + 1] as u32) * 256 + (b[at + 2] as u32) * 65536 + (b[at + 3] as u32)
        * 16777216
}

/// Reads the little-endian `u64` at `at`.
pub fn read_u64(b: &[u8], at: usize) -> (r: u64)
    requires
        at + 8 <= b@.len(),
    ensures
        r == le_u64(b@, at as int),
{
    let len: usize = b.len();
    assert(at + 8 <= len);
    let lo = read_u32(b, at) as u64;
    let hi = read_u32(b, at + 4) as u64;
    lo + hi * 4294967296
}

/// Writes `v` little-endian at `at`.
pub fn write_u16(b: &mut [u8], at: usize, v: u16)
    requires
        at + 2 <= old(b)@.len(),
    ensures
        final(b)@ == put_u16(old(b)@, at as int, v),
{
    proof {
        reveal_with_fuel(byte_of, 2);
    }
    b[at] = (v % 256) as u8;
    b[at + 1] = (v / 256 % 256) as u8;
}

/// Writes `v` little-endian at `at`.
pub fn write_u32(b: &mut [u8], at: usize, v: u32)
    requires
        at + 4 <= old(b)@.len(),
    ensures
        final(b)@ == put_u32(old(b)@, at as int, v),
        final(b)@.len() == old(b)@.len(),
{
    proof {
        reveal(put_u32);
        reveal_with_fuel(byte_of, 4);
    }
    b[at] = (v % 256) as u8;
    b[at + 1] = (v / 256 % 256) as u8;
    b[at + 2] = (v / 256 / 256 % 256) as u8;
    b[at + 3] = (v / 256 / 256 / 256 % 256) as u8;
}

/// Writes `v` little-endian at `at`.
pub fn write_u64(b: &mut [u8], at: usize, v: u64)
    requires
        at + 8 <= old(b)@.len(),
    ensures
        final(b)@ == put_u64(old(b)@, at as int, v),
{
    let len: usize = b.len();
    assert(at + 8 <= len);
    write_u32(b, at, (v % 4294967296) as u32);
    write_u32(b, at + 4, (v / 4294967296) as u32);
}

/// The four little-endian words of the sixteen bytes of `b` at `at`.
pub open spec fn words4(b: Seq<u8>, at: int) -> Seq<u32> {
    seq![le_u32(b, at), le_u32(b, at + 4), le_u32(b, at + 8), le_u32(b, at + 12)]
}

/// A copy of the sixteen bytes of `b` at `at`.
pub fn copy16(b: &[u8], at: usize) -> (r: [u8; 16])
    requires
        at + 16 <= b@.len(),
    ensures
        r@ == b@.subrange(at as int, at as int + 16),
        words4(r@, 0) == words4(b@, at as int),
{
    let r = [
        b[at], b[at + 1], b[at + 2], b[at + 3], b[at + 4], b[at + 5], b[at + 6], b[at + 7],
        b[at + 8], b[at + 9], b[at + 10], b[at + 11], b[at + 12], b[at + 13], b[at + 14],
        b[at + 15],
    ];
    assert(r@ =~= b@.subrange(at as int, at as int + 16));
    r
}

/// Overwrites the sixteen bytes of `b` at `at` with `src`.
pub fn paste16(b: &mut [u8], at: usize, src: &[u8; 16])
    requires
        at + 16 <= old(b)@.len(),
    ensures
        final(b)@.len() == old(b)@.len(),
        forall|i: int| 0 <= i < 16 ==> final(b)@[at + i] == src@[i],
        forall|i: int| 0 <= i < old(b)@.len() && !(at <= i < at + 16) ==> final(b)@[i] == old(b)@[i],
        words4(final(b)@, at as int) == words4(src@, 0),
{
    let len: usize = b.len();
    let mut i: usize = 0;
    while i < 16
        invariant
            0 <= i <= 16,
            at + 16 <= b@.len(),
            b@.len() == old(b)@.len(),
            b@.len() == len,
            forall|k: int| 0 <= k < i ==> b@[at + k] == src@[k],
            forall|k: int| 0 <= k < old(b)@.len() && !(at <= k < at + i) ==> b@[k] == old(b)@[k],
        decreases 16 - i,
    {
        b[at + i] = src[i];
        i = i + 1;
    }
}

} // verus!
