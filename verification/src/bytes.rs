//! Byte-level helpers: substring search and fixed-width integer decoding.

use vstd::prelude::*;
use byteorder::{BigEndian, ByteOrder, LittleEndian};

verus! {

/// `needle` occurs in `hay` starting at index `i`.
pub open spec fn occurs_at(hay: Seq<u8>, needle: Seq<u8>, i: int) -> bool {
    0 <= i && i + needle.len() <= hay.len() && hay.subrange(i, i + needle.len()) == needle
}

/// `needle` occurs somewhere in `hay`.
pub open spec fn contains_seq(hay: Seq<u8>, needle: Seq<u8>) -> bool {
    exists|i: int| #[trigger] occurs_at(hay, needle, i)
}

/// The first occurrence of `needle` in `hay`, if any.
pub open spec fn first_occurrence(hay: Seq<u8>, needle: Seq<u8>, r: Option<usize>) -> bool {
    match r {
        Some(i) => occurs_at(hay, needle, i as int)
            && forall|j: int| 0 <= j < i ==> !#[trigger] occurs_at(hay, needle, j),
        None => !contains_seq(hay, needle),
    }
}

/// The index of the first occurrence of `needle` in `hay`, where it occurs.
pub open spec fn first_index(hay: Seq<u8>, needle: Seq<u8>) -> int {
    choose|i: int| occurs_at(hay, needle, i) && forall|j: int| 0 <= j < i ==> !#[trigger] occurs_at(hay, needle, j)
}

/// The first occurrence is the one that `first_index` names.
pub proof fn lemma_first_index(hay: Seq<u8>, needle: Seq<u8>, i: usize)
    requires
        first_occurrence(hay, needle, Some(i)),
    ensures
        first_index(hay, needle) == i,
        contains_seq(hay, needle),
{
    let k = first_index(hay, needle);
    assert(occurs_at(hay, needle, i as int) && forall|j: int| 0 <= j < i ==> !#[trigger] occurs_at(hay, needle, j));
    assert(occurs_at(hay, needle, k));
    if k < i {
        assert(!occurs_at(hay, needle, k));
    }
    if k > i {
        assert(!occurs_at(hay, needle, i as int));
    }
}

/// Calls `memchr::memmem::find`, which returns the index of the first
/// occurrence of `needle` in `hay`, or `None` when there is none.
#[verifier::external_body]
pub(crate) fn find(hay: &[u8], needle: &[u8]) -> (r: Option<usize>)
    ensures
        first_occurrence(hay@, needle@, r),
{
    memchr::memmem::find(hay, needle)
}

/// Whether `needle` occurs in `hay` at index `i`.
pub fn occurs_at_index(hay: &[u8], needle: &[u8], i: usize) -> (r: bool)
    ensures
        r == occurs_at(hay@, needle@, i as int),
{
    if i > hay.len() || hay.len() - i < needle.len() {
        return false;
    }
    let mut k: usize = 0;
    while k < needle.len()
        invariant
            k <= needle.len(),
            i + needle.len() <= hay.len(),
            forall|j: int| 0 <= j < k ==> hay@[i + j] == needle@[j],
        decreases needle.len() - k,
    {
        if hay[i + k] != needle[k] {
            assert(hay@.subrange(i as int, i + needle@.len())[k as int] != needle@[k as int]);
            return false;
        }
        k = k + 1;
    }
    assert(hay@.subrange(i as int, i + needle@.len()) =~= needle@);
    true
}

/// Whether `needle` occurs anywhere in `hay`.
pub fn contains(hay: &[u8], needle: &[u8]) -> (b: bool)
    ensures
        b == contains_seq(hay@, needle@),
{
    let r = find(hay, needle);
    match r {
        Some(i) => {
            assert(occurs_at(hay@, needle@, i as int));
            true
        },
        None => false,
    }
}


/// The unsigned big-endian number that the bytes `s` encode.
pub open spec fn be_uint(s: Seq<u8>) -> nat
    decreases s.len(),
{
    if s.len() == 0 {
        0
    } else {
        be_uint(s.drop_last()) * 256 + s.last() as nat
    }
}

/// The unsigned little-endian number that the bytes `s` encode.
pub open spec fn le_uint(s: Seq<u8>) -> nat
    decreases s.len(),
{
    if s.len() == 0 {
        0
    } else {
        s[0] as nat + 256 * le_uint(s.drop_first())
    }
}

/// Two's complement reading of the unsigned value `u` of `bits` bits
/// (8, 16, 32 or 64).
pub open spec fn signed(u: int, bits: nat) -> int {
    let half: int = if bits == 8 {
        0x80
    } else if bits == 16 {
        0x8000
    } else if bits == 32 {
        0x8000_0000
    } else {
        0x8000_0000_0000_0000
    };
    if u >= half {
        u - 2 * half
    } else {
        u
    }
}

/// Calls `byteorder::BigEndian::read_u16`, which reads the first two bytes
/// as a big-endian `u16`; it panics on a shorter buffer.
#[verifier::external_body]
pub(crate) fn read_u16_be(buf: &[u8]) -> (r: u16)
    requires
        buf.len() >= 2,
    ensures
        r == be_uint(buf@.subrange(0, 2)),
{
    BigEndian::read_u16(buf)
}

/// Calls `byteorder::BigEndian::read_u32`: the first four bytes as a
/// big-endian `u32`; it panics on a shorter buffer.
#[verifier::external_body]
pub(crate) fn read_u32_be(buf: &[u8]) -> (r: u32)
    requires
        buf.len() >= 4,
    ensures
        r == be_uint(buf@.subrange(0, 4)),
{
    BigEndian::read_u32(buf)
}

/// Calls `byteorder::BigEndian::read_u64`: the first eight bytes as a
/// big-endian `u64`; it panics on a shorter buffer.
#[verifier::external_body]
pub(crate) fn read_u64_be(buf: &[u8]) -> (r: u64)
    requires
        buf.len() >= 8,
    ensures
        r == be_uint(buf@.subrange(0, 8)),
{
    BigEndian::read_u64(buf)
}

/// Calls `byteorder::BigEndian::read_i16`: the first two bytes as a
/// big-endian two's complement `i16`.
#[verifier::external_body]
pub(crate) fn read_i16_be(buf: &[u8]) -> (r: i16)
    requires
        buf.len() >= 2,
    ensures
        r == signed(be_uint(buf@.subrange(0, 2)) as int, 16),
{
    BigEndian::read_i16(buf)
}

/// Calls `byteorder::BigEndian::read_i32`: the first four bytes as a
/// big-endian two's complement `i32`.
#[verifier::external_body]
pub(crate) fn read_i32_be(buf: &[u8]) -> (r: i32)
    requires
        buf.len() >= 4,
    ensures
        r == signed(be_uint(buf@.subrange(0, 4)) as int, 32),
{
    BigEndian::read_i32(buf)
}

/// Calls `byteorder::BigEndian::read_i64`: the first eight bytes as a
/// big-endian two's complement `i64`.
#[verifier::external_body]
pub(crate) fn read_i64_be(buf: &[u8]) -> (r: i64)
    requires
        buf.len() >= 8,
    ensures
        r == signed(be_uint(buf@.subrange(0, 8)) as int, 64),
{
    BigEndian::read_i64(buf)
}

/// Calls `byteorder::LittleEndian::read_u16`: the first two bytes as a
/// little-endian `u16`.
#[verifier::external_body]
pub(crate) fn read_u16_le(buf: &[u8]) -> (r: u16)
    requires
        buf.len() >= 2,
    ensures
        r == le_uint(buf@.subrange(0, 2)),
{
    LittleEndian::read_u16(buf)
}

/// Calls `byteorder::LittleEndian::read_u32`: the first four bytes as a
/// little-endian `u32`.
#[verifier::external_body]
pub(crate) fn read_u32_le(buf: &[u8]) -> (r: u32)
    requires
        buf.len() >= 4,
    ensures
        r == le_uint(buf@.subrange(0, 4)),
{
    LittleEndian::read_u32(buf)
}

/// Calls `byteorder::LittleEndian::read_i16`: the first two bytes as a
/// little-endian two's complement `i16`.
#[verifier::external_body]
pub(crate) fn read_i16_le(buf: &[u8]) -> (r: i16)
    requires
        buf.len() >= 2,
    ensures
        r == signed(le_uint(buf@.subrange(0, 2)) as int, 16),
{
    LittleEndian::read_i16(buf)
}

/// Calls `byteorder::LittleEndian::read_i32`: the first four bytes as a
/// little-endian two's complement `i32`.
#[verifier::external_body]
pub(crate) fn read_i32_le(buf: &[u8]) -> (r: i32)
    requires
        buf.len() >= 4,
    ensures
        r == signed(le_uint(buf@.subrange(0, 4)) as int, 32),
{
    LittleEndian::read_i32(buf)
}


/// The unsigned little-endian number in `n` bytes at `pos`.
pub open spec fn le_at(d: Seq<u8>, pos: int, n: int) -> nat {
    le_uint(d.subrange(pos, pos + n))
}

/// `256` to the power `n`.
pub open spec fn pow256(n: nat) -> nat
    decreases n,
{
    if n == 0 {
        1
    } else {
        256 * pow256((n - 1) as nat)
    }
}

pub(crate) proof fn lemma_le_bound(s: Seq<u8>)
    ensures
        le_uint(s) < pow256(s.len()),
    decreases s.len(),
{
    if s.len() > 0 {
        lemma_le_bound(s.drop_first());
        assert(le_uint(s) == s[0] as nat + 256 * le_uint(s.drop_first()));
    }
}

proof fn lemma_pow256_mono(a: nat, b: nat)
    requires
        a <= b,
    ensures
        pow256(a) <= pow256(b),
    decreases b,
{
    if a < b {
        lemma_pow256_mono(a, (b - 1) as nat);
    }
}

pub(crate) proof fn lemma_le_fits(s: Seq<u8>)
    requires
        s.len() <= 8,
    ensures
        s.len() <= 1 ==> le_uint(s) < 0x100,
        s.len() <= 2 ==> le_uint(s) < 0x10000,
        s.len() <= 4 ==> le_uint(s) < 0x1_0000_0000,
        s.len() <= 7 ==> le_uint(s) < 0x100000000000000,
        le_uint(s) <= u64::MAX,
{
    lemma_le_bound(s);
    reveal_with_fuel(pow256, 9);
    assert(pow256(8) == 0x1_0000_0000_0000_0000);
    if s.len() <= 1 {
        lemma_pow256_mono(s.len(), 1);
    }
    if s.len() <= 2 {
        lemma_pow256_mono(s.len(), 2);
    }
    if s.len() <= 4 {
        lemma_pow256_mono(s.len(), 4);
    }
    if s.len() <= 7 {
        lemma_pow256_mono(s.len(), 7);
    }
    lemma_pow256_mono(s.len(), 8);
}

/// Reads `n` (at most 8) little-endian bytes at `pos` as a number.
pub fn read_le(d: &[u8], pos: usize, n: usize) -> (r: u64)
    requires
        n <= 8,
        pos + n <= d.len(),
    ensures
        r == le_at(d@, pos as int, n as int),
{
    let mut r: u64 = 0;
    let mut k: usize = n;
    while k > 0
        invariant
            k <= n <= 8,
            pos + n <= d.len(),
            r == le_uint(d@.subrange(pos + k, pos + n)),
        decreases k,
    {
        let b = d[pos + k - 1];
        let ghost s = d@.subrange(pos + k - 1, pos + n);
        proof {
            assert(s.drop_first() =~= d@.subrange(pos + k, pos + n));
            assert(s[0] == b);
            lemma_le_fits(d@.subrange(pos + k, pos + n));
        }
        assert(r * 256 + b <= u64::MAX) by (nonlinear_arith)
            requires
                r < 0x100000000000000,
                b < 256,
        ;
        r = r * 256 + b as u64;
        k = k - 1;
    }
    assert(d@.subrange(pos as int, pos + n) =~= d@.subrange(pos + 0, pos + n));
    r
}


/// The two bytes at `p`, least significant first.
pub open spec fn le2(d: Seq<u8>, p: int) -> int {
    d[p] as int + 256 * d[p + 1] as int
}

/// The four bytes at `p`, least significant first.
pub open spec fn le4(d: Seq<u8>, p: int) -> int {
    le2(d, p) + 65536 * le2(d, p + 2)
}

/// The eight bytes at `p`, least significant first.
pub open spec fn le8(d: Seq<u8>, p: int) -> int {
    le4(d, p) + 4294967296 * le4(d, p + 4)
}

/// The two bytes at `p`, least significant first, read as a two's
/// complement 16-bit number.
pub open spec fn s16(d: Seq<u8>, p: int) -> int {
    if le2(d, p) >= 32768 {
        le2(d, p) - 65536
    } else {
        le2(d, p)
    }
}

/// The four bytes at `p`, least significant first, read as a two's
/// complement 32-bit number.
pub open spec fn s32(d: Seq<u8>, p: int) -> int {
    if le4(d, p) >= 2147483648 {
        le4(d, p) - 4294967296
    } else {
        le4(d, p)
    }
}

proof fn lemma_le_at_step(d: Seq<u8>, p: int, n: int)
    requires
        0 <= p,
        0 < n,
        p + n <= d.len(),
    ensures
        le_at(d, p, n) == d[p] as int + 256 * le_at(d, p + 1, n - 1),
{
    assert(d.subrange(p, p + n).drop_first() =~= d.subrange(p + 1, p + n));
}

proof fn lemma_le_at_empty(d: Seq<u8>, p: int)
    requires
        0 <= p <= d.len(),
    ensures
        le_at(d, p, 0) == 0,
{
    assert(d.subrange(p, p) =~= Seq::<u8>::empty());
}

/// A little-endian number of two bytes is its low byte plus 256 times its
/// high byte.
pub proof fn lemma_le_at_2(d: Seq<u8>, p: int)
    requires
        0 <= p,
        p + 2 <= d.len(),
    ensures
        le_at(d, p, 2) == le2(d, p),
        signed(le_at(d, p, 2) as int, 16) == s16(d, p),
{
    lemma_le_at_step(d, p, 2);
    lemma_le_at_step(d, p + 1, 1);
    lemma_le_at_empty(d, p + 2);
}

/// A little-endian number of four bytes, byte by byte.
pub proof fn lemma_le_at_4(d: Seq<u8>, p: int)
    requires
        0 <= p,
        p + 4 <= d.len(),
    ensures
        le_at(d, p, 4) == le4(d, p),
        signed(le_at(d, p, 4) as int, 32) == s32(d, p),
{
    lemma_le_at_step(d, p, 4);
    lemma_le_at_step(d, p + 1, 3);
    lemma_le_at_step(d, p + 2, 2);
    lemma_le_at_step(d, p + 3, 1);
    lemma_le_at_empty(d, p + 4);
}

/// A little-endian number of eight bytes, byte by byte.
pub proof fn lemma_le_at_8(d: Seq<u8>, p: int)
    requires
        0 <= p,
        p + 8 <= d.len(),
    ensures
        le_at(d, p, 8) == le8(d, p),
        le8(d, p) < 0x1_0000_0000_0000_0000,
{
    lemma_le_at_step(d, p, 8);
    lemma_le_at_step(d, p + 1, 7);
    lemma_le_at_step(d, p + 2, 6);
    lemma_le_at_step(d, p + 3, 5);
    lemma_le_at_step(d, p + 4, 4);
    lemma_le_at_step(d, p + 5, 3);
    lemma_le_at_step(d, p + 6, 2);
    lemma_le_at_step(d, p + 7, 1);
    lemma_le_at_empty(d, p + 8);
}

/// The two bytes at `p`, most significant first.
pub open spec fn be2(d: Seq<u8>, p: int) -> int {
    256 * d[p] as int + d[p + 1] as int
}

/// The four bytes at `p`, most significant first.
pub open spec fn be4(d: Seq<u8>, p: int) -> int {
    65536 * be2(d, p) + be2(d, p + 2)
}

/// The eight bytes at `p`, most significant first.
pub open spec fn be8(d: Seq<u8>, p: int) -> int {
    4294967296 * be4(d, p) + be4(d, p + 4)
}

proof fn lemma_be_step(d: Seq<u8>, p: int, n: int)
    requires
        0 <= p,
        0 < n,
        p + n <= d.len(),
    ensures
        be_uint(d.subrange(p, p + n)) == be_uint(d.subrange(p, p + n - 1)) * 256 + d[p + n - 1] as int,
{
    assert(d.subrange(p, p + n).drop_last() =~= d.subrange(p, p + n - 1));
}

/// A big-endian number of two bytes is 256 times its first byte plus its
/// second.
pub proof fn lemma_be_at_2(d: Seq<u8>, p: int)
    requires
        0 <= p,
        p + 2 <= d.len(),
    ensures
        be_uint(d.subrange(p, p + 2)) == be2(d, p),
{
    lemma_be_step(d, p, 2);
    lemma_be_step(d, p, 1);
    assert(d.subrange(p, p) =~= Seq::<u8>::empty());
}

/// A big-endian number of four bytes, byte by byte.
pub proof fn lemma_be_at_4(d: Seq<u8>, p: int)
    requires
        0 <= p,
        p + 4 <= d.len(),
    ensures
        be_uint(d.subrange(p, p + 4)) == be4(d, p),
{
    lemma_be_step(d, p, 4);
    lemma_be_step(d, p, 3);
    lemma_be_step(d, p, 2);
    lemma_be_step(d, p, 1);
    assert(d.subrange(p, p) =~= Seq::<u8>::empty());
}

/// A big-endian number of eight bytes, byte by byte.
pub proof fn lemma_be_at_8(d: Seq<u8>, p: int)
    requires
        0 <= p,
        p + 8 <= d.len(),
    ensures
        be_uint(d.subrange(p, p + 8)) == be8(d, p),
{
    lemma_be_step(d, p, 8);
    lemma_be_step(d, p, 7);
    lemma_be_step(d, p, 6);
    lemma_be_step(d, p, 5);
    lemma_be_step(d, p, 4);
    lemma_be_step(d, p, 3);
    lemma_be_step(d, p, 2);
    lemma_be_step(d, p, 1);
    assert(d.subrange(p, p) =~= Seq::<u8>::empty());
}

/// The two bytes at `p`, most significant first, read as a two's
/// complement 16-bit number.
pub open spec fn sbe16(d: Seq<u8>, p: int) -> int {
    if be2(d, p) >= 32768 {
        be2(d, p) - 65536
    } else {
        be2(d, p)
    }
}

/// The four bytes at `p`, most significant first, read as a two's
/// complement 32-bit number.
pub open spec fn sbe32(d: Seq<u8>, p: int) -> int {
    if be4(d, p) >= 2147483648 {
        be4(d, p) - 4294967296
    } else {
        be4(d, p)
    }
}

proof fn lemma_min_occurrence(hay: Seq<u8>, needle: Seq<u8>, i: int)
    requires
        occurs_at(hay, needle, i),
    ensures
        exists|k: int| occurs_at(hay, needle, k) && forall|j: int| 0 <= j < k ==> !#[trigger] occurs_at(hay, needle, j),
    decreases i,
{
    if exists|j: int| 0 <= j < i && #[trigger] occurs_at(hay, needle, j) {
        let j = choose|j: int| 0 <= j < i && #[trigger] occurs_at(hay, needle, j);
        lemma_min_occurrence(hay, needle, j);
    } else {
        assert(occurs_at(hay, needle, i) && forall|j: int| 0 <= j < i ==> !#[trigger] occurs_at(hay, needle, j));
    }
}

/// Where `needle` occurs in `hay`, `first_index` names an occurrence.
pub proof fn lemma_first_index_bounds(hay: Seq<u8>, needle: Seq<u8>)
    requires
        contains_seq(hay, needle),
    ensures
        occurs_at(hay, needle, first_index(hay, needle)),
        0 <= first_index(hay, needle),
{
    let i = choose|i: int| #[trigger] occurs_at(hay, needle, i);
    lemma_min_occurrence(hay, needle, i);
}
} // verus!
