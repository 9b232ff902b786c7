//! Canon acquisition metadata: BER lengths, text values and the tag list of
//! a metadata pack.

use vstd::prelude::*;
use vstd::string::StringSliceAdditionalSpecFns;
use crate::bytes::{be2, be4, lemma_be_at_2, lemma_be_at_4, be_uint, contains, contains_seq, le_uint, read_u16_be, read_u32_le};
use crate::tags::ParseError;
use crate::text::{chars_starts_with, str_chars, string_from_chars, utf8_strict};

verus! {

/// The length that the BER field at `pos` encodes, and the position after
/// it: one byte below 0x80, or 0x80 plus a count of big-endian bytes.
pub open spec fn ber_spec(d: Seq<u8>, pos: int) -> Option<(int, int)> {
    if pos < 0 || pos >= d.len() {
        None
    } else if d[pos] < 0x80 {
        Some((d[pos] as int, pos + 1))
    } else {
        let n = (d[pos] - 0x80) as int;
        if pos + 1 + n > d.len() {
            None
        } else {
            Some((be_uint(d.subrange(pos + 1, pos + 1 + n)) as int, pos + 1 + n))
        }
    }
}

/// Reads a BER length at `pos`. A long form may use at most eight bytes.
pub fn read_ber(d: &[u8], pos: usize) -> (r: Result<(u64, usize), ParseError>)
    requires
        pos < d.len() && d@[pos as int] >= 0x80 ==> d@[pos as int] - 0x80 <= 8,
    ensures
        match ber_spec(d@, pos as int) {
            Some((v, p)) => r == Ok::<(u64, usize), ParseError>((v as u64, p as usize)) && v <= u64::MAX,
            None => r == Err::<(u64, usize), ParseError>(ParseError::UnexpectedEof),
        },
{
    if pos >= d.len() {
        return Err(ParseError::UnexpectedEof);
    }
    let first = d[pos];
    if first & 0x80 == 0 {
        assert(first & 0x80u8 == 0 ==> first < 0x80) by (bit_vector);
        return Ok((first as u64, pos + 1));
    }
    assert(first & 0x80u8 != 0 ==> first >= 0x80 && first & 0x7fu8 == first - 0x80) by (bit_vector);
    let bytes = (first & 0x7f) as usize;
    if bytes > d.len() - (pos + 1) {
        return Err(ParseError::UnexpectedEof);
    }
    let mut size: u64 = 0;
    let mut i: usize = 0;
    proof {
        vstd::arithmetic::power2::lemma2_to64();
        assert(d@.subrange(pos + 1, pos + 1) =~= Seq::<u8>::empty());
    }
    while i < bytes
        invariant
            i <= bytes <= 8,
            pos + 1 + bytes <= d.len(),
            size == be_uint(d@.subrange(pos + 1, pos + 1 + i)),
            size < vstd::arithmetic::power2::pow2(8 * i as nat),
        decreases bytes - i,
    {
        let b = d[pos + 1 + i];
        let ghost s0 = d@.subrange(pos + 1, pos + 1 + i);
        assert(d@.subrange(pos + 1, pos + 1 + i + 1).drop_last() =~= s0);
        proof {
            vstd::arithmetic::power2::lemma_pow2_adds(8 * i as nat, 8);
            vstd::arithmetic::power2::lemma2_to64();
            assert(size * 256 + b < vstd::arithmetic::power2::pow2(8 * (i + 1) as nat)) by (nonlinear_arith)
                requires
                    size < vstd::arithmetic::power2::pow2(8 * i as nat),
                    b < 256,
                    vstd::arithmetic::power2::pow2(8 * (i + 1) as nat) == vstd::arithmetic::power2::pow2(8 * i as nat) * 256,
            ;
            if i + 1 < 8 {
                vstd::arithmetic::power2::lemma_pow2_strictly_increases(8 * (i + 1) as nat, 64);
            }
        }
        assert(size * 256 + b <= u64::MAX);
        assert((size << 8u64) | (b as u64) == size * 256 + b) by (bit_vector)
            requires
                size * 256 + b <= u64::MAX,
        ;
        size = (size << 8) | (b as u64);
        i = i + 1;
    }
    Ok((size, pos + 1 + bytes))
}

/// The text of a tag: bytes up to the first NUL, which must be UTF-8.
pub fn read_utf8(d: &[u8]) -> (r: Result<String, ParseError>)
    ensures
        ({
            let n = if d@.contains(0u8) {
                choose|i: int| 0 <= i < d@.len() && d@[i] == 0 && forall|k: int| 0 <= k < i ==> d@[k] != 0
            } else {
                d@.len() as int
            };
            &&& r is Ok <==> vstd::utf8::valid_utf8(d@.subrange(0, n))
            &&& r matches Ok(s) ==> s@ == vstd::utf8::decode_utf8(d@.subrange(0, n))
            &&& r matches Err(e) ==> e == ParseError::InvalidData
        }),
{
    let mut nul: usize = 0;
    while nul < d.len() && d[nul] != 0
        invariant
            nul <= d.len(),
            forall|k: int| 0 <= k < nul ==> d@[k] != 0,
        decreases d.len() - nul,
    {
        nul = nul + 1;
    }
    proof {
        if d@.contains(0u8) {
            let n = choose|i: int| 0 <= i < d@.len() && d@[i] == 0 && forall|k: int| 0 <= k < i ==> d@[k] != 0;
            assert(n == nul) by {
                if n < nul {
                } else if nul < n {
                    assert(d@[nul as int] == 0);
                }
            }
        } else {
            if nul < d.len() {
                assert(d@[nul as int] == 0);
                assert(d@.contains(0u8));
            }
        }
    }
    match utf8_strict(&d[0..nul]) {
        Some(s) => Ok(s),
        None => Err(ParseError::InvalidData),
    }
}


/// One tag of a metadata pack: its id and the range of its value.
#[derive(Clone, Copy, Debug)]
pub struct CanonTag {
    pub tag: u16,
    pub start: usize,
    pub end: usize,
}

/// The big-endian `u16` at `pos`.
pub open spec fn be16(d: Seq<u8>, pos: int) -> int {
    be_uint(d.subrange(pos, pos + 2)) as int
}

/// The tags of the pack `d[..hi]` from `pos`. A `0x060e` id skips a 16-byte
/// key, id 0 or `0xffff` ends the list, a value that does not fit ends it
/// too, and a `0x8300` container is read recursively in place. `None` when
/// an id or a length is cut off.
pub open spec fn tags_walk(d: Seq<u8>, hi: int, pos: int) -> Option<Seq<CanonTag>>
    decreases hi - pos,
{
    if pos >= hi {
        Some(Seq::empty())
    } else if pos + 2 > hi || hi > d.len() || pos < 0 {
        None
    } else {
        let tag = be16(d, pos);
        if tag == 0x060e {
            if pos + 16 >= hi {
                Some(Seq::empty())
            } else {
                tags_walk(d, hi, pos + 16)
            }
        } else if tag == 0 || tag == 0xffff {
            Some(Seq::empty())
        } else if pos + 4 > hi {
            None
        } else {
            let len = be16(d, pos + 2);
            let p = pos + 4;
            if p + len > hi {
                Some(Seq::empty())
            } else {
                let rest = if p + len >= hi {
                    Some(Seq::empty())
                } else {
                    tags_walk(d, hi, p + len)
                };
                if tag == 0x8300 {
                    match tags_walk(d, p + len, p) {
                        None => None,
                        Some(inner) => match rest {
                            None => None,
                            Some(r) => Some(inner + r),
                        },
                    }
                } else {
                    match rest {
                        None => None,
                        Some(r) => Some(seq![CanonTag { tag: tag as u16, start: p as usize, end: (p + len) as usize }] + r),
                    }
                }
            }
        }
    }
}

/// Prefixes a walk's tags with `pre`.
pub open spec fn cat_tags(pre: Seq<CanonTag>, o: Option<Seq<CanonTag>>) -> Option<Seq<CanonTag>> {
    match o {
        Some(r) => Some(pre + r),
        None => None,
    }
}

proof fn lemma_cat_tags(a: Seq<CanonTag>, b: Seq<CanonTag>, o: Option<Seq<CanonTag>>)
    ensures
        cat_tags(a, cat_tags(b, o)) == cat_tags(a + b, o),
{
    if let Some(r) = o {
        assert(a + (b + r) =~= (a + b) + r);
    }
}

fn be16_at(d: &[u8], pos: usize) -> (v: u16)
    requires
        pos + 2 <= d.len(),
    ensures
        v == be16(d@, pos as int),
{
    let s = &d[pos..pos + 2];
    assert(s@.subrange(0, 2) =~= d@.subrange(pos as int, pos + 2));
    read_u16_be(s)
}

/// Appends the tags of the pack `d[lo..hi]` to `out` (see `tags_walk`).
#[verifier::rlimit(60)]
pub fn parse_tags(d: &[u8], lo: usize, hi: usize, out: &mut Vec<CanonTag>) -> (r: Result<(), ParseError>)
    requires
        lo <= hi <= d.len(),
    ensures
        match tags_walk(d@, hi as int, lo as int) {
            Some(ts) => r is Ok && final(out)@ == old(out)@ + ts,
            None => r == Err::<(), ParseError>(ParseError::UnexpectedEof),
        },
    decreases hi - lo,
{
    let ghost start_out = out@;
    let mut pos = lo;
    while pos < hi
        invariant
            lo <= pos <= hi <= d.len(),
            start_out == old(out)@,
            start_out.len() <= out@.len(),
            out@.subrange(0, start_out.len() as int) == start_out,
            tags_walk(d@, hi as int, lo as int) == cat_tags(
                out@.subrange(start_out.len() as int, out@.len() as int),
                tags_walk(d@, hi as int, pos as int),
            ),
        decreases hi - pos,
    {
        if hi - pos < 2 {
            return Err(ParseError::UnexpectedEof);
        }
        let tag = be16_at(d, pos);
        if tag == 0x060e {
            if hi - pos <= 16 {
                proof {
                    assert(out@.subrange(start_out.len() as int, out@.len() as int) + Seq::<CanonTag>::empty() =~= out@.subrange(start_out.len() as int, out@.len() as int));
                    assert(out@ =~= start_out + out@.subrange(start_out.len() as int, out@.len() as int));
                }
                return Ok(());
            }
            pos = pos + 16;
            continue;
        }
        if tag == 0 || tag == 0xffff {
            proof {
                assert(out@.subrange(start_out.len() as int, out@.len() as int) + Seq::<CanonTag>::empty() =~= out@.subrange(start_out.len() as int, out@.len() as int));
                assert(out@ =~= start_out + out@.subrange(start_out.len() as int, out@.len() as int));
        }
            return Ok(());
        }
        if hi - pos < 4 {
            return Err(ParseError::UnexpectedEof);
        }
        let len = be16_at(d, pos + 2) as usize;
        let p = pos + 4;
        if len > hi - p {
            proof {
                assert(out@.subrange(start_out.len() as int, out@.len() as int) + Seq::<CanonTag>::empty() =~= out@.subrange(start_out.len() as int, out@.len() as int));
                assert(out@ =~= start_out + out@.subrange(start_out.len() as int, out@.len() as int));
        }
            return Ok(());
        }
        let ghost out0 = out@;
        let ghost rest = if p + len >= hi {
            Some(Seq::<CanonTag>::empty())
        } else {
            tags_walk(d@, hi as int, (p + len) as int)
        };
        if tag == 0x8300 {
            match parse_tags(d, p, p + len, out) {
                Ok(()) => {},
                Err(e) => {
                    return Err(e);
                },
            }
            proof {
                let inner = out@.subrange(out0.len() as int, out@.len() as int);
                assert(out@.subrange(0, start_out.len() as int) =~= start_out);
                assert(out@.subrange(start_out.len() as int, out@.len() as int) =~= out0.subrange(start_out.len() as int, out0.len() as int) + inner);
                lemma_cat_tags(out0.subrange(start_out.len() as int, out0.len() as int), inner, rest);
            }
        } else {
            out.push(CanonTag { tag, start: p, end: p + len });
            proof {
                assert(out@.subrange(0, start_out.len() as int) =~= start_out);
                assert(out@.subrange(start_out.len() as int, out@.len() as int) =~= out0.subrange(start_out.len() as int, out0.len() as int) + seq![out@.last()]);
                lemma_cat_tags(out0.subrange(start_out.len() as int, out0.len() as int), seq![out@.last()], rest);
            }
        }
        if len >= hi - p {
            proof {
                assert(out@.subrange(start_out.len() as int, out@.len() as int) + Seq::<CanonTag>::empty() =~= out@.subrange(start_out.len() as int, out@.len() as int));
                assert(out@ =~= start_out + out@.subrange(start_out.len() as int, out@.len() as int));
        }
            return Ok(());
        }
        pos = p + len;
    }
    proof {
        assert(out@ =~= start_out + out@.subrange(start_out.len() as int, out@.len() as int));
    }
    Ok(())
}

/// The keys of the metadata sets whose tags are read: lens unit, camera
/// unit and user defined acquisition metadata, and Canon's lens, camera and
/// Cooke /i lens metadata.
pub open spec fn known_pack(id: Seq<u8>) -> bool {
    ||| id == seq![0x06u8, 0x0E, 0x2B, 0x34, 0x02, 0x53, 0x01, 0x01, 0x0C, 0x02, 0x01, 0x01, 0x01, 0x01, 0x00, 0x00]
    ||| id == seq![0x06u8, 0x0E, 0x2B, 0x34, 0x02, 0x53, 0x01, 0x01, 0x0C, 0x02, 0x01, 0x01, 0x02, 0x01, 0x00, 0x00]
    ||| id == seq![0x06u8, 0x0E, 0x2B, 0x34, 0x02, 0x53, 0x01, 0x01, 0x0C, 0x02, 0x01, 0x01, 0x7F, 0x01, 0x00, 0x00]
    ||| id == seq![0x06u8, 0x0E, 0x2B, 0x34, 0x04, 0x01, 0x01, 0x0D, 0x0E, 0x15, 0x00, 0x04, 0x01, 0x00, 0x00, 0x00]
    ||| id == seq![0x06u8, 0x0E, 0x2B, 0x34, 0x04, 0x01, 0x01, 0x0D, 0x0E, 0x15, 0x00, 0x04, 0x02, 0x00, 0x00, 0x00]
    ||| id == seq![0x06u8, 0x0E, 0x2B, 0x34, 0x04, 0x01, 0x01, 0x0D, 0x0E, 0x15, 0x00, 0x04, 0x04, 0x00, 0x00, 0x00]
}

/// Where scanning for the next key from `q` stops: at a byte `06` that
/// starts `06 0E 2B 34`, at the end of the data, or cut short where fewer
/// than three bytes follow a `06`.
pub enum Sync {
    Found(int),
    End,
    Cut,
}

/// Scans for the next key from `q` (see `Sync`).
pub open spec fn resync(d: Seq<u8>, q: int) -> Sync
    decreases d.len() - q,
{
    if q < 0 || q >= d.len() {
        Sync::End
    } else if d[q] != 0x06 {
        resync(d, q + 1)
    } else if q + 4 > d.len() {
        Sync::Cut
    } else if d[q + 1] == 0x0e && d[q + 2] == 0x2b && d[q + 3] == 0x34 {
        Sync::Found(q)
    } else {
        resync(d, q + 1)
    }
}

/// How reading the metadata sets of a pack ends: with the tags of the
/// known sets, failed (data cut short), or malformed (a BER length of more
/// than eight bytes).
pub enum PackOutcome {
    Tags(Seq<CanonTag>),
    Failed,
    Malformed,
}

/// `pre` before the tags of `o`.
pub open spec fn pack_then(pre: Seq<CanonTag>, o: PackOutcome) -> PackOutcome {
    match o {
        PackOutcome::Tags(s) => PackOutcome::Tags(pre + s),
        _ => o,
    }
}

/// The metadata sets of a pack from `pos`: a 16-byte key and a BER length
/// each; a key that does not start with `06 0E 2B 34` is skipped up to the
/// next one; the tags of known sets are read, others skipped.
pub open spec fn packs_from(d: Seq<u8>, pos: int) -> PackOutcome
    decreases d.len() - pos,
{
    if pos < 0 || pos + 16 > d.len() {
        PackOutcome::Tags(Seq::empty())
    } else {
        let id = d.subrange(pos, pos + 16);
        if !(d[pos] == 0x06 && d[pos + 1] == 0x0e && d[pos + 2] == 0x2b && d[pos + 3] == 0x34) {
            match resync(d, pos + 16) {
                Sync::Found(q) => if pos < q <= d.len() {
                    packs_from(d, q)
                } else {
                    PackOutcome::Failed
                },
                Sync::End => PackOutcome::Tags(Seq::empty()),
                Sync::Cut => PackOutcome::Failed,
            }
        } else if pos + 16 < d.len() && d[pos + 16] >= 0x80 && d[pos + 16] - 0x80 > 8 {
            PackOutcome::Malformed
        } else {
            match ber_spec(d, pos + 16) {
                None => PackOutcome::Failed,
                Some((len, p)) => if known_pack(id) {
                    if p + len > d.len() {
                        PackOutcome::Failed
                    } else {
                        match tags_walk(d, p + len, p) {
                            None => PackOutcome::Failed,
                            Some(ts) => if p + len > pos {
                                pack_then(ts, packs_from(d, p + len))
                            } else {
                                PackOutcome::Failed
                            },
                        }
                    }
                } else if p + len >= d.len() {
                    PackOutcome::Tags(Seq::empty())
                } else if p + len > pos {
                    packs_from(d, p + len)
                } else {
                    PackOutcome::Failed
                },
            }
        }
    }
}

fn bytes_eq(a: &[u8], b: &[u8]) -> (r: bool)
    ensures
        r == (a@ == b@),
{
    if a.len() != b.len() {
        return false;
    }
    let mut i: usize = 0;
    while i < a.len()
        invariant
            i <= a.len() == b.len(),
            forall|k: int| 0 <= k < i ==> a@[k] == b@[k],
        decreases a.len() - i,
    {
        if a[i] != b[i] {
            return false;
        }
        i = i + 1;
    }
    assert(a@ =~= b@);
    true
}

fn is_known_pack(id: &[u8]) -> (r: bool)
    ensures
        r == known_pack(id@),
{
    let k0: [u8; 16] = [0x06, 0x0E, 0x2B, 0x34, 0x02, 0x53, 0x01, 0x01, 0x0C, 0x02, 0x01, 0x01, 0x01, 0x01, 0x00, 0x00];
    let k1: [u8; 16] = [0x06, 0x0E, 0x2B, 0x34, 0x02, 0x53, 0x01, 0x01, 0x0C, 0x02, 0x01, 0x01, 0x02, 0x01, 0x00, 0x00];
    let k2: [u8; 16] = [0x06, 0x0E, 0x2B, 0x34, 0x02, 0x53, 0x01, 0x01, 0x0C, 0x02, 0x01, 0x01, 0x7F, 0x01, 0x00, 0x00];
    let k3: [u8; 16] = [0x06, 0x0E, 0x2B, 0x34, 0x04, 0x01, 0x01, 0x0D, 0x0E, 0x15, 0x00, 0x04, 0x01, 0x00, 0x00, 0x00];
    let k4: [u8; 16] = [0x06, 0x0E, 0x2B, 0x34, 0x04, 0x01, 0x01, 0x0D, 0x0E, 0x15, 0x00, 0x04, 0x02, 0x00, 0x00, 0x00];
    let k5: [u8; 16] = [0x06, 0x0E, 0x2B, 0x34, 0x04, 0x01, 0x01, 0x0D, 0x0E, 0x15, 0x00, 0x04, 0x04, 0x00, 0x00, 0x00];
    assert(k0@ =~= seq![0x06u8, 0x0E, 0x2B, 0x34, 0x02, 0x53, 0x01, 0x01, 0x0C, 0x02, 0x01, 0x01, 0x01, 0x01, 0x00, 0x00]);
    assert(k1@ =~= seq![0x06u8, 0x0E, 0x2B, 0x34, 0x02, 0x53, 0x01, 0x01, 0x0C, 0x02, 0x01, 0x01, 0x02, 0x01, 0x00, 0x00]);
    assert(k2@ =~= seq![0x06u8, 0x0E, 0x2B, 0x34, 0x02, 0x53, 0x01, 0x01, 0x0C, 0x02, 0x01, 0x01, 0x7F, 0x01, 0x00, 0x00]);
    assert(k3@ =~= seq![0x06u8, 0x0E, 0x2B, 0x34, 0x04, 0x01, 0x01, 0x0D, 0x0E, 0x15, 0x00, 0x04, 0x01, 0x00, 0x00, 0x00]);
    assert(k4@ =~= seq![0x06u8, 0x0E, 0x2B, 0x34, 0x04, 0x01, 0x01, 0x0D, 0x0E, 0x15, 0x00, 0x04, 0x02, 0x00, 0x00, 0x00]);
    assert(k5@ =~= seq![0x06u8, 0x0E, 0x2B, 0x34, 0x04, 0x01, 0x01, 0x0D, 0x0E, 0x15, 0x00, 0x04, 0x04, 0x00, 0x00, 0x00]);
    bytes_eq(id, k0.as_slice()) || bytes_eq(id, k1.as_slice()) || bytes_eq(id, k2.as_slice()) || bytes_eq(id, k3.as_slice()) || bytes_eq(id, k4.as_slice()) || bytes_eq(id, k5.as_slice())
}

fn resync_exec(d: &[u8], q: usize) -> (r: Option<Option<usize>>)
    requires
        q <= d.len(),
    ensures
        match resync(d@, q as int) {
            Sync::Found(f) => r == Some(Some(f as usize)) && q <= f < d.len(),
            Sync::End => r == Some(None::<usize>),
            Sync::Cut => r is None,
        },
{
    let mut i = q;
    while i < d.len()
        invariant
            q <= i <= d.len(),
            resync(d@, q as int) == resync(d@, i as int),
        decreases d.len() - i,
    {
        if d[i] == 0x06 {
            if d.len() - i < 4 {
                return None;
            }
            if d[i + 1] == 0x0e && d[i + 2] == 0x2b && d[i + 3] == 0x34 {
                return Some(Some(i));
            }
        }
        i = i + 1;
    }
    Some(None)
}

/// Why the metadata sets of a pack were not read: the data is cut short,
/// or a BER length has more than eight bytes.
#[derive(Debug, Clone, Copy, PartialEq, Eq)]
pub enum PackError {
    Cut,
    Malformed,
}

/// Reads the metadata sets of an acquisition metadata pack (see
/// `packs_from`): the tags of its known sets, with their values' ranges in
/// `d`.
#[verifier::rlimit(60)]
pub fn parse_metadata(d: &[u8]) -> (r: Result<Vec<CanonTag>, PackError>)
    ensures
        match packs_from(d@, 0) {
            PackOutcome::Tags(ts) => r matches Ok(v) && v@ == ts,
            PackOutcome::Failed => r == Err::<Vec<CanonTag>, PackError>(PackError::Cut),
            PackOutcome::Malformed => r == Err::<Vec<CanonTag>, PackError>(PackError::Malformed),
        },
{
    let mut out: Vec<CanonTag> = Vec::new();
    let mut pos: usize = 0;
    assert(pack_then(Seq::empty(), packs_from(d@, 0)) =~~= packs_from(d@, 0));
    loop
        invariant
            pos <= d.len(),
            packs_from(d@, 0) == pack_then(out@, packs_from(d@, pos as int)),
        decreases d.len() - pos,
    {
        if d.len() - pos < 16 {
            assert(out@ + Seq::<CanonTag>::empty() =~= out@);
            return Ok(out);
        }
        if !(d[pos] == 0x06 && d[pos + 1] == 0x0e && d[pos + 2] == 0x2b && d[pos + 3] == 0x34) {
            match resync_exec(d, pos + 16) {
                None => {
                    return Err(PackError::Cut);
                },
                Some(None) => {
                    assert(out@ + Seq::<CanonTag>::empty() =~= out@);
                    return Ok(out);
                },
                Some(Some(q)) => {
                    pos = q;
                    continue;
                },
            }
        }
        if pos + 16 < d.len() && d[pos + 16] >= 0x80 && d[pos + 16] - 0x80 > 8 {
            return Err(PackError::Malformed);
        }
        let (len, p) = match read_ber(d, pos + 16) {
            Ok(x) => x,
            Err(_) => {
                return Err(PackError::Cut);
            },
        };
        let known = is_known_pack(&d[pos..pos + 16]);
        if known {
            if len > (d.len() - p) as u64 {
                return Err(PackError::Cut);
            }
            let hi = p + len as usize;
            let ghost before = out@;
            match parse_tags(d, p, hi, &mut out) {
                Ok(()) => {},
                Err(_) => {
                    return Err(PackError::Cut);
                },
            }
            proof {
                let ts = tags_walk(d@, hi as int, p as int)->Some_0;
                match packs_from(d@, hi as int) {
                    PackOutcome::Tags(s) => {
                        assert(before + (ts + s) =~= out@ + s);
                    },
                    _ => {},
                }
            }
            pos = hi;
        } else {
            if len >= (d.len() - p) as u64 {
                assert(out@ + Seq::<CanonTag>::empty() =~= out@);
                return Ok(out);
            }
            pos = p + len as usize;
        }
    }
}

/// The little-endian `u32` at `pos`.
pub open spec fn le32_at(d: Seq<u8>, pos: int) -> int {
    le_uint(d.subrange(pos, pos + 4)) as int
}

/// The acquisition metadata packs of a sample, in order: where the bytes
/// given to `packs_from` start in the sample, and their tags; or malformed.
pub enum SampleOutcome {
    Packs(Seq<(int, Seq<CanonTag>)>),
    Malformed,
}

/// `acc` with the pack `d[start..end]` read: its tags where it reads,
/// unchanged where it is cut short, `None` where it is malformed.
pub open spec fn with_pack(acc: Seq<(int, Seq<CanonTag>)>, d: Seq<u8>, start: int, end: int) -> Option<
    Seq<(int, Seq<CanonTag>)>,
> {
    match packs_from(d.subrange(start, end), 0) {
        PackOutcome::Tags(ts) => Some(acc.push((start, ts))),
        PackOutcome::Failed => Some(acc),
        PackOutcome::Malformed => None,
    }
}

/// The packs of CRM sample data from `pos`, after `acc`: each block is a
/// little-endian length that counts its 8-byte header, an id and data;
/// blocks of id 13 hold a 4-byte version and a pack. Reading ends where a
/// header or a pack's version is cut short or a block runs past the data;
/// a length below 8 is malformed.
pub open spec fn crm_from(d: Seq<u8>, pos: int, acc: Seq<(int, Seq<CanonTag>)>) -> SampleOutcome
    decreases d.len() - pos,
{
    if pos < 0 || d.len() - pos < 4 {
        SampleOutcome::Packs(acc)
    } else if le32_at(d, pos) < 8 {
        SampleOutcome::Malformed
    } else if d.len() - pos < 8 {
        SampleOutcome::Packs(acc)
    } else {
        let len = le32_at(d, pos) - 8;
        let p = pos + 8;
        if p + len > d.len() {
            SampleOutcome::Packs(acc)
        } else if le32_at(d, pos + 4) == 13 {
            if len < 4 {
                SampleOutcome::Packs(acc)
            } else {
                match with_pack(acc, d, p + 4, p + len) {
                    None => SampleOutcome::Malformed,
                    Some(a2) => crm_from(d, p + len, a2),
                }
            }
        } else {
            crm_from(d, p + len, acc)
        }
    }
}

/// The packs of `cndm` sample data from `pos`, after `acc`: each block is a
/// little-endian id, a length of its data and the data; blocks of id 2 are
/// packs, and id 1 is a 12-byte timecode. Reading ends where a header or a
/// timecode is cut short or a block runs past the data.
pub open spec fn cndm_from(d: Seq<u8>, pos: int, acc: Seq<(int, Seq<CanonTag>)>) -> SampleOutcome
    decreases d.len() - pos,
{
    if pos < 0 || d.len() - pos < 8 {
        SampleOutcome::Packs(acc)
    } else {
        let id = le32_at(d, pos);
        let len = le32_at(d, pos + 4);
        let p = pos + 8;
        if p + len > d.len() {
            SampleOutcome::Packs(acc)
        } else if id == 1 && len < 12 {
            SampleOutcome::Packs(acc)
        } else if id == 2 {
            match with_pack(acc, d, p, p + len) {
                None => SampleOutcome::Malformed,
                Some(a2) => cndm_from(d, p + len, a2),
            }
        } else {
            cndm_from(d, p + len, acc)
        }
    }
}

/// The packs of a sample of a Canon metadata track: none for 8 bytes or
/// fewer, else CRM or `cndm` blocks.
pub open spec fn sample_packs_spec(d: Seq<u8>, is_crm: bool) -> SampleOutcome {
    if d.len() <= 8 {
        SampleOutcome::Packs(Seq::empty())
    } else if is_crm {
        crm_from(d, 0, Seq::empty())
    } else {
        cndm_from(d, 0, Seq::empty())
    }
}

/// The outcome of reading a sample's packs.
pub enum SamplePacks {
    /// Where each pack's bytes start in the sample, and its tags.
    Packs(Vec<(usize, Vec<CanonTag>)>),
    Malformed,
}

/// The view of read packs.
pub open spec fn packs_view(v: Seq<(usize, Vec<CanonTag>)>) -> Seq<(int, Seq<CanonTag>)> {
    v.map_values(|e: (usize, Vec<CanonTag>)| (e.0 as int, e.1@))
}

/// Whether `r` is the outcome `o`.
pub open spec fn sample_packs_is(r: SamplePacks, o: SampleOutcome) -> bool {
    match o {
        SampleOutcome::Packs(s) => r matches SamplePacks::Packs(v) && packs_view(v@) == s,
        SampleOutcome::Malformed => r is Malformed,
    }
}

/// Reads the pack `d[start..end]` into `out` (see `with_pack`); false
/// where it is malformed.
fn push_pack(d: &[u8], start: usize, end: usize, out: &mut Vec<(usize, Vec<CanonTag>)>) -> (ok: bool)
    requires
        start <= end <= d.len(),
    ensures
        match with_pack(packs_view(old(out)@), d@, start as int, end as int) {
            Some(a) => ok && packs_view(final(out)@) == a,
            None => !ok,
        },
{
    let s = &d[start..end];
    assert(s@ =~= d@.subrange(start as int, end as int));
    let ghost before = packs_view(out@);
    match parse_metadata(s) {
        Ok(v) => {
            let ghost tv = v@;
            out.push((start, v));
            assert(packs_view(out@) =~= before.push((start as int, tv)));
            true
        },
        Err(PackError::Cut) => true,
        Err(PackError::Malformed) => false,
    }
}

/// A Canon clip.
pub struct Canon {
    pub model: Option<String>,
    pub lens: Option<String>,
    pub is_crm: bool,
}

impl Canon {
    pub fn camera_type(&self) -> (r: String)
        ensures
            r@ == "Canon"@,
    {
        "Canon".to_owned()
    }

    pub fn has_accurate_timestamps(&self) -> (r: bool)
        ensures
            r,
    {
        true
    }

    pub fn possible_extensions() -> (v: Vec<&'static str>)
        ensures
            v@.len() == 4,
            v@[0]@ == "mp4"@,
            v@[1]@ == "mov"@,
            v@[2]@ == "mxf"@,
            v@[3]@ == "crm"@,
    {
        vec!["mp4", "mov", "mxf", "crm"]
    }

    pub fn normalize_imu_orientation(v: String) -> (r: String)
        ensures
            r@ == v@,
    {
        v
    }

    /// Detects a Canon clip by `Canon EOS`; a CRM clip also holds `ftypcrx`.
    pub fn detect(buffer: &[u8], _filepath: &str) -> (r: Option<Canon>)
        ensures
            r is Some <==> contains_seq(buffer@, "Canon EOS".spec_bytes()),
            r matches Some(c) ==> c.model is None && c.lens is None && c.is_crm == contains_seq(
                buffer@,
                "ftypcrx".spec_bytes(),
            ),
    {
        if contains(buffer, "Canon EOS".as_bytes()) {
            Some(Canon { model: None, lens: None, is_crm: contains(buffer, "ftypcrx".as_bytes()) })
        } else {
            None
        }
    }

    /// The model named by a camera name tag: without one leading `Canon `.
    pub fn model_from_name(v: &str) -> (r: String)
        ensures
            ("Canon "@.len() <= v@.len() && v@.subrange(0, "Canon "@.len() as int) == "Canon "@) ==> r@
                == v@.subrange("Canon "@.len() as int, v@.len() as int),
            !("Canon "@.len() <= v@.len() && v@.subrange(0, "Canon "@.len() as int) == "Canon "@) ==> r@ == v@,
    {
        let c = str_chars(v);
        if chars_starts_with(c.as_slice(), "Canon ") {
            proof {
                reveal_strlit("Canon ");
            }
            let rest = &c.as_slice()[6..c.len()];
            assert(rest@ =~= v@.subrange("Canon "@.len() as int, v@.len() as int));
            string_from_chars(rest)
        } else {
            v.to_owned()
        }
    }

    /// The packs of a sample of the clip's metadata track (see
    /// `sample_packs_spec`).
    #[verifier::rlimit(40)]
    pub fn sample_packs(data: &[u8], is_crm: bool) -> (r: SamplePacks)
        ensures
            sample_packs_is(r, sample_packs_spec(data@, is_crm)),
    {
        let mut out: Vec<(usize, Vec<CanonTag>)> = Vec::new();
        assert(packs_view(out@) =~= Seq::<(int, Seq<CanonTag>)>::empty());
        if data.len() <= 8 {
            return SamplePacks::Packs(out);
        }
        let mut pos: usize = 0;
        loop
            invariant
                pos <= data.len(),
                data.len() > 8,
                sample_packs_spec(data@, is_crm) == if is_crm {
                    crm_from(data@, pos as int, packs_view(out@))
                } else {
                    cndm_from(data@, pos as int, packs_view(out@))
                },
            decreases data.len() - pos,
        {
            let n = data.len();
            if n - pos < 4 || (!is_crm && n - pos < 8) {
                return SamplePacks::Packs(out);
            }
            let a = &data[pos..pos + 4];
            assert(a@.subrange(0, 4) =~= data@.subrange(pos as int, pos + 4));
            let first = read_u32_le(a) as usize;
            if is_crm && first < 8 {
                return SamplePacks::Malformed;
            }
            if n - pos < 8 {
                return SamplePacks::Packs(out);
            }
            let b = &data[pos + 4..pos + 8];
            assert(b@.subrange(0, 4) =~= data@.subrange(pos + 4, pos + 8));
            let second = read_u32_le(b) as usize;
            let (id, len) = if is_crm {
                (second, first - 8)
            } else {
                (first, second)
            };
            let p = pos + 8;
            if len > n - p {
                return SamplePacks::Packs(out);
            }
            if is_crm {
                if id == 13 {
                    if len < 4 {
                        return SamplePacks::Packs(out);
                    }
                    if !push_pack(data, p + 4, p + len, &mut out) {
                        return SamplePacks::Malformed;
                    }
                }
            } else {
                if id == 1 && len < 12 {
                    return SamplePacks::Packs(out);
                }
                if id == 2 {
                    if !push_pack(data, p, p + len, &mut out) {
                        return SamplePacks::Malformed;
                    }
                }
            }
            pos = p + len;
        }
    }
}


/// A BER length is one byte below 0x80, else `0x80 + n` followed by the
/// length in `n` big-endian bytes; the field after it starts right after.
pub proof fn lemma_ber_layout(d: Seq<u8>, pos: int)
    requires
        0 <= pos < d.len(),
    ensures
        d[pos] < 0x80 ==> ber_spec(d, pos) == Some((d[pos] as int, pos + 1)),
        d[pos] == 0x81 && pos + 2 <= d.len() ==> ber_spec(d, pos) == Some((d[pos + 1] as int, pos + 2)),
        d[pos] == 0x82 && pos + 3 <= d.len() ==> ber_spec(d, pos) == Some((be2(d, pos + 1), pos + 3)),
        d[pos] == 0x84 && pos + 5 <= d.len() ==> ber_spec(d, pos) == Some((be4(d, pos + 1), pos + 5)),
        d[pos] >= 0x80 && pos + 1 + (d[pos] - 0x80) > d.len() ==> ber_spec(d, pos) is None,
{
    if d[pos] == 0x81 && pos + 2 <= d.len() {
        assert(d.subrange(pos + 1, pos + 2).drop_last() =~= Seq::<u8>::empty());
        assert(be_uint(Seq::<u8>::empty()) == 0);
    }
    if d[pos] == 0x82 && pos + 3 <= d.len() {
        lemma_be_at_2(d, pos + 1);
    }
    if d[pos] == 0x84 && pos + 5 <= d.len() {
        lemma_be_at_4(d, pos + 1);
    }
}

/// A tag of a pack is a big-endian id (bytes 0-1) and length (bytes 2-3)
/// followed by its value: where the id is an ordinary one and the value
/// fits, the first tag read there is that id with its value's bounds.
pub proof fn lemma_tag_layout(d: Seq<u8>, hi: int, pos: int)
    requires
        0 <= pos,
        pos + 4 <= hi <= d.len(),
        hi <= usize::MAX,
        be2(d, pos) != 0x060e && be2(d, pos) != 0 && be2(d, pos) != 0xffff && be2(d, pos) != 0x8300,
        pos + 4 + be2(d, pos + 2) <= hi,
    ensures
        tags_walk(d, hi, pos) matches Some(ts) ==> ts.len() > 0 && ts[0].tag == be2(d, pos) && ts[0].start == pos + 4
            && ts[0].end == pos + 4 + be2(d, pos + 2),
{
    lemma_be_at_2(d, pos);
    lemma_be_at_2(d, pos + 2);
}
} // verus!
