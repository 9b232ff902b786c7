//! The structure of Nikon N-RAW (`.nev`) metadata: the tag list of the clip
//! header, the atoms that carry per-frame metadata, and the decoding of tag
//! values.

use vstd::prelude::*;
use vstd::string::StringSliceAdditionalSpecFns;
use crate::bytes::{be2, be4, be8, lemma_be_at_2, lemma_be_at_4, lemma_be_at_8, sbe16, sbe32, be_uint, occurs_at, occurs_at_index, read_i16_be, read_i32_be, read_u16_be, read_u32_be, read_u64_be, signed};
use crate::tags::ParseError;
use crate::dji::{decimal, u64_to_decimal};
use crate::text::{concat_str, lossy_utf8, str_chars, str_eq, string_from_chars, trim_chars, trimmed, utf8_lossy};
use crate::canon_tags::{hex8, push_hex8};

verus! {

/// One entry of the clip header: a tag, its value type and its value bytes.
#[derive(Debug, Clone)]
pub struct NevTag {
    pub tag_id: u32,
    pub type_id: u16,
    pub value: Vec<u8>,
}

/// The size of one value of a TIFF-style type: bytes and text 1, shorts 2,
/// longs and floats 4, rationals and doubles 8; an unknown type counts 1.
pub open spec fn type_size(type_id: u16) -> nat {
    if type_id == 1 || type_id == 2 || type_id == 6 || type_id == 7 {
        1
    } else if type_id == 3 || type_id == 8 {
        2
    } else if type_id == 4 || type_id == 9 || type_id == 11 {
        4
    } else if type_id == 5 || type_id == 10 || type_id == 12 {
        8
    } else {
        1
    }
}

/// The entries of the clip header from offset `pos` on: each is a
/// big-endian tag (4 bytes), type (2) and count (2), then `count` values;
/// the list ends where fewer than eight bytes remain or a value would run
/// past the end.
pub open spec fn clip_tags_from(d: Seq<u8>, pos: int) -> Seq<(u32, u16, Seq<u8>)>
    decreases d.len() - pos,
{
    if pos + 8 > d.len() {
        Seq::empty()
    } else {
        let tag = be_uint(d.subrange(pos, pos + 4)) as u32;
        let ty = be_uint(d.subrange(pos + 4, pos + 6)) as u16;
        let count = be_uint(d.subrange(pos + 6, pos + 8));
        let size = count * type_size(ty);
        if pos + 8 + size > d.len() {
            Seq::empty()
        } else {
            seq![(tag, ty, d.subrange(pos + 8, pos + 8 + size))] + clip_tags_from(d, pos + 8 + size)
        }
    }
}

/// The view of a list of entries.
pub open spec fn tags_view(v: Seq<NevTag>) -> Seq<(u32, u16, Seq<u8>)> {
    v.map_values(|t: NevTag| (t.tag_id, t.type_id, t.value@))
}

fn type_size_of(type_id: u16) -> (n: usize)
    ensures
        n == type_size(type_id),
        1 <= n <= 8,
{
    if type_id == 1 || type_id == 2 || type_id == 6 || type_id == 7 {
        1
    } else if type_id == 3 || type_id == 8 {
        2
    } else if type_id == 4 || type_id == 9 || type_id == 11 {
        4
    } else if type_id == 5 || type_id == 10 || type_id == 12 {
        8
    } else {
        1
    }
}

/// Splits the clip header (the `NCDT` payload after its 26-byte preamble)
/// into its entries.
pub fn nev_clip_tags(data: &[u8]) -> (r: Vec<NevTag>)
    ensures
        tags_view(r@) == clip_tags_from(data@, 0),
{
    let mut out: Vec<NevTag> = Vec::new();
    let mut pos: usize = 0;
    assert(tags_view(out@) + clip_tags_from(data@, 0) =~= clip_tags_from(data@, 0));
    while pos <= data.len() && data.len() - pos >= 8
        invariant
            pos <= data.len(),
            tags_view(out@) + clip_tags_from(data@, pos as int) == clip_tags_from(data@, 0),
        decreases data.len() - pos,
    {
        let tag = read_u32_be(&data[pos..pos + 4]);
        let ty = read_u16_be(&data[pos + 4..pos + 6]);
        let count = read_u16_be(&data[pos + 6..pos + 8]);
        assert(data@.subrange(pos as int, pos + 4).subrange(0, 4) =~= data@.subrange(pos as int, pos + 4));
        assert(data@.subrange(pos + 4, pos + 6).subrange(0, 2) =~= data@.subrange(pos + 4, pos + 6));
        assert(data@.subrange(pos + 6, pos + 8).subrange(0, 2) =~= data@.subrange(pos + 6, pos + 8));
        let n = type_size_of(ty);
        assert((count as usize) * n <= 0xffff * 8) by (nonlinear_arith)
            requires
                count <= 0xffff,
                n <= 8,
        ;
        let size: usize = (count as usize) * n;
        if size > data.len() - pos - 8 {
            assert(clip_tags_from(data@, pos as int) =~= Seq::<(u32, u16, Seq<u8>)>::empty());
            assert(tags_view(out@) + Seq::<(u32, u16, Seq<u8>)>::empty() =~= tags_view(out@));
            return out;
        }
        let value = vstd::slice::slice_to_vec(&data[pos + 8..pos + 8 + size]);
        let ghost before = out@;
        out.push(NevTag { tag_id: tag, type_id: ty, value });
        assert(tags_view(out@) =~= tags_view(before).push((tag, ty, data@.subrange(pos + 8, pos + 8 + size))));
        assert(tags_view(out@) + clip_tags_from(data@, pos + 8 + size) =~= tags_view(before) + (seq![
            (tag, ty, data@.subrange(pos + 8, pos + 8 + size)),
        ] + clip_tags_from(data@, pos + 8 + size)));
        pos = pos + 8 + size;
    }
    proof {
        if !(pos <= data.len() && data.len() - pos >= 8) {
            assert(clip_tags_from(data@, pos as int) =~= Seq::<(u32, u16, Seq<u8>)>::empty());
        }
    }
    assert(tags_view(out@) + Seq::<(u32, u16, Seq<u8>)>::empty() =~= tags_view(out@));
    out
}


/// A metadata atom of a frame: a tag and its value bytes.
#[derive(Debug, Clone)]
pub struct NevAtom {
    pub tag_id: u32,
    pub value: Vec<u8>,
}

/// Whether the atom at `pos` is one that only contains other atoms.
pub open spec fn is_container_atom(d: Seq<u8>, pos: int) -> bool {
    occurs_at(d, "NRAW".spec_bytes(), pos + 4) || occurs_at(d, "NRFM".spec_bytes(), pos + 4) || occurs_at(
        d,
        "NRFH".spec_bytes(),
        pos + 4,
    ) || occurs_at(d, "NRHM".spec_bytes(), pos + 4) || occurs_at(d, "NRTH".spec_bytes(), pos + 4)
}

/// The metadata atoms of a frame from offset `pos` on, or `None` where a
/// thumbnail atom is cut short. An atom is a big-endian size (4 bytes,
/// counting itself) and a four-byte name. An atom whose size is under 12
/// or runs past the end is not one: the scan moves on by one byte. `NRMT`
/// (of at least 13 bytes) holds a tag (4 bytes), a pad byte and the value;
/// container atoms are entered; a thumbnail `NRTI` is skipped by the size
/// that follows its header's next four bytes; any other atom is skipped.
pub open spec fn frame_atoms_from(d: Seq<u8>, pos: int) -> Option<Seq<(u32, Seq<u8>)>>
    decreases d.len() - pos,
{
    if pos < 0 || pos + 12 > d.len() {
        Some(Seq::empty())
    } else {
        let size = be_uint(d.subrange(pos, pos + 4));
        if size < 12 || pos + size > d.len() {
            frame_atoms_from(d, pos + 1)
        } else {
            if occurs_at(d, "NRMT".spec_bytes(), pos + 4) && size >= 13 {
                match frame_atoms_from(d, pos + size) {
                    Some(rest) => Some(
                        seq![(be_uint(d.subrange(pos + 8, pos + 12)) as u32, d.subrange(pos + 13, pos + size))]
                            + rest,
                    ),
                    None => None,
                }
            } else if is_container_atom(d, pos) {
                frame_atoms_from(d, pos + 8)
            } else if occurs_at(d, "NRTI".spec_bytes(), pos + 4) {
                if pos + 16 > d.len() {
                    None
                } else {
                    let next = pos + be_uint(d.subrange(pos + 12, pos + 16)) + 8;
                    frame_atoms_from(d, if next < d.len() { next } else { d.len() as int })
                }
            } else {
                frame_atoms_from(d, pos + size)
            }
        }
    }
}

/// The view of a list of atoms.
pub open spec fn atoms_view(v: Seq<NevAtom>) -> Seq<(u32, Seq<u8>)> {
    v.map_values(|a: NevAtom| (a.tag_id, a.value@))
}

/// `rest` after `pre`, where `rest` was read.
pub open spec fn after(pre: Seq<(u32, Seq<u8>)>, rest: Option<Seq<(u32, Seq<u8>)>>) -> Option<Seq<(u32, Seq<u8>)>> {
    match rest {
        Some(r) => Some(pre + r),
        None => None,
    }
}

/// Collects the metadata atoms of a frame; fails where a thumbnail atom is
/// cut short.
pub fn nev_frame_atoms(data: &[u8]) -> (r: Result<Vec<NevAtom>, ParseError>)
    ensures
        match r {
            Ok(v) => frame_atoms_from(data@, 0) == Some(atoms_view(v@)),
            Err(e) => frame_atoms_from(data@, 0) is None && e == ParseError::UnexpectedEof,
        },
{
    let mut out: Vec<NevAtom> = Vec::new();
    let mut pos: usize = 0;
    assert(atoms_view(out@) =~= Seq::<(u32, Seq<u8>)>::empty());
    assert(after(atoms_view(out@), frame_atoms_from(data@, 0)) =~~= frame_atoms_from(data@, 0));
    while data.len() >= 12 && pos <= data.len() - 12
        invariant
            pos <= data.len(),
            after(atoms_view(out@), frame_atoms_from(data@, pos as int)) == frame_atoms_from(data@, 0),
        decreases data.len() - pos,
    {
        let size = read_u32_be(&data[pos..pos + 4]);
        assert(data@.subrange(pos as int, pos + 4).subrange(0, 4) =~= data@.subrange(pos as int, pos + 4));
        if size < 12 || size as usize > data.len() - pos {
            pos = pos + 1;
        } else {
            let end: usize = pos + size as usize;
            let is_nrmt = occurs_at_index(data, "NRMT".as_bytes(), pos + 4);
            let is_container = occurs_at_index(data, "NRAW".as_bytes(), pos + 4) || occurs_at_index(
                data,
                "NRFM".as_bytes(),
                pos + 4,
            ) || occurs_at_index(data, "NRFH".as_bytes(), pos + 4) || occurs_at_index(data, "NRHM".as_bytes(), pos + 4)
                || occurs_at_index(data, "NRTH".as_bytes(), pos + 4);
            let is_thumb = occurs_at_index(data, "NRTI".as_bytes(), pos + 4);
            if is_nrmt && size >= 13 {
                let tag = read_u32_be(&data[pos + 8..pos + 12]);
                assert(data@.subrange(pos + 8, pos + 12).subrange(0, 4) =~= data@.subrange(pos + 8, pos + 12));
                let value = vstd::slice::slice_to_vec(&data[pos + 13..end]);
                let ghost before = atoms_view(out@);
                out.push(NevAtom { tag_id: tag, value });
                assert(atoms_view(out@) =~= before.push((tag, data@.subrange(pos + 13, end as int))));
                proof {
                    match frame_atoms_from(data@, end as int) {
                        Some(rest) => {
                            assert(atoms_view(out@) + rest =~= before + (seq![(tag, data@.subrange(pos + 13, end as int))] + rest));
                        },
                        None => {},
                    }
                }
                pos = end;
            } else if is_container {
                pos = pos + 8;
            } else if is_thumb {
                if data.len() - pos < 16 {
                    return Err(ParseError::UnexpectedEof);
                }
                let thumb = read_u32_be(&data[pos + 12..pos + 16]);
                assert(data@.subrange(pos + 12, pos + 16).subrange(0, 4) =~= data@.subrange(pos + 12, pos + 16));
                let skip: u64 = thumb as u64 + 8;
                if skip >= (data.len() - pos) as u64 {
                    pos = data.len();
                } else {
                    pos = pos + skip as usize;
                }
            } else {
                pos = end;
            }
        }
    }
    proof {
        assert(frame_atoms_from(data@, pos as int) == Some(Seq::<(u32, Seq<u8>)>::empty()));
        assert(atoms_view(out@) + Seq::<(u32, Seq<u8>)>::empty() =~= atoms_view(out@));
    }
    Ok(out)
}


/// The value bytes before the first NUL (all of them when there is none).
pub open spec fn before_nul(v: Seq<u8>) -> Seq<u8>
    decreases v.len(),
{
    if v.len() == 0 || v[0] == 0 {
        Seq::empty()
    } else {
        seq![v[0]] + before_nul(v.drop_first())
    }
}

/// A text value: the bytes before the first NUL, decoded as UTF-8 with
/// invalid sequences replaced.
pub fn nev_string(value: &[u8]) -> (r: String)
    ensures
        r@ == lossy_utf8(before_nul(value@)),
        vstd::utf8::valid_utf8(before_nul(value@)) ==> r@ == vstd::utf8::decode_utf8(before_nul(value@)),
{
    let mut end: usize = 0;
    while end < value.len() && value[end] != 0
        invariant
            end <= value.len(),
            forall|k: int| 0 <= k < end ==> value@[k] != 0,
        decreases value.len() - end,
    {
        end = end + 1;
    }
    proof {
        lemma_before_nul(value@, end as int);
    }
    let head = &value[0..end];
    assert(head@ =~= value@.subrange(0, end as int));
    utf8_lossy(head)
}

proof fn lemma_before_nul(v: Seq<u8>, end: int)
    requires
        0 <= end <= v.len(),
        forall|k: int| 0 <= k < end ==> v[k] != 0,
        end == v.len() || v[end] == 0,
    ensures
        before_nul(v) == v.subrange(0, end),
    decreases end,
{
    if end > 0 {
        lemma_before_nul(v.drop_first(), end - 1);
        assert(v.subrange(0, end) =~= seq![v[0]] + v.drop_first().subrange(0, end - 1));
    } else {
        assert(v.subrange(0, 0) =~= Seq::<u8>::empty());
    }
}

/// The unsigned big-endian number in the first `n` bytes of `v`.
pub open spec fn be_head(v: Seq<u8>, n: int) -> int {
    be_uint(v.subrange(0, n)) as int
}

/// An unsigned integer value: a short (types 3 and 8) or a long (4 and 9),
/// when the bytes hold one.
pub open spec fn nev_u32_of(type_id: u16, v: Seq<u8>) -> Option<u32> {
    if (type_id == 3 || type_id == 8) && v.len() >= 2 {
        Some(be_head(v, 2) as u32)
    } else if (type_id == 4 || type_id == 9) && v.len() >= 4 {
        Some(be_head(v, 4) as u32)
    } else {
        None
    }
}

/// Reads an unsigned integer value.
pub fn nev_u32(type_id: u16, value: &[u8]) -> (r: Option<u32>)
    ensures
        r == nev_u32_of(type_id, value@),
{
    if (type_id == 3 || type_id == 8) && value.len() >= 2 {
        Some(read_u16_be(value) as u32)
    } else if (type_id == 4 || type_id == 9) && value.len() >= 4 {
        Some(read_u32_be(value))
    } else {
        None
    }
}

/// A signed integer value: a signed short (type 8), long (9) or byte (6),
/// when the bytes hold one.
pub open spec fn nev_i32_of(type_id: u16, v: Seq<u8>) -> Option<i32> {
    if type_id == 8 && v.len() >= 2 {
        Some(signed(be_head(v, 2), 16) as i32)
    } else if type_id == 9 && v.len() >= 4 {
        Some(signed(be_head(v, 4), 32) as i32)
    } else if type_id == 6 && v.len() >= 1 {
        Some(signed(v[0] as int, 8) as i32)
    } else {
        None
    }
}

/// Reads a signed integer value.
pub fn nev_i32(type_id: u16, value: &[u8]) -> (r: Option<i32>)
    ensures
        r == nev_i32_of(type_id, value@),
{
    if type_id == 8 && value.len() >= 2 {
        Some(read_i16_be(value) as i32)
    } else if type_id == 9 && value.len() >= 4 {
        Some(read_i32_be(value))
    } else if type_id == 6 && value.len() >= 1 {
        let b = value[0];
        let x: i32 = if b >= 0x80 { b as i32 - 256 } else { b as i32 };
        Some(x)
    } else {
        None
    }
}

/// A rational value `(numerator, denominator)`: two big-endian `u32`, the
/// denominator not zero.
pub open spec fn nev_rational_of(v: Seq<u8>) -> Option<(u32, u32)> {
    if v.len() >= 8 && be_uint(v.subrange(4, 8)) > 0 {
        Some((be_head(v, 4) as u32, be_uint(v.subrange(4, 8)) as u32))
    } else {
        None
    }
}

/// Reads a rational value.
pub fn nev_rational(value: &[u8]) -> (r: Option<(u32, u32)>)
    ensures
        r == nev_rational_of(value@),
{
    if value.len() < 8 {
        return None;
    }
    let num = read_u32_be(value);
    let den = read_u32_be(&value[4..8]);
    assert(value@.subrange(4, 8).subrange(0, 4) =~= value@.subrange(4, 8));
    if den > 0 {
        Some((num, den))
    } else {
        None
    }
}

/// A numeric value, as its bits or parts, before conversion to a float.
#[derive(Clone, Copy, Debug, PartialEq, Eq)]
pub enum NevNumber {
    Ratio(u32, u32),
    SignedRatio(i32, i32),
    Float32Bits(u32),
    Float64Bits(u64),
    Unsigned(u32),
    Signed(i32),
}

/// The numeric value of any numeric type, when the bytes hold one: a
/// rational (5) or signed rational (10) with a non-zero denominator, a
/// float (11) or double (12), a byte (1, 7), a short (3), a long (4), a
/// signed short (8) or a signed long (9).
pub open spec fn nev_number_of(type_id: u16, v: Seq<u8>) -> Option<NevNumber> {
    if type_id == 5 {
        if v.len() >= 8 && be_uint(v.subrange(4, 8)) != 0 {
            Some(NevNumber::Ratio(be_head(v, 4) as u32, be_uint(v.subrange(4, 8)) as u32))
        } else {
            None
        }
    } else if type_id == 10 {
        if v.len() >= 8 && be_uint(v.subrange(4, 8)) != 0 {
            Some(
                NevNumber::SignedRatio(
                    signed(be_head(v, 4), 32) as i32,
                    signed(be_uint(v.subrange(4, 8)) as int, 32) as i32,
                ),
            )
        } else {
            None
        }
    } else if type_id == 11 && v.len() >= 4 {
        Some(NevNumber::Float32Bits(be_head(v, 4) as u32))
    } else if type_id == 12 && v.len() >= 8 {
        Some(NevNumber::Float64Bits(be_head(v, 8) as u64))
    } else if (type_id == 1 || type_id == 7) && v.len() >= 1 {
        Some(NevNumber::Unsigned(v[0] as u32))
    } else if type_id == 3 && v.len() >= 2 {
        Some(NevNumber::Unsigned(be_head(v, 2) as u32))
    } else if type_id == 4 && v.len() >= 4 {
        Some(NevNumber::Unsigned(be_head(v, 4) as u32))
    } else if type_id == 8 && v.len() >= 2 {
        Some(NevNumber::Signed(signed(be_head(v, 2), 16) as i32))
    } else if type_id == 9 && v.len() >= 4 {
        Some(NevNumber::Signed(signed(be_head(v, 4), 32) as i32))
    } else {
        None
    }
}

/// Reads a numeric value of any numeric type.
pub fn nev_number(type_id: u16, value: &[u8]) -> (r: Option<NevNumber>)
    ensures
        r == nev_number_of(type_id, value@),
{
    if type_id == 5 || type_id == 10 {
        if value.len() < 8 {
            return None;
        }
        let den_u = read_u32_be(&value[4..8]);
        assert(value@.subrange(4, 8).subrange(0, 4) =~= value@.subrange(4, 8));
        if den_u == 0 {
            return None;
        }
        if type_id == 5 {
            Some(NevNumber::Ratio(read_u32_be(value), den_u))
        } else {
            Some(NevNumber::SignedRatio(read_i32_be(value), read_i32_be(&value[4..8])))
        }
    } else if type_id == 11 && value.len() >= 4 {
        Some(NevNumber::Float32Bits(read_u32_be(value)))
    } else if type_id == 12 && value.len() >= 8 {
        Some(NevNumber::Float64Bits(read_u64_be(value)))
    } else if (type_id == 1 || type_id == 7) && value.len() >= 1 {
        Some(NevNumber::Unsigned(value[0] as u32))
    } else if type_id == 3 && value.len() >= 2 {
        Some(NevNumber::Unsigned(read_u16_be(value) as u32))
    } else if type_id == 4 && value.len() >= 4 {
        Some(NevNumber::Unsigned(read_u32_be(value)))
    } else if type_id == 8 && value.len() >= 2 {
        Some(NevNumber::Signed(read_i16_be(value) as i32))
    } else if type_id == 9 && value.len() >= 4 {
        Some(NevNumber::Signed(read_i32_be(value)))
    } else {
        None
    }
}


/// The decimal text of `n` with at least two digits.
pub open spec fn two_digits(n: nat) -> Seq<char> {
    if n < 10 {
        seq!['0'] + decimal(n)
    } else {
        decimal(n)
    }
}

fn two_digits_of(n: u32) -> (r: Vec<char>)
    ensures
        r@ == two_digits(n as nat),
{
    let d = u64_to_decimal(n as u64);
    if n < 10 {
        let mut v: Vec<char> = Vec::new();
        v.push('0');
        let mut i: usize = 0;
        while i < d.len()
            invariant
                i <= d.len(),
                v@ == seq!['0'] + d@.subrange(0, i as int),
            decreases d.len() - i,
        {
            v.push(d[i]);
            i = i + 1;
        }
        assert(d@.subrange(0, d@.len() as int) =~= d@);
        v
    } else {
        d
    }
}

/// `hh:mm:ss:ff` for a frame count at a whole frame rate: hours modulo
/// 100, each field with at least two digits.
pub open spec fn timecode_text(frames: nat, fps: nat) -> Seq<char> {
    let total = frames / fps;
    two_digits((total / 3600) % 100) + seq![':'] + two_digits((total / 60) % 60) + seq![':'] + two_digits(
        total % 60,
    ) + seq![':'] + two_digits(frames % fps)
}

/// The timecode of `frames` frames at `fps` frames per second.
pub fn frames_to_timecode(frames: u32, fps: u32) -> (r: String)
    requires
        fps >= 1,
    ensures
        r@ == timecode_text(frames as nat, fps as nat),
{
    let total = frames / fps;
    let hh = two_digits_of((total / 3600) % 100);
    let mm = two_digits_of((total / 60) % 60);
    let ss = two_digits_of(total % 60);
    let ff = two_digits_of(frames % fps);
    let mut v: Vec<char> = Vec::new();
    append(&mut v, hh.as_slice());
    v.push(':');
    append(&mut v, mm.as_slice());
    v.push(':');
    append(&mut v, ss.as_slice());
    v.push(':');
    append(&mut v, ff.as_slice());
    string_from_chars(v.as_slice())
}

fn append(v: &mut Vec<char>, a: &[char])
    ensures
        final(v)@ == old(v)@ + a@,
{
    let ghost start = v@;
    let mut i: usize = 0;
    while i < a.len()
        invariant
            i <= a.len(),
            v@ == start + a@.subrange(0, i as int),
        decreases a.len() - i,
    {
        v.push(a[i]);
        i = i + 1;
    }
    assert(a@.subrange(0, a@.len() as int) =~= a@);
}

/// How the value of a known clip tag is read: as text (whole, trimmed, or
/// only when not empty), an unsigned integer, a rational, any number, the
/// clip's frame rate, the record frame rate (kept where none was read), or
/// a start timecode (text, or a frame count).
#[derive(Clone, Copy, Debug, PartialEq, Eq, Structural)]
pub enum Reading {
    Str,
    StrTrim,
    StrNonEmpty,
    U32,
    Ratio,
    Number,
    Rate,
    RecordRate,
    EdgeTimecode,
    AbsTimecode,
}

/// The metadata key and reading of a known clip tag.
pub open spec fn clip_field(tag: u32) -> Option<(Seq<char>, Reading)> {
    if tag == 0x00000001 {
        Some(("make"@, Reading::Str))
    } else if tag == 0x00000002 {
        Some(("camera_model"@, Reading::Str))
    } else if tag == 0x00000003 {
        Some(("camera_firmware_version"@, Reading::Str))
    } else if tag == 0x00000011 {
        Some(("local_datetime"@, Reading::Str))
    } else if tag == 0x00000012 {
        Some(("gmt_datetime"@, Reading::Str))
    } else if tag == 0x00000013 {
        Some(("record_mode"@, Reading::U32))
    } else if tag == 0x00000014 {
        Some(("flip_horizontal"@, Reading::U32))
    } else if tag == 0x00000015 {
        Some(("flip_vertical"@, Reading::U32))
    } else if tag == 0x00000016 {
        Some(("framerate"@, Reading::Rate))
    } else if tag == 0x00000017 {
        Some(("record_framerate"@, Reading::RecordRate))
    } else if tag == 0x00000019 {
        Some(("timezone"@, Reading::Str))
    } else if tag == 0x00000021 {
        Some(("color_space"@, Reading::U32))
    } else if tag == 0x00000022 {
        Some(("image_width"@, Reading::U32))
    } else if tag == 0x00000023 {
        Some(("image_height"@, Reading::U32))
    } else if tag == 0x00000024 {
        Some(("bits_per_component"@, Reading::U32))
    } else if tag == 0x00000025 {
        Some(("bit_depth"@, Reading::U32))
    } else if tag == 0x00000026 {
        Some(("audio_channels"@, Reading::U32))
    } else if tag == 0x00000027 {
        Some(("audio_format"@, Reading::U32))
    } else if tag == 0x00000031 {
        Some(("channel_mask"@, Reading::U32))
    } else if tag == 0x00000032 {
        Some(("audio_codec"@, Reading::U32))
    } else if tag == 0x00000033 {
        Some(("sample_size"@, Reading::U32))
    } else if tag == 0x00000034 {
        Some(("samplerate"@, Reading::U32))
    } else if tag == 0x00001017 {
        Some(("white_balance_kelvin"@, Reading::U32))
    } else if tag == 0x0000101a {
        Some(("clip_default_color_version"@, Reading::U32))
    } else if tag == 0x01000112 {
        Some(("orientation"@, Reading::U32))
    } else if tag == 0x0110829a {
        Some(("exposure_time"@, Reading::Ratio))
    } else if tag == 0x0110829d {
        Some(("f_number"@, Reading::Ratio))
    } else if tag == 0x01108822 {
        Some(("exposure_program"@, Reading::U32))
    } else if tag == 0x01108827 {
        Some(("iso"@, Reading::U32))
    } else if tag == 0x01108832 {
        Some(("iso"@, Reading::U32))
    } else if tag == 0x01109204 {
        Some(("exposure_compensation"@, Reading::Number))
    } else if tag == 0x01109207 {
        Some(("metering_mode"@, Reading::U32))
    } else if tag == 0x0110920a {
        Some(("lens_focal_length"@, Reading::Ratio))
    } else if tag == 0x0110a431 {
        Some(("camera_pin"@, Reading::Str))
    } else if tag == 0x0110a432 {
        Some(("lens_info"@, Reading::Ratio))
    } else if tag == 0x0110a433 {
        Some(("lens_make"@, Reading::Str))
    } else if tag == 0x0110a434 {
        Some(("lens_name"@, Reading::Str))
    } else if tag == 0x0110a435 {
        Some(("lens_serial_number"@, Reading::Str))
    } else if tag == 0x02000005 {
        Some(("white_balance_setting"@, Reading::StrTrim))
    } else if tag == 0x02000007 {
        Some(("focus_mode"@, Reading::StrTrim))
    } else if tag == 0x0200001b {
        Some(("nikon_0x1b"@, Reading::U32))
    } else if tag == 0x0200002a {
        Some(("nikon_0x2a"@, Reading::U32))
    } else if tag == 0x0200003c {
        Some(("nikon_0x3c"@, Reading::U32))
    } else if tag == 0x0200003f {
        Some(("exposure_fine_tune"@, Reading::Ratio))
    } else if tag == 0x02000084 {
        Some(("nikon_lens_info"@, Reading::Ratio))
    } else if tag == 0x020000a7 {
        Some(("shutter_count"@, Reading::U32))
    } else if tag == 0x020000ab {
        Some(("variant_program"@, Reading::Str))
    } else if tag == 0x020000b1 {
        Some(("nikon_0xb1"@, Reading::U32))
    } else if tag == 0x00000018 {
        Some(("audio_format"@, Reading::U32))
    } else if tag == 0x00001000 {
        Some(("start_edge_timecode"@, Reading::EdgeTimecode))
    } else if tag == 0x00001001 {
        Some(("start_absolute_timecode"@, Reading::AbsTimecode))
    } else if tag == 0x00001006 {
        Some(("camera_pin"@, Reading::StrNonEmpty))
    } else if tag == 0x00001023 {
        Some(("local_date"@, Reading::StrNonEmpty))
    } else if tag == 0x00001024 {
        Some(("local_time"@, Reading::StrNonEmpty))
    } else if tag == 0x00001025 {
        Some(("camera_firmware_version"@, Reading::StrNonEmpty))
    } else if tag == 0x00001036 {
        Some(("pixel_aspect_ratio"@, Reading::Number))
    } else if tag == 0x0000106e {
        Some(("lens_mount"@, Reading::StrNonEmpty))
    } else if tag == 0x00001070 {
        Some(("lens_name"@, Reading::StrNonEmpty))
    } else if tag == 0x00001071 {
        Some(("camera_model"@, Reading::StrNonEmpty))
    } else if tag == 0x000010a1 {
        Some(("sensor_name"@, Reading::StrNonEmpty))
    } else if tag == 0x0000200d {
        Some(("white_balance_kelvin"@, Reading::Number))
    } else if tag == 0x0000403b {
        Some(("iso"@, Reading::U32))
    } else if tag == 0x0000406a {
        Some(("f_number"@, Reading::Number))
    } else if tag == 0x0000406b {
        Some(("lens_focal_length"@, Reading::Number))
    } else {
        None
    }
}

/// A metadata value, numbers as read before any conversion to a float; a
/// frame count with the record frame rate (numerator, denominator) that
/// turns it into a timecode.
#[derive(Debug, Clone, PartialEq)]
pub enum NevValue {
    Text(String),
    U32(u32),
    I32(i32),
    Ratio(u32, u32),
    Number(NevNumber),
    FramesAtRate(u32, u32, u32),
    Bytes(Vec<u8>),
    F32Bits(u32),
    F32List(Vec<u32>),
}

/// A metadata value with its text and lists as sequences.
pub enum NevView {
    Text(Seq<char>),
    U32(u32),
    I32(i32),
    Ratio(u32, u32),
    Number(NevNumber),
    FramesAtRate(u32, u32, u32),
    Bytes(Seq<u8>),
    F32Bits(u32),
    F32List(Seq<u32>),
}

/// The view of a metadata value.
pub open spec fn nev_view(v: NevValue) -> NevView {
    match v {
        NevValue::Text(s) => NevView::Text(s@),
        NevValue::U32(x) => NevView::U32(x),
        NevValue::I32(x) => NevView::I32(x),
        NevValue::Ratio(a, b) => NevView::Ratio(a, b),
        NevValue::Number(n) => NevView::Number(n),
        NevValue::FramesAtRate(f, a, b) => NevView::FramesAtRate(f, a, b),
        NevValue::Bytes(b) => NevView::Bytes(b@),
        NevValue::F32Bits(x) => NevView::F32Bits(x),
        NevValue::F32List(l) => NevView::F32List(l@),
    }
}

/// A metadata entry: its key and value.
#[derive(Debug, Clone)]
pub struct NevEntry {
    pub key: String,
    pub value: NevValue,
}

/// The view of metadata entries.
pub open spec fn nev_entries_view(v: Seq<NevEntry>) -> Seq<(Seq<char>, NevView)> {
    v.map_values(|e: NevEntry| (e.key@, nev_view(e.value)))
}

/// The text of a value: up to its first NUL, decoded with invalid UTF-8
/// replaced.
pub open spec fn nev_text(v: Seq<u8>) -> Seq<char> {
    lossy_utf8(before_nul(v))
}

/// The key of a tag that is not known: `tag_0x` and eight hex digits.
pub open spec fn hex_key(tag: u32) -> Seq<char> {
    "tag_0x"@ + hex8(tag)
}

/// The entry of a clip tag that is not known, by its type: text (2), any
/// number (5, 10, 11, 12), a signed integer (6, 8, 9) or an unsigned one
/// (3, 4); none where the bytes hold no such value or the type is other.
pub open spec fn unknown_entry(tag: u32, ty: u16, v: Seq<u8>) -> Option<(Seq<char>, NevView)> {
    if ty == 2 {
        Some((hex_key(tag), NevView::Text(nev_text(v))))
    } else if ty == 5 || ty == 10 || ty == 11 || ty == 12 {
        match nev_number_of(ty, v) {
            Some(n) => Some((hex_key(tag), NevView::Number(n))),
            None => None,
        }
    } else if ty == 6 || ty == 8 || ty == 9 {
        match nev_i32_of(ty, v) {
            Some(x) => Some((hex_key(tag), NevView::I32(x))),
            None => None,
        }
    } else if ty == 1 || ty == 3 || ty == 4 || ty == 7 {
        match nev_u32_of(ty, v) {
            Some(x) => Some((hex_key(tag), NevView::U32(x))),
            None => None,
        }
    } else {
        None
    }
}

/// The entry of one clip tag, and the record frame rate after it.
pub open spec fn clip_entry(tag: u32, ty: u16, v: Seq<u8>, rate: Option<(u32, u32)>) -> (
    Option<(Seq<char>, NevView)>,
    Option<(u32, u32)>,
) {
    match clip_field(tag) {
        None => (unknown_entry(tag, ty, v), rate),
        Some((key, rd)) => match rd {
            Reading::Str => (Some((key, NevView::Text(nev_text(v)))), rate),
            Reading::StrTrim => (Some((key, NevView::Text(trimmed(nev_text(v))))), rate),
            Reading::StrNonEmpty => if nev_text(v).len() > 0 {
                (Some((key, NevView::Text(nev_text(v)))), rate)
            } else {
                (None, rate)
            },
            Reading::U32 => match nev_u32_of(ty, v) {
                Some(x) => (Some((key, NevView::U32(x))), rate),
                None => (None, rate),
            },
            Reading::Ratio => match nev_rational_of(v) {
                Some((a, b)) => (Some((key, NevView::Ratio(a, b))), rate),
                None => (None, rate),
            },
            Reading::Number => match nev_number_of(ty, v) {
                Some(n) => (Some((key, NevView::Number(n))), rate),
                None => (None, rate),
            },
            Reading::Rate => match nev_rational_of(v) {
                Some((a, b)) => (Some((key, NevView::Ratio(a, b))), Some((a, b))),
                None => (None, rate),
            },
            Reading::RecordRate => match nev_rational_of(v) {
                Some((a, b)) => (Some((key, NevView::Ratio(a, b))), if rate is None {
                    Some((a, b))
                } else {
                    rate
                }),
                None => (None, rate),
            },
            _ => if ty == 2 {
                (Some((key, NevView::Text(nev_text(v)))), rate)
            } else {
                match nev_u32_of(ty, v) {
                    Some(f) => match rate {
                        Some((a, b)) => (Some((key, NevView::FramesAtRate(f, a, b))), rate),
                        None => (Some((key + "_frames"@, NevView::U32(f))), rate),
                    },
                    None => (None, rate),
                }
            },
        },
    }
}

/// The entries of the clip tags `tags`, with the record frame rate read
/// before them; later entries of a key replace earlier ones.
pub open spec fn clip_entries(tags: Seq<(u32, u16, Seq<u8>)>, rate: Option<(u32, u32)>) -> Seq<(Seq<char>, NevView)>
    decreases tags.len(),
{
    if tags.len() == 0 {
        Seq::empty()
    } else {
        let (e, r2) = clip_entry(tags[0].0, tags[0].1, tags[0].2, rate);
        (match e {
            Some(x) => seq![x],
            None => Seq::empty(),
        }) + clip_entries(tags.drop_first(), r2)
    }
}

/// The record frame rate after the clip tags `tags`, from `rate`: the
/// frame rate tag sets it, the record frame rate tag only where none is
/// set.
pub open spec fn clip_rate(tags: Seq<(u32, u16, Seq<u8>)>, rate: Option<(u32, u32)>) -> Option<(u32, u32)>
    decreases tags.len(),
{
    if tags.len() == 0 {
        rate
    } else {
        clip_rate(tags.drop_first(), clip_entry(tags[0].0, tags[0].1, tags[0].2, rate).1)
    }
}

fn clip_field_of(tag: u32) -> (r: Option<(&'static str, Reading)>)
    ensures
        match clip_field(tag) {
            None => r is None,
            Some((k, rd)) => r matches Some((k2, rd2)) && k2@ == k && rd2 == rd,
        },
{
    if tag == 0x00000001 {
        Some(("make", Reading::Str))
    } else if tag == 0x00000002 {
        Some(("camera_model", Reading::Str))
    } else if tag == 0x00000003 {
        Some(("camera_firmware_version", Reading::Str))
    } else if tag == 0x00000011 {
        Some(("local_datetime", Reading::Str))
    } else if tag == 0x00000012 {
        Some(("gmt_datetime", Reading::Str))
    } else if tag == 0x00000013 {
        Some(("record_mode", Reading::U32))
    } else if tag == 0x00000014 {
        Some(("flip_horizontal", Reading::U32))
    } else if tag == 0x00000015 {
        Some(("flip_vertical", Reading::U32))
    } else if tag == 0x00000016 {
        Some(("framerate", Reading::Rate))
    } else if tag == 0x00000017 {
        Some(("record_framerate", Reading::RecordRate))
    } else if tag == 0x00000019 {
        Some(("timezone", Reading::Str))
    } else if tag == 0x00000021 {
        Some(("color_space", Reading::U32))
    } else if tag == 0x00000022 {
        Some(("image_width", Reading::U32))
    } else if tag == 0x00000023 {
        Some(("image_height", Reading::U32))
    } else if tag == 0x00000024 {
        Some(("bits_per_component", Reading::U32))
    } else if tag == 0x00000025 {
        Some(("bit_depth", Reading::U32))
    } else if tag == 0x00000026 {
        Some(("audio_channels", Reading::U32))
    } else if tag == 0x00000027 {
        Some(("audio_format", Reading::U32))
    } else if tag == 0x00000031 {
        Some(("channel_mask", Reading::U32))
    } else if tag == 0x00000032 {
        Some(("audio_codec", Reading::U32))
    } else if tag == 0x00000033 {
        Some(("sample_size", Reading::U32))
    } else if tag == 0x00000034 {
        Some(("samplerate", Reading::U32))
    } else if tag == 0x00001017 {
        Some(("white_balance_kelvin", Reading::U32))
    } else if tag == 0x0000101a {
        Some(("clip_default_color_version", Reading::U32))
    } else if tag == 0x01000112 {
        Some(("orientation", Reading::U32))
    } else if tag == 0x0110829a {
        Some(("exposure_time", Reading::Ratio))
    } else if tag == 0x0110829d {
        Some(("f_number", Reading::Ratio))
    } else if tag == 0x01108822 {
        Some(("exposure_program", Reading::U32))
    } else if tag == 0x01108827 {
        Some(("iso", Reading::U32))
    } else if tag == 0x01108832 {
        Some(("iso", Reading::U32))
    } else if tag == 0x01109204 {
        Some(("exposure_compensation", Reading::Number))
    } else if tag == 0x01109207 {
        Some(("metering_mode", Reading::U32))
    } else if tag == 0x0110920a {
        Some(("lens_focal_length", Reading::Ratio))
    } else if tag == 0x0110a431 {
        Some(("camera_pin", Reading::Str))
    } else if tag == 0x0110a432 {
        Some(("lens_info", Reading::Ratio))
    } else if tag == 0x0110a433 {
        Some(("lens_make", Reading::Str))
    } else if tag == 0x0110a434 {
        Some(("lens_name", Reading::Str))
    } else if tag == 0x0110a435 {
        Some(("lens_serial_number", Reading::Str))
    } else if tag == 0x02000005 {
        Some(("white_balance_setting", Reading::StrTrim))
    } else if tag == 0x02000007 {
        Some(("focus_mode", Reading::StrTrim))
    } else if tag == 0x0200001b {
        Some(("nikon_0x1b", Reading::U32))
    } else if tag == 0x0200002a {
        Some(("nikon_0x2a", Reading::U32))
    } else if tag == 0x0200003c {
        Some(("nikon_0x3c", Reading::U32))
    } else if tag == 0x0200003f {
        Some(("exposure_fine_tune", Reading::Ratio))
    } else if tag == 0x02000084 {
        Some(("nikon_lens_info", Reading::Ratio))
    } else if tag == 0x020000a7 {
        Some(("shutter_count", Reading::U32))
    } else if tag == 0x020000ab {
        Some(("variant_program", Reading::Str))
    } else if tag == 0x020000b1 {
        Some(("nikon_0xb1", Reading::U32))
    } else if tag == 0x00000018 {
        Some(("audio_format", Reading::U32))
    } else if tag == 0x00001000 {
        Some(("start_edge_timecode", Reading::EdgeTimecode))
    } else if tag == 0x00001001 {
        Some(("start_absolute_timecode", Reading::AbsTimecode))
    } else if tag == 0x00001006 {
        Some(("camera_pin", Reading::StrNonEmpty))
    } else if tag == 0x00001023 {
        Some(("local_date", Reading::StrNonEmpty))
    } else if tag == 0x00001024 {
        Some(("local_time", Reading::StrNonEmpty))
    } else if tag == 0x00001025 {
        Some(("camera_firmware_version", Reading::StrNonEmpty))
    } else if tag == 0x00001036 {
        Some(("pixel_aspect_ratio", Reading::Number))
    } else if tag == 0x0000106e {
        Some(("lens_mount", Reading::StrNonEmpty))
    } else if tag == 0x00001070 {
        Some(("lens_name", Reading::StrNonEmpty))
    } else if tag == 0x00001071 {
        Some(("camera_model", Reading::StrNonEmpty))
    } else if tag == 0x000010a1 {
        Some(("sensor_name", Reading::StrNonEmpty))
    } else if tag == 0x0000200d {
        Some(("white_balance_kelvin", Reading::Number))
    } else if tag == 0x0000403b {
        Some(("iso", Reading::U32))
    } else if tag == 0x0000406a {
        Some(("f_number", Reading::Number))
    } else if tag == 0x0000406b {
        Some(("lens_focal_length", Reading::Number))
    } else {
        None
    }
}

fn hex_key_of(tag: u32) -> (s: String)
    ensures
        s@ == hex_key(tag),
{
    let mut v = str_chars("tag_0x");
    push_hex8(&mut v, tag);
    string_from_chars(v.as_slice())
}

fn unknown_entry_of(tag: u32, ty: u16, v: &[u8]) -> (r: Option<NevEntry>)
    ensures
        match unknown_entry(tag, ty, v@) {
            None => r is None,
            Some((k, x)) => r matches Some(e) && e.key@ == k && nev_view(e.value) == x,
        },
{
    if ty == 2 {
        Some(NevEntry { key: hex_key_of(tag), value: NevValue::Text(nev_string(v)) })
    } else if ty == 5 || ty == 10 || ty == 11 || ty == 12 {
        match nev_number(ty, v) {
            Some(n) => Some(NevEntry { key: hex_key_of(tag), value: NevValue::Number(n) }),
            None => None,
        }
    } else if ty == 6 || ty == 8 || ty == 9 {
        match nev_i32(ty, v) {
            Some(x) => Some(NevEntry { key: hex_key_of(tag), value: NevValue::I32(x) }),
            None => None,
        }
    } else if ty == 1 || ty == 3 || ty == 4 || ty == 7 {
        match nev_u32(ty, v) {
            Some(x) => Some(NevEntry { key: hex_key_of(tag), value: NevValue::U32(x) }),
            None => None,
        }
    } else {
        None
    }
}

fn text_entry(key: &str, v: &[u8]) -> (e: NevEntry)
    ensures
        e.key@ == key@,
        nev_view(e.value) == NevView::Text(nev_text(v@)),
{
    NevEntry { key: key.to_owned(), value: NevValue::Text(nev_string(v)) }
}

#[verifier::rlimit(40)]
fn clip_entry_of(t: &NevTag, rate: Option<(u32, u32)>) -> (r: (Option<NevEntry>, Option<(u32, u32)>))
    ensures
        ({
            let (e, r2) = clip_entry(t.tag_id, t.type_id, t.value@, rate);
            &&& r.1 == r2
            &&& match e {
                None => r.0 is None,
                Some((k, x)) => r.0 matches Some(en) && en.key@ == k && nev_view(en.value) == x,
            }
        }),
{
    let v = t.value.as_slice();
    let ty = t.type_id;
    match clip_field_of(t.tag_id) {
        None => (unknown_entry_of(t.tag_id, ty, v), rate),
        Some((key, rd)) => match rd {
            Reading::Str => (Some(text_entry(key, v)), rate),
            Reading::StrTrim => {
                let s = nev_string(v);
                let c = str_chars(s.as_str());
                let tc = trim_chars(c.as_slice());
                (Some(NevEntry { key: key.to_owned(), value: NevValue::Text(string_from_chars(tc.as_slice())) }), rate)
            },
            Reading::StrNonEmpty => {
                let e = text_entry(key, v);
                let c = match &e.value {
                    NevValue::Text(s) => str_chars(s.as_str()),
                    _ => Vec::new(),
                };
                if c.len() > 0 {
                    (Some(e), rate)
                } else {
                    (None, rate)
                }
            },
            Reading::U32 => match nev_u32(ty, v) {
                Some(x) => (Some(NevEntry { key: key.to_owned(), value: NevValue::U32(x) }), rate),
                None => (None, rate),
            },
            Reading::Ratio => match nev_rational(v) {
                Some((a, b)) => (Some(NevEntry { key: key.to_owned(), value: NevValue::Ratio(a, b) }), rate),
                None => (None, rate),
            },
            Reading::Number => match nev_number(ty, v) {
                Some(n) => (Some(NevEntry { key: key.to_owned(), value: NevValue::Number(n) }), rate),
                None => (None, rate),
            },
            Reading::Rate => match nev_rational(v) {
                Some((a, b)) => (Some(NevEntry { key: key.to_owned(), value: NevValue::Ratio(a, b) }), Some((a, b))),
                None => (None, rate),
            },
            Reading::RecordRate => match nev_rational(v) {
                Some((a, b)) => {
                    let r2 = if rate.is_none() {
                        Some((a, b))
                    } else {
                        rate
                    };
                    (Some(NevEntry { key: key.to_owned(), value: NevValue::Ratio(a, b) }), r2)
                },
                None => (None, rate),
            },
            _ => {
                if ty == 2 {
                    (Some(text_entry(key, v)), rate)
                } else {
                    match nev_u32(ty, v) {
                        Some(f) => match rate {
                            Some((a, b)) => (Some(NevEntry { key: key.to_owned(), value: NevValue::FramesAtRate(f, a, b) }), rate),
                            None => (Some(NevEntry { key: concat_str(key, "_frames"), value: NevValue::U32(f) }), rate),
                        },
                        None => (None, rate),
                    }
                }
            },
        },
    }
}

/// The metadata entries of a clip header (see `clip_entries`), in tag
/// order, and the record frame rate that the header sets (see
/// `clip_rate`), as numerator and denominator; a later entry of a key
/// replaces an earlier one, and the camera model is the value of the last
/// `camera_model` entry.
pub fn nev_clip_metadata(data: &[u8]) -> (r: (Vec<NevEntry>, Option<(u32, u32)>))
    ensures
        nev_entries_view(r.0@) == clip_entries(clip_tags_from(data@, 0), None),
        r.1 == clip_rate(clip_tags_from(data@, 0), None),
{
    let tags = nev_clip_tags(data);
    let ghost tv = tags_view(tags@);
    let mut out: Vec<NevEntry> = Vec::new();
    let mut rate: Option<(u32, u32)> = None;
    let mut i: usize = 0;
    assert(tv.subrange(0, tv.len() as int) =~= tv);
    assert(nev_entries_view(out@) + clip_entries(tv, None) =~= clip_entries(tv, None));
    while i < tags.len()
        invariant
            i <= tags.len(),
            tv == tags_view(tags@),
            tv == clip_tags_from(data@, 0),
            nev_entries_view(out@) + clip_entries(tv.subrange(i as int, tv.len() as int), rate) == clip_entries(tv, None),
            clip_rate(tv.subrange(i as int, tv.len() as int), rate) == clip_rate(tv, None),
        decreases tags.len() - i,
    {
        let ghost rest = tv.subrange(i as int, tv.len() as int);
        assert(rest[0] == (tags@[i as int].tag_id, tags@[i as int].type_id, tags@[i as int].value@));
        assert(rest.drop_first() =~= tv.subrange(i + 1, tv.len() as int));
        let ghost before = nev_entries_view(out@);
        let (e, r2) = clip_entry_of(&tags[i], rate);
        let ghost (ge, gr) = clip_entry(rest[0].0, rest[0].1, rest[0].2, rate);
        let ghost piece: Seq<(Seq<char>, NevView)> = match ge {
            Some(x) => seq![x],
            None => Seq::empty(),
        };
        match e {
            Some(en) => {
                out.push(en);
                assert(nev_entries_view(out@) =~= before + piece);
            },
            None => {
                assert(nev_entries_view(out@) =~= before + piece);
            },
        }
        assert(before + (piece + clip_entries(rest.drop_first(), gr)) =~= (before + piece) + clip_entries(rest.drop_first(), gr));
        rate = r2;
        i = i + 1;
    }
    assert(tv.subrange(tv.len() as int, tv.len() as int) =~= Seq::<(u32, u16, Seq<u8>)>::empty());
    assert(nev_entries_view(out@) + Seq::<(Seq<char>, NevView)>::empty() =~= nev_entries_view(out@));
    (out, rate)
}

/// Whether the bits of an `f32` are those of a finite value whose
/// magnitude is below 1e10 (bits 0x501502f9).
pub open spec fn small_finite_bits(b: u32) -> bool {
    (b & 0x7fff_ffff) < 0x5015_02f9
}

/// The nine big-endian `f32` (as bits) at the start of `v`.
pub open spec fn nine_floats(v: Seq<u8>) -> Seq<u32> {
    Seq::new(9, |k: int| be_uint(v.subrange(4 * k, 4 * k + 4)) as u32)
}

/// The entry of one frame metadata atom: a width or height (`u32`), the
/// CFA pattern (bytes), exposure time, f-number, exposure compensation and
/// focal length (`f32`), ISO (`u32`), orientation and white balance
/// (`u16`), the colour matrix (nine `f32`), and for other tags an `f32`
/// that is finite and below 1e10 in magnitude; none where the bytes are
/// too few. `None` for a width or height of fewer than four bytes.
pub open spec fn frame_entry(tag: u32, v: Seq<u8>) -> Option<Option<(Seq<char>, NevView)>> {
    if tag == 0x0110_0100 || tag == 0x0110_0101 {
        if v.len() < 4 {
            None
        } else {
            Some(Some((if tag == 0x0110_0100 { "image_width"@ } else { "image_height"@ }, NevView::U32(be_head(v, 4) as u32))))
        }
    } else if tag == 0x0110_a302 {
        Some(Some(("cfa_pattern"@, NevView::Bytes(v))))
    } else if tag == 0x0110_829a || tag == 0x0110_829d || tag == 0x0110_9204 || tag == 0x0110_920a {
        if v.len() < 4 {
            Some(None)
        } else {
            Some(
                Some(
                    (
                        if tag == 0x0110_829a {
                            "exposure_time"@
                        } else if tag == 0x0110_829d {
                            "f_number"@
                        } else if tag == 0x0110_9204 {
                            "exposure_compensation"@
                        } else {
                            "lens_focal_length"@
                        },
                        NevView::F32Bits(be_head(v, 4) as u32),
                    ),
                ),
            )
        }
    } else if tag == 0x0110_8832 {
        if v.len() < 4 { Some(None) } else { Some(Some(("iso"@, NevView::U32(be_head(v, 4) as u32)))) }
    } else if tag == 0x0110_0112 || tag == 0x0190_0010 {
        if v.len() < 2 {
            Some(None)
        } else {
            Some(Some((if tag == 0x0110_0112 { "orientation"@ } else { "white_balance_kelvin"@ }, NevView::U32(be_head(v, 2) as u32))))
        }
    } else if tag == 0x0190_0012 {
        if v.len() < 36 { Some(None) } else { Some(Some(("color_matrix"@, NevView::F32List(nine_floats(v))))) }
    } else {
        if v.len() >= 4 && small_finite_bits(be_head(v, 4) as u32) {
            Some(Some((hex_key(tag), NevView::F32Bits(be_head(v, 4) as u32))))
        } else {
            Some(None)
        }
    }
}

/// The entries of the frame atoms `atoms`, in order; `None` where a width
/// or height is too short.
pub open spec fn frame_entries(atoms: Seq<(u32, Seq<u8>)>) -> Option<Seq<(Seq<char>, NevView)>>
    decreases atoms.len(),
{
    if atoms.len() == 0 {
        Some(Seq::empty())
    } else {
        match frame_entry(atoms[0].0, atoms[0].1) {
            None => None,
            Some(e) => match frame_entries(atoms.drop_first()) {
                None => None,
                Some(rest) => Some(
                    (match e {
                        Some(x) => seq![x],
                        None => Seq::empty(),
                    }) + rest,
                ),
            },
        }
    }
}

/// How reading a frame's metadata ends.
pub enum FrameMeta {
    /// The entries, in atom order; a later entry of a key replaces an
    /// earlier one.
    Entries(Vec<NevEntry>),
    /// A thumbnail atom is cut short.
    Cut,
    /// A width or height atom holds fewer than four bytes.
    ShortSize,
}

fn frame_entry_of(a: &NevAtom) -> (r: Option<Option<NevEntry>>)
    ensures
        match frame_entry(a.tag_id, a.value@) {
            None => r is None,
            Some(None) => r == Some(None::<NevEntry>),
            Some(Some((k, x))) => r matches Some(Some(e)) && e.key@ == k && nev_view(e.value) == x,
        },
{
    let v = a.value.as_slice();
    let tag = a.tag_id;
    if tag == 0x0110_0100 || tag == 0x0110_0101 {
        if v.len() < 4 {
            return None;
        }
        let key = if tag == 0x0110_0100 { "image_width" } else { "image_height" };
        return Some(Some(NevEntry { key: key.to_owned(), value: NevValue::U32(read_u32_be(v)) }));
    }
    if tag == 0x0110_a302 {
        return Some(Some(NevEntry { key: "cfa_pattern".to_owned(), value: NevValue::Bytes(a.value.clone()) }));
    }
    if tag == 0x0110_829a || tag == 0x0110_829d || tag == 0x0110_9204 || tag == 0x0110_920a {
        if v.len() < 4 {
            return Some(None);
        }
        let key = if tag == 0x0110_829a {
            "exposure_time"
        } else if tag == 0x0110_829d {
            "f_number"
        } else if tag == 0x0110_9204 {
            "exposure_compensation"
        } else {
            "lens_focal_length"
        };
        return Some(Some(NevEntry { key: key.to_owned(), value: NevValue::F32Bits(read_u32_be(v)) }));
    }
    if tag == 0x0110_8832 {
        if v.len() < 4 {
            return Some(None);
        }
        return Some(Some(NevEntry { key: "iso".to_owned(), value: NevValue::U32(read_u32_be(v)) }));
    }
    if tag == 0x0110_0112 || tag == 0x0190_0010 {
        if v.len() < 2 {
            return Some(None);
        }
        let key = if tag == 0x0110_0112 { "orientation" } else { "white_balance_kelvin" };
        return Some(Some(NevEntry { key: key.to_owned(), value: NevValue::U32(read_u16_be(v) as u32) }));
    }
    if tag == 0x0190_0012 {
        if v.len() < 36 {
            return Some(None);
        }
        let mut l: Vec<u32> = Vec::new();
        let mut k: usize = 0;
        while k < 9
            invariant
                k <= 9,
                v.len() >= 36,
                l@ =~= nine_floats(v@).subrange(0, k as int),
            decreases 9 - k,
        {
            let h = &v[4 * k..4 * k + 4];
            assert(h@.subrange(0, 4) =~= v@.subrange(4 * k, 4 * k + 4));
            l.push(read_u32_be(h));
            k = k + 1;
        }
        assert(l@ =~= nine_floats(v@));
        return Some(Some(NevEntry { key: "color_matrix".to_owned(), value: NevValue::F32List(l) }));
    }
    if v.len() >= 4 {
        let b = read_u32_be(v);
        if (b & 0x7fff_ffff) < 0x5015_02f9 {
            return Some(Some(NevEntry { key: hex_key_of(tag), value: NevValue::F32Bits(b) }));
        }
    }
    Some(None)
}

/// The per-frame metadata of a frame's data: its atoms (see
/// `frame_atoms_from`) read by `frame_entries`. A frame whose atoms are
/// cut short is `Cut`, whatever atoms come before the cut.
pub fn nev_frame_metadata(data: &[u8]) -> (r: FrameMeta)
    ensures
        match frame_atoms_from(data@, 0) {
            None => r is Cut,
            Some(a) => match frame_entries(a) {
                None => r is ShortSize,
                Some(es) => r matches FrameMeta::Entries(v) && nev_entries_view(v@) == es,
            },
        },
{
    let atoms = match nev_frame_atoms(data) {
        Ok(a) => a,
        Err(_) => {
            return FrameMeta::Cut;
        },
    };
    let ghost av = atoms_view(atoms@);
    let mut out: Vec<NevEntry> = Vec::new();
    let mut i: usize = 0;
    assert(av.subrange(0, av.len() as int) =~= av);
    assert(frame_entries(av) == match frame_entries(av.subrange(0, av.len() as int)) {
        Some(rest) => Some(nev_entries_view(out@) + rest),
        None => None,
    }) by {
        match frame_entries(av) {
            Some(rest) => {
                assert(nev_entries_view(out@) + rest =~= rest);
            },
            None => {},
        }
    }
    while i < atoms.len()
        invariant
            i <= atoms.len(),
            av == atoms_view(atoms@),
            frame_atoms_from(data@, 0) == Some(av),
            frame_entries(av) == match frame_entries(av.subrange(i as int, av.len() as int)) {
                Some(rest) => Some(nev_entries_view(out@) + rest),
                None => None,
            },
        decreases atoms.len() - i,
    {
        let ghost rest = av.subrange(i as int, av.len() as int);
        assert(rest[0] == (atoms@[i as int].tag_id, atoms@[i as int].value@));
        assert(rest.drop_first() =~= av.subrange(i + 1, av.len() as int));
        let ghost before = nev_entries_view(out@);
        match frame_entry_of(&atoms[i]) {
            None => {
                assert(frame_entries(rest) is None);
                return FrameMeta::ShortSize;
            },
            Some(None) => {
                proof {
                    match frame_entries(rest.drop_first()) {
                        Some(t) => {
                            assert(Seq::<(Seq<char>, NevView)>::empty() + t =~= t);
                        },
                        None => {},
                    }
                }
            },
            Some(Some(e)) => {
                let ghost x = (e.key@, nev_view(e.value));
                out.push(e);
                proof {
                    assert(nev_entries_view(out@) =~= before.push(x));
                    match frame_entries(rest.drop_first()) {
                        Some(t) => {
                            assert(before + (seq![x] + t) =~= nev_entries_view(out@) + t);
                        },
                        None => {},
                    }
                }
            },
        }
        i = i + 1;
    }
    assert(av.subrange(av.len() as int, av.len() as int) =~= Seq::<(u32, Seq<u8>)>::empty());
    assert(nev_entries_view(out@) + Seq::<(Seq<char>, NevView)>::empty() =~= nev_entries_view(out@));
    FrameMeta::Entries(out)
}

/// The value of the last entry of `key` in `es`.
pub open spec fn last_of_key(es: Seq<(Seq<char>, NevView)>, key: Seq<char>) -> Option<NevView>
    decreases es.len(),
{
    if es.len() == 0 {
        None
    } else if es.last().0 == key {
        Some(es.last().1)
    } else {
        last_of_key(es.drop_last(), key)
    }
}

/// An unsigned value, where `v` is one.
pub open spec fn u32_value(v: Option<NevView>) -> Option<u32> {
    match v {
        Some(NevView::U32(x)) => Some(x),
        _ => None,
    }
}

/// The imager tags of a frame: the sensor size in pixels, the capture area
/// (its size, and its margins to the sensor's size, twice the origin that
/// centres it) where the frame's width and height are known, and the pixel
/// pitch in nanometres.
#[derive(Clone, Copy, Debug, PartialEq, Eq)]
pub enum Imager {
    /// The model has no imager table, or no metadata was read.
    NoTable,
    Tags {
        sensor_size: (u32, u32),
        capture: Option<((u32, u32), (u32, u32))>,
        pixel_pitch: (u32, u32),
    },
    /// The width or height exceeds the sensor's (the frame reader's
    /// subtraction overflows there).
    TooLarge,
}

/// The imager tags of a frame of a clip of `model`, whose clip and frame
/// entries are `es`: for a `NIKON ZR` with some metadata, the 6048×4032
/// sensor, the capture area of the last `image_width` and `image_height`
/// where both are unsigned values, and the pitch 5930×5930.
pub open spec fn imager_spec(model: Option<Seq<char>>, es: Seq<(Seq<char>, NevView)>) -> Imager {
    if model == Some("NIKON ZR"@) && es.len() > 0 {
        match (u32_value(last_of_key(es, "image_width"@)), u32_value(last_of_key(es, "image_height"@))) {
            (Some(w), Some(h)) => if w > 6048 || h > 4032 {
                Imager::TooLarge
            } else {
                Imager::Tags {
                    sensor_size: (6048, 4032),
                    capture: Some(((w, h), ((6048 - w) as u32, (4032 - h) as u32))),
                    pixel_pitch: (5930, 5930),
                }
            },
            _ => Imager::Tags { sensor_size: (6048, 4032), capture: None, pixel_pitch: (5930, 5930) },
        }
    } else {
        Imager::NoTable
    }
}

fn last_u32(es: &[NevEntry], key: &str) -> (r: Option<u32>)
    ensures
        r == u32_value(last_of_key(nev_entries_view(es@), key@)),
{
    let ghost v = nev_entries_view(es@);
    let mut k: usize = es.len();
    assert(v.subrange(0, k as int) =~= v);
    while k > 0
        invariant
            k <= es.len(),
            v == nev_entries_view(es@),
            last_of_key(v, key@) == last_of_key(v.subrange(0, k as int), key@),
        decreases k,
    {
        assert(v.subrange(0, k as int).drop_last() =~= v.subrange(0, k - 1));
        assert(v.subrange(0, k as int).last() == v[k - 1]);
        if str_eq(es[k - 1].key.as_str(), key) {
            return match &es[k - 1].value {
                NevValue::U32(x) => Some(*x),
                _ => None,
            };
        }
        k = k - 1;
    }
    None
}

/// The imager tags of a frame (see `imager_spec`), given the clip's model
/// and its clip and frame entries.
pub fn nev_imager(model: Option<&str>, clip: &[NevEntry], frame: &[NevEntry]) -> (r: Imager)
    ensures
        r == imager_spec(
            match model {
                Some(m) => Some(m@),
                None => None,
            },
            nev_entries_view(clip@) + nev_entries_view(frame@),
        ),
{
    let ghost es = nev_entries_view(clip@) + nev_entries_view(frame@);
    let is_zr = match model {
        Some(m) => str_eq(m, "NIKON ZR"),
        None => false,
    };
    if !is_zr || (clip.len() == 0 && frame.len() == 0) {
        return Imager::NoTable;
    }
    proof {
        lemma_last_of_key_cat(nev_entries_view(clip@), nev_entries_view(frame@), "image_width"@);
        lemma_last_of_key_cat(nev_entries_view(clip@), nev_entries_view(frame@), "image_height"@);
    }
    let w = match last_u32(frame, "image_width") {
        Some(x) => Some(x),
        None => if last_u32_present(frame, "image_width") { None } else { last_u32(clip, "image_width") },
    };
    let h = match last_u32(frame, "image_height") {
        Some(x) => Some(x),
        None => if last_u32_present(frame, "image_height") { None } else { last_u32(clip, "image_height") },
    };
    match (w, h) {
        (Some(w), Some(h)) => if w > 6048 || h > 4032 {
            Imager::TooLarge
        } else {
            Imager::Tags { sensor_size: (6048, 4032), capture: Some(((w, h), (6048 - w, 4032 - h))), pixel_pitch: (5930, 5930) }
        },
        _ => Imager::Tags { sensor_size: (6048, 4032), capture: None, pixel_pitch: (5930, 5930) },
    }
}

/// Whether some entry of `key` is in `es`.
fn last_u32_present(es: &[NevEntry], key: &str) -> (r: bool)
    ensures
        r == (last_of_key(nev_entries_view(es@), key@) is Some),
{
    let ghost v = nev_entries_view(es@);
    let mut k: usize = es.len();
    assert(v.subrange(0, k as int) =~= v);
    while k > 0
        invariant
            k <= es.len(),
            v == nev_entries_view(es@),
            last_of_key(v, key@) == last_of_key(v.subrange(0, k as int), key@),
        decreases k,
    {
        assert(v.subrange(0, k as int).drop_last() =~= v.subrange(0, k - 1));
        assert(v.subrange(0, k as int).last() == v[k - 1]);
        if str_eq(es[k - 1].key.as_str(), key) {
            return true;
        }
        k = k - 1;
    }
    false
}

proof fn lemma_last_of_key_cat(a: Seq<(Seq<char>, NevView)>, b: Seq<(Seq<char>, NevView)>, key: Seq<char>)
    ensures
        last_of_key(a + b, key) == if last_of_key(b, key) is Some {
            last_of_key(b, key)
        } else {
            last_of_key(a, key)
        },
    decreases b.len(),
{
    if b.len() == 0 {
        assert(a + b =~= a);
    } else {
        assert((a + b).drop_last() =~= a + b.drop_last());
        assert((a + b).last() == b.last());
        lemma_last_of_key_cat(a, b.drop_last(), key);
    }
}


/// An entry of the clip header is a big-endian tag (bytes 0-3), type
/// (4-5) and count (6-7), followed by its value of `count` times the
/// type's width; the next entry starts right after the value.
pub proof fn lemma_clip_tag_layout(d: Seq<u8>, pos: int)
    requires
        0 <= pos,
        pos + 8 <= d.len(),
    ensures
        ({
            let size = be2(d, pos + 6) * type_size(be2(d, pos + 4) as u16);
            &&& pos + 8 + size <= d.len() ==> clip_tags_from(d, pos)
                == seq![(be4(d, pos) as u32, be2(d, pos + 4) as u16, d.subrange(pos + 8, pos + 8 + size))]
                + clip_tags_from(d, pos + 8 + size)
            &&& pos + 8 + size > d.len() ==> clip_tags_from(d, pos).len() == 0
        }),
{
    lemma_be_at_4(d, pos);
    lemma_be_at_2(d, pos + 4);
    lemma_be_at_2(d, pos + 6);
}

/// The numbers of the value types, byte by byte (big-endian, from the
/// start of the value): a rational (5) is its numerator (bytes 0-3) over
/// its denominator (4-7), a signed rational (10) likewise with signed
/// parts, a float (11) and a double (12) are the bits of their 4 and 8
/// bytes, a byte (1, 7) its first byte, a short (3) and a long (4) their
/// 2 and 4 bytes, a signed short (8) and a signed long (9) the same read
/// as two's complement; a rational with denominator 0 has no number.
pub proof fn lemma_number_layout(type_id: u16, v: Seq<u8>)
    ensures
        type_id == 5 && v.len() >= 8 ==> nev_number_of(type_id, v) == (if be4(v, 4) != 0 {
            Some(NevNumber::Ratio(be4(v, 0) as u32, be4(v, 4) as u32))
        } else {
            None
        }),
        type_id == 10 && v.len() >= 8 ==> nev_number_of(type_id, v) == (if be4(v, 4) != 0 {
            Some(NevNumber::SignedRatio(sbe32(v, 0) as i32, sbe32(v, 4) as i32))
        } else {
            None
        }),
        type_id == 11 && v.len() >= 4 ==> nev_number_of(type_id, v) == Some(NevNumber::Float32Bits(be4(v, 0) as u32)),
        type_id == 12 && v.len() >= 8 ==> nev_number_of(type_id, v) == Some(NevNumber::Float64Bits(be8(v, 0) as u64)),
        (type_id == 1 || type_id == 7) && v.len() >= 1 ==> nev_number_of(type_id, v) == Some(NevNumber::Unsigned(v[0] as u32)),
        type_id == 3 && v.len() >= 2 ==> nev_number_of(type_id, v) == Some(NevNumber::Unsigned(be2(v, 0) as u32)),
        type_id == 4 && v.len() >= 4 ==> nev_number_of(type_id, v) == Some(NevNumber::Unsigned(be4(v, 0) as u32)),
        type_id == 8 && v.len() >= 2 ==> nev_number_of(type_id, v) == Some(NevNumber::Signed(sbe16(v, 0) as i32)),
        type_id == 9 && v.len() >= 4 ==> nev_number_of(type_id, v) == Some(NevNumber::Signed(sbe32(v, 0) as i32)),
        v.len() >= 8 ==> nev_rational_of(v) == (if be4(v, 4) > 0 {
            Some((be4(v, 0) as u32, be4(v, 4) as u32))
        } else {
            None
        }),
{
    if v.len() >= 2 {
        lemma_be_at_2(v, 0);
    }
    if v.len() >= 4 {
        lemma_be_at_4(v, 0);
    }
    if v.len() >= 8 {
        lemma_be_at_4(v, 4);
        lemma_be_at_8(v, 0);
    }
}

/// The nine floats at the start of a value are its big-endian 4-byte
/// words in order.
pub proof fn lemma_nine_floats_layout(v: Seq<u8>, k: int)
    requires
        0 <= k < 9,
        v.len() >= 36,
    ensures
        nine_floats(v)[k] == be4(v, 4 * k),
{
    lemma_be_at_4(v, 4 * k);
}

/// An `NRMT` atom is a big-endian size (bytes 0-3), its name (4-7), a
/// big-endian tag (8-11), a pad byte and the value up to its size; where
/// it is whole, it is the first atom read there and the scan goes on after
/// it.
pub proof fn lemma_nrmt_atom_layout(d: Seq<u8>, pos: int)
    requires
        0 <= pos,
        pos + 12 <= d.len(),
        occurs_at(d, "NRMT".spec_bytes(), pos + 4),
        13 <= be4(d, pos),
        pos + be4(d, pos) <= d.len(),
    ensures
        frame_atoms_from(d, pos) matches Some(atoms) ==> atoms.len() > 0 && atoms[0] == (be4(d, pos + 8) as u32, d.subrange(pos + 13, pos + be4(d, pos)))
            && frame_atoms_from(d, pos + be4(d, pos)) == Some(atoms.drop_first()),
{
    lemma_be_at_4(d, pos);
    lemma_be_at_4(d, pos + 8);
    match frame_atoms_from(d, pos) {
        Some(atoms) => {
            assert(atoms.drop_first() =~= frame_atoms_from(d, pos + be4(d, pos))->Some_0);
        },
        None => {},
    }
}
} // verus!
