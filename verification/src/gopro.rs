//! GoPro GPMF streams: the record list of a stream, the last record of a
//! container, and the sensor orientation matrix.

use vstd::prelude::*;
use vstd::string::StringSliceAdditionalSpecFns;
use crate::bytes::{contains, contains_seq, read_u16_be};
use crate::filesystem::ascii_lower;
use crate::klv::{align4, walk, GpmfEntry, KLV};
use crate::tags::ParseError;
use crate::text::str_chars;

verus! {

/// Offset of the last record header of `d`, walking from `pos` with `off`
/// the offset found so far; a record is stepped over by its padded payload
/// length. `None` when fewer than eight bytes are left for a header, or
/// when a header announces more payload than is left.
pub open spec fn last_klv_from(d: Seq<u8>, pos: int, off: int) -> Option<int>
    decreases d.len() - pos,
{
    if pos < 0 || pos >= d.len() {
        Some(off)
    } else if pos + 8 > d.len() {
        None
    } else {
        let len = d[pos + 5] as int * (d[pos + 6] as int * 256 + d[pos + 7] as int);
        let next = pos + 8 + align4(len);
        if len > d.len() - (pos + 8) {
            None
        } else if next >= d.len() {
            Some(pos)
        } else {
            last_klv_from(d, next, pos)
        }
    }
}

/// The last record of a GPMF stream, from its header to the end.
pub fn get_last_klv(data: &[u8]) -> (r: Result<&[u8], ParseError>)
    ensures
        match last_klv_from(data@, 0, 0) {
            Some(o) => r matches Ok(s) && 0 <= o <= data@.len() && s@ == data@.subrange(o, data@.len() as int),
            None => r == Err::<&[u8], ParseError>(ParseError::UnexpectedEof),
        },
{
    let mut pos: usize = 0;
    let mut offset: usize = 0;
    while pos < data.len()
        invariant
            offset <= pos <= data.len(),
            last_klv_from(data@, 0, 0) == last_klv_from(data@, pos as int, offset as int),
        decreases data.len() - pos,
    {
        if data.len() - pos < 8 {
            return Err(ParseError::UnexpectedEof);
        }
        let repeat = read_u16_be(&data[pos + 6..pos + 8]);
        proof {
            reveal_with_fuel(crate::bytes::be_uint, 3);
            assert(data@.subrange(pos + 6, pos + 8).subrange(0, 2) =~= data@.subrange(pos + 6, pos + 8));
            assert(data@.subrange(pos + 6, pos + 8).drop_last() =~= seq![data@[pos + 6]]);
            assert(seq![data@[pos + 6]].drop_last() =~= Seq::<u8>::empty());
        }
        let klv = KLV { key: [data[pos], data[pos + 1], data[pos + 2], data[pos + 3]], data_type: data[pos + 4], size: data[pos + 5] as usize, repeat: repeat as usize };
        assert(klv.size * klv.repeat <= 255 * 65535) by (nonlinear_arith)
            requires
                klv.size <= 255,
                klv.repeat <= 65535,
        ;
        if klv.size * klv.repeat > data.len() - pos - 8 {
            return Err(ParseError::UnexpectedEof);
        }
        let aligned = klv.aligned_data_len();
        offset = pos;
        if aligned >= data.len() - pos - 8 {
            assert(last_klv_from(data@, pos as int, offset as int) == Some(pos as int));
            return Ok(&data[pos..data.len()]);
        }
        pos = pos + 8 + aligned;
    }
    Ok(&data[offset..data.len()])
}

/// Whether `data` is a bare GPMF stream: more than eight bytes, starting
/// with a `DEVC` record.
pub open spec fn is_gpmf_stream(d: Seq<u8>) -> bool {
    d.len() > 8 && d[0] == 0x44 && d[1] == 0x45 && d[2] == 0x56 && d[3] == 0x43
}

/// Whether `data` is a bare GPMF stream.
pub fn detect_metadata(data: &[u8]) -> (r: bool)
    ensures
        r == is_gpmf_stream(data@),
{
    data.len() > 8 && data[0] == 0x44 && data[1] == 0x45 && data[2] == 0x56 && data[3] == 0x43
}

/// The data records of a GPMF stream with the keys that name their groups
/// (see `walk`); with `force_group` every record keeps the caller's group.
pub fn parse_metadata(data: &[u8], force_group: bool) -> (r: Result<Vec<GpmfEntry>, ParseError>)
    ensures
        match walk(data@, 0, data@.len() as int, 0, force_group, None) {
            Some(es) => r matches Ok(v) && v@ == es,
            None => r == Err::<Vec<GpmfEntry>, ParseError>(ParseError::UnexpectedEof),
        },
{
    let mut out: Vec<GpmfEntry> = Vec::new();
    match crate::klv::walk_region(data, 0, data.len(), force_group, None, &mut out) {
        Ok(()) => {
            assert(out@ =~= Seq::<GpmfEntry>::empty() + out@);
            Ok(out)
        },
        Err(e) => Err(e),
    }
}

/// The entry of the orientation matrix for input axis `i` and output axis
/// `o`: 1 for the same axis letter, -1 for the same letter in the other
/// case, 0 otherwise.
pub open spec fn axis_sign(i: char, o: char) -> i8 {
    if i == o {
        1
    } else if ascii_lower(i) == ascii_lower(o) {
        -1i8
    } else {
        0
    }
}

/// One row of the orientation matrix: output axis `o` against each input
/// axis.
pub open spec fn axis_row(ins: Seq<char>, o: char) -> Seq<i8> {
    ins.map_values(|i: char| axis_sign(i, o))
}

/// The rows of the orientation matrix, one per output axis, concatenated.
pub open spec fn axis_rows(ins: Seq<char>, outs: Seq<char>) -> Seq<i8>
    decreases outs.len(),
{
    if outs.len() == 0 {
        Seq::empty()
    } else {
        axis_rows(ins, outs.drop_last()) + axis_row(ins, outs.last())
    }
}

fn lower(c: char) -> (r: char)
    ensures
        r == ascii_lower(c),
{
    if 'A' <= c && c <= 'Z' {
        ((c as u32 + 32) as u8) as char
    } else {
        c
    }
}

/// The orientation matrix that maps the input axes `orin` (such as `ZXY`)
/// to the output axes `orio`, row by row, as signs; `None` when `orin` is
/// empty or the two differ in length.
pub fn orientation_signs(orin: &str, orio: &str) -> (r: Option<Vec<i8>>)
    ensures
        orin@.len() == 0 || orin.spec_bytes().len() != orio.spec_bytes().len() ==> r is None,
        !(orin@.len() == 0 || orin.spec_bytes().len() != orio.spec_bytes().len()) ==> (r matches Some(v) && v@
            == axis_rows(orin@, orio@)),
{
    let ins = str_chars(orin);
    let outs = str_chars(orio);
    if ins.len() == 0 || orin.as_bytes().len() != orio.as_bytes().len() {
        return None;
    }
    let mut m: Vec<i8> = Vec::new();
    let mut j: usize = 0;
    assert(outs@.subrange(0, 0) =~= Seq::<char>::empty());
    while j < outs.len()
        invariant
            j <= outs.len(),
            ins@ == orin@,
            outs@ == orio@,
            m@ == axis_rows(ins@, outs@.subrange(0, j as int)),
        decreases outs.len() - j,
    {
        let o = outs[j];
        let ghost base = m@;
        let mut k: usize = 0;
        while k < ins.len()
            invariant
                k <= ins.len(),
                m@ == base + axis_row(ins@.subrange(0, k as int), o),
            decreases ins.len() - k,
        {
            let i = ins[k];
            let s: i8 = if i == o {
                1
            } else if lower(i) == lower(o) {
                -1
            } else {
                0
            };
            m.push(s);
            assert(axis_row(ins@.subrange(0, k + 1), o) =~= axis_row(ins@.subrange(0, k as int), o).push(s));
            k = k + 1;
        }
        assert(ins@.subrange(0, ins@.len() as int) =~= ins@);
        assert(outs@.subrange(0, j + 1).drop_last() =~= outs@.subrange(0, j as int));
        j = j + 1;
    }
    assert(outs@.subrange(0, outs@.len() as int) =~= outs@);
    Some(m)
}

/// What a HERO5 `SETT` box's data says of the settings: the stabilisation
/// flag (`EISA`) from byte 5 and the lens mode letter (`VFOV`) from byte
/// 7; `None` for a byte that names neither, and for data of 8 bytes or
/// fewer.
pub open spec fn sett_spec(buf: Seq<u8>) -> (Option<Seq<char>>, Option<Seq<char>>) {
    if buf.len() <= 8 {
        (None, None)
    } else {
        (
            if buf[5] == 0x00 || buf[5] == 0x02 {
                Some("N"@)
            } else if buf[5] == 0x10 {
                Some("Y"@)
            } else {
                None
            },
            if buf[7] == 0x00 || buf[7] == 0x40 {
                Some("W"@)
            } else if buf[7] == 0x41 {
                Some("M"@)
            } else if buf[7] == 0x42 {
                Some("N"@)
            } else if buf[7] == 0x44 {
                Some("L"@)
            } else if buf[7] == 0x63 {
                Some("S"@)
            } else {
                None
            },
        )
    }
}

/// The view of an optional text.
pub open spec fn opt_view(o: Option<&'static str>) -> Option<Seq<char>> {
    match o {
        Some(s) => Some(s@),
        None => None,
    }
}

/// Reads a HERO5 `SETT` box's data (see `sett_spec`).
pub fn sett_settings(buf: &[u8]) -> (r: (Option<&'static str>, Option<&'static str>))
    ensures
        (opt_view(r.0), opt_view(r.1)) == sett_spec(buf@),
{
    if buf.len() <= 8 {
        return (None, None);
    }
    let a = buf[5];
    let b = buf[7];
    let eisa = if a == 0x00 || a == 0x02 {
        Some("N")
    } else if a == 0x10 {
        Some("Y")
    } else {
        None
    };
    let vfov = if b == 0x00 || b == 0x40 {
        Some("W")
    } else if b == 0x41 {
        Some("M")
    } else if b == 0x42 {
        Some("N")
    } else if b == 0x44 {
        Some("L")
    } else if b == 0x63 {
        Some("S")
    } else {
        None
    };
    (eisa, vfov)
}

/// The IMU orientation of a model whose streams hold no orientation
/// matrix: `YXz` for a `HERO7 Silver`, else `ZyX` for a `HERO6`, else none.
pub open spec fn model_orientation_spec(model: Seq<u8>) -> Option<Seq<char>> {
    if contains_seq(model, "HERO7 Silver".spec_bytes()) {
        Some("YXz"@)
    } else if contains_seq(model, "HERO6".spec_bytes()) {
        Some("ZyX"@)
    } else {
        None
    }
}

/// The IMU orientation of a model without an orientation matrix (see
/// `model_orientation_spec`, over the model's UTF-8 bytes).
pub fn model_orientation(model: &str) -> (r: Option<&'static str>)
    ensures
        opt_view(r) == model_orientation_spec(model.spec_bytes()),
{
    let b = model.as_bytes();
    if contains(b, "HERO7 Silver".as_bytes()) {
        Some("YXz")
    } else if contains(b, "HERO6".as_bytes()) {
        Some("ZyX")
    } else {
        None
    }
}

} // verus!
