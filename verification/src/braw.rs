//! Blackmagic RAW per-frame metadata: a `bmdf` box whose boxes each hold
//! one value, big-endian.

use vstd::prelude::*;
use vstd::string::StringSliceAdditionalSpecFns;
use crate::bytes::{
    be2, be4, be8, lemma_be_at_2, lemma_be_at_4, lemma_be_at_8, sbe16, sbe32, be_uint, contains, contains_seq, find, first_occurrence, occurs_at, read_i16_be, read_i32_be,
    occurs_at_index, read_i64_be, read_u16_be, read_u32_be, read_u64_be, signed,
};
use crate::text::{chars_starts_with, str_chars, str_eq, string_from_chars, utf8_strict};

verus! {

/// A per-frame value; `f32` values as their bits.
#[derive(Debug, Clone, PartialEq)]
pub enum FrameValue {
    Pair(u32, u32),
    F32Bits(u32),
    U32(u32),
    U16(u16),
    Text(String),
}

/// A per-frame value with its text as a sequence.
pub enum FrameView {
    Pair(u32, u32),
    F32Bits(u32),
    U32(u32),
    U16(u16),
    Text(Seq<char>),
}

/// The view of a per-frame value.
pub open spec fn frame_view(v: FrameValue) -> FrameView {
    match v {
        FrameValue::Pair(a, b) => FrameView::Pair(a, b),
        FrameValue::F32Bits(x) => FrameView::F32Bits(x),
        FrameValue::U32(x) => FrameView::U32(x),
        FrameValue::U16(x) => FrameView::U16(x),
        FrameValue::Text(s) => FrameView::Text(s@),
    }
}

/// How a per-frame value is encoded.
#[derive(Clone, Copy, PartialEq, Eq, Structural)]
pub enum FrameKind {
    /// Two big-endian `u32`.
    Pair,
    /// A big-endian `f32`.
    F32,
    /// A big-endian `u32`.
    U32,
    /// A big-endian `u16`.
    U16,
    /// UTF-8 text, trailing NULs dropped.
    Text,
}

/// The key and the encoding of the value of a box named `name`, for the
/// names that are read.
pub open spec fn frame_field(name: Seq<char>) -> Option<(Seq<char>, FrameKind)> {
    if name == "srte"@ {
        Some(("sensor_rate"@, FrameKind::Pair))
    } else if name == "innd"@ {
        Some(("internal_nd"@, FrameKind::F32))
    } else if name == "agpf"@ {
        Some(("analog_gain"@, FrameKind::F32))
    } else if name == "expo"@ {
        Some(("exposure"@, FrameKind::F32))
    } else if name == "isoe"@ {
        Some(("iso"@, FrameKind::U32))
    } else if name == "wkel"@ {
        Some(("white_balance_kelvin"@, FrameKind::U32))
    } else if name == "wtin"@ {
        Some(("white_balance_tint"@, FrameKind::U16))
    } else if name == "asct"@ {
        Some(("as_shot_kelvin"@, FrameKind::U32))
    } else if name == "asti"@ {
        Some(("as_shot_tint"@, FrameKind::U16))
    } else if name == "shtv"@ {
        Some(("shutter_value"@, FrameKind::Text))
    } else if name == "aptr"@ {
        Some(("aperture"@, FrameKind::Text))
    } else if name == "dsnc"@ {
        Some(("distance"@, FrameKind::Text))
    } else if name == "fcln"@ {
        Some(("focal_length"@, FrameKind::Text))
    } else {
        None
    }
}

/// `s` without its trailing NUL characters.
pub open spec fn trim_end_nul(s: Seq<char>) -> Seq<char>
    decreases s.len(),
{
    if s.len() > 0 && s.last() == '\0' {
        trim_end_nul(s.drop_last())
    } else {
        s
    }
}

/// The value that box data `d` holds in encoding `k`; `None` where it is
/// cut short or its text is not UTF-8.
pub open spec fn frame_value(d: Seq<u8>, k: FrameKind) -> Option<FrameView> {
    match k {
        FrameKind::Pair => if d.len() < 8 {
            None
        } else {
            Some(FrameView::Pair(be_uint(d.subrange(0, 4)) as u32, be_uint(d.subrange(4, 8)) as u32))
        },
        FrameKind::F32 => if d.len() < 4 { None } else { Some(FrameView::F32Bits(be_uint(d.subrange(0, 4)) as u32)) },
        FrameKind::U32 => if d.len() < 4 { None } else { Some(FrameView::U32(be_uint(d.subrange(0, 4)) as u32)) },
        FrameKind::U16 => if d.len() < 2 { None } else { Some(FrameView::U16(be_uint(d.subrange(0, 2)) as u16)) },
        FrameKind::Text => if vstd::utf8::valid_utf8(d) {
            Some(FrameView::Text(trim_end_nul(vstd::utf8::decode_utf8(d))))
        } else {
            None
        },
    }
}

/// How reading per-frame metadata ends: with its keys and values, failed
/// (a value cut short or not UTF-8, or no `bmdf` box), or malformed (a box
/// whose size is below 8 or runs past the data).
pub enum FrameOutcome {
    Entries(Seq<(Seq<char>, FrameView)>),
    Failed,
    Malformed,
}

/// `e` before the entries of `o`.
pub open spec fn frame_then(e: Seq<(Seq<char>, FrameView)>, o: FrameOutcome) -> FrameOutcome {
    match o {
        FrameOutcome::Entries(s) => FrameOutcome::Entries(e + s),
        _ => o,
    }
}

/// The entries of the boxes of `m` from `offs`, while more than 8 bytes
/// are left: a big-endian size that counts the box, a name, and the data;
/// boxes of names that are not UTF-8 or not read are skipped.
pub open spec fn frame_boxes(m: Seq<u8>, offs: int) -> FrameOutcome
    decreases m.len() - offs,
{
    if offs < 0 || m.len() - offs <= 8 {
        FrameOutcome::Entries(Seq::empty())
    } else {
        let size = be_uint(m.subrange(offs, offs + 4)) as int;
        if size < 8 || offs + size > m.len() {
            FrameOutcome::Malformed
        } else {
            let nb = m.subrange(offs + 4, offs + 8);
            let d = m.subrange(offs + 8, offs + size);
            let here: Option<Seq<(Seq<char>, FrameView)>> = if !vstd::utf8::valid_utf8(nb) {
                Some(Seq::empty())
            } else {
                match frame_field(vstd::utf8::decode_utf8(nb)) {
                    None => Some(Seq::empty()),
                    Some((key, kind)) => match frame_value(d, kind) {
                        Some(v) => Some(seq![(key, v)]),
                        None => None,
                    },
                }
            };
            match here {
                None => FrameOutcome::Failed,
                Some(e) => frame_then(e, frame_boxes(m, offs + size)),
            }
        }
    }
}

/// The per-frame metadata of a frame's data: a `bmdf` box at the start,
/// whose boxes are read.
pub open spec fn frame_meta(data: Seq<u8>) -> FrameOutcome {
    if data.len() > 8 && data.subrange(4, 8) == seq![0x62u8, 0x6d, 0x64, 0x66] {
        let size = be_uint(data.subrange(0, 4)) as int;
        if size < 8 || size > data.len() {
            FrameOutcome::Malformed
        } else {
            frame_boxes(data.subrange(8, size), 0)
        }
    } else {
        FrameOutcome::Failed
    }
}

/// The outcome of reading per-frame metadata.
pub enum FrameParse {
    /// The keys and values read, in the order of their boxes.
    Entries(Vec<(String, FrameValue)>),
    /// A value cut short or not UTF-8, or no `bmdf` box.
    Failed,
    /// A box whose size is below 8 or runs past the data.
    Malformed,
}

/// The view of read entries.
pub open spec fn entries_view(v: Seq<(String, FrameValue)>) -> Seq<(Seq<char>, FrameView)> {
    v.map_values(|e: (String, FrameValue)| (e.0@, frame_view(e.1)))
}

/// Whether `r` is the outcome `o`.
pub open spec fn parse_is(r: FrameParse, o: FrameOutcome) -> bool {
    match o {
        FrameOutcome::Entries(s) => r matches FrameParse::Entries(v) && entries_view(v@) == s,
        FrameOutcome::Failed => r is Failed,
        FrameOutcome::Malformed => r is Malformed,
    }
}

proof fn lemma_then_then(a: Seq<(Seq<char>, FrameView)>, b: Seq<(Seq<char>, FrameView)>, o: FrameOutcome)
    ensures
        frame_then(a, frame_then(b, o)) == frame_then(a + b, o),
{
    match o {
        FrameOutcome::Entries(s) => {
            assert(a + (b + s) =~= (a + b) + s);
        },
        _ => {},
    }
}

/// The key and encoding of a box name (see `frame_field`).
fn field_of(name: &str) -> (r: Option<(&'static str, FrameKind)>)
    ensures
        match frame_field(name@) {
            None => r is None,
            Some((k, t)) => r matches Some((k2, t2)) && k2@ == k && t2 == t,
        },
{
    if str_eq(name, "srte") {
        Some(("sensor_rate", FrameKind::Pair))
    } else if str_eq(name, "innd") {
        Some(("internal_nd", FrameKind::F32))
    } else if str_eq(name, "agpf") {
        Some(("analog_gain", FrameKind::F32))
    } else if str_eq(name, "expo") {
        Some(("exposure", FrameKind::F32))
    } else if str_eq(name, "isoe") {
        Some(("iso", FrameKind::U32))
    } else if str_eq(name, "wkel") {
        Some(("white_balance_kelvin", FrameKind::U32))
    } else if str_eq(name, "wtin") {
        Some(("white_balance_tint", FrameKind::U16))
    } else if str_eq(name, "asct") {
        Some(("as_shot_kelvin", FrameKind::U32))
    } else if str_eq(name, "asti") {
        Some(("as_shot_tint", FrameKind::U16))
    } else if str_eq(name, "shtv") {
        Some(("shutter_value", FrameKind::Text))
    } else if str_eq(name, "aptr") {
        Some(("aperture", FrameKind::Text))
    } else if str_eq(name, "dsnc") {
        Some(("distance", FrameKind::Text))
    } else if str_eq(name, "fcln") {
        Some(("focal_length", FrameKind::Text))
    } else {
        None
    }
}

/// `s` without its trailing NUL characters.
pub fn trim_end_nuls(s: &str) -> (r: String)
    ensures
        r@ == trim_end_nul(s@),
{
    let c = str_chars(s);
    let mut j: usize = c.len();
    assert(c@.subrange(0, j as int) =~= c@);
    while j > 0 && c[j - 1] == '\0'
        invariant
            j <= c.len(),
            c@ == s@,
            trim_end_nul(s@) == trim_end_nul(c@.subrange(0, j as int)),
        decreases j,
    {
        assert(c@.subrange(0, j as int).drop_last() =~= c@.subrange(0, j - 1));
        j = j - 1;
    }
    let t = &c.as_slice()[0..j];
    assert(t@ =~= c@.subrange(0, j as int));
    string_from_chars(t)
}

/// The value of box data `d` in encoding `k` (see `frame_value`).
fn frame_value_of(d: &[u8], k: FrameKind) -> (r: Option<FrameValue>)
    ensures
        match frame_value(d@, k) {
            None => r is None,
            Some(v) => r matches Some(x) && frame_view(x) == v,
        },
{
    match k {
        FrameKind::Pair => {
            if d.len() < 8 {
                return None;
            }
            let a = read_u32_be(d);
            let e = &d[4..8];
            assert(e@.subrange(0, 4) =~= d@.subrange(4, 8));
            let b = read_u32_be(e);
            Some(FrameValue::Pair(a, b))
        },
        FrameKind::F32 => {
            if d.len() < 4 {
                return None;
            }
            Some(FrameValue::F32Bits(read_u32_be(d)))
        },
        FrameKind::U32 => {
            if d.len() < 4 {
                return None;
            }
            Some(FrameValue::U32(read_u32_be(d)))
        },
        FrameKind::U16 => {
            if d.len() < 2 {
                return None;
            }
            Some(FrameValue::U16(read_u16_be(d)))
        },
        FrameKind::Text => match utf8_strict(d) {
            None => None,
            Some(t) => Some(FrameValue::Text(trim_end_nuls(t.as_str()))),
        },
    }
}

/// Reads the boxes of `m` (see `frame_boxes`).
pub fn frame_boxes_of(m: &[u8]) -> (r: FrameParse)
    ensures
        parse_is(r, frame_boxes(m@, 0)),
{
    let mut out: Vec<(String, FrameValue)> = Vec::new();
    let mut offs: usize = 0;
    assert(entries_view(out@) =~= Seq::<(Seq<char>, FrameView)>::empty());
    assert(frame_then(Seq::empty(), frame_boxes(m@, 0)) == frame_boxes(m@, 0)) by {
        match frame_boxes(m@, 0) {
            FrameOutcome::Entries(s) => {
                assert(Seq::<(Seq<char>, FrameView)>::empty() + s =~= s);
            },
            _ => {},
        }
    }
    loop
        invariant
            offs <= m.len(),
            frame_boxes(m@, 0) == frame_then(entries_view(out@), frame_boxes(m@, offs as int)),
        decreases m.len() - offs,
    {
        if m.len() - offs <= 8 {
            assert(entries_view(out@) + Seq::empty() =~= entries_view(out@));
            return FrameParse::Entries(out);
        }
        let h = &m[offs..offs + 4];
        assert(h@.subrange(0, 4) =~= m@.subrange(offs as int, offs + 4));
        let size = read_u32_be(h) as usize;
        if size < 8 || size > m.len() - offs {
            return FrameParse::Malformed;
        }
        let nb = &m[offs + 4..offs + 8];
        let d = &m[offs + 8..offs + size];
        assert(nb@ =~= m@.subrange(offs + 4, offs + 8));
        assert(d@ =~= m@.subrange(offs + 8, offs + size));
        let ghost before = entries_view(out@);
        let ghost here: Seq<(Seq<char>, FrameView)> = Seq::empty();
        match utf8_strict(nb) {
            None => {},
            Some(name) => match field_of(name.as_str()) {
                None => {},
                Some((key, kind)) => match frame_value_of(d, kind) {
                    None => {
                        return FrameParse::Failed;
                    },
                    Some(v) => {
                        let k = key.to_owned();
                        proof {
                            here = seq![(k@, frame_view(v))];
                        }
                        out.push((k, v));
                    },
                },
            },
        }
        proof {
            assert(entries_view(out@) =~= before + here);
            lemma_then_then(before, here, frame_boxes(m@, offs + size));
        }
        offs = offs + size;
    }
}

/// The per-frame metadata of a frame's data (see `frame_meta`).
pub fn parse_per_frame_meta(data: &[u8]) -> (r: FrameParse)
    ensures
        parse_is(r, frame_meta(data@)),
{
    if data.len() > 8 && data[4] == 0x62 && data[5] == 0x6d && data[6] == 0x64 && data[7] == 0x66 {
        assert(data@.subrange(4, 8) =~= seq![0x62u8, 0x6d, 0x64, 0x66]);
        let size = read_u32_be(data) as usize;
        if size < 8 || size > data.len() {
            return FrameParse::Malformed;
        }
        frame_boxes_of(&data[8..size])
    } else {
        proof {
            if data.len() > 8 && data@.subrange(4, 8) == seq![0x62u8, 0x6d, 0x64, 0x66] {
                assert(data@.subrange(4, 8)[0] == data@[4]);
                assert(data@.subrange(4, 8)[1] == data@[5]);
                assert(data@.subrange(4, 8)[2] == data@[6]);
                assert(data@.subrange(4, 8)[3] == data@[7]);
            }
        }
        FrameParse::Failed
    }
}

/// A value of the file-level metadata; floats as their bits.
#[derive(Debug, Clone, PartialEq)]
pub enum MetaValue {
    Text(String),
    F32Bits(u32),
    F64Bits(u64),
    F32PairBits(u32, u32),
    I8(i8),
    I16(i16),
    I32(i32),
    I64(i64),
    U8(u8),
    U16(u16),
    U32(u32),
    U64(u64),
}

/// A file-level metadata value with its text as a sequence.
pub enum MetaView {
    Text(Seq<char>),
    F32Bits(u32),
    F64Bits(u64),
    F32PairBits(u32, u32),
    I8(i8),
    I16(i16),
    I32(i32),
    I64(i64),
    U8(u8),
    U16(u16),
    U32(u32),
    U64(u64),
}

/// The view of a file-level metadata value.
pub open spec fn meta_view(v: MetaValue) -> MetaView {
    match v {
        MetaValue::Text(s) => MetaView::Text(s@),
        MetaValue::F32Bits(x) => MetaView::F32Bits(x),
        MetaValue::F64Bits(x) => MetaView::F64Bits(x),
        MetaValue::F32PairBits(a, b) => MetaView::F32PairBits(a, b),
        MetaValue::I8(x) => MetaView::I8(x),
        MetaValue::I16(x) => MetaView::I16(x),
        MetaValue::I32(x) => MetaView::I32(x),
        MetaValue::I64(x) => MetaView::I64(x),
        MetaValue::U8(x) => MetaView::U8(x),
        MetaValue::U16(x) => MetaView::U16(x),
        MetaValue::U32(x) => MetaView::U32(x),
        MetaValue::U64(x) => MetaView::U64(x),
    }
}

/// How a value reads: a value, a type that is not read, or data too short
/// for its type.
pub enum ValueRead {
    Value(MetaView),
    Unknown,
    Short,
}

/// The big-endian number in the first `n` bytes of `d`.
pub open spec fn be_first(d: Seq<u8>, n: int) -> nat {
    be_uint(d.subrange(0, n))
}

/// The value of QuickTime well-known type `typ` in `d`, big-endian: 1
/// UTF-8 text (empty where it is not UTF-8), 23 `f32`, 24 `f64`, 65 to 67
/// and 74 signed integers of 8, 16, 32 and 64 bits, 70 and 71 two `f32`,
/// 75 to 78 unsigned integers of 8, 16, 32 and 64 bits.
pub open spec fn meta_value(typ: u32, d: Seq<u8>) -> ValueRead {
    if typ == 1 {
        ValueRead::Value(
            MetaView::Text(
                if vstd::utf8::valid_utf8(d) {
                    vstd::utf8::decode_utf8(d)
                } else {
                    Seq::empty()
                },
            ),
        )
    } else if typ == 23 || typ == 67 || typ == 77 {
        if d.len() < 4 {
            ValueRead::Short
        } else if typ == 23 {
            ValueRead::Value(MetaView::F32Bits(be_first(d, 4) as u32))
        } else if typ == 67 {
            ValueRead::Value(MetaView::I32(signed(be_first(d, 4) as int, 32) as i32))
        } else {
            ValueRead::Value(MetaView::U32(be_first(d, 4) as u32))
        }
    } else if typ == 24 || typ == 70 || typ == 71 || typ == 74 || typ == 78 {
        if d.len() < 8 {
            ValueRead::Short
        } else if typ == 24 {
            ValueRead::Value(MetaView::F64Bits(be_first(d, 8) as u64))
        } else if typ == 74 {
            ValueRead::Value(MetaView::I64(signed(be_first(d, 8) as int, 64) as i64))
        } else if typ == 78 {
            ValueRead::Value(MetaView::U64(be_first(d, 8) as u64))
        } else {
            ValueRead::Value(MetaView::F32PairBits(be_first(d, 4) as u32, be_uint(d.subrange(4, 8)) as u32))
        }
    } else if typ == 65 || typ == 75 {
        if d.len() < 1 {
            ValueRead::Short
        } else if typ == 65 {
            ValueRead::Value(MetaView::I8(signed(d[0] as int, 8) as i8))
        } else {
            ValueRead::Value(MetaView::U8(d[0]))
        }
    } else if typ == 66 || typ == 76 {
        if d.len() < 2 {
            ValueRead::Short
        } else if typ == 66 {
            ValueRead::Value(MetaView::I16(signed(be_first(d, 2) as int, 16) as i16))
        } else {
            ValueRead::Value(MetaView::U16(be_first(d, 2) as u16))
        }
    } else {
        ValueRead::Unknown
    }
}

/// The keys of the items of a `keys` box from `offs` on, after `acc`: an
/// item is a big-endian size that counts it, a name and the key's text;
/// the text of each item whose name and text are UTF-8 is a key. `None`
/// where an item's size is below 8 or runs past the data; reading stops
/// where 8 bytes or fewer are left.
pub open spec fn keys_from(d: Seq<u8>, offs: int, acc: Seq<Seq<char>>) -> Option<Seq<Seq<char>>>
    decreases d.len() - offs,
{
    if offs < 0 || d.len() - offs <= 8 {
        Some(acc)
    } else {
        let size = be_uint(d.subrange(offs, offs + 4)) as int;
        if size < 8 || offs + size > d.len() {
            None
        } else {
            let item = d.subrange(offs + 8, offs + size);
            let acc2 = if vstd::utf8::valid_utf8(d.subrange(offs + 4, offs + 8)) && vstd::utf8::valid_utf8(
                item,
            ) {
                acc.push(vstd::utf8::decode_utf8(item))
            } else {
                acc
            };
            keys_from(d, offs + size, acc2)
        }
    }
}

/// How reading metadata ends: with its keys and values in the order read,
/// failed (no metadata box, or a value too short for its type), or
/// malformed (sizes or an index that do not fit the data).
pub enum MetaOutcome {
    Entries(Seq<(Seq<char>, MetaView)>),
    Failed,
    Malformed,
}

/// The values of the items of an `ilst` box from `offs` on, after `acc`:
/// an item is a size, a one-based key index, and a `data` box (its size, a
/// name, a big-endian type, four more bytes, and the value). An item
/// whose data box name is not UTF-8, whose index has no key yet, or whose
/// type is not read is passed over.
pub open spec fn ilst_from(
    d: Seq<u8>,
    offs: int,
    keys: Seq<Seq<char>>,
    acc: Seq<(Seq<char>, MetaView)>,
) -> MetaOutcome
    decreases d.len() - offs,
{
    if offs < 0 || d.len() - offs <= 8 {
        MetaOutcome::Entries(acc)
    } else {
        let size = be_uint(d.subrange(offs, offs + 4)) as int;
        if size < 8 || offs + size > d.len() || offs + 12 > d.len() {
            MetaOutcome::Malformed
        } else {
            let index = be_uint(d.subrange(offs + 4, offs + 8)) as int;
            let size2 = be_uint(d.subrange(offs + 8, offs + 12)) as int;
            if size2 < 8 || offs + 8 + size2 > d.len() {
                MetaOutcome::Malformed
            } else if !vstd::utf8::valid_utf8(d.subrange(offs + 12, offs + 16)) {
                ilst_from(d, offs + size, keys, acc)
            } else if index == 0 {
                MetaOutcome::Malformed
            } else {
                let v = d.subrange(offs + 16, offs + 8 + size2);
                if v.len() < 4 {
                    MetaOutcome::Malformed
                } else if index - 1 >= keys.len() {
                    ilst_from(d, offs + size, keys, acc)
                } else if v.len() < 8 {
                    MetaOutcome::Malformed
                } else {
                    match meta_value(be_first(v, 4) as u32, v.subrange(8, v.len() as int)) {
                        ValueRead::Short => MetaOutcome::Failed,
                        ValueRead::Unknown => ilst_from(d, offs + size, keys, acc),
                        ValueRead::Value(x) => ilst_from(d, offs + size, keys, acc.push((keys[index - 1], x))),
                    }
                }
            }
        }
    }
}

/// The entries of the boxes of a metadata box's content `m` from `offs`
/// on, with the keys and entries read before: `keys` boxes add keys (their
/// items start 8 bytes in), `ilst` boxes add values; other boxes and boxes
/// whose name is not UTF-8 are passed over.
pub open spec fn items_from(
    m: Seq<u8>,
    offs: int,
    keys: Seq<Seq<char>>,
    acc: Seq<(Seq<char>, MetaView)>,
) -> MetaOutcome
    decreases m.len() - offs,
{
    if offs < 0 || m.len() - offs <= 8 {
        MetaOutcome::Entries(acc)
    } else {
        let size = be_uint(m.subrange(offs, offs + 4)) as int;
        if size < 8 || offs + size > m.len() {
            MetaOutcome::Malformed
        } else {
            let name = m.subrange(offs + 4, offs + 8);
            let d = m.subrange(offs + 8, offs + size);
            if !vstd::utf8::valid_utf8(name) {
                items_from(m, offs + size, keys, acc)
            } else if vstd::utf8::decode_utf8(name) == "keys"@ {
                if d.len() < 8 {
                    MetaOutcome::Malformed
                } else {
                    match keys_from(d.subrange(8, d.len() as int), 0, keys) {
                        None => MetaOutcome::Malformed,
                        Some(k2) => items_from(m, offs + size, k2, acc),
                    }
                }
            } else if vstd::utf8::decode_utf8(name) == "ilst"@ {
                match ilst_from(d, 0, keys, acc) {
                    MetaOutcome::Entries(a2) => items_from(m, offs + size, keys, a2),
                    o => o,
                }
            } else {
                items_from(m, offs + size, keys, acc)
            }
        }
    }
}

/// The bytes of `meta`.
pub open spec fn meta_name() -> Seq<u8> {
    seq![0x6du8, 0x65, 0x74, 0x61]
}

/// The bytes of `hdlr`.
pub open spec fn hdlr_name() -> Seq<u8> {
    seq![0x68u8, 0x64, 0x6c, 0x72]
}

/// The position of the metadata box's name, scanning from `i`: the first
/// `meta` followed, 4 bytes after it, by `hdlr` within the data; after a
/// `meta` without it the scan goes on 4 bytes later.
pub open spec fn meta_at(all: Seq<u8>, i: int) -> Option<int>
    decreases all.len() - i,
{
    if i < 0 || i + 4 > all.len() {
        None
    } else if occurs_at(all, meta_name(), i) {
        if all.len() > i + 12 && all.subrange(i + 8, i + 12) == hdlr_name() {
            Some(i)
        } else {
            meta_at(all, i + 4)
        }
    } else {
        meta_at(all, i + 1)
    }
}

/// The file-level metadata of the bytes `all` read from a file: the
/// content of the box whose name `meta_at` finds, read by `items_from`.
pub open spec fn braw_meta(all: Seq<u8>) -> MetaOutcome {
    match meta_at(all, 0) {
        None => MetaOutcome::Failed,
        Some(p) => if p < 4 {
            MetaOutcome::Malformed
        } else {
            let size = be_uint(all.subrange(p - 4, p)) as int;
            if size < 8 || p - 4 + size > all.len() {
                MetaOutcome::Malformed
            } else {
                items_from(all.subrange(p + 4, p - 4 + size), 0, Seq::empty(), Seq::empty())
            }
        },
    }
}

/// A value as read, in exec form (see `ValueRead`).
enum ValueGot {
    Value(MetaValue),
    Unknown,
    Short,
}

/// Reads the value of type `typ` in `d` (see `meta_value`).
fn meta_value_of(typ: u32, d: &[u8]) -> (r: ValueGot)
    ensures
        match meta_value(typ, d@) {
            ValueRead::Value(x) => r matches ValueGot::Value(y) && meta_view(y) == x,
            ValueRead::Unknown => r is Unknown,
            ValueRead::Short => r is Short,
        },
{
    if typ == 1 {
        return match utf8_strict(d) {
            Some(t) => ValueGot::Value(MetaValue::Text(t)),
            None => ValueGot::Value(MetaValue::Text(String::new())),
        };
    }
    if typ == 23 || typ == 67 || typ == 77 {
        if d.len() < 4 {
            return ValueGot::Short;
        }
        return if typ == 23 {
            ValueGot::Value(MetaValue::F32Bits(read_u32_be(d)))
        } else if typ == 67 {
            ValueGot::Value(MetaValue::I32(read_i32_be(d)))
        } else {
            ValueGot::Value(MetaValue::U32(read_u32_be(d)))
        };
    }
    if typ == 24 || typ == 70 || typ == 71 || typ == 74 || typ == 78 {
        if d.len() < 8 {
            return ValueGot::Short;
        }
        return if typ == 24 {
            ValueGot::Value(MetaValue::F64Bits(read_u64_be(d)))
        } else if typ == 74 {
            ValueGot::Value(MetaValue::I64(read_i64_be(d)))
        } else if typ == 78 {
            ValueGot::Value(MetaValue::U64(read_u64_be(d)))
        } else {
            let e = &d[4..8];
            assert(e@.subrange(0, 4) =~= d@.subrange(4, 8));
            ValueGot::Value(MetaValue::F32PairBits(read_u32_be(d), read_u32_be(e)))
        };
    }
    if typ == 65 || typ == 75 {
        if d.len() < 1 {
            return ValueGot::Short;
        }
        let b = d[0];
        return if typ == 65 {
            let x: i8 = if b >= 128 {
                (b as i16 - 256) as i8
            } else {
                b as i8
            };
            ValueGot::Value(MetaValue::I8(x))
        } else {
            ValueGot::Value(MetaValue::U8(b))
        };
    }
    if typ == 66 || typ == 76 {
        if d.len() < 2 {
            return ValueGot::Short;
        }
        return if typ == 66 {
            ValueGot::Value(MetaValue::I16(read_i16_be(d)))
        } else {
            ValueGot::Value(MetaValue::U16(read_u16_be(d)))
        };
    }
    ValueGot::Unknown
}

/// The texts of keys.
pub open spec fn keys_view(v: Seq<String>) -> Seq<Seq<char>> {
    v.map_values(|s: String| s@)
}

/// The view of read metadata entries.
pub open spec fn meta_entries_view(v: Seq<(String, MetaValue)>) -> Seq<(Seq<char>, MetaView)> {
    v.map_values(|e: (String, MetaValue)| (e.0@, meta_view(e.1)))
}

/// Reads the keys of a `keys` box's items into `keys` (see `keys_from`);
/// false where the items are malformed.
fn keys_of(d: &[u8], keys: &mut Vec<String>) -> (ok: bool)
    ensures
        match keys_from(d@, 0, keys_view(old(keys)@)) {
            Some(k) => ok && keys_view(final(keys)@) == k,
            None => !ok,
        },
{
    let mut offs: usize = 0;
    loop
        invariant
            offs <= d.len(),
            keys_from(d@, 0, keys_view(old(keys)@)) == keys_from(d@, offs as int, keys_view(keys@)),
        decreases d.len() - offs,
    {
        if d.len() - offs <= 8 {
            return true;
        }
        let h = &d[offs..offs + 4];
        assert(h@.subrange(0, 4) =~= d@.subrange(offs as int, offs + 4));
        let size = read_u32_be(h) as usize;
        if size < 8 || size > d.len() - offs {
            return false;
        }
        let nb = &d[offs + 4..offs + 8];
        let item = &d[offs + 8..offs + size];
        assert(nb@ =~= d@.subrange(offs + 4, offs + 8));
        assert(item@ =~= d@.subrange(offs + 8, offs + size));
        let ghost kb = keys_view(keys@);
        if let Some(_name) = utf8_strict(nb) {
            if let Some(k) = utf8_strict(item) {
                keys.push(k);
                assert(keys_view(keys@) =~= kb.push(k@));
            }
        }
        offs = offs + size;
    }
}

/// How reading a box's items ends (see `MetaOutcome`).
enum ReadEnd {
    Done,
    Failed,
    Malformed,
}

/// Reads the values of an `ilst` box's items into `out` (see `ilst_from`).
#[verifier::rlimit(40)]
fn ilst_of(d: &[u8], keys: &Vec<String>, out: &mut Vec<(String, MetaValue)>) -> (r: ReadEnd)
    ensures
        match ilst_from(d@, 0, keys_view(keys@), meta_entries_view(old(out)@)) {
            MetaOutcome::Entries(a) => r is Done && meta_entries_view(final(out)@) == a,
            MetaOutcome::Failed => r is Failed,
            MetaOutcome::Malformed => r is Malformed,
        },
{
    let mut offs: usize = 0;
    let ghost kv = keys_view(keys@);
    loop
        invariant
            offs <= d.len(),
            kv == keys_view(keys@),
            ilst_from(d@, 0, kv, meta_entries_view(old(out)@)) == ilst_from(
                d@,
                offs as int,
                kv,
                meta_entries_view(out@),
            ),
        decreases d.len() - offs,
    {
        if d.len() - offs <= 8 {
            return ReadEnd::Done;
        }
        let len = d.len();
        let h = &d[offs..offs + 4];
        assert(h@.subrange(0, 4) =~= d@.subrange(offs as int, offs + 4));
        let size = read_u32_be(h) as usize;
        if size < 8 || size > len - offs || len - offs < 12 {
            return ReadEnd::Malformed;
        }
        let hi = &d[offs + 4..offs + 8];
        assert(hi@.subrange(0, 4) =~= d@.subrange(offs + 4, offs + 8));
        let index = read_u32_be(hi) as usize;
        let hs = &d[offs + 8..offs + 12];
        assert(hs@.subrange(0, 4) =~= d@.subrange(offs + 8, offs + 12));
        let size2 = read_u32_be(hs) as usize;
        if size2 < 8 || size2 > len - offs - 8 {
            return ReadEnd::Malformed;
        }
        let nb = &d[offs + 12..offs + 16];
        assert(nb@ =~= d@.subrange(offs + 12, offs + 16));
        let ghost eb = meta_entries_view(out@);
        if utf8_strict(nb).is_some() {
            if index == 0 {
                return ReadEnd::Malformed;
            }
            let v = &d[offs + 16..offs + 8 + size2];
            assert(v@ =~= d@.subrange(offs + 16, offs + 8 + size2));
            if v.len() < 4 {
                return ReadEnd::Malformed;
            }
            if index - 1 < keys.len() {
                if v.len() < 8 {
                    return ReadEnd::Malformed;
                }
                let typ = read_u32_be(v);
                let rest = &v[8..v.len()];
                assert(rest@ =~= v@.subrange(8, v.len() as int));
                match meta_value_of(typ, rest) {
                    ValueGot::Short => {
                        return ReadEnd::Failed;
                    },
                    ValueGot::Unknown => {},
                    ValueGot::Value(x) => {
                        let key = keys[index - 1].clone();
                        let ghost xv = meta_view(x);
                        out.push((key, x));
                        assert(meta_entries_view(out@) =~= eb.push((kv[index - 1], xv)));
                    },
                }
            }
        }
        offs = offs + size;
    }
}

/// The outcome of reading file-level metadata (see `MetaOutcome`).
pub enum MetaRead {
    /// The keys and values read, in the order read.
    Entries(Vec<(String, MetaValue)>),
    Failed,
    Malformed,
}

/// Whether `r` is the outcome `o`.
pub open spec fn meta_read_is(r: MetaRead, o: MetaOutcome) -> bool {
    match o {
        MetaOutcome::Entries(s) => r matches MetaRead::Entries(v) && meta_entries_view(v@) == s,
        MetaOutcome::Failed => r is Failed,
        MetaOutcome::Malformed => r is Malformed,
    }
}

/// Reads the boxes of a metadata box's content `m` (see `items_from`).
#[verifier::rlimit(40)]
pub fn items_of(m: &[u8]) -> (r: MetaRead)
    ensures
        meta_read_is(r, items_from(m@, 0, Seq::empty(), Seq::empty())),
{
    let mut keys: Vec<String> = Vec::new();
    let mut out: Vec<(String, MetaValue)> = Vec::new();
    let mut offs: usize = 0;
    assert(keys_view(keys@) =~= Seq::<Seq<char>>::empty());
    assert(meta_entries_view(out@) =~= Seq::<(Seq<char>, MetaView)>::empty());
    loop
        invariant
            offs <= m.len(),
            items_from(m@, 0, Seq::empty(), Seq::empty()) == items_from(
                m@,
                offs as int,
                keys_view(keys@),
                meta_entries_view(out@),
            ),
        decreases m.len() - offs,
    {
        if m.len() - offs <= 8 {
            return MetaRead::Entries(out);
        }
        let h = &m[offs..offs + 4];
        assert(h@.subrange(0, 4) =~= m@.subrange(offs as int, offs + 4));
        let size = read_u32_be(h) as usize;
        if size < 8 || size > m.len() - offs {
            return MetaRead::Malformed;
        }
        let nb = &m[offs + 4..offs + 8];
        let d = &m[offs + 8..offs + size];
        assert(nb@ =~= m@.subrange(offs + 4, offs + 8));
        assert(d@ =~= m@.subrange(offs + 8, offs + size));
        match utf8_strict(nb) {
            None => {},
            Some(name) => {
                if str_eq(name.as_str(), "keys") {
                    if d.len() < 8 {
                        return MetaRead::Malformed;
                    }
                    let k = &d[8..d.len()];
                    assert(k@ =~= d@.subrange(8, d.len() as int));
                    if !keys_of(k, &mut keys) {
                        return MetaRead::Malformed;
                    }
                } else if str_eq(name.as_str(), "ilst") {
                    match ilst_of(d, &keys, &mut out) {
                        ReadEnd::Done => {},
                        ReadEnd::Failed => {
                            return MetaRead::Failed;
                        },
                        ReadEnd::Malformed => {
                            return MetaRead::Malformed;
                        },
                    }
                }
            },
        }
        offs = offs + size;
    }
}

/// No `meta` occurs from `i` up to `k`: the scan from `i` is the scan
/// from `k`.
proof fn lemma_meta_skip(all: Seq<u8>, i: int, k: int)
    requires
        0 <= i <= k,
        forall|j: int| i <= j < k ==> !#[trigger] occurs_at(all, meta_name(), j),
    ensures
        meta_at(all, i) == meta_at(all, k),
    decreases k - i,
{
    if i < k {
        lemma_meta_skip(all, i + 1, k);
        assert(!occurs_at(all, meta_name(), i));
    }
}

/// The position that `meta_at(all, 0)` gives.
fn meta_position(all: &[u8]) -> (r: Option<usize>)
    ensures
        r is None <==> meta_at(all@, 0) is None,
        r matches Some(q) ==> meta_at(all@, 0) == Some(q as int) && q + 12 < all.len(),
{
    let nv: Vec<u8> = vec![0x6du8, 0x65, 0x74, 0x61];
    let tv: Vec<u8> = vec![0x68u8, 0x64, 0x6c, 0x72];
    let needle = nv.as_slice();
    let tag = tv.as_slice();
    assert(needle@ =~= meta_name());
    assert(tag@ =~= hdlr_name());
    let mut offs: usize = 0;
    loop
        invariant
            offs <= all.len(),
            needle@ == meta_name(),
            tag@ == hdlr_name(),
            meta_at(all@, 0) == meta_at(all@, offs as int),
        decreases all.len() - offs,
    {
        let hay = &all[offs..all.len()];
        assert(hay@ =~= all@.subrange(offs as int, all.len() as int));
        match find(hay, needle) {
            None => {
                proof {
                    let k = if all.len() >= 3 && offs + 3 <= all.len() { all.len() - 3 } else { offs as int };
                    assert forall|j: int| offs <= j < k implies !#[trigger] occurs_at(all@, meta_name(), j) by {
                        if occurs_at(all@, meta_name(), j) {
                            assert(hay@.subrange(j - offs, j - offs + 4) =~= all@.subrange(j, j + 4));
                            assert(occurs_at(hay@, needle@, j - offs));
                            assert(false);
                        }
                    }
                    lemma_meta_skip(all@, offs as int, k);
                }
                return None;
            },
            Some(pos) => {
                let p = offs + pos;
                proof {
                    assert forall|j: int| offs <= j < p implies !#[trigger] occurs_at(all@, meta_name(), j) by {
                        if occurs_at(all@, meta_name(), j) {
                            assert(hay@.subrange(j - offs, j - offs + 4) =~= all@.subrange(j, j + 4));
                            assert(occurs_at(hay@, needle@, j - offs));
                            assert(false);
                        }
                    }
                    lemma_meta_skip(all@, offs as int, p as int);
                    assert(hay@.subrange(pos as int, pos + 4) =~= all@.subrange(p as int, p + 4));
                    assert(occurs_at(all@, meta_name(), p as int));
                }
                if all.len() - p > 12 && occurs_at_index(all, tag, p + 8) {
                    assert(all@.subrange(p + 8, p + 12) == hdlr_name());
                    return Some(p);
                }
                proof {
                    if all.len() > p + 12 {
                        assert(all@.subrange(p + 8, p + 12) != hdlr_name());
                    }
                }
                offs = p + 4;
            },
        }
    }
}

/// Both `Blackmagic Design` and `braw_codec_bitrate` occur in `b`.
pub open spec fn is_braw(b: Seq<u8>) -> bool {
    contains_seq(b, "Blackmagic Design".spec_bytes()) && contains_seq(b, "braw_codec_bitrate".spec_bytes())
}

/// `s` without all leading copies of a non-empty `p`.
pub open spec fn strip_prefixes(s: Seq<char>, p: Seq<char>) -> Seq<char>
    decreases s.len(),
{
    if p.len() > 0 && p.len() <= s.len() && s.subrange(0, p.len() as int) == p {
        strip_prefixes(s.subrange(p.len() as int, s.len() as int), p)
    } else {
        s
    }
}

/// Blackmagic RAW clips.
#[derive(Debug, Clone, Default)]
pub struct BlackmagicBraw {
    pub model: Option<String>,
}

impl BlackmagicBraw {
    /// Detects a Blackmagic RAW clip (see `is_braw`).
    pub fn detect(buffer: &[u8], _filepath: &str) -> (r: Option<BlackmagicBraw>)
        ensures
            r is Some <==> is_braw(buffer@),
            r matches Some(b) ==> b.model is None,
    {
        if contains(buffer, "Blackmagic Design".as_bytes()) && contains(buffer, "braw_codec_bitrate".as_bytes()) {
            Some(BlackmagicBraw { model: None })
        } else {
            None
        }
    }

    pub fn normalize_imu_orientation(v: String) -> (r: String)
        ensures
            r@ == v@,
    {
        v
    }

    pub fn camera_type(&self) -> (r: String)
        ensures
            r@ == "Blackmagic RAW"@,
    {
        "Blackmagic RAW".to_owned()
    }

    /// The camera model named by a `camera_type` value: without its
    /// leading `Blackmagic ` (repeated ones too).
    pub fn model_from_camera_type(camera_type: &str) -> (r: String)
        ensures
            r@ == strip_prefixes(camera_type@, "Blackmagic "@),
    {
        proof {
            reveal_strlit("Blackmagic ");
        }
        let c = str_chars(camera_type);
        let mut i: usize = 0;
        assert(c@.subrange(0, c@.len() as int) =~= c@);
        loop
            invariant
                i <= c.len(),
                c@ == camera_type@,
                "Blackmagic "@.len() == 11,
                strip_prefixes(camera_type@, "Blackmagic "@) == strip_prefixes(
                    c@.subrange(i as int, c@.len() as int),
                    "Blackmagic "@,
                ),
            decreases c.len() - i,
        {
            let rest = &c.as_slice()[i..c.len()];
            assert(rest@ =~= c@.subrange(i as int, c@.len() as int));
            if !chars_starts_with(rest, "Blackmagic ") {
                return string_from_chars(rest);
            }
            assert(rest@.subrange(11, rest@.len() as int) =~= c@.subrange(i + 11, c@.len() as int));
            i = i + 11;
        }
    }

    /// The file-level metadata of the bytes `all` read from the start and
    /// the end of a clip (see `braw_meta`).
    pub fn parse_meta(all: &[u8]) -> (r: MetaRead)
        ensures
            meta_read_is(r, braw_meta(all@)),
    {
        match meta_position(all) {
            None => MetaRead::Failed,
            Some(p) => {
                if p < 4 {
                    return MetaRead::Malformed;
                }
                let h = &all[p - 4..p];
                assert(h@.subrange(0, 4) =~= all@.subrange(p - 4, p as int));
                let size = read_u32_be(h) as usize;
                if size < 8 || size > all.len() - (p - 4) {
                    return MetaRead::Malformed;
                }
                let m = &all[p + 4..p - 4 + size];
                assert(m@ =~= all@.subrange(p + 4, p - 4 + size));
                items_of(m)
            },
        }
    }
}


/// Per-frame values are big-endian from the start of the box data: a pair
/// is the 4-byte numbers at bytes 0 and 4 in that order, a float the bits
/// of bytes 0-3, a `u32` bytes 0-3 and a `u16` bytes 0-1.
pub proof fn lemma_frame_value_layout(d: Seq<u8>)
    ensures
        d.len() >= 8 ==> frame_value(d, FrameKind::Pair) == Some(FrameView::Pair(be4(d, 0) as u32, be4(d, 4) as u32)),
        d.len() >= 4 ==> frame_value(d, FrameKind::F32) == Some(FrameView::F32Bits(be4(d, 0) as u32)),
        d.len() >= 4 ==> frame_value(d, FrameKind::U32) == Some(FrameView::U32(be4(d, 0) as u32)),
        d.len() >= 2 ==> frame_value(d, FrameKind::U16) == Some(FrameView::U16(be2(d, 0) as u16)),
{
    if d.len() >= 2 {
        lemma_be_at_2(d, 0);
    }
    if d.len() >= 4 {
        lemma_be_at_4(d, 0);
    }
    if d.len() >= 8 {
        lemma_be_at_4(d, 4);
    }
}

/// Metadata values of the well-known types, big-endian from the start of
/// the data: 23 the bits of a 4-byte float, 24 those of an 8-byte float,
/// 70 and 71 two 4-byte floats at bytes 0 and 4 in that order, 65 to 67
/// signed and 75 to 77 unsigned numbers of 1, 2 and 4 bytes, 78 an
/// unsigned 8-byte number.
pub proof fn lemma_meta_value_layout(typ: u32, d: Seq<u8>)
    ensures
        typ == 23 && d.len() >= 4 ==> meta_value(typ, d) == ValueRead::Value(MetaView::F32Bits(be4(d, 0) as u32)),
        typ == 24 && d.len() >= 8 ==> meta_value(typ, d) == ValueRead::Value(MetaView::F64Bits(be8(d, 0) as u64)),
        (typ == 70 || typ == 71) && d.len() >= 8 ==> meta_value(typ, d) == ValueRead::Value(
            MetaView::F32PairBits(be4(d, 0) as u32, be4(d, 4) as u32),
        ),
        typ == 65 && d.len() >= 1 ==> meta_value(typ, d) == ValueRead::Value(
            MetaView::I8((if d[0] >= 128 { d[0] - 256 } else { d[0] as int }) as i8),
        ),
        typ == 75 && d.len() >= 1 ==> meta_value(typ, d) == ValueRead::Value(MetaView::U8(d[0])),
        typ == 66 && d.len() >= 2 ==> meta_value(typ, d) == ValueRead::Value(MetaView::I16(sbe16(d, 0) as i16)),
        typ == 76 && d.len() >= 2 ==> meta_value(typ, d) == ValueRead::Value(MetaView::U16(be2(d, 0) as u16)),
        typ == 67 && d.len() >= 4 ==> meta_value(typ, d) == ValueRead::Value(MetaView::I32(sbe32(d, 0) as i32)),
        typ == 77 && d.len() >= 4 ==> meta_value(typ, d) == ValueRead::Value(MetaView::U32(be4(d, 0) as u32)),
        typ == 78 && d.len() >= 8 ==> meta_value(typ, d) == ValueRead::Value(MetaView::U64(be8(d, 0) as u64)),
{
    if d.len() >= 2 {
        lemma_be_at_2(d, 0);
    }
    if d.len() >= 4 {
        lemma_be_at_4(d, 0);
    }
    if d.len() >= 8 {
        lemma_be_at_4(d, 4);
        lemma_be_at_8(d, 0);
    }
}
} // verus!
