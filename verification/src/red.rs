//! RED R3D clips: metadata records (a big-endian size, a value type, an id
//! and the value), the packed IMU samples of `RDX` boxes, and the clip's
//! files.

use vstd::prelude::*;
use crate::bytes::{be2, be4, be8, lemma_be_at_2, lemma_be_at_4, lemma_be_at_8, sbe16, be_uint, contains_seq, find, first_index, lemma_first_index, read_i16_be, read_u16_be, read_u32_be, signed};
use crate::cooke::{cooke_outcome, parse_outcome, records_match, CookeOutcome, CookeParse, CookeRecord, RecordSpec};
use crate::filesystem::{
    ascii_lower, extension_of, filename_of, find_last, get_extension, human_safe, human_safe_texts, human_sorted,
    last_index, sorted_texts, texts,
};
use crate::runcam::{ascii_lowercase, ascii_lowercase_of, starts_with};
use crate::tags::InputOptions;
use crate::text::{
    chars_ends_with, chars_starts_with, concat_str, ends_with, lossy_utf8, parse_u32, replace_all, replace_all_chars, str_chars, str_eq,
    to_lowercase, u32_of, unicode_lowercase, utf8_strict,
};
use crate::util::{between, find_between};

verus! {

/// The name of a metadata id, where it has one.
pub open spec fn known_name(id: u8) -> Option<Seq<char>> {
    if id == 0x06 {
        Some("camera_pin"@)
    } else if id == 0x08 {
        Some("exposure_time"@)
    } else if id == 0x0d {
        Some("white_balance_kelvin"@)
    } else if id == 0x0e {
        Some("white_balance_tint"@)
    } else if id == 0x0f {
        Some("saturation"@)
    } else if id == 0x11 {
        Some("brightness"@)
    } else if id == 0x13 {
        Some("contrast"@)
    } else if id == 0x19 {
        Some("camera_id"@)
    } else if id == 0x1a {
        Some("reel_id"@)
    } else if id == 0x1b {
        Some("clip_id"@)
    } else if id == 0x23 {
        Some("local_date"@)
    } else if id == 0x24 {
        Some("local_time"@)
    } else if id == 0x25 {
        Some("camera_firmware_version"@)
    } else if id == 0x30 {
        Some("gmt_date"@)
    } else if id == 0x31 {
        Some("gmt_time"@)
    } else if id == 0x39 {
        Some("lens_cooke_i_static"@)
    } else if id == 0x3a {
        Some("lens_cooke_i_dynamic"@)
    } else if id == 0x3b {
        Some("iso"@)
    } else if id == 0x56 {
        Some("file_name"@)
    } else if id == 0x65 {
        Some("firmware_revision"@)
    } else if id == 0x66 {
        Some("record_framerate"@)
    } else if id == 0x6b {
        Some("focal_length"@)
    } else if id == 0x6c {
        Some("focus_distance"@)
    } else if id == 0x74 {
        Some("lens_focus_distance_near"@)
    } else if id == 0x75 {
        Some("lens_focus_distance_far"@)
    } else if id == 0x6e {
        Some("lens_brand"@)
    } else if id == 0x70 {
        Some("lens_name"@)
    } else if id == 0x71 {
        Some("camera_network_name"@)
    } else if id == 0x76 {
        Some("user_production_name"@)
    } else if id == 0x77 {
        Some("user_director"@)
    } else if id == 0x78 {
        Some("user_director_of_photography"@)
    } else if id == 0x79 {
        Some("user_copyright"@)
    } else if id == 0x7a {
        Some("user_unit"@)
    } else if id == 0x7b {
        Some("user_location"@)
    } else if id == 0x7c {
        Some("user_camera_operator"@)
    } else if id == 0x7d {
        Some("user_scene"@)
    } else if id == 0x7e {
        Some("user_take"@)
    } else if id == 0x7f {
        Some("camera_acceleration"@)
    } else if id == 0x80 {
        Some("camera_rotation"@)
    } else if id == 0x86 {
        Some("resolution_format_name"@)
    } else if id == 0x9d {
        Some("lens_serial_number"@)
    } else if id == 0x9e {
        Some("lens_owner"@)
    } else if id == 0xa0 {
        Some("camera_model"@)
    } else if id == 0xa1 {
        Some("sensor_name"@)
    } else if id == 0xab {
        Some("3d_lut1"@)
    } else if id == 0xb0 {
        Some("fps"@)
    } else if id == 0xbe {
        Some("redcode"@)
    } else if id == 0xbf {
        Some("record_fps"@)
    } else if id == 0xc1 {
        Some("3d_lut2"@)
    } else {
        None
    }
}

fn known_name_of(id: u8) -> (r: Option<String>)
    ensures
        match known_name(id) {
            Some(n) => r matches Some(s) && s@ == n,
            None => r is None,
        },
{
    if id == 0x06 {
        Some("camera_pin".to_owned())
    } else if id == 0x08 {
        Some("exposure_time".to_owned())
    } else if id == 0x0d {
        Some("white_balance_kelvin".to_owned())
    } else if id == 0x0e {
        Some("white_balance_tint".to_owned())
    } else if id == 0x0f {
        Some("saturation".to_owned())
    } else if id == 0x11 {
        Some("brightness".to_owned())
    } else if id == 0x13 {
        Some("contrast".to_owned())
    } else if id == 0x19 {
        Some("camera_id".to_owned())
    } else if id == 0x1a {
        Some("reel_id".to_owned())
    } else if id == 0x1b {
        Some("clip_id".to_owned())
    } else if id == 0x23 {
        Some("local_date".to_owned())
    } else if id == 0x24 {
        Some("local_time".to_owned())
    } else if id == 0x25 {
        Some("camera_firmware_version".to_owned())
    } else if id == 0x30 {
        Some("gmt_date".to_owned())
    } else if id == 0x31 {
        Some("gmt_time".to_owned())
    } else if id == 0x39 {
        Some("lens_cooke_i_static".to_owned())
    } else if id == 0x3a {
        Some("lens_cooke_i_dynamic".to_owned())
    } else if id == 0x3b {
        Some("iso".to_owned())
    } else if id == 0x56 {
        Some("file_name".to_owned())
    } else if id == 0x65 {
        Some("firmware_revision".to_owned())
    } else if id == 0x66 {
        Some("record_framerate".to_owned())
    } else if id == 0x6b {
        Some("focal_length".to_owned())
    } else if id == 0x6c {
        Some("focus_distance".to_owned())
    } else if id == 0x74 {
        Some("lens_focus_distance_near".to_owned())
    } else if id == 0x75 {
        Some("lens_focus_distance_far".to_owned())
    } else if id == 0x6e {
        Some("lens_brand".to_owned())
    } else if id == 0x70 {
        Some("lens_name".to_owned())
    } else if id == 0x71 {
        Some("camera_network_name".to_owned())
    } else if id == 0x76 {
        Some("user_production_name".to_owned())
    } else if id == 0x77 {
        Some("user_director".to_owned())
    } else if id == 0x78 {
        Some("user_director_of_photography".to_owned())
    } else if id == 0x79 {
        Some("user_copyright".to_owned())
    } else if id == 0x7a {
        Some("user_unit".to_owned())
    } else if id == 0x7b {
        Some("user_location".to_owned())
    } else if id == 0x7c {
        Some("user_camera_operator".to_owned())
    } else if id == 0x7d {
        Some("user_scene".to_owned())
    } else if id == 0x7e {
        Some("user_take".to_owned())
    } else if id == 0x7f {
        Some("camera_acceleration".to_owned())
    } else if id == 0x80 {
        Some("camera_rotation".to_owned())
    } else if id == 0x86 {
        Some("resolution_format_name".to_owned())
    } else if id == 0x9d {
        Some("lens_serial_number".to_owned())
    } else if id == 0x9e {
        Some("lens_owner".to_owned())
    } else if id == 0xa0 {
        Some("camera_model".to_owned())
    } else if id == 0xa1 {
        Some("sensor_name".to_owned())
    } else if id == 0xab {
        Some("3d_lut1".to_owned())
    } else if id == 0xb0 {
        Some("fps".to_owned())
    } else if id == 0xbe {
        Some("redcode".to_owned())
    } else if id == 0xbf {
        Some("record_fps".to_owned())
    } else if id == 0xc1 {
        Some("3d_lut2".to_owned())
    } else {
        None
    }
}
/// A lowercase hexadecimal digit.
pub open spec fn hex_digit(n: u8) -> char {
    if n < 10 {
        (0x30 + n) as char
    } else {
        (0x57 + n) as char
    }
}

/// The key of a metadata id: its name, or `0x` and its value in
/// lowercase hexadecimal.
pub open spec fn key_of(id: u8) -> Seq<char> {
    match known_name(id) {
        Some(n) => n,
        None => if id < 16 {
            seq!['0', 'x', hex_digit(id)]
        } else {
            seq!['0', 'x', hex_digit(id / 16), hex_digit(id % 16)]
        },
    }
}

fn hex_char(n: u8) -> (c: char)
    requires
        n < 16,
    ensures
        c == hex_digit(n),
{
    if n < 10 {
        (0x30 + n) as char
    } else {
        (0x57 + n) as char
    }
}

/// The key of metadata id `id` (see `key_of`).
pub fn meta_key(id: u8) -> (r: String)
    ensures
        r@ == key_of(id),
{
    match known_name_of(id) {
        Some(n) => n,
        None => {
            let mut cs: Vec<char> = Vec::new();
            cs.push('0');
            cs.push('x');
            if id >= 16 {
                cs.push(hex_char(id / 16));
            }
            cs.push(hex_char(id % 16));
            let r = crate::text::string_from_chars(cs.as_slice());
            assert(id < 16 ==> id % 16 == id);
            assert(r@ =~= key_of(id));
            r
        },
    }
}

/// A metadata value; `f32` values as their bits.
#[derive(Debug, Clone, PartialEq)]
pub enum MetaValue {
    Text(String),
    F32Bits(u32),
    U8(u8),
    I16(i16),
    U32(u32),
}

/// A metadata value with its text as a sequence.
pub enum MetaValueView {
    Text(Seq<char>),
    F32Bits(u32),
    U8(u8),
    I16(i16),
    U32(u32),
}

/// The view of a metadata value.
pub open spec fn value_view(v: MetaValue) -> MetaValueView {
    match v {
        MetaValue::Text(s) => MetaValueView::Text(s@),
        MetaValue::F32Bits(x) => MetaValueView::F32Bits(x),
        MetaValue::U8(x) => MetaValueView::U8(x),
        MetaValue::I16(x) => MetaValueView::I16(x),
        MetaValue::U32(x) => MetaValueView::U32(x),
    }
}

/// What a metadata record holds: Cooke /i records, or its values.
#[derive(Debug, Clone)]
pub enum MetaItem {
    Cooke(Vec<CookeRecord>),
    Values(Vec<MetaValue>),
}

/// A metadata record: its id and what it holds.
#[derive(Debug, Clone)]
pub struct MetaEntry {
    pub id: u8,
    pub item: MetaItem,
}

/// What a metadata record holds, as sequences.
pub enum ItemSpec {
    Cooke(Seq<RecordSpec>),
    Values(Seq<MetaValueView>),
}

/// A metadata record as sequences.
pub struct EntrySpec {
    pub id: u8,
    pub item: ItemSpec,
}

/// `e` is the record that `s` describes.
pub open spec fn entry_matches(e: MetaEntry, s: EntrySpec) -> bool {
    &&& e.id == s.id
    &&& match e.item {
        MetaItem::Cooke(v) => s.item matches ItemSpec::Cooke(w) && records_match(v@, w),
        MetaItem::Values(v) => s.item matches ItemSpec::Values(w) && v@.map_values(|x: MetaValue| value_view(x)) == w,
    }
}

/// Each record of `v` is the one that `s` describes at its index.
pub open spec fn entries_match(v: Seq<MetaEntry>, s: Seq<EntrySpec>) -> bool {
    &&& v.len() == s.len()
    &&& forall|i: int| 0 <= i < v.len() ==> entry_matches(#[trigger] v[i], s[i])
}

/// The width of a value of type `t`: 4 for `f32` (`0x20`) and `u32`
/// (`0x60`), 1 for `u8` (`0x30`), 2 for `i16` (`0x40`), 0 for text and
/// unknown types.
pub open spec fn value_width(t: u8) -> int {
    if t == 0x20 || t == 0x60 {
        4
    } else if t == 0x30 {
        1
    } else if t == 0x40 {
        2
    } else {
        0
    }
}

/// How many values a record with id `id` holds: three for the camera's
/// acceleration (`0x7F`) and rotation (`0x80`), one for any other.
pub open spec fn value_count(id: u8) -> int {
    if id == 0x7f || id == 0x80 {
        3
    } else {
        1
    }
}

/// The text of a record body: its bytes after the type and the id where
/// they are UTF-8, else empty.
pub open spec fn body_text(d: Seq<u8>) -> Seq<char> {
    if vstd::utf8::valid_utf8(d.subrange(2, d.len() as int)) {
        vstd::utf8::decode_utf8(d.subrange(2, d.len() as int))
    } else {
        Seq::empty()
    }
}

/// Value `k` of a record body `d` of type `t`, big-endian.
pub open spec fn value_at(d: Seq<u8>, t: u8, k: int) -> MetaValueView {
    if t == 0x10 {
        MetaValueView::Text(body_text(d))
    } else if t == 0x20 {
        MetaValueView::F32Bits(be_uint(d.subrange(2 + 4 * k, 6 + 4 * k)) as u32)
    } else if t == 0x30 {
        MetaValueView::U8(d[2 + k])
    } else if t == 0x40 {
        MetaValueView::I16(signed(be_uint(d.subrange(2 + 2 * k, 4 + 2 * k)) as int, 16) as i16)
    } else {
        MetaValueView::U32(be_uint(d.subrange(2 + 4 * k, 6 + 4 * k)) as u32)
    }
}

/// The bytes that the values of a record with id `id` and type `t` take.
pub open spec fn value_span(id: u8, t: u8) -> int {
    if value_count(id) == 3 {
        3 * value_width(t)
    } else {
        value_width(t)
    }
}

/// The values of a record body `d` (type, id, values): none for an
/// unknown type; `None` where a value is cut short.
pub open spec fn values_of(d: Seq<u8>) -> Option<Seq<MetaValueView>> {
    let t = d[0];
    let n = value_count(d[1]);
    if t == 0x10 || value_width(t) > 0 && 2 + value_span(d[1], t) <= d.len() {
        Some(Seq::new(n as nat, |k: int| value_at(d, t, k)))
    } else if value_width(t) > 0 {
        None
    } else {
        Some(Seq::empty())
    }
}

/// What a record body `d` holds: the Cooke /i records of a lens record
/// (ids `0x39`, `0x3A`) that they read, else its values. `None` where the
/// body has no id or its Cooke /i data is malformed; `Some(None)` where a
/// value is cut short.
pub open spec fn item_of(d: Seq<u8>) -> Option<Option<ItemSpec>> {
    if d.len() < 2 {
        None
    } else {
        let cooke = if d[1] == 0x39 || d[1] == 0x3a {
            cooke_outcome(d.subrange(2, d.len() as int))
        } else {
            CookeOutcome::Refused
        };
        match cooke {
            CookeOutcome::Malformed => None,
            CookeOutcome::Records(s) => Some(Some(ItemSpec::Cooke(s))),
            CookeOutcome::Refused => match values_of(d) {
                Some(vs) => Some(Some(ItemSpec::Values(vs))),
                None => Some(None),
            },
        }
    }
}

/// How reading metadata ends: with its records and whether it read to the
/// end, or malformed.
pub enum MetaOutcome {
    Read(Seq<EntrySpec>, bool),
    Malformed,
}

/// `e` before the records of `o`.
pub open spec fn meta_then(pre: Seq<EntrySpec>, o: MetaOutcome) -> MetaOutcome {
    match o {
        MetaOutcome::Read(s, c) => MetaOutcome::Read(pre + s, c),
        MetaOutcome::Malformed => MetaOutcome::Malformed,
    }
}

/// The metadata records of `data`: each a big-endian size that counts
/// itself, then its body. A size of two or less, or no room for one, ends
/// the records; a record that the data cuts short, or a value that its
/// record cuts short, ends them unfinished.
pub open spec fn meta_from(data: Seq<u8>) -> MetaOutcome
    decreases data.len(),
{
    if data.len() < 2 {
        MetaOutcome::Read(Seq::empty(), true)
    } else {
        let size = be_uint(data.subrange(0, 2)) as int;
        if size <= 2 {
            MetaOutcome::Read(Seq::empty(), true)
        } else if data.len() < size {
            MetaOutcome::Read(Seq::empty(), false)
        } else {
            match item_of(data.subrange(2, size)) {
                None => MetaOutcome::Malformed,
                Some(None) => MetaOutcome::Read(Seq::empty(), false),
                Some(Some(item)) => meta_then(
                    seq![EntrySpec { id: data[3], item }],
                    meta_from(data.subrange(size, data.len() as int)),
                ),
            }
        }
    }
}

fn values_in(d: &[u8]) -> (r: Option<Vec<MetaValue>>)
    requires
        d.len() >= 2,
    ensures
        match values_of(d@) {
            Some(vs) => r matches Some(v) && v@.map_values(|x: MetaValue| value_view(x)) == vs,
            None => r is None,
        },
{
    let t = d[0];
    let n: usize = if d[1] == 0x7f || d[1] == 0x80 {
        3
    } else {
        1
    };
    let w: usize = if t == 0x20 || t == 0x60 {
        4
    } else if t == 0x30 {
        1
    } else if t == 0x40 {
        2
    } else {
        0
    };
    if t != 0x10 && w == 0 {
        let v: Vec<MetaValue> = Vec::new();
        assert(v@.map_values(|x: MetaValue| value_view(x)) =~= Seq::<MetaValueView>::empty());
        return Some(v);
    }
    let span: usize = if n == 3 {
        3 * w
    } else {
        w
    };
    if t != 0x10 && d.len() < 2 + span {
        return None;
    }
    let mut v: Vec<MetaValue> = Vec::new();
    let mut k: usize = 0;
    while k < n
        invariant
            k <= n,
            n == value_count(d@[1]),
            w == value_width(t),
            d.len() >= 2,
            t == d@[0],
            t == 0x10 || 2 + value_span(d@[1], t) <= d.len(),
            t == 0x10 || value_width(t) > 0,
            v@.len() == k,
            forall|j: int| 0 <= j < k ==> value_view(#[trigger] v@[j]) == value_at(d@, t, j),
        decreases n - k,
    {
        let x = if t == 0x10 {
            match utf8_strict(&d[2..d.len()]) {
                Some(s) => MetaValue::Text(s),
                None => MetaValue::Text(String::new()),
            }
        } else if t == 0x20 {
            assert(value_span(d@[1], t) == 4 * n);
            let b = &d[2 + 4 * k..6 + 4 * k];
            assert(b@.subrange(0, 4) =~= b@);
            MetaValue::F32Bits(read_u32_be(b))
        } else if t == 0x30 {
            MetaValue::U8(d[2 + k])
        } else if t == 0x40 {
            assert(value_span(d@[1], t) == 2 * n);
            let b = &d[2 + 2 * k..4 + 2 * k];
            assert(b@.subrange(0, 2) =~= b@);
            MetaValue::I16(read_i16_be(b))
        } else {
            assert(value_span(d@[1], t) == 4 * n);
            let b = &d[2 + 4 * k..6 + 4 * k];
            assert(b@.subrange(0, 4) =~= b@);
            MetaValue::U32(read_u32_be(b))
        };
        v.push(x);
        k = k + 1;
    }
    assert(v@.map_values(|x: MetaValue| value_view(x)) =~= Seq::new(n as nat, |k: int| value_at(d@, t, k)));
    Some(v)
}

/// How reading metadata ends, with the records read.
pub enum MetaParse {
    /// The records, and whether the metadata was read to its end.
    Read(Vec<MetaEntry>, bool),
    Malformed,
}

enum MetaStep {
    Stop(bool),
    Malformed,
    Entry(MetaEntry, usize, Ghost<EntrySpec>),
}

#[verifier::rlimit(40)]
fn meta_step(data: &[u8], pos: usize) -> (r: MetaStep)
    requires
        pos <= data.len(),
    ensures
        ({
            let rest = data@.subrange(pos as int, data.len() as int);
            match r {
                MetaStep::Stop(c) => meta_from(rest) == MetaOutcome::Read(Seq::empty(), c),
                MetaStep::Malformed => meta_from(rest) is Malformed,
                MetaStep::Entry(e, p2, x) => pos < p2 <= data.len() && entry_matches(e, x@) && meta_from(rest) == meta_then(
                    seq![x@],
                    meta_from(data@.subrange(p2 as int, data.len() as int)),
                ),
            }
        }),
{
    let len = data.len();
    let ghost rest = data@.subrange(pos as int, len as int);
    if len - pos < 2 {
        return MetaStep::Stop(true);
    }
    let size = read_u16_be(&data[pos..pos + 2]) as usize;
    assert(data@.subrange(pos as int, pos + 2).subrange(0, 2) =~= rest.subrange(0, 2));
    if size <= 2 {
        return MetaStep::Stop(true);
    }
    if len - pos < size {
        return MetaStep::Stop(false);
    }
    let d = &data[pos + 2..pos + size];
    assert(d@ =~= rest.subrange(2, size as int));
    assert(rest.subrange(size as int, rest.len() as int) =~= data@.subrange(pos + size, len as int));
    if d.len() < 2 {
        return MetaStep::Malformed;
    }
    let id = d[1];
    if id == 0x39 || id == 0x3a {
        let c = &d[2..d.len()];
        match parse_outcome(c) {
            CookeParse::Malformed => {
                return MetaStep::Malformed;
            },
            CookeParse::Records(v) => {
                let ghost s = cooke_outcome(c@)->Records_0;
                let ghost x = EntrySpec { id, item: ItemSpec::Cooke(s) };
                return MetaStep::Entry(MetaEntry { id, item: MetaItem::Cooke(v) }, pos + size, Ghost(x));
            },
            CookeParse::Refused => {},
        }
    }
    match values_in(d) {
        None => MetaStep::Stop(false),
        Some(v) => {
            let ghost x = EntrySpec { id, item: ItemSpec::Values(v@.map_values(|x: MetaValue| value_view(x))) };
            MetaStep::Entry(MetaEntry { id, item: MetaItem::Values(v) }, pos + size, Ghost(x))
        },
    }
}

/// Reads metadata records (see `meta_from`): the records read, and whether
/// the data was read to its end; malformed where a record has no id or
/// its Cooke /i data is malformed.
pub fn read_meta(data: &[u8]) -> (r: MetaParse)
    ensures
        match meta_from(data@) {
            MetaOutcome::Read(s, c) => r matches MetaParse::Read(v, c2) && entries_match(v@, s) && c2 == c,
            MetaOutcome::Malformed => r is Malformed,
        },
{
    let mut out: Vec<MetaEntry> = Vec::new();
    let ghost mut done: Seq<EntrySpec> = Seq::empty();
    let mut pos: usize = 0;
    assert(data@.subrange(0, data.len() as int) =~= data@);
    assert(meta_then(Seq::empty(), meta_from(data@)) =~~= meta_from(data@));
    loop
        invariant
            pos <= data.len(),
            entries_match(out@, done),
            meta_from(data@) == meta_then(done, meta_from(data@.subrange(pos as int, data.len() as int))),
        decreases data.len() - pos,
    {
        match meta_step(data, pos) {
            MetaStep::Stop(c) => {
                assert(done + Seq::<EntrySpec>::empty() =~= done);
                return MetaParse::Read(out, c);
            },
            MetaStep::Malformed => {
                return MetaParse::Malformed;
            },
            MetaStep::Entry(e, p2, x) => {
                proof {
                    assert forall|i: int| 0 <= i < out@.len() + 1 implies entry_matches(
                        #[trigger] out@.push(e)[i],
                        done.push(x@)[i],
                    ) by {
                        if i < out@.len() {
                            assert(out@.push(e)[i] == out@[i]);
                        }
                    }
                    match meta_from(data@.subrange(p2 as int, data.len() as int)) {
                        MetaOutcome::Read(s, c) => {
                            assert(done + (seq![x@] + s) =~= done.push(x@) + s);
                        },
                        _ => {},
                    }
                    done = done.push(x@);
                }
                out.push(e);
                pos = p2;
            },
        }
    }
}

/// One IMU record of an `RDX` box: a big-endian timestamp, then the
/// accelerometer and gyroscope samples as three big-endian `i16` each. The
/// last record may be cut short after its timestamp or its accelerometer
/// sample.
#[derive(Debug, Clone, Copy, PartialEq, Eq)]
pub struct ImuRecord {
    pub timestamp: u64,
    pub accel: Option<(i16, i16, i16)>,
    pub gyro: Option<(i16, i16, i16)>,
}

/// The big-endian `i16` at `i`.
pub open spec fn be_i16(d: Seq<u8>, i: int) -> i16 {
    signed(be_uint(d.subrange(i, i + 2)) as int, 16) as i16
}

/// Three big-endian `i16` from `i`.
pub open spec fn triple_at(d: Seq<u8>, i: int) -> (i16, i16, i16) {
    (be_i16(d, i), be_i16(d, i + 2), be_i16(d, i + 4))
}

/// The IMU record at `i`: its parts that fit before the end of `d`.
pub open spec fn imu_record_at(d: Seq<u8>, i: int) -> ImuRecord {
    ImuRecord {
        timestamp: be_uint(d.subrange(i, i + 8)) as u64,
        accel: if i + 14 <= d.len() {
            Some(triple_at(d, i + 8))
        } else {
            None
        },
        gyro: if i + 20 <= d.len() {
            Some(triple_at(d, i + 14))
        } else {
            None
        },
    }
}

/// The IMU records of an `RDX` box body: one every 20 bytes, and a last
/// one where at least its timestamp fits.
pub open spec fn imu_records(d: Seq<u8>) -> Seq<ImuRecord> {
    let n = if d.len() % 20 >= 8 {
        d.len() / 20 + 1
    } else {
        d.len() / 20
    };
    Seq::new(n as nat, |k: int| imu_record_at(d, 20 * k))
}

fn triple(d: &[u8], i: usize) -> (r: (i16, i16, i16))
    requires
        i + 6 <= d.len(),
    ensures
        r == triple_at(d@, i as int),
{
    let x = read_i16_be(&d[i..i + 2]);
    let y = read_i16_be(&d[i + 2..i + 4]);
    let z = read_i16_be(&d[i + 4..i + 6]);
    assert(d@.subrange(i as int, i + 2).subrange(0, 2) =~= d@.subrange(i as int, i + 2));
    assert(d@.subrange(i + 2, i + 4).subrange(0, 2) =~= d@.subrange(i + 2, i + 4));
    assert(d@.subrange(i + 4, i + 6).subrange(0, 2) =~= d@.subrange(i + 4, i + 6));
    (x, y, z)
}

/// Reads the IMU records of an `RDX` box body (see `imu_records`).
pub fn read_imu(d: &[u8]) -> (r: Vec<ImuRecord>)
    ensures
        r@ == imu_records(d@),
{
    let mut v: Vec<ImuRecord> = Vec::new();
    let mut i: usize = 0;
    while d.len() - i >= 8
        invariant
            i <= d.len(),
            i % 20 == 0,
            v@.len() == i / 20,
            forall|k: int| 0 <= k < v@.len() ==> v@[k] == #[trigger] imu_record_at(d@, 20 * k),
        decreases d.len() - i,
    {
        let ts = crate::bytes::read_u64_be(&d[i..i + 8]);
        assert(d@.subrange(i as int, i + 8).subrange(0, 8) =~= d@.subrange(i as int, i + 8));
        let accel = if d.len() - i >= 14 {
            Some(triple(d, i + 8))
        } else {
            None
        };
        let gyro = if d.len() - i >= 20 {
            Some(triple(d, i + 14))
        } else {
            None
        };
        let rec = ImuRecord { timestamp: ts, accel, gyro };
        assert(rec == imu_record_at(d@, 20 * (i / 20) as int));
        v.push(rec);
        if d.len() - i < 20 {
            assert(v@ =~= imu_records(d@));
            return v;
        }
        i = i + 20;
    }
    assert(v@ =~= imu_records(d@));
    v
}

/// The size of a box of `size` bytes rounded up to whole 4096-byte
/// blocks.
pub fn aligned_box_size(size: u32) -> (r: u64)
    ensures
        r % 4096 == 0,
        size <= r < size + 4096,
        r == aligned_size(size),
{
    let s = size as u64;
    (s + 4095) / 4096 * 4096
}

/// The size of a box of `size` bytes rounded up to whole 4096-byte blocks.
pub open spec fn aligned_size(size: u32) -> int {
    (size as int + 4095) / 4096 * 4096
}

/// The kind of a box of an R3D file, by its four-byte name.
#[derive(Debug, Clone, Copy, PartialEq, Eq)]
pub enum BoxKind {
    /// `RDX\x01`: CSV text after its first 4096 bytes.
    Csv,
    /// `RDX\x02`: IMU records after its first 4096 bytes.
    Imu,
    /// `RED2`: the clip header, with the clip metadata.
    Clip,
    /// `RDI\x01`: a frame, with its metadata in its first 4096 bytes.
    Frame,
    /// Any other box, which is skipped.
    Other,
}

/// The kind of a box named `name`.
pub open spec fn box_kind_of(name: [u8; 4]) -> BoxKind {
    if name@ == seq![0x52u8, 0x44, 0x58, 0x01] {
        BoxKind::Csv
    } else if name@ == seq![0x52u8, 0x44, 0x58, 0x02] {
        BoxKind::Imu
    } else if name@ == seq![0x52u8, 0x45, 0x44, 0x32] {
        BoxKind::Clip
    } else if name@ == seq![0x52u8, 0x44, 0x49, 0x01] {
        BoxKind::Frame
    } else {
        BoxKind::Other
    }
}

/// What the reader of an R3D file does after the 8-byte header (size and
/// name) of a box.
#[derive(Debug, Clone, Copy, PartialEq, Eq)]
pub enum BoxAction {
    /// Go back to the start of the box and read this many bytes: the box
    /// rounded up to whole blocks.
    ReadBox(u64),
    /// Read the next 4096 bytes, then move this many bytes on (back, where
    /// it is negative).
    ReadBlock(i64),
    /// Move this many bytes on from the end of the header (back, where it
    /// is negative).
    Skip(i64),
}

/// The decision on a box: its kind, what to read of it, and whether the
/// reading of the clip ends after it.
#[derive(Debug, Clone, Copy, PartialEq, Eq)]
pub struct BoxStep {
    pub kind: BoxKind,
    pub action: BoxAction,
    pub last: bool,
}

/// The decision on a box of `size` bytes named `name`: the boxes with data
/// are read (of a frame, only its first block after the header, where the
/// rounded box has one), the others skipped; where only the clip's
/// properties are asked for (`probe_only`), reading ends after the first
/// box with data.
pub open spec fn box_step_spec(size: u32, name: [u8; 4], probe_only: bool) -> BoxStep {
    let kind = box_kind_of(name);
    let aligned = aligned_size(size);
    BoxStep {
        kind,
        action: match kind {
            BoxKind::Csv | BoxKind::Imu | BoxKind::Clip => BoxAction::ReadBox(aligned as u64),
            BoxKind::Frame => if aligned >= 4096 {
                BoxAction::ReadBlock((aligned - 8 - 4096) as i64)
            } else {
                BoxAction::Skip((aligned - 8) as i64)
            },
            BoxKind::Other => BoxAction::Skip((aligned - 8) as i64),
        },
        last: probe_only && kind != BoxKind::Other,
    }
}

/// Decides what to do with a box from its header (see `box_step_spec`).
pub fn box_step(size: u32, name: [u8; 4], probe_only: bool) -> (r: BoxStep)
    ensures
        r == box_step_spec(size, name, probe_only),
{
    let aligned = aligned_box_size(size);
    let kind = if name[0] == 0x52 && name[1] == 0x44 && name[2] == 0x58 && name[3] == 0x01 {
        BoxKind::Csv
    } else if name[0] == 0x52 && name[1] == 0x44 && name[2] == 0x58 && name[3] == 0x02 {
        BoxKind::Imu
    } else if name[0] == 0x52 && name[1] == 0x45 && name[2] == 0x44 && name[3] == 0x32 {
        BoxKind::Clip
    } else if name[0] == 0x52 && name[1] == 0x44 && name[2] == 0x49 && name[3] == 0x01 {
        BoxKind::Frame
    } else {
        BoxKind::Other
    };
    proof {
        let n = name@;
        assert(n.len() == 4);
        if n =~= seq![0x52u8, 0x44, 0x58, 0x01] {} else if n =~= seq![0x52u8, 0x44, 0x58, 0x02] {} else if n =~= seq![0x52u8, 0x45, 0x44, 0x32] {} else if n =~= seq![0x52u8, 0x44, 0x49, 0x01] {}
        assert(kind == box_kind_of(name));
    }
    let action = match kind {
        BoxKind::Csv | BoxKind::Imu | BoxKind::Clip => BoxAction::ReadBox(aligned),
        BoxKind::Frame => if aligned >= 4096 {
            BoxAction::ReadBlock(aligned as i64 - 8 - 4096)
        } else {
            BoxAction::Skip(aligned as i64 - 8)
        },
        BoxKind::Other => BoxAction::Skip(aligned as i64 - 8),
    };
    let last = probe_only && !matches!(kind, BoxKind::Other);
    BoxStep { kind, action, last }
}

/// What a box that was read holds.
#[derive(Debug, Clone)]
pub enum BoxContent {
    /// The CSV text of an `RDX\x01` box, where it is UTF-8.
    Csv(Option<String>),
    /// The IMU records of an `RDX\x02` box.
    Imu(Vec<ImuRecord>),
    /// Where the metadata of a `RED2` box, or of the first block of an
    /// `RDI\x01` box, lies in what was read.
    Meta(MetaSpan),
    /// Nothing to take from the box.
    Nothing,
}

/// The body of a box of `size` bytes, read whole and rounded up to blocks
/// into `data`: the bytes from 4096 to `size`, where it is longer than one
/// block.
pub open spec fn box_body(size: u32, data: Seq<u8>) -> Option<Seq<u8>> {
    if data.len() > 4096 && size <= data.len() {
        Some(data.subrange(4096, size as int))
    } else {
        None
    }
}

/// Takes what a box holds from what was read of it: for `ReadBox`, the
/// whole box rounded up to blocks; for `ReadBlock`, the 4096 bytes after
/// its header.
pub fn box_content(kind: BoxKind, size: u32, data: &[u8]) -> (r: BoxContent)
    requires
        (kind == BoxKind::Csv || kind == BoxKind::Imu) ==> data@.len() == aligned_size(size),
    ensures
        match kind {
            BoxKind::Csv => match box_body(size, data@) {
                Some(b) => r matches BoxContent::Csv(t) && match t {
                    Some(s) => vstd::utf8::valid_utf8(b) && s@ == vstd::utf8::decode_utf8(b),
                    None => !vstd::utf8::valid_utf8(b),
                },
                None => r is Nothing,
            },
            BoxKind::Imu => match box_body(size, data@) {
                Some(b) => r matches BoxContent::Imu(v) && v@ == imu_records(b),
                None => r is Nothing,
            },
            BoxKind::Clip => r == BoxContent::Meta(red2_span(data@)),
            BoxKind::Frame => r == BoxContent::Meta(span_at(data@, 86)),
            BoxKind::Other => r is Nothing,
        },
{
    match kind {
        BoxKind::Csv | BoxKind::Imu => {
            if data.len() > 4096 && (size as usize) <= data.len() {
                let body = &data[4096..size as usize];
                if matches!(kind, BoxKind::Csv) {
                    BoxContent::Csv(utf8_strict(body))
                } else {
                    BoxContent::Imu(read_imu(body))
                }
            } else {
                BoxContent::Nothing
            }
        },
        BoxKind::Clip => BoxContent::Meta(red2_meta(data)),
        BoxKind::Frame => BoxContent::Meta(rdi_meta(data)),
        BoxKind::Other => BoxContent::Nothing,
    }
}

/// A file of a clip whose name starts with `base` and ends in `.r3d`, or
/// whose name is `rmd`, both in lower case.
pub open spec fn is_part(base: Seq<char>, rmd: Seq<char>, name: Seq<char>) -> bool {
    ||| starts_with(name, base) && ends_with(unicode_lowercase(name), ".r3d"@)
    ||| unicode_lowercase(name) == rmd
}

/// The paths of the listed files (name, path) that are parts of a clip.
pub open spec fn parts_in(files: Seq<(String, String)>, base: Seq<char>, rmd: Seq<char>) -> Seq<Seq<char>>
    decreases files.len(),
{
    if files.len() == 0 {
        Seq::empty()
    } else {
        let prev = parts_in(files.drop_last(), base, rmd);
        if is_part(base, rmd, files.last().0@) {
            prev.push(files.last().1@)
        } else {
            prev
        }
    }
}

/// The files of the clip of `path` among the files of its folder: for a
/// file name with a `_`, the `.r3d` files that share its name up to its
/// last `_`, and the `.rmd` file named as it is before that `_`; else, or
/// where none is listed, the path itself when its name ends in `r3d`.
pub open spec fn clip_parts(path: Seq<char>, files: Seq<(String, String)>) -> Seq<Seq<char>> {
    let f = filename_of(path);
    let found = match last_index(f, '_') {
        Some(p) => parts_in(files, f.subrange(0, p + 1), ascii_lowercase(f.subrange(0, p) + ".rmd"@)),
        None => Seq::empty(),
    };
    if found.len() == 0 && ends_with(ascii_lowercase(f), "r3d"@) {
        seq![path]
    } else {
        found
    }
}

#[verifier::rlimit(40)]
fn matching_parts(path: &str, files: &[(String, String)]) -> (r: Vec<String>)
    ensures
        texts(r@) == clip_parts(path@, files@),
{
    let f = crate::filesystem::get_filename(path);
    let fc = str_chars(f.as_str());
    let mut found: Vec<String> = Vec::new();
    match find_last(fc.as_slice(), '_') {
        Some(p) => {
            let base = crate::text::string_from_chars(&fc.as_slice()[0..p + 1]);
            let mut rc: Vec<char> = Vec::new();
            let mut k: usize = 0;
            while k < p
                invariant
                    k <= p < fc@.len(),
                    rc@ == ascii_lowercase(fc@.subrange(0, k as int)),
                decreases p - k,
            {
                let c = fc[k];
                rc.push(if 'A' <= c && c <= 'Z' { ((c as u8) + 32) as char } else { c });
                k = k + 1;
                assert(ascii_lowercase(fc@.subrange(0, k as int)) =~= ascii_lowercase(fc@.subrange(0, k - 1)).push(
                    ascii_lower(c),
                ));
            }
            rc.push('.');
            rc.push('r');
            rc.push('m');
            rc.push('d');
            let rmd = crate::text::string_from_chars(rc.as_slice());
            proof {
                reveal_strlit(".rmd");
                assert(rmd@ =~= ascii_lowercase(fc@.subrange(0, p as int) + ".rmd"@));
            }
            let mut i: usize = 0;
            while i < files.len()
                invariant
                    i <= files.len(),
                    base@ == fc@.subrange(0, p + 1),
                    texts(found@) == parts_in(files@.subrange(0, i as int), base@, rmd@),
                decreases files.len() - i,
            {
                let name = &files[i].0;
                let lower = to_lowercase(name.as_str());
                let lc = str_chars(lower.as_str());
                let nc = str_chars(name.as_str());
                let sel = (chars_starts_with(nc.as_slice(), base.as_str()) && chars_ends_with(lc.as_slice(), ".r3d"))
                    || str_eq(lower.as_str(), rmd.as_str());
                assert(files@.subrange(0, i + 1).drop_last() =~= files@.subrange(0, i as int));
                let ghost before = found@;
                if sel {
                    found.push(files[i].1.clone());
                    assert(texts(found@) =~= texts(before).push(files@[i as int].1@));
                }
                i = i + 1;
            }
            assert(files@.subrange(0, files@.len() as int) =~= files@);
        },
        None => {},
    }
    let fl = ascii_lowercase_of(fc.as_slice());
    if found.len() == 0 && chars_ends_with(fl.as_slice(), "r3d") {
        let mut v: Vec<String> = Vec::new();
        v.push(path.to_owned());
        assert(texts(v@) =~= seq![path@]);
        return v;
    }
    found
}

/// Whether the files of the clip of `path` are human-safe, so that they
/// can be sorted in human order.
pub fn parts_sortable(path: &str, files: &[(String, String)]) -> (r: bool)
    ensures
        r == human_safe(clip_parts(path@, files@)),
{
    let v = matching_parts(path, files);
    human_safe_texts(v.as_slice())
}

/// The files of the clip of `path` (see `clip_parts`), given the files
/// (name, path) of its folder: in human order where their names are
/// human-safe (on such names that order is the character order), else in
/// the order of the folder, for the caller to put in human order.
pub fn detect_all_parts(path: &str, files: &[(String, String)]) -> (r: Vec<String>)
    ensures
        texts(r@).to_multiset() == clip_parts(path@, files@).to_multiset(),
        human_safe(clip_parts(path@, files@)) ==> sorted_texts(texts(r@)),
        !human_safe(clip_parts(path@, files@)) ==> texts(r@) == clip_parts(path@, files@),
{
    let parts = matching_parts(path, files);
    if human_safe_texts(parts.as_slice()) {
        human_sorted(parts)
    } else {
        parts
    }
}

/// A RED R3D clip: the camera model that its metadata names, and the
/// files of the clip.
#[derive(Debug, Clone)]
pub struct RedR3d {
    pub model: Option<String>,
    pub all_parts: Vec<String>,
}

/// The files of the clip that `detect` finds: for a file that is no
/// `.r3d` (where sidecar files are looked for), those of its `.R3D`
/// sidecar, else, where they are some, those of its sidecar without an
/// extension; for a `.r3d` file whose bytes 4 to 7 are `RED2`, its own.
pub open spec fn detected_parts(
    buffer: Seq<u8>,
    path: Seq<char>,
    look_for_sidecars: bool,
    files: Seq<(String, String)>,
    r3d_sidecar: Option<Seq<char>>,
    bare_sidecar: Option<Seq<char>>,
) -> Option<Seq<Seq<char>>> {
    if extension_of(path) != "r3d"@ && look_for_sidecars {
        match r3d_sidecar {
            Some(p) => Some(clip_parts(p, files)),
            None => match bare_sidecar {
                Some(p) => if clip_parts(p, files).len() == 0 {
                    None
                } else {
                    Some(clip_parts(p, files))
                },
                None => None,
            },
        }
    } else if buffer.len() > 8 && buffer.subrange(4, 8) == seq![0x52u8, 0x45, 0x44, 0x32] {
        Some(clip_parts(path, files))
    } else {
        None
    }
}

impl RedR3d {
    pub fn camera_type(&self) -> (r: String)
        ensures
            r@ == (if self.model is Some {
                "RED"@
            } else {
                "RED RAW"@
            }),
    {
        if self.model.is_some() {
            "RED".to_owned()
        } else {
            "RED RAW".to_owned()
        }
    }

    pub fn has_accurate_timestamps(&self) -> (r: bool)
        ensures
            !r,
    {
        false
    }

    pub fn possible_extensions() -> (v: Vec<&'static str>)
        ensures
            v@.len() == 4,
            v@[0]@ == "r3d"@,
            v@[1]@ == "mp4"@,
            v@[2]@ == "mov"@,
            v@[3]@ == "mxf"@,
    {
        vec!["r3d", "mp4", "mov", "mxf"]
    }

    pub fn normalize_imu_orientation(v: String) -> (r: String)
        ensures
            r@ == v@,
    {
        v
    }

    /// Detects a RED clip (see `detected_parts`), given the files (name,
    /// path) of the folder of `filepath` and the `.R3D` and extensionless
    /// sidecar files that exist beside it. Its files come in human order
    /// where their names are human-safe, else as `detect_all_parts` leaves
    /// them.
    pub fn detect(
        buffer: &[u8],
        filepath: &str,
        options: &InputOptions,
        files: &[(String, String)],
        r3d_sidecar: Option<String>,
        bare_sidecar: Option<String>,
    ) -> (r: Option<RedR3d>)
        ensures
            match detected_parts(
                buffer@,
                filepath@,
                !options.dont_look_for_sidecar_files,
                files@,
                match r3d_sidecar { Some(p) => Some(p@), None => None },
                match bare_sidecar { Some(p) => Some(p@), None => None },
            ) {
                Some(ps) => r matches Some(red) && red.model is None
                    && texts(red.all_parts@).to_multiset() == ps.to_multiset()
                    && (human_safe(ps) ==> sorted_texts(texts(red.all_parts@)))
                    && (!human_safe(ps) ==> texts(red.all_parts@) == ps),
                None => r is None,
            },
    {
        let ext = get_extension(filepath);
        proof {
            reveal_strlit("r3d");
        }
        if !str_eq(ext.as_str(), "r3d") && !options.dont_look_for_sidecar_files {
            match r3d_sidecar {
                Some(p) => {
                    return Some(RedR3d { model: None, all_parts: detect_all_parts(p.as_str(), files) });
                },
                None => {},
            }
            match bare_sidecar {
                Some(p) => {
                    let parts = detect_all_parts(p.as_str(), files);
                    if parts.len() == 0 {
                        assert(texts(parts@).len() == 0);
                        proof {
                            vstd::seq_lib::to_multiset_len(texts(parts@));
                            vstd::seq_lib::to_multiset_len(clip_parts(p@, files@));
                        }
                        return None;
                    }
                    proof {
                        vstd::seq_lib::to_multiset_len(texts(parts@));
                        vstd::seq_lib::to_multiset_len(clip_parts(p@, files@));
                    }
                    return Some(RedR3d { model: None, all_parts: parts });
                },
                None => {},
            }
            return None;
        }
        if buffer.len() > 8 && buffer[4] == 0x52 && buffer[5] == 0x45 && buffer[6] == 0x44 && buffer[7] == 0x32 {
            assert(buffer@.subrange(4, 8) =~= seq![0x52u8, 0x45, 0x44, 0x32]);
            Some(RedR3d { model: None, all_parts: detect_all_parts(filepath, files) })
        } else {
            if buffer.len() > 8 {
                assert(buffer@.subrange(4, 8)[0] == buffer@[4]);
                assert(buffer@.subrange(4, 8)[1] == buffer@[5]);
                assert(buffer@.subrange(4, 8)[2] == buffer@[6]);
                assert(buffer@.subrange(4, 8)[3] == buffer@[7]);
            }
            None
        }
    }
}

/// Where the metadata of a box lies: nowhere, between two indices, or
/// past the end of the box.
#[derive(Debug, Clone, Copy, PartialEq, Eq)]
pub enum MetaSpan {
    Absent,
    At(usize, usize),
    OutOfBounds,
}

/// The metadata that a big-endian size at `i` announces after it.
pub open spec fn span_at(d: Seq<u8>, i: int) -> MetaSpan {
    if i + 2 > d.len() {
        MetaSpan::Absent
    } else {
        let size = be_uint(d.subrange(i, i + 2)) as int;
        if i + 2 + size > d.len() {
            MetaSpan::OutOfBounds
        } else {
            MetaSpan::At((i + 2) as usize, (i + 2 + size) as usize)
        }
    }
}

fn span_of(d: &[u8], i: usize) -> (r: MetaSpan)
    ensures
        r == span_at(d@, i as int),
{
    if i > d.len() || d.len() - i < 2 {
        return MetaSpan::Absent;
    }
    let size = read_u16_be(&d[i..i + 2]) as usize;
    assert(d@.subrange(i as int, i + 2).subrange(0, 2) =~= d@.subrange(i as int, i + 2));
    if d.len() - i - 2 < size {
        MetaSpan::OutOfBounds
    } else {
        MetaSpan::At(i + 2, i + 2 + size)
    }
}

/// The header of the metadata of a `RED2` box in newer clips.
pub open spec fn red_header() -> Seq<u8> {
    seq![0x72u8, 0x64, 0x78, 0x02, 0, 0, 0, 0, 0, 0, 0, 0x01, 0x52, 0x45, 0x44, 0x20]
}

/// The header of the metadata of a `RED2` box in older clips.
pub open spec fn redt_header() -> Seq<u8> {
    seq![0x72u8, 0x64, 0x78, 0x01, 0, 0, 0, 0, 0, 0, 0, 0x05, 0x52, 0x45, 0x44, 0x54]
}

/// The metadata of a `RED2` box of more than 126 bytes: after the first
/// header of the newer kind, else of the older kind, a big-endian size and
/// the metadata.
pub open spec fn red2_span(d: Seq<u8>) -> MetaSpan {
    if d.len() <= 126 {
        MetaSpan::Absent
    } else if contains_seq(d, red_header()) {
        span_at(d, first_index(d, red_header()) + 16)
    } else if contains_seq(d, redt_header()) {
        span_at(d, first_index(d, redt_header()) + 16)
    } else {
        MetaSpan::Absent
    }
}

/// Finds the metadata of a `RED2` box (see `red2_span`).
pub fn red2_meta(d: &[u8]) -> (r: MetaSpan)
    ensures
        r == red2_span(d@),
{
    if d.len() <= 126 {
        return MetaSpan::Absent;
    }
    let a: [u8; 16] = [0x72, 0x64, 0x78, 0x02, 0, 0, 0, 0, 0, 0, 0, 0x01, 0x52, 0x45, 0x44, 0x20];
    let b: [u8; 16] = [0x72, 0x64, 0x78, 0x01, 0, 0, 0, 0, 0, 0, 0, 0x05, 0x52, 0x45, 0x44, 0x54];
    assert(a@ =~= red_header());
    assert(b@ =~= redt_header());
    match find(d, a.as_slice()) {
        Some(i) => {
            proof {
                lemma_first_index(d@, red_header(), i);
            }
            span_of(d, i + 16)
        },
        None => match find(d, b.as_slice()) {
            Some(i) => {
                proof {
                    lemma_first_index(d@, redt_header(), i);
                }
                span_of(d, i + 16)
            },
            None => MetaSpan::Absent,
        },
    }
}

/// Finds the metadata of the first 4096 bytes of an `RDI` box: a
/// big-endian size at byte 86, then the metadata.
pub fn rdi_meta(block: &[u8]) -> (r: MetaSpan)
    ensures
        r == span_at(block@, 86),
{
    span_of(block, 86)
}

/// The last value of the records with id `id`: what the camera model
/// (`0xA0`) and the record frame rate (`0x66`) are taken from.
pub open spec fn last_value(v: Seq<MetaEntry>, id: u8) -> Option<MetaValue>
    decreases v.len(),
{
    if v.len() == 0 {
        None
    } else if v.last().id == id && (v.last().item matches MetaItem::Values(vs) && vs@.len() > 0) {
        Some(v.last().item->Values_0@.last())
    } else {
        last_value(v.drop_last(), id)
    }
}

/// The last value of the records with id `id` (see `last_value`).
pub fn last_value_of(entries: &[MetaEntry], id: u8) -> (r: Option<MetaValue>)
    ensures
        match last_value(entries@, id) {
            Some(v) => r matches Some(x) && value_view(x) == value_view(v),
            None => r is None,
        },
{
    let mut i = entries.len();
    assert(entries@.subrange(0, i as int) =~= entries@);
    while i > 0
        invariant
            i <= entries.len(),
            last_value(entries@, id) == last_value(entries@.subrange(0, i as int), id),
        decreases i,
    {
        let e = &entries[i - 1];
        assert(entries@.subrange(0, i as int).drop_last() =~= entries@.subrange(0, i - 1));
        if e.id == id {
            match &e.item {
                MetaItem::Values(vs) => {
                    if vs.len() > 0 {
                        let x = match &vs[vs.len() - 1] {
                            MetaValue::Text(t) => MetaValue::Text(t.clone()),
                            MetaValue::F32Bits(b) => MetaValue::F32Bits(*b),
                            MetaValue::U8(b) => MetaValue::U8(*b),
                            MetaValue::I16(b) => MetaValue::I16(*b),
                            MetaValue::U32(b) => MetaValue::U32(*b),
                        };
                        return Some(x);
                    }
                },
                MetaItem::Cooke(_) => {},
            }
        }
        i = i - 1;
    }
    None
}

/// The fields of a clip's `.rmd` file that are read, with their types.
pub open spec fn rmd_fields() -> Seq<(Seq<char>, Seq<char>)> {
    seq![
        ("fittype"@, "string"@),
        ("unit"@, "string"@),
        ("location"@, "string"@),
        ("focal_length"@, "string"@),
        ("production_name"@, "string"@),
        ("aperture"@, "string"@),
        ("director"@, "string"@),
        ("camera_operator"@, "string"@),
        ("focus_distance"@, "string"@),
        ("copyright"@, "string"@),
        ("director_of_photography"@, "string"@),
        ("take"@, "string"@),
        ("lens"@, "string"@),
        ("scene"@, "string"@),
        ("shot"@, "string"@),
        ("label"@, "string"@),
        ("video_slate_position"@, "int"@),
        ("poster_frame"@, "int"@),
        ("added_r3d_markers"@, "bool"@)
    ]
}

fn rmd_field_list() -> (v: Vec<(&'static str, &'static str)>)
    ensures
        v@.map_values(|f: (&'static str, &'static str)| (f.0@, f.1@)) == rmd_fields(),
{
    let mut v: Vec<(&'static str, &'static str)> = Vec::new();
    v.push(("fittype", "string"));
    v.push(("unit", "string"));
    v.push(("location", "string"));
    v.push(("focal_length", "string"));
    v.push(("production_name", "string"));
    v.push(("aperture", "string"));
    v.push(("director", "string"));
    v.push(("camera_operator", "string"));
    v.push(("focus_distance", "string"));
    v.push(("copyright", "string"));
    v.push(("director_of_photography", "string"));
    v.push(("take", "string"));
    v.push(("lens", "string"));
    v.push(("scene", "string"));
    v.push(("shot", "string"));
    v.push(("label", "string"));
    v.push(("video_slate_position", "int"));
    v.push(("poster_frame", "int"));
    v.push(("added_r3d_markers", "bool"));
    assert(v@.map_values(|f: (&'static str, &'static str)| (f.0@, f.1@)) =~= rmd_fields());
    v
}

/// The start of the XML element that holds field `name` of type `typ`, up
/// to the opening quote of its value.
pub open spec fn rmd_key(name: Seq<char>, typ: Seq<char>) -> Seq<u8> {
    vstd::utf8::encode_utf8(seq!['<'] + name + " type=\""@ + typ + "\" value=\""@)
}

/// `s` with the XML escapes of quotes, ampersands and angle brackets
/// replaced, in that order.
pub open spec fn unescape(s: Seq<char>) -> Seq<char> {
    replace_all(replace_all(replace_all(replace_all(s, "&quot;"@, "\""@), "&amp;"@, "&"@), "&lt;"@, "<"@), "&gt;"@, ">"@)
}

/// The fields of `.rmd` contents `c` among `fields`, in their order: each
/// whose element is found with a value that is not empty.
pub open spec fn rmd_entries(c: Seq<u8>, fields: Seq<(Seq<char>, Seq<char>)>) -> Seq<(Seq<char>, Seq<char>)>
    decreases fields.len(),
{
    if fields.len() == 0 {
        Seq::empty()
    } else {
        let prev = rmd_entries(c, fields.drop_last());
        let (name, typ) = fields.last();
        match between(c, rmd_key(name, typ), 0x22) {
            Some(v) => if lossy_utf8(v).len() > 0 {
                prev.push((name, unescape(lossy_utf8(v))))
            } else {
                prev
            },
            None => prev,
        }
    }
}

fn unescape_text(s: &str) -> (r: String)
    ensures
        r@ == unescape(s@),
{
    proof {
        reveal_strlit("&quot;");
        reveal_strlit("&amp;");
        reveal_strlit("&lt;");
        reveal_strlit("&gt;");
    }
    let c = str_chars(s);
    let a = replace_all_chars(c.as_slice(), "&quot;", "\"");
    let b = replace_all_chars(a.as_slice(), "&amp;", "&");
    let d = replace_all_chars(b.as_slice(), "&lt;", "<");
    let e = replace_all_chars(d.as_slice(), "&gt;", ">");
    crate::text::string_from_chars(e.as_slice())
}

fn key_bytes(name: &str, typ: &str) -> (k: String)
    ensures
        k@ == seq!['<'] + name@ + " type=\""@ + typ@ + "\" value=\""@,
{
    let a = concat_str("<", name);
    let b = concat_str(a.as_str(), " type=\"");
    let c = concat_str(b.as_str(), typ);
    let k = concat_str(c.as_str(), "\" value=\"");
    proof {
        reveal_strlit("<");
    }
    assert(k@ =~= seq!['<'] + name@ + " type=\""@ + typ@ + "\" value=\""@);
    k
}

/// The value of field `name` of type `typ` in `.rmd` contents, where it
/// is there and not empty.
pub open spec fn rmd_value(c: Seq<u8>, name: Seq<char>, typ: Seq<char>) -> Option<Seq<char>> {
    match between(c, rmd_key(name, typ), 0x22) {
        Some(v) => if lossy_utf8(v).len() > 0 {
            Some(unescape(lossy_utf8(v)))
        } else {
            None
        },
        None => None,
    }
}

fn rmd_field(contents: &[u8], name: &str, typ: &str) -> (r: Option<String>)
    ensures
        match rmd_value(contents@, name@, typ@) {
            Some(v) => r matches Some(s) && s@ == v,
            None => r is None,
        },
{
    let key = key_bytes(name, typ);
    match find_between(contents, key.as_str().as_bytes(), 0x22) {
        Some(v) => {
            if str_chars(v.as_str()).len() > 0 {
                Some(unescape_text(v.as_str()))
            } else {
                None
            }
        },
        None => None,
    }
}

/// The fields of `.rmd` contents (see `rmd_entries`): names and values.
#[verifier::rlimit(60)]
pub fn parse_rmd(contents: &[u8]) -> (r: Vec<(String, String)>)
    ensures
        r@.map_values(|e: (String, String)| (e.0@, e.1@)) == rmd_entries(contents@, rmd_fields()),
{
    let fields = rmd_field_list();
    let mut out: Vec<(String, String)> = Vec::new();
    let mut i: usize = 0;
    while i < fields.len()
        invariant
            i <= fields@.len(),
            fields@.map_values(|f: (&'static str, &'static str)| (f.0@, f.1@)) == rmd_fields(),
            out@.map_values(|e: (String, String)| (e.0@, e.1@)) == rmd_entries(contents@, rmd_fields().subrange(0, i as int)),
        decreases fields.len() - i,
    {
        let (name, typ) = fields[i];
        let ghost sub = rmd_fields().subrange(0, i + 1);
        assert(sub.drop_last() =~= rmd_fields().subrange(0, i as int));
        assert(sub.last() == (name@, typ@));
        let ghost prev = out@.map_values(|e: (String, String)| (e.0@, e.1@));
        match rmd_field(contents, name, typ) {
            Some(u) => {
                out.push((name.to_owned(), u));
                assert(out@.map_values(|e: (String, String)| (e.0@, e.1@)) =~= prev.push((name@, u@)));
            },
            None => {},
        }
        i = i + 1;
    }
    assert(rmd_fields().subrange(0, fields@.len() as int) =~= rmd_fields());
    out
}

/// The start of the frame rate override element of an `.rmd` file, up to
/// the opening quote of its numerator.
pub open spec fn override_key() -> Seq<char> {
    "<frame_rate_override num=\""@
}

/// The frame rate override of `.rmd` contents as a numerator and a
/// denominator, both positive: the numerator's text is looked up, and then
/// the denominator of the element with that numerator.
pub open spec fn frame_rate_override(c: Seq<u8>) -> Option<(u32, u32)> {
    match between(c, vstd::utf8::encode_utf8(override_key()), 0x22) {
        None => None,
        Some(nb) => {
            let n = lossy_utf8(nb);
            match between(c, vstd::utf8::encode_utf8(override_key() + n + "\" den=\""@), 0x22) {
                None => None,
                Some(db) => match (u32_of(n), u32_of(lossy_utf8(db))) {
                    (Some(a), Some(b)) => if a > 0 && b > 0 {
                        Some((a, b))
                    } else {
                        None
                    },
                    _ => None,
                },
            }
        }
    }
}

/// The frame rate override of `.rmd` contents (see `frame_rate_override`).
pub fn rmd_frame_rate(contents: &[u8]) -> (r: Option<(u32, u32)>)
    ensures
        r == frame_rate_override(contents@),
{
    let key = "<frame_rate_override num=\"";
    let n = match find_between(contents, key.as_bytes(), 0x22) {
        Some(n) => n,
        None => {
            return None;
        },
    };
    let a = concat_str(key, n.as_str());
    let k2 = concat_str(a.as_str(), "\" den=\"");
    let d = match find_between(contents, k2.as_str().as_bytes(), 0x22) {
        Some(d) => d,
        None => {
            return None;
        },
    };
    match (parse_u32(n.as_str()), parse_u32(d.as_str())) {
        (Some(x), Some(y)) => if x > 0 && y > 0 {
            Some((x, y))
        } else {
            None
        },
        _ => None,
    }
}


/// The IMU records of an `RDX` box body are 20 bytes each from the start:
/// a big-endian 8-byte timestamp, then the accelerometer x, y, z at bytes
/// 8, 10, 12 and the gyroscope x, y, z at bytes 14, 16, 18, big-endian
/// `i16`; a last record cut short keeps what fits of its timestamp and
/// accelerometer sample.
pub proof fn lemma_imu_record_layout(d: Seq<u8>, k: int)
    requires
        0 <= k,
        20 * k + 8 <= d.len(),
    ensures
        k < imu_records(d).len(),
        imu_records(d)[k].timestamp == be8(d, 20 * k),
        20 * k + 14 <= d.len() <==> imu_records(d)[k].accel is Some,
        20 * k + 20 <= d.len() <==> imu_records(d)[k].gyro is Some,
        imu_records(d)[k].accel matches Some(a) ==> a.0 == sbe16(d, 20 * k + 8) && a.1 == sbe16(d, 20 * k + 10)
            && a.2 == sbe16(d, 20 * k + 12),
        imu_records(d)[k].gyro matches Some(g) ==> g.0 == sbe16(d, 20 * k + 14) && g.1 == sbe16(d, 20 * k + 16)
            && g.2 == sbe16(d, 20 * k + 18),
{
    let p = 20 * k;
    assert(k < imu_records(d).len()) by (nonlinear_arith)
        requires
            0 <= k,
            20 * k + 8 <= d.len(),
            imu_records(d).len() == (if d.len() % 20 >= 8 { d.len() / 20 + 1 } else { d.len() / 20 }),
    {
    }
    lemma_be_at_8(d, p);
    if p + 14 <= d.len() {
        lemma_be_at_2(d, p + 8);
        lemma_be_at_2(d, p + 10);
        lemma_be_at_2(d, p + 12);
    }
    if p + 20 <= d.len() {
        lemma_be_at_2(d, p + 14);
        lemma_be_at_2(d, p + 16);
        lemma_be_at_2(d, p + 18);
    }
}

/// The values of an RMD metadata record body (type byte, id byte, values)
/// follow its two header bytes, big-endian: value `k` of an `f32` (`0x20`)
/// or `u32` (`0x60`) record is the 4 bytes at `2 + 4 * k`, of a `u8`
/// (`0x30`) record byte `2 + k`, of an `i16` (`0x40`) record the 2 bytes at
/// `2 + 2 * k`; the camera's acceleration (`0x7F`) and rotation (`0x80`)
/// hold three values, other ids one.
pub proof fn lemma_record_values_layout(d: Seq<u8>, k: int)
    requires
        d.len() >= 2,
        d[0] == 0x20 || d[0] == 0x30 || d[0] == 0x40 || d[0] == 0x60,
        0 <= k < (if d[1] == 0x7f || d[1] == 0x80 { 3int } else { 1int }),
        2 + (if d[1] == 0x7f || d[1] == 0x80 { 3int } else { 1int }) * (if d[0] == 0x30 { 1int } else if d[0] == 0x40 { 2int } else { 4int })
            <= d.len(),
    ensures
        values_of(d) matches Some(vs) && vs.len() == (if d[1] == 0x7f || d[1] == 0x80 { 3int } else { 1int }) && {
            let v = vs[k];
            &&& d[0] == 0x20 ==> v == MetaValueView::F32Bits(be4(d, 2 + 4 * k) as u32)
            &&& d[0] == 0x60 ==> v == MetaValueView::U32(be4(d, 2 + 4 * k) as u32)
            &&& d[0] == 0x30 ==> v == MetaValueView::U8(d[2 + k])
            &&& d[0] == 0x40 ==> v == MetaValueView::I16(sbe16(d, 2 + 2 * k) as i16)
        },
{
    if d[0] == 0x40 {
        lemma_be_at_2(d, 2 + 2 * k);
    } else if d[0] != 0x30 {
        lemma_be_at_4(d, 2 + 4 * k);
    }
}
} // verus!
