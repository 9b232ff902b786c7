//! The binary records in the trailer of Insta360 files: each holds items
//! of a fixed layout of little-endian fields, read until the record ends.

use vstd::prelude::*;
use vstd::string::StringSliceAdditionalSpecFns;
use crate::bytes::{le2, le4, le8, le_at, lemma_le_at_2, lemma_le_at_4, lemma_le_at_8, lemma_le_fits, occurs_at, occurs_at_index, read_le, read_u32_le};
use crate::text::{remove_all, remove_all_chars, str_chars, str_eq, string_from_chars};
use crate::tags::ParseError;

verus! {

/// One entry of the offsets record: where the record `id` lies in the
/// trailer.
#[derive(Clone, Copy, Debug, PartialEq, Eq)]
pub struct OffsetEntry {
    pub id: u8,
    pub format: u8,
    pub size: u32,
    pub offset: u32,
}

/// The entry at `pos`: id, format, size (4 bytes) and offset (4 bytes).
pub open spec fn offset_entry_at(d: Seq<u8>, pos: int) -> OffsetEntry {
    OffsetEntry { id: d[pos], format: d[pos + 1], size: le_at(d, pos + 2, 4) as u32, offset: le_at(d, pos + 6, 4) as u32 }
}

/// The entries of an offsets record from `pos` with a non-zero id; `None`
/// when the record ends inside an entry.
pub open spec fn offsets_from(d: Seq<u8>, pos: int) -> Option<Seq<OffsetEntry>>
    decreases d.len() - pos,
{
    if pos < 0 || pos >= d.len() {
        Some(Seq::empty())
    } else if pos + 10 > d.len() {
        None
    } else {
        match offsets_from(d, pos + 10) {
            None => None,
            Some(rest) => if d[pos] > 0 {
                Some(seq![offset_entry_at(d, pos)] + rest)
            } else {
                Some(rest)
            },
        }
    }
}

/// The entries of an offsets record as a map by record id: one entry per
/// id (the last where an id repeats), by ascending id, those with id 0
/// left out.
pub fn parse_offsets(data: &[u8]) -> (r: Result<Vec<OffsetEntry>, ParseError>)
    ensures
        match offsets_from(data@, 0) {
            Some(es) => r matches Ok(v) && v@ == by_id(es, 1),
            None => r == Err::<Vec<OffsetEntry>, ParseError>(ParseError::UnexpectedEof),
        },
{
    let mut out: Vec<OffsetEntry> = Vec::new();
    let mut pos: usize = 0;
    while pos < data.len()
        invariant
            pos <= data.len(),
            offsets_from(data@, 0) == match offsets_from(data@, pos as int) {
                Some(r) => Some(out@ + r),
                None => None,
            },
        decreases data.len() - pos,
    {
        if data.len() - pos < 10 {
            return Err(ParseError::UnexpectedEof);
        }
        let e = OffsetEntry {
            id: data[pos],
            format: data[pos + 1],
            size: read_le(data, pos + 2, 4) as u32,
            offset: read_le(data, pos + 6, 4) as u32,
        };
        proof {
            lemma_le_fits(data@.subrange(pos + 2, pos + 6));
            lemma_le_fits(data@.subrange(pos + 6, pos + 10));
            match offsets_from(data@, pos + 10) {
                Some(rest) => {
                    assert(out@.push(e) + rest =~= out@ + (seq![e] + rest));
                },
                None => {},
            }
        }
        if e.id > 0 {
            out.push(e);
        }
        pos = pos + 10;
    }
    assert(out@ + Seq::<OffsetEntry>::empty() =~= out@);
    Ok(entries_by_id(out.as_slice()))
}

/// The entries of `es` by ascending record id (see `by_id`).
fn entries_by_id(es: &[OffsetEntry]) -> (r: Vec<OffsetEntry>)
    ensures
        r@ == by_id(es@, 1),
{
    let mut out: Vec<OffsetEntry> = Vec::new();
    let mut k: u16 = 1;
    assert(out@ + by_id(es@, 1) =~= by_id(es@, 1));
    while k <= 255
        invariant
            1 <= k <= 256,
            by_id(es@, 1) == out@ + by_id(es@, k as int),
        decreases 256 - k,
    {
        match last_entry(es, k as u8) {
            None => {
                assert(by_id(es@, k as int) =~= by_id(es@, k + 1));
            },
            Some(e) => {
                assert(by_id(es@, k as int) =~= seq![e] + by_id(es@, k + 1));
                assert(out@ + (seq![e] + by_id(es@, k + 1)) =~= out@.push(e) + by_id(es@, k + 1));
                out.push(e);
            },
        }
        k = k + 1;
    }
    assert(by_id(es@, 256) =~= Seq::<OffsetEntry>::empty());
    assert(out@ + Seq::<OffsetEntry>::empty() =~= out@);
    out
}

/// The number of whole items of `size` bytes in a record of `len` bytes;
/// `None` when the record ends inside an item.
pub open spec fn item_count(len: int, size: int) -> Option<int> {
    if len % size == 0 {
        Some(len / size)
    } else {
        None
    }
}

/// One inertial sample of a gyroscope record: a timestamp in milliseconds
/// and three accelerometer and three gyroscope values, each either a raw
/// `u16` or the bits of an `f64`.
#[derive(Clone, Copy, Debug, PartialEq, Eq)]
pub struct GyroItem {
    pub timestamp: u64,
    pub acc: [u64; 3],
    pub gyro: [u64; 3],
}

/// The width of one value of a gyroscope record: 2 bytes for raw samples,
/// 8 for `f64` samples.
pub open spec fn value_width(raw: bool) -> int {
    if raw {
        2
    } else {
        8
    }
}

/// The sample at `pos`.
pub open spec fn gyro_item_at(d: Seq<u8>, pos: int, raw: bool) -> GyroItem {
    let w = value_width(raw);
    GyroItem {
        timestamp: le_at(d, pos, 8) as u64,
        acc: [le_at(d, pos + 8, w) as u64, le_at(d, pos + 8 + w, w) as u64, le_at(d, pos + 8 + 2 * w, w) as u64],
        gyro: [
            le_at(d, pos + 8 + 3 * w, w) as u64,
            le_at(d, pos + 8 + 4 * w, w) as u64,
            le_at(d, pos + 8 + 5 * w, w) as u64,
        ],
    }
}

/// The samples of a gyroscope record; fails when the record ends inside a
/// sample.
pub fn parse_gyro_record(data: &[u8], raw: bool) -> (r: Result<Vec<GyroItem>, ParseError>)
    ensures
        ({
            let size = 8 + 6 * value_width(raw);
            match item_count(data@.len() as int, size) {
                Some(n) => r matches Ok(v) && v@.len() == n && forall|i: int|
                    0 <= i < n ==> #[trigger] v@[i] == gyro_item_at(data@, i * size, raw),
                None => r == Err::<Vec<GyroItem>, ParseError>(ParseError::UnexpectedEof),
            }
        }),
{
    let w: usize = if raw { 2 } else { 8 };
    let size: usize = 8 + 6 * w;
    let mut out: Vec<GyroItem> = Vec::new();
    let mut pos: usize = 0;
    while pos < data.len()
        invariant
            w == value_width(raw),
            size == 8 + 6 * w,
            pos <= data.len(),
            pos == out@.len() * size,
            forall|i: int| 0 <= i < out@.len() ==> #[trigger] out@[i] == gyro_item_at(data@, i * size, raw),
        decreases data.len() - pos,
    {
        if data.len() - pos < size {
            proof {
                lemma_partial_item(data@.len() as int, size as int, out@.len() as int);
            }
            return Err(ParseError::UnexpectedEof);
        }
        let item = GyroItem {
            timestamp: read_le(data, pos, 8),
            acc: [read_le(data, pos + 8, w), read_le(data, pos + 8 + w, w), read_le(data, pos + 8 + 2 * w, w)],
            gyro: [read_le(data, pos + 8 + 3 * w, w), read_le(data, pos + 8 + 4 * w, w), read_le(data, pos + 8 + 5 * w, w)],
        };
        assert((out@.len() + 1) * size == out@.len() * size + size) by (nonlinear_arith);
        out.push(item);
        pos = pos + size;
    }
    proof {
        lemma_whole_items(data@.len() as int, size as int, out@.len() as int);
    }
    Ok(out)
}

proof fn lemma_partial_item(len: int, size: int, k: int)
    requires
        size > 0,
        0 <= k,
        k * size < len < k * size + size,
    ensures
        len % size != 0,
{
    assert(len % size != 0) by (nonlinear_arith)
        requires
            size > 0,
            0 <= k,
            k * size < len < k * size + size,
    {
        if len % size == 0 {
            let q = len / size;
            assert(len == q * size);
            assert(k < q < k + 1);
        }
    }
}

proof fn lemma_whole_items(len: int, size: int, k: int)
    requires
        size > 0,
        0 <= k,
        k * size == len,
    ensures
        len % size == 0,
        len / size == k,
{
    assert(len % size == 0 && len / size == k) by (nonlinear_arith)
        requires
            size > 0,
            0 <= k,
            k * size == len,
    ;
}

/// One exposure sample: a timestamp in milliseconds and the bits of the
/// `f64` shutter speed.
#[derive(Clone, Copy, Debug, PartialEq, Eq)]
pub struct TimedBits {
    pub timestamp: u64,
    pub value_bits: u64,
}

/// The exposure sample at `pos`.
pub open spec fn exposure_item_at(d: Seq<u8>, pos: int) -> TimedBits {
    TimedBits { timestamp: le_at(d, pos, 8) as u64, value_bits: le_at(d, pos + 8, 8) as u64 }
}

/// The samples of an exposure record (16 bytes each); fails when the
/// record ends inside a sample.
pub fn parse_exposure_record(data: &[u8]) -> (r: Result<Vec<TimedBits>, ParseError>)
    ensures
        match item_count(data@.len() as int, 16) {
            Some(n) => r matches Ok(v) && v@.len() == n && forall|i: int|
                0 <= i < n ==> #[trigger] v@[i] == exposure_item_at(data@, 16 * i),
            None => r == Err::<Vec<TimedBits>, ParseError>(ParseError::UnexpectedEof),
        },
{
    let mut out: Vec<TimedBits> = Vec::new();
    let mut pos: usize = 0;
    while pos < data.len()
        invariant
            pos <= data.len(),
            pos == 16 * out@.len(),
            forall|i: int| 0 <= i < out@.len() ==> #[trigger] out@[i] == exposure_item_at(data@, 16 * i),
        decreases data.len() - pos,
    {
        if data.len() - pos < 16 {
            proof {
                lemma_partial_item(data@.len() as int, 16, out@.len() as int);
            }
            return Err(ParseError::UnexpectedEof);
        }
        out.push(TimedBits { timestamp: read_le(data, pos, 8), value_bits: read_le(data, pos + 8, 8) });
        pos = pos + 16;
    }
    proof {
        lemma_whole_items(data@.len() as int, 16, out@.len() as int);
    }
    Ok(out)
}

/// The timestamps of a timelapse record (8 bytes each); fails when the
/// record ends inside one.
pub fn parse_timelapse_record(data: &[u8]) -> (r: Result<Vec<u64>, ParseError>)
    ensures
        match item_count(data@.len() as int, 8) {
            Some(n) => r matches Ok(v) && v@.len() == n && forall|i: int|
                0 <= i < n ==> #[trigger] v@[i] == le_at(data@, 8 * i, 8),
            None => r == Err::<Vec<u64>, ParseError>(ParseError::UnexpectedEof),
        },
{
    let mut out: Vec<u64> = Vec::new();
    let mut pos: usize = 0;
    while pos < data.len()
        invariant
            pos <= data.len(),
            pos == 8 * out@.len(),
            forall|i: int| 0 <= i < out@.len() ==> #[trigger] out@[i] == le_at(data@, 8 * i, 8),
        decreases data.len() - pos,
    {
        if data.len() - pos < 8 {
            proof {
                lemma_partial_item(data@.len() as int, 8, out@.len() as int);
            }
            return Err(ParseError::UnexpectedEof);
        }
        out.push(read_le(data, pos, 8));
        pos = pos + 8;
    }
    proof {
        lemma_whole_items(data@.len() as int, 8, out@.len() as int);
    }
    Ok(out)
}

/// One GPS fix as stored (53 bytes): seconds and milliseconds of the time,
/// the fix flag (`A` acquired), latitude and its hemisphere (`N`/`S`),
/// longitude and its hemisphere (`E`/`W`), speed in m/s, track and
/// altitude, the floating-point fields as `f64` bits.
#[derive(Clone, Copy, Debug, PartialEq, Eq)]
pub struct GpsItem {
    pub seconds: u64,
    pub millis: u16,
    pub fix: u8,
    pub lat_bits: u64,
    pub lat_dir: u8,
    pub lon_bits: u64,
    pub lon_dir: u8,
    pub speed_bits: u64,
    pub track_bits: u64,
    pub altitude_bits: u64,
}

/// The fix at `pos`.
pub open spec fn gps_item_at(d: Seq<u8>, pos: int) -> GpsItem {
    GpsItem {
        seconds: le_at(d, pos, 8) as u64,
        millis: le_at(d, pos + 8, 2) as u16,
        fix: d[pos + 10],
        lat_bits: le_at(d, pos + 11, 8) as u64,
        lat_dir: d[pos + 19],
        lon_bits: le_at(d, pos + 20, 8) as u64,
        lon_dir: d[pos + 28],
        speed_bits: le_at(d, pos + 29, 8) as u64,
        track_bits: le_at(d, pos + 37, 8) as u64,
        altitude_bits: le_at(d, pos + 45, 8) as u64,
    }
}

/// The fixes of a GPS record; fails when the record ends inside one.
pub fn parse_gps_record(data: &[u8]) -> (r: Result<Vec<GpsItem>, ParseError>)
    ensures
        match item_count(data@.len() as int, 53) {
            Some(n) => r matches Ok(v) && v@.len() == n && forall|i: int|
                0 <= i < n ==> #[trigger] v@[i] == gps_item_at(data@, 53 * i),
            None => r == Err::<Vec<GpsItem>, ParseError>(ParseError::UnexpectedEof),
        },
{
    let mut out: Vec<GpsItem> = Vec::new();
    let mut pos: usize = 0;
    while pos < data.len()
        invariant
            pos <= data.len(),
            pos == 53 * out@.len(),
            forall|i: int| 0 <= i < out@.len() ==> #[trigger] out@[i] == gps_item_at(data@, 53 * i),
        decreases data.len() - pos,
    {
        if data.len() - pos < 53 {
            proof {
                lemma_partial_item(data@.len() as int, 53, out@.len() as int);
            }
            return Err(ParseError::UnexpectedEof);
        }
        proof {
            lemma_le_fits(data@.subrange(pos + 8, pos + 10));
        }
        out.push(
            GpsItem {
                seconds: read_le(data, pos, 8),
                millis: read_le(data, pos + 8, 2) as u16,
                fix: data[pos + 10],
                lat_bits: read_le(data, pos + 11, 8),
                lat_dir: data[pos + 19],
                lon_bits: read_le(data, pos + 20, 8),
                lon_dir: data[pos + 28],
                speed_bits: read_le(data, pos + 29, 8),
                track_bits: read_le(data, pos + 37, 8),
                altitude_bits: read_le(data, pos + 45, 8),
            },
        );
        pos = pos + 53;
    }
    proof {
        lemma_whole_items(data@.len() as int, 53, out@.len() as int);
    }
    Ok(out)
}

/// One auto-exposure sample (48 bytes): timestamp, the `f32` bits of the EV
/// target and of the exposure time, the statistics word, and the fields
/// packed into the luma word: grid (bits 0–6), luma (bits 7–13), sum (bits
/// 14–18) and the ISO value, `100 * (bits 19–31) / 64`.
#[derive(Clone, Copy, Debug, PartialEq, Eq)]
pub struct AaaItem {
    pub timestamp: u32,
    pub ev_target_bits: u32,
    pub exp_time_bits: u32,
    pub data_stat: u32,
    pub luma_wg_grid: u32,
    pub luma_wg_y: u32,
    pub sum_wg_y: u32,
    pub iso_value: u32,
}

/// The sample at `pos`.
pub open spec fn aaa_item_at(d: Seq<u8>, pos: int) -> AaaItem {
    let luma = le_at(d, pos + 16, 4);
    AaaItem {
        timestamp: le_at(d, pos, 4) as u32,
        ev_target_bits: le_at(d, pos + 4, 4) as u32,
        exp_time_bits: le_at(d, pos + 8, 4) as u32,
        data_stat: le_at(d, pos + 12, 4) as u32,
        luma_wg_grid: (luma % 128) as u32,
        luma_wg_y: ((luma / 128) % 128) as u32,
        sum_wg_y: ((luma / 16384) % 32) as u32,
        iso_value: ((100 * (luma / 524288)) / 64) as u32,
    }
}

fn luma_fields(luma: u32) -> (r: (u32, u32, u32, u32))
    ensures
        r.0 == luma % 128,
        r.1 == (luma / 128) % 128,
        r.2 == (luma / 16384) % 32,
        r.3 == (100 * (luma / 524288)) / 64,
{
    let grid = luma & 0x7F;
    let y = (luma & 0x3F80) >> 7;
    let sum = (0x7C000 & luma) >> 14;
    let top = (luma & 0xFFF80000) >> 19;
    assert(grid == luma % 128) by (bit_vector)
        requires
            grid == luma & 0x7F,
    ;
    assert(y == (luma / 128) % 128) by (bit_vector)
        requires
            y == (luma & 0x3F80) >> 7,
    ;
    assert(sum == (luma / 16384) % 32) by (bit_vector)
        requires
            sum == (0x7C000 & luma) >> 14,
    ;
    assert(top == luma / 524288) by (bit_vector)
        requires
            top == (luma & 0xFFF80000) >> 19,
    ;
    assert(top < 8192) by (bit_vector)
        requires
            top == (luma & 0xFFF80000) >> 19,
    ;
    let scaled: u32 = 100 * top;
    let iso = scaled >> 6;
    assert(iso == scaled / 64) by (bit_vector)
        requires
            iso == scaled >> 6,
    ;
    (grid, y, sum, iso)
}

/// The samples of an auto-exposure record; fails when the record ends
/// inside one.
pub fn parse_aaa_record(data: &[u8]) -> (r: Result<Vec<AaaItem>, ParseError>)
    ensures
        match item_count(data@.len() as int, 48) {
            Some(n) => r matches Ok(v) && v@.len() == n && forall|i: int|
                0 <= i < n ==> #[trigger] v@[i] == aaa_item_at(data@, 48 * i),
            None => r == Err::<Vec<AaaItem>, ParseError>(ParseError::UnexpectedEof),
        },
{
    let mut out: Vec<AaaItem> = Vec::new();
    let mut pos: usize = 0;
    while pos < data.len()
        invariant
            pos <= data.len(),
            pos == 48 * out@.len(),
            forall|i: int| 0 <= i < out@.len() ==> #[trigger] out@[i] == aaa_item_at(data@, 48 * i),
        decreases data.len() - pos,
    {
        if data.len() - pos < 48 {
            proof {
                lemma_partial_item(data@.len() as int, 48, out@.len() as int);
            }
            return Err(ParseError::UnexpectedEof);
        }
        proof {
            lemma_le_fits(data@.subrange(pos as int, pos + 4));
            lemma_le_fits(data@.subrange(pos + 4, pos + 8));
            lemma_le_fits(data@.subrange(pos + 8, pos + 12));
            lemma_le_fits(data@.subrange(pos + 12, pos + 16));
            lemma_le_fits(data@.subrange(pos + 16, pos + 20));
        }
        let luma = read_le(data, pos + 16, 4) as u32;
        let (grid, y, sum, iso) = luma_fields(luma);
        out.push(
            AaaItem {
                timestamp: read_le(data, pos, 4) as u32,
                ev_target_bits: read_le(data, pos + 4, 4) as u32,
                exp_time_bits: read_le(data, pos + 8, 4) as u32,
                data_stat: read_le(data, pos + 12, 4) as u32,
                luma_wg_grid: grid,
                luma_wg_y: y,
                sum_wg_y: sum,
                iso_value: iso,
            },
        );
        pos = pos + 48;
    }
    proof {
        lemma_whole_items(data@.len() as int, 48, out@.len() as int);
    }
    Ok(out)
}


/// One highlight list: its kind and, for each mark, one timestamp (two for
/// kinds 2 and 18).
#[derive(Clone, Debug)]
pub struct Anchor {
    pub kind: u8,
    pub stamps: Vec<Vec<u64>>,
}

/// Bytes of one mark of a highlight list of `kind`.
pub open spec fn mark_width(kind: u8) -> int {
    if kind == 2 || kind == 18 {
        16
    } else {
        8
    }
}

/// The marks of a list of `kind` whose first mark is at `base`.
pub open spec fn marks_at(d: Seq<u8>, base: int, kind: u8, count: nat) -> Seq<Seq<u64>> {
    Seq::new(
        count,
        |j: int|
            if mark_width(kind) == 8 {
                seq![le_at(d, base + 8 * j, 8) as u64]
            } else {
                seq![le_at(d, base + 16 * j, 8) as u64, le_at(d, base + 16 * j + 8, 8) as u64]
            },
    )
}

/// The highlight lists from `pos` (kind byte, 32-bit count, marks); empty
/// lists are left out. `None` when the record ends inside a list.
pub open spec fn anchors_from(d: Seq<u8>, pos: int) -> Option<Seq<(u8, Seq<Seq<u64>>)>>
    decreases d.len() - pos,
{
    if pos < 0 || pos >= d.len() {
        Some(Seq::empty())
    } else if pos + 5 > d.len() {
        None
    } else {
        let kind = d[pos];
        let count = le_at(d, pos + 1, 4);
        let next = pos + 5 + count * mark_width(kind);
        if next > d.len() {
            None
        } else {
            match anchors_from(d, next) {
                None => None,
                Some(rest) => if count > 0 {
                    Some(seq![(kind, marks_at(d, pos + 5, kind, count))] + rest)
                } else {
                    Some(rest)
                },
            }
        }
    }
}

/// The view of highlight lists.
pub open spec fn anchors_view(v: Seq<Anchor>) -> Seq<(u8, Seq<Seq<u64>>)> {
    v.map_values(|a: Anchor| (a.kind, a.stamps@.map_values(|m: Vec<u64>| m@)))
}

fn read_marks(d: &[u8], base: usize, kind: u8, count: usize) -> (r: Vec<Vec<u64>>)
    requires
        base + count * mark_width(kind) <= d.len(),
    ensures
        r@.map_values(|m: Vec<u64>| m@) == marks_at(d@, base as int, kind, count as nat),
{
    let two = kind == 2 || kind == 18;
    let mut out: Vec<Vec<u64>> = Vec::new();
    let mut j: usize = 0;
    let mut p: usize = base;
    while j < count
        invariant
            j <= count,
            two == (mark_width(kind) == 16),
            base + count * mark_width(kind) <= d.len(),
            p == base + j * mark_width(kind),
            out@.len() == j,
            forall|i: int| 0 <= i < j ==> (#[trigger] out@[i])@ == marks_at(d@, base as int, kind, count as nat)[i],
        decreases count - j,
    {
        assert(p + mark_width(kind) <= d.len()) by (nonlinear_arith)
            requires
                p == base + j * mark_width(kind),
                j < count,
                base + count * mark_width(kind) <= d.len(),
                mark_width(kind) > 0,
        ;
        let mut m: Vec<u64> = Vec::new();
        m.push(read_le(d, p, 8));
        if two {
            m.push(read_le(d, p + 8, 8));
            assert(m@ =~= marks_at(d@, base as int, kind, count as nat)[j as int]);
            p = p + 16;
        } else {
            assert(m@ =~= marks_at(d@, base as int, kind, count as nat)[j as int]);
            p = p + 8;
        }
        out.push(m);
        j = j + 1;
    }
    assert(out@.map_values(|m: Vec<u64>| m@) =~= marks_at(d@, base as int, kind, count as nat));
    out
}

/// The highlight lists of an anchors record; fails when the record ends
/// inside one.
pub fn parse_anchors_record(data: &[u8]) -> (r: Result<Vec<Anchor>, ParseError>)
    ensures
        match anchors_from(data@, 0) {
            Some(es) => r matches Ok(v) && anchors_view(v@) == es,
            None => r == Err::<Vec<Anchor>, ParseError>(ParseError::UnexpectedEof),
        },
{
    let mut out: Vec<Anchor> = Vec::new();
    let mut pos: usize = 0;
    while pos < data.len()
        invariant
            pos <= data.len(),
            anchors_from(data@, 0) == match anchors_from(data@, pos as int) {
                Some(r) => Some(anchors_view(out@) + r),
                None => None,
            },
        decreases data.len() - pos,
    {
        if data.len() - pos < 5 {
            return Err(ParseError::UnexpectedEof);
        }
        let kind = data[pos];
        proof {
            lemma_le_fits(data@.subrange(pos + 1, pos + 5));
        }
        let count = read_le(data, pos + 1, 4);
        let w: u64 = if kind == 2 || kind == 18 { 16 } else { 8 };
        let avail = (data.len() - pos - 5) as u64;
        if count * w > avail {
            return Err(ParseError::UnexpectedEof);
        }
        let next = pos + 5 + (count * w) as usize;
        let ghost before = anchors_view(out@);
        if count > 0 {
            let stamps = read_marks(data, pos + 5, kind, count as usize);
            out.push(Anchor { kind, stamps });
            proof {
                assert(anchors_view(out@) =~= before.push((kind, marks_at(data@, pos + 5, kind, count as nat))));
                match anchors_from(data@, next as int) {
                    Some(rest) => {
                        assert(anchors_view(out@) + rest =~= before + (seq![(kind, marks_at(data@, pos + 5, kind, count as nat))] + rest));
                    },
                    None => {},
                }
            }
        }
        pos = next;
    }
    assert(anchors_view(out@) + Seq::<(u8, Seq<Seq<u64>>)>::empty() =~= anchors_view(out@));
    Ok(out)
}

/// Where the time pairs of a time-map record start: after a 16-byte
/// header, 32 bytes per trim (the count of trims is the second header
/// word) and 8 more bytes.
pub open spec fn time_map_start(d: Seq<u8>) -> int {
    16 + 32 * (le_at(d, 4, 4) as int) + 8
}

/// The `(time, value)` pair at `pos`, as `f64` bits.
pub open spec fn time_pair_at(d: Seq<u8>, pos: int) -> (u64, u64) {
    (le_at(d, pos, 8) as u64, le_at(d, pos + 8, 8) as u64)
}

/// The `(time, value)` pairs of a time-map record, as `f64` bits; fails
/// when the record ends inside its header or a pair.
pub fn parse_time_map_record(data: &[u8]) -> (r: Result<Vec<(u64, u64)>, ParseError>)
    ensures
        data@.len() < 16 || time_map_start(data@) > data@.len() || (data@.len() - time_map_start(data@)) % 16 != 0
            ==> r == Err::<Vec<(u64, u64)>, ParseError>(ParseError::UnexpectedEof),
        !(data@.len() < 16 || time_map_start(data@) > data@.len() || (data@.len() - time_map_start(data@)) % 16 != 0)
            ==> (r matches Ok(v) && v@.len() == (data@.len() - time_map_start(data@)) / 16 && forall|i: int|
            0 <= i < v@.len() ==> #[trigger] v@[i] == time_pair_at(data@, time_map_start(data@) + 16 * i)),
{
    if data.len() < 16 {
        return Err(ParseError::UnexpectedEof);
    }
    proof {
        lemma_le_fits(data@.subrange(4, 8));
    }
    let trims = read_le(data, 4, 4);
    let start64: u64 = 16 + 32 * trims + 8;
    if start64 > data.len() as u64 {
        return Err(ParseError::UnexpectedEof);
    }
    let start = start64 as usize;
    let mut out: Vec<(u64, u64)> = Vec::new();
    let mut pos: usize = start;
    while pos < data.len()
        invariant
            start == time_map_start(data@),
            start <= pos <= data.len(),
            pos == start + 16 * out@.len(),
            forall|i: int| 0 <= i < out@.len() ==> #[trigger] out@[i] == time_pair_at(data@, start + 16 * i),
        decreases data.len() - pos,
    {
        if data.len() - pos < 16 {
            proof {
                lemma_partial_item(data@.len() - start, 16, out@.len() as int);
            }
            return Err(ParseError::UnexpectedEof);
        }
        out.push((read_le(data, pos, 8), read_le(data, pos + 8, 8)));
        pos = pos + 16;
    }
    proof {
        lemma_whole_items(data@.len() - start, 16, out@.len() as int);
    }
    Ok(out)
}

/// The 32 bytes that end an Insta360 file: `8db42d694ccc418790edff439fe026bf`.
pub open spec fn insta_magic() -> Seq<u8> {
    "8db42d694ccc418790edff439fe026bf".spec_bytes()
}

/// The footer of the trailer (the last 72 bytes of a file): 32 bytes of
/// padding, the trailer's size and a version (little-endian `u32`), and
/// the magic; `None` when the magic is not there.
pub open spec fn footer_spec(f: Seq<u8>) -> Option<(u32, u32)> {
    if f.len() == 72 && f.subrange(40, 72) == insta_magic() {
        Some((le_at(f, 32, 4) as u32, le_at(f, 36, 4) as u32))
    } else {
        None
    }
}

/// A record in the trailer: its format and id, where its data starts
/// counted back from the end of the file, and its size.
#[derive(Clone, Copy, Debug, PartialEq, Eq)]
pub struct RecordSpan {
    pub format: u8,
    pub id: u8,
    pub from_end: u64,
    pub size: u32,
}

/// The records of a trailer `t` (the last bytes of a file, as many as the
/// footer's size), walking back from `offset` bytes before its end: each
/// record's data is followed by its format, id and size (little-endian
/// `u32`); the walk goes on while `offset` is inside the trailer.
pub open spec fn walk_spans(t: Seq<u8>, offset: int, acc: Seq<RecordSpan>) -> Seq<RecordSpan>
    decreases t.len() - offset,
{
    if offset < 6 || offset >= t.len() {
        acc
    } else {
        let pos = t.len() - offset;
        let size = le_at(t, pos + 2, 4) as int;
        let acc2 = acc.push(
            RecordSpan { format: t[pos], id: t[pos + 1], from_end: (offset + size) as u64, size: size as u32 },
        );
        if offset + size + 6 >= t.len() {
            acc2
        } else {
            walk_spans(t, offset + size + 6, acc2)
        }
    }
}

/// The last entry of `es` for record `id`.
pub open spec fn last_with_id(es: Seq<OffsetEntry>, id: u8) -> Option<OffsetEntry>
    decreases es.len(),
{
    if es.len() == 0 {
        None
    } else if es.last().id == id {
        Some(es.last())
    } else {
        last_with_id(es.drop_last(), id)
    }
}

/// The entries of `es` by ascending record id from `k` to 255, the last
/// one where an id repeats.
pub open spec fn by_id(es: Seq<OffsetEntry>, k: int) -> Seq<OffsetEntry>
    decreases 256 - k,
{
    if k < 1 || k > 255 {
        Seq::empty()
    } else {
        (match last_with_id(es, k as u8) {
            Some(e) => seq![e],
            None => Seq::empty(),
        }) + by_id(es, k + 1)
    }
}

/// The records that the offset entries `list` locate in the trailer `t`,
/// after `acc`: an entry's data starts `offset` bytes into the trailer and
/// is followed by its format, id and size; it is read where that size and
/// id are the entry's. `None` where an entry runs past the end.
pub open spec fn offset_spans(t: Seq<u8>, list: Seq<OffsetEntry>, acc: Seq<RecordSpan>) -> Option<Seq<RecordSpan>>
    decreases list.len(),
{
    if list.len() == 0 {
        Some(acc)
    } else {
        let e = list[0];
        let end = e.offset + e.size;
        if end + 6 > t.len() {
            None
        } else {
            let acc2 = if le_at(t, end + 2, 4) == e.size && t[end + 1] == e.id && e.id > 0 {
                acc.push(RecordSpan { format: t[end], id: e.id, from_end: (t.len() - e.offset) as u64, size: e.size })
            } else {
                acc
            };
            offset_spans(t, list.drop_first(), acc2)
        }
    }
}

/// The records to read from a trailer `t`: those that a non-empty map of
/// offset entries (see `parse_offsets`) locates, else the records of the walk from the footer.
pub open spec fn record_plan_spec(t: Seq<u8>, entries: Option<Seq<OffsetEntry>>) -> Option<Seq<RecordSpan>> {
    match entries {
        Some(es) => if es.len() > 0 {
            offset_spans(t, es, Seq::empty())
        } else {
            Some(walk_spans(t, 78, Seq::empty()))
        },
        None => Some(walk_spans(t, 78, Seq::empty())),
    }
}

/// The IMU orientation of a model, by whether its metadata holds a full
/// `offset_v3` calibration.
pub open spec fn imu_orientation_spec(model: Option<Seq<char>>, has_offset_v3: bool) -> Seq<char> {
    if has_offset_v3 {
        match model {
            Some(m) => if m == "Insta360 GO 2"@ || m == "Insta360 GO 3"@ {
                "XYZ"@
            } else if m == "Insta360 GO 3S"@ {
                "yXZ"@
            } else {
                "Xyz"@
            },
            None => "Xyz"@,
        }
    } else {
        match model {
            Some(m) => if m == "Insta360 Go"@ {
                "xyZ"@
            } else if m == "Insta360 OneRS"@ {
                "yxz"@
            } else if m == "Insta360 ONE X2"@ {
                "xZy"@
            } else {
                "yXZ"@
            },
            None => "yXZ"@,
        }
    }
}

/// The last entry of `es` for record `id`.
fn last_entry(es: &[OffsetEntry], id: u8) -> (r: Option<OffsetEntry>)
    ensures
        r == last_with_id(es@, id),
{
    let mut k: usize = es.len();
    assert(es@.subrange(0, k as int) =~= es@);
    while k > 0
        invariant
            k <= es.len(),
            last_with_id(es@, id) == last_with_id(es@.subrange(0, k as int), id),
        decreases k,
    {
        assert(es@.subrange(0, k as int).drop_last() =~= es@.subrange(0, k - 1));
        if es[k - 1].id == id {
            return Some(es[k - 1]);
        }
        k = k - 1;
    }
    None
}

/// An Insta360 file.
pub struct Insta360 {
    pub model: Option<String>,
    pub is_raw_gyro: bool,
}

impl Insta360 {
    pub fn camera_type(&self) -> (r: String)
        ensures
            r@ == "Insta360"@,
    {
        "Insta360".to_owned()
    }

    pub fn has_accurate_timestamps(&self) -> (r: bool)
        ensures
            r,
    {
        true
    }

    pub fn possible_extensions() -> (v: Vec<&'static str>)
        ensures
            v@.len() == 3,
            v@[0]@ == "mp4"@,
            v@[1]@ == "mov"@,
            v@[2]@ == "insv"@,
    {
        vec!["mp4", "mov", "insv"]
    }

    pub fn normalize_imu_orientation(v: String) -> (r: String)
        ensures
            r@ == v@,
    {
        v
    }

    /// Detects an Insta360 file: longer than the magic, and ending with it.
    pub fn detect(buffer: &[u8], _filepath: &str) -> (r: Option<Insta360>)
        ensures
            r is Some <==> (buffer@.len() > insta_magic().len() && buffer@.subrange(
                buffer@.len() - insta_magic().len(),
                buffer@.len() as int,
            ) == insta_magic()),
            r matches Some(i) ==> i.model is None && !i.is_raw_gyro,
    {
        let m = "8db42d694ccc418790edff439fe026bf".as_bytes();
        if buffer.len() > m.len() && occurs_at_index(buffer, m, buffer.len() - m.len()) {
            Some(Insta360 { model: None, is_raw_gyro: false })
        } else {
            None
        }
    }

    /// Reads the footer of a trailer (see `footer_spec`).
    pub fn trailer_footer(footer: &[u8]) -> (r: Option<(u32, u32)>)
        ensures
            r == footer_spec(footer@),
    {
        let m = "8db42d694ccc418790edff439fe026bf".as_bytes();
        if footer.len() != 72 || m.len() != 32 || !occurs_at_index(footer, m, 40) {
            proof {
                if footer@.len() == 72 && footer@.subrange(40, 72) == insta_magic() {
                    assert(occurs_at(footer@, m@, 40));
                }
            }
            return None;
        }
        let a = &footer[32..36];
        let b = &footer[36..40];
        assert(a@.subrange(0, 4) =~= footer@.subrange(32, 36));
        assert(b@.subrange(0, 4) =~= footer@.subrange(36, 40));
        Some((read_u32_le(a), read_u32_le(b)))
    }

    /// The IMU orientation of a model (see `imu_orientation_spec`).
    pub fn imu_orientation(model: Option<&str>, has_offset_v3: bool) -> (r: &'static str)
        ensures
            r@ == imu_orientation_spec(
                match model {
                    Some(m) => Some(m@),
                    None => None,
                },
                has_offset_v3,
            ),
    {
        match model {
            None => if has_offset_v3 {
                "Xyz"
            } else {
                "yXZ"
            },
            Some(m) => if has_offset_v3 {
                if str_eq(m, "Insta360 GO 2") || str_eq(m, "Insta360 GO 3") {
                    "XYZ"
                } else if str_eq(m, "Insta360 GO 3S") {
                    "yXZ"
                } else {
                    "Xyz"
                }
            } else {
                if str_eq(m, "Insta360 Go") {
                    "xyZ"
                } else if str_eq(m, "Insta360 OneRS") {
                    "yxz"
                } else if str_eq(m, "Insta360 ONE X2") {
                    "xZy"
                } else {
                    "yXZ"
                }
            },
        }
    }

    /// The model name in a lens profile: the model with each `Insta360 `
    /// removed.
    pub fn lens_model_name(&self) -> (r: String)
        ensures
            r@ == remove_all(
                match self.model {
                    Some(m) => m@,
                    None => Seq::empty(),
                },
                "Insta360 "@,
            ),
    {
        match &self.model {
            Some(m) => {
                let c = str_chars(m.as_str());
                let v = remove_all_chars(c.as_slice(), "Insta360 ");
                string_from_chars(v.as_slice())
            },
            None => {
                let v: Vec<char> = Vec::new();
                let r = remove_all_chars(v.as_slice(), "Insta360 ");
                string_from_chars(r.as_slice())
            },
        }
    }

    /// The records of a trailer found by walking back from its footer
    /// (see `walk_spans`).
    pub fn walk_records(t: &[u8]) -> (r: Vec<RecordSpan>)
        requires
            t.len() <= u32::MAX,
        ensures
            r@ == walk_spans(t@, 78, Seq::empty()),
    {
        let mut out: Vec<RecordSpan> = Vec::new();
        let mut offset: usize = 78;
        let n = t.len();
        loop
            invariant
                n == t.len(),
                n <= u32::MAX,
                offset >= 6,
                walk_spans(t@, 78, Seq::empty()) == walk_spans(t@, offset as int, out@),
            decreases n - offset,
        {
            if offset >= n {
                return out;
            }
            let pos = n - offset;
            let h = &t[pos + 2..pos + 6];
            assert(h@.subrange(0, 4) =~= t@.subrange(pos + 2, pos + 6));
            let size = read_u32_le(h);
            let next = offset as u64 + size as u64 + 6;
            let span = RecordSpan { format: t[pos], id: t[pos + 1], from_end: offset as u64 + size as u64, size };
            out.push(span);
            if next >= n as u64 {
                return out;
            }
            offset = next as usize;
        }
    }

    /// The records that offset entries locate in a trailer (see
    /// `offset_spans`).
    pub fn offset_records(t: &[u8], entries: &[OffsetEntry]) -> (r: Option<Vec<RecordSpan>>)
        requires
            t.len() <= u32::MAX,
        ensures
            match offset_spans(t@, entries@, Seq::empty()) {
                Some(s) => r matches Some(v) && v@ == s,
                None => r is None,
            },
    {
        let mut out: Vec<RecordSpan> = Vec::new();
        let mut i: usize = 0;
        assert(entries@.subrange(0, entries@.len() as int) =~= entries@);
        while i < entries.len()
            invariant
                i <= entries.len(),
                t.len() <= u32::MAX,
                offset_spans(t@, entries@, Seq::empty()) == offset_spans(
                    t@,
                    entries@.subrange(i as int, entries@.len() as int),
                    out@,
                ),
            decreases entries.len() - i,
        {
            let e = entries[i];
            assert(entries@.subrange(i as int, entries@.len() as int)[0] == e);
            assert(entries@.subrange(i as int, entries@.len() as int).drop_first() =~= entries@.subrange(
                i + 1,
                entries@.len() as int,
            ));
            let end = e.offset as u64 + e.size as u64;
            if end + 6 > t.len() as u64 {
                return None;
            }
            let end = end as usize;
            let h = &t[end + 2..end + 6];
            assert(h@.subrange(0, 4) =~= t@.subrange(end + 2, end + 6));
            let size2 = read_u32_le(h);
            if size2 == e.size && t[end + 1] == e.id && e.id > 0 {
                out.push(RecordSpan { format: t[end], id: e.id, from_end: (t.len() - e.offset as usize) as u64, size: e.size });
            }
            i = i + 1;
        }
        assert(entries@.subrange(entries@.len() as int, entries@.len() as int) =~= Seq::<OffsetEntry>::empty());
        Some(out)
    }

    /// The records to read from a trailer, given the entries of its offsets
    /// record where the walk's first record is one (see
    /// `record_plan_spec`). A trailer's size is a `u32`.
    pub fn record_plan(t: &[u8], entries: Option<&[OffsetEntry]>) -> (r: Option<Vec<RecordSpan>>)
        requires
            t.len() <= u32::MAX,
        ensures
            match record_plan_spec(
                t@,
                match entries {
                    Some(es) => Some(es@),
                    None => None,
                },
            ) {
                Some(s) => r matches Some(v) && v@ == s,
                None => r is None,
            },
    {
        match entries {
            Some(es) => if es.len() > 0 {
                Self::offset_records(t, es)
            } else {
                Some(Self::walk_records(t))
            },
            None => Some(Self::walk_records(t)),
        }
    }
}


/// Each GPS fix of a record is 53 bytes at `53 * i`, its fields one after
/// the other, least significant byte first: seconds (8 bytes), milliseconds
/// (2), the fix flag (1), latitude (8) and its hemisphere (1), longitude
/// (8) and its hemisphere (1), then speed, track and altitude (8 each), in
/// that order.
pub proof fn lemma_gps_fix_layout(d: Seq<u8>, i: int)
    requires
        0 <= i,
        53 * i + 53 <= d.len(),
    ensures
        gps_item_at(d, 53 * i).seconds == le8(d, 53 * i),
        gps_item_at(d, 53 * i).millis == le2(d, 53 * i + 8),
        gps_item_at(d, 53 * i).fix == d[53 * i + 10],
        gps_item_at(d, 53 * i).lat_bits == le8(d, 53 * i + 11),
        gps_item_at(d, 53 * i).lat_dir == d[53 * i + 19],
        gps_item_at(d, 53 * i).lon_bits == le8(d, 53 * i + 20),
        gps_item_at(d, 53 * i).lon_dir == d[53 * i + 28],
        gps_item_at(d, 53 * i).speed_bits == le8(d, 53 * i + 29),
        gps_item_at(d, 53 * i).track_bits == le8(d, 53 * i + 37),
        gps_item_at(d, 53 * i).altitude_bits == le8(d, 53 * i + 45),
{
    let p = 53 * i;
    lemma_le_at_8(d, p);
    lemma_le_at_2(d, p + 8);
    lemma_le_at_8(d, p + 11);
    lemma_le_at_8(d, p + 20);
    lemma_le_at_8(d, p + 29);
    lemma_le_at_8(d, p + 37);
    lemma_le_at_8(d, p + 45);
}

/// Each sample of a gyroscope record with `f64` values is 56 bytes at
/// `56 * i`: the timestamp, then the accelerometer x, y, z and the
/// gyroscope x, y, z, 8 bytes each, least significant byte first.
pub proof fn lemma_gyro_sample_layout(d: Seq<u8>, i: int)
    requires
        0 <= i,
        56 * i + 56 <= d.len(),
    ensures
        gyro_item_at(d, 56 * i, false).timestamp == le8(d, 56 * i),
        gyro_item_at(d, 56 * i, false).acc[0] == le8(d, 56 * i + 8),
        gyro_item_at(d, 56 * i, false).acc[1] == le8(d, 56 * i + 16),
        gyro_item_at(d, 56 * i, false).acc[2] == le8(d, 56 * i + 24),
        gyro_item_at(d, 56 * i, false).gyro[0] == le8(d, 56 * i + 32),
        gyro_item_at(d, 56 * i, false).gyro[1] == le8(d, 56 * i + 40),
        gyro_item_at(d, 56 * i, false).gyro[2] == le8(d, 56 * i + 48),
{
    let p = 56 * i;
    lemma_le_at_8(d, p);
    lemma_le_at_8(d, p + 8);
    lemma_le_at_8(d, p + 16);
    lemma_le_at_8(d, p + 24);
    lemma_le_at_8(d, p + 32);
    lemma_le_at_8(d, p + 40);
    lemma_le_at_8(d, p + 48);
}

/// Each sample of a raw gyroscope record is 20 bytes at `20 * i`: the
/// 8-byte timestamp, then the accelerometer x, y, z and the gyroscope x, y,
/// z, 2 bytes each, least significant byte first.
pub proof fn lemma_raw_gyro_sample_layout(d: Seq<u8>, i: int)
    requires
        0 <= i,
        20 * i + 20 <= d.len(),
    ensures
        gyro_item_at(d, 20 * i, true).timestamp == le8(d, 20 * i),
        gyro_item_at(d, 20 * i, true).acc[0] == le2(d, 20 * i + 8),
        gyro_item_at(d, 20 * i, true).acc[1] == le2(d, 20 * i + 10),
        gyro_item_at(d, 20 * i, true).acc[2] == le2(d, 20 * i + 12),
        gyro_item_at(d, 20 * i, true).gyro[0] == le2(d, 20 * i + 14),
        gyro_item_at(d, 20 * i, true).gyro[1] == le2(d, 20 * i + 16),
        gyro_item_at(d, 20 * i, true).gyro[2] == le2(d, 20 * i + 18),
{
    let p = 20 * i;
    lemma_le_at_8(d, p);
    lemma_le_at_2(d, p + 8);
    lemma_le_at_2(d, p + 10);
    lemma_le_at_2(d, p + 12);
    lemma_le_at_2(d, p + 14);
    lemma_le_at_2(d, p + 16);
    lemma_le_at_2(d, p + 18);
}

/// Each auto-exposure sample is 48 bytes at `48 * i`: timestamp, EV target,
/// exposure time and statistics word, 4 bytes each, least significant byte
/// first; then the luma word, whose bits 0-6 are the grid, 7-13 the luma,
/// 14-18 the sum and whose bits from 19 on, times 100 / 64, the ISO value.
pub proof fn lemma_aaa_sample_layout(d: Seq<u8>, i: int)
    requires
        0 <= i,
        48 * i + 48 <= d.len(),
    ensures
        aaa_item_at(d, 48 * i).timestamp == le4(d, 48 * i),
        aaa_item_at(d, 48 * i).ev_target_bits == le4(d, 48 * i + 4),
        aaa_item_at(d, 48 * i).exp_time_bits == le4(d, 48 * i + 8),
        aaa_item_at(d, 48 * i).data_stat == le4(d, 48 * i + 12),
        aaa_item_at(d, 48 * i).luma_wg_grid == le4(d, 48 * i + 16) % 128,
        aaa_item_at(d, 48 * i).luma_wg_y == (le4(d, 48 * i + 16) / 128) % 128,
        aaa_item_at(d, 48 * i).sum_wg_y == (le4(d, 48 * i + 16) / 16384) % 32,
        aaa_item_at(d, 48 * i).iso_value == 100 * (le4(d, 48 * i + 16) / 524288) / 64,
{
    let p = 48 * i;
    lemma_le_at_4(d, p);
    lemma_le_at_4(d, p + 4);
    lemma_le_at_4(d, p + 8);
    lemma_le_at_4(d, p + 12);
    lemma_le_at_4(d, p + 16);
    let l = le4(d, p + 16);
    assert(0 <= l < 4294967296);
    assert(100 * (l / 524288) / 64 < 4294967296) by (nonlinear_arith)
        requires 0 <= l < 4294967296;
}

/// Each entry of an offsets record is 10 bytes at `10 * i`: the record id,
/// its format, then its size and its offset, 4 bytes each, least
/// significant byte first.
pub proof fn lemma_offset_entry_layout(d: Seq<u8>, i: int)
    requires
        0 <= i,
        10 * i + 10 <= d.len(),
    ensures
        offset_entry_at(d, 10 * i).id == d[10 * i],
        offset_entry_at(d, 10 * i).format == d[10 * i + 1],
        offset_entry_at(d, 10 * i).size == le4(d, 10 * i + 2),
        offset_entry_at(d, 10 * i).offset == le4(d, 10 * i + 6),
{
    lemma_le_at_4(d, 10 * i + 2);
    lemma_le_at_4(d, 10 * i + 6);
}

/// A highlight list is its kind byte, a little-endian 4-byte count and its
/// marks: 16 bytes each (two 8-byte stamps) for kinds 2 and 18, else 8
/// bytes (one stamp), least significant byte first; a non-empty list that
/// fits is the first list read there, and the next list starts right after
/// its marks.
pub proof fn lemma_anchor_list_layout(d: Seq<u8>, pos: int, j: int)
    requires
        0 <= pos,
        pos + 5 <= d.len(),
        0 <= j < le4(d, pos + 1),
        pos + 5 + le4(d, pos + 1) * (if d[pos] == 2 || d[pos] == 18 { 16int } else { 8int }) <= d.len(),
    ensures
        anchors_from(d, pos) matches Some(ls) ==> ls.len() > 0 && ls[0].0 == d[pos] && ls[0].1.len() == le4(d, pos + 1)
            && (if d[pos] == 2 || d[pos] == 18 {
                ls[0].1[j] == seq![le8(d, pos + 5 + 16 * j) as u64, le8(d, pos + 5 + 16 * j + 8) as u64]
            } else {
                ls[0].1[j] == seq![le8(d, pos + 5 + 8 * j) as u64]
            })
            && anchors_from(d, pos + 5 + le4(d, pos + 1) * (if d[pos] == 2 || d[pos] == 18 { 16int } else { 8int }))
            == Some(ls.drop_first()),
{
    lemma_le_at_4(d, pos + 1);
    let c = le4(d, pos + 1);
    let w: int = if d[pos] == 2 || d[pos] == 18 { 16 } else { 8 };
    assert(pos + 5 + w * j + w <= d.len()) by (nonlinear_arith)
        requires 0 <= j < c, pos + 5 + c * w <= d.len(), w >= 8;
    if w == 16 {
        lemma_le_at_8(d, pos + 5 + 16 * j);
        lemma_le_at_8(d, pos + 5 + 16 * j + 8);
    } else {
        lemma_le_at_8(d, pos + 5 + 8 * j);
    }
    match anchors_from(d, pos) {
        Some(ls) => {
            assert(ls.drop_first() =~= anchors_from(d, pos + 5 + c * w)->Some_0);
        },
        None => {},
    }
}

/// The time pairs of a time-map record start after its 16-byte header,
/// 32 bytes for each trim that the little-endian word at bytes 4-7 counts,
/// and 8 more bytes.
pub proof fn lemma_time_map_start(d: Seq<u8>)
    requires
        d.len() >= 16,
    ensures
        time_map_start(d) == 16 + 32 * le4(d, 4) + 8,
{
    lemma_le_at_4(d, 4);
}

/// Each exposure sample is 16 bytes at `16 * i`: the timestamp, then the
/// bits of the shutter speed, 8 bytes each, least significant byte first.
pub proof fn lemma_exposure_sample_layout(d: Seq<u8>, i: int)
    requires
        0 <= i,
        16 * i + 16 <= d.len(),
    ensures
        exposure_item_at(d, 16 * i).timestamp == le8(d, 16 * i),
        exposure_item_at(d, 16 * i).value_bits == le8(d, 16 * i + 8),
{
    lemma_le_at_8(d, 16 * i);
    lemma_le_at_8(d, 16 * i + 8);
}

/// Each pair of a time map is 16 bytes: the time, then the value, 8 bytes
/// each, least significant byte first.
pub proof fn lemma_time_pair_layout(d: Seq<u8>, pos: int)
    requires
        0 <= pos,
        pos + 16 <= d.len(),
    ensures
        time_pair_at(d, pos) == (le8(d, pos) as u64, le8(d, pos + 8) as u64),
{
    lemma_le_at_8(d, pos);
    lemma_le_at_8(d, pos + 8);
}
} // verus!
