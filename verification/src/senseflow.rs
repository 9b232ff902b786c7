//! SenseFlow binary IMU logs.
//!
//! A 512-byte header with little-endian sensor settings is followed by
//! frames: the big-endian marker `0xAA55`, a byte whose low bits say which
//! sensors are present, the sensor data, and a checksum byte that is the
//! wrapping sum of the data bytes.

use vstd::prelude::*;
use crate::bytes::{le2, le4, le_at, lemma_le_at_2, lemma_le_at_4, s16, s32, le_uint, read_i16_le, read_i32_le, read_u16_be, read_u16_le, read_u32_le, signed, be_uint};
use crate::tags::ParseError;

verus! {

/// Decoding of fixed-width little- and big-endian integers.
pub trait FromBytes<T> {
    /// Number of bytes of one value.
    spec fn width() -> nat;

    /// The value that little-endian bytes encode.
    spec fn le_value(data: Seq<u8>) -> T;

    /// The value that big-endian bytes encode.
    spec fn be_value(data: Seq<u8>) -> T;

    /// Number of bytes of one value.
    fn exec_width() -> (w: usize)
        ensures
            w == Self::width(),
    ;

    fn read_le(data: &[u8]) -> (r: T)
        requires
            data.len() == Self::width(),
        ensures
            r == Self::le_value(data@),
    ;

    fn read_be(data: &[u8]) -> (r: T)
        requires
            data.len() == Self::width(),
        ensures
            r == Self::be_value(data@),
    ;
}

impl FromBytes<u8> for u8 {
    open spec fn width() -> nat {
        1
    }

    open spec fn le_value(data: Seq<u8>) -> u8 {
        data[0]
    }

    open spec fn be_value(data: Seq<u8>) -> u8 {
        data[0]
    }

    fn exec_width() -> (w: usize) {
        1
    }

    fn read_le(data: &[u8]) -> (r: u8) {
        data[0]
    }

    fn read_be(data: &[u8]) -> (r: u8) {
        data[0]
    }
}

impl FromBytes<u16> for u16 {
    open spec fn width() -> nat {
        2
    }

    open spec fn le_value(data: Seq<u8>) -> u16 {
        le_uint(data) as u16
    }

    open spec fn be_value(data: Seq<u8>) -> u16 {
        be_uint(data) as u16
    }

    fn exec_width() -> (w: usize) {
        2
    }

    fn read_le(data: &[u8]) -> (r: u16) {
        assert(data@.subrange(0, 2) =~= data@);
        read_u16_le(data)
    }

    fn read_be(data: &[u8]) -> (r: u16) {
        assert(data@.subrange(0, 2) =~= data@);
        read_u16_be(data)
    }
}

impl FromBytes<u32> for u32 {
    open spec fn width() -> nat {
        4
    }

    open spec fn le_value(data: Seq<u8>) -> u32 {
        le_uint(data) as u32
    }

    open spec fn be_value(data: Seq<u8>) -> u32 {
        be_uint(data) as u32
    }

    fn exec_width() -> (w: usize) {
        4
    }

    fn read_le(data: &[u8]) -> (r: u32) {
        assert(data@.subrange(0, 4) =~= data@);
        read_u32_le(data)
    }

    fn read_be(data: &[u8]) -> (r: u32) {
        assert(data@.subrange(0, 4) =~= data@);
        crate::bytes::read_u32_be(data)
    }
}

impl FromBytes<i32> for i32 {
    open spec fn width() -> nat {
        4
    }

    open spec fn le_value(data: Seq<u8>) -> i32 {
        signed(le_uint(data) as int, 32) as i32
    }

    open spec fn be_value(data: Seq<u8>) -> i32 {
        signed(be_uint(data) as int, 32) as i32
    }

    fn exec_width() -> (w: usize) {
        4
    }

    fn read_le(data: &[u8]) -> (r: i32) {
        assert(data@.subrange(0, 4) =~= data@);
        read_i32_le(data)
    }

    fn read_be(data: &[u8]) -> (r: i32) {
        assert(data@.subrange(0, 4) =~= data@);
        crate::bytes::read_i32_be(data)
    }
}

/// Reads a little-endian value from the start of `data`.
pub fn from_bytes<T: FromBytes<T>>(data: &[u8]) -> (r: T)
    requires
        data.len() >= T::width(),
    ensures
        r == T::le_value(data@.subrange(0, T::width() as int)),
{
    let w = T::exec_width();
    T::read_le(&data[0..w])
}

/// Settings of a SenseFlow log, from its 512-byte header.
#[derive(Clone, Copy, Debug)]
pub struct Header {
    /// Axis order of the IMU, as four characters.
    pub imu_orientation: [u8; 4],
    /// Samples per second.
    pub log_freq: u32,
    pub acc_odr: u16,
    pub acc_max_bw: u16,
    /// Accelerometer time offset in milliseconds.
    pub acc_timeoffset: i32,
    pub acc_range: u32,
    pub gyro_odr: u16,
    pub gyro_max_bw: u16,
    /// Gyroscope time offset in milliseconds.
    pub gyro_timeoffset: i32,
    pub gyro_range: u32,
    pub mag_odr: u16,
    pub mag_max_bw: u16,
    /// Magnetometer time offset in milliseconds.
    pub mag_timeoffset: i32,
    /// Magnetometer range in thousandths.
    pub mag_range: u32,
}

/// The settings that a header `buf` holds.
pub open spec fn header_spec(buf: Seq<u8>) -> Header {
    Header {
        imu_orientation: [buf[60], buf[61], buf[62], buf[63]],
        log_freq: le_uint(buf.subrange(92, 96)) as u32,
        acc_odr: le_uint(buf.subrange(144, 146)) as u16,
        acc_max_bw: le_uint(buf.subrange(146, 148)) as u16,
        acc_timeoffset: signed(le_uint(buf.subrange(148, 152)) as int, 32) as i32,
        acc_range: le_uint(buf.subrange(152, 156)) as u32,
        gyro_odr: le_uint(buf.subrange(156, 158)) as u16,
        gyro_max_bw: le_uint(buf.subrange(158, 160)) as u16,
        gyro_timeoffset: signed(le_uint(buf.subrange(160, 164)) as int, 32) as i32,
        gyro_range: le_uint(buf.subrange(164, 168)) as u32,
        mag_odr: le_uint(buf.subrange(168, 170)) as u16,
        mag_max_bw: le_uint(buf.subrange(170, 172)) as u16,
        mag_timeoffset: signed(le_uint(buf.subrange(172, 176)) as int, 32) as i32,
        mag_range: le_uint(buf.subrange(176, 180)) as u32,
    }
}

/// Reads the settings from the header `buf`.
pub fn parse_header(buf: &[u8]) -> (h: Header)
    requires
        buf.len() >= 512,
    ensures
        h == header_spec(buf@),
        h.imu_orientation@ == buf@.subrange(60, 64),
        h.log_freq == le_uint(buf@.subrange(92, 96)),
        h.acc_odr == le_uint(buf@.subrange(144, 146)),
        h.acc_max_bw == le_uint(buf@.subrange(146, 148)),
        h.acc_timeoffset == signed(le_uint(buf@.subrange(148, 152)) as int, 32),
        h.acc_range == le_uint(buf@.subrange(152, 156)),
        h.gyro_odr == le_uint(buf@.subrange(156, 158)),
        h.gyro_max_bw == le_uint(buf@.subrange(158, 160)),
        h.gyro_timeoffset == signed(le_uint(buf@.subrange(160, 164)) as int, 32),
        h.gyro_range == le_uint(buf@.subrange(164, 168)),
        h.mag_odr == le_uint(buf@.subrange(168, 170)),
        h.mag_max_bw == le_uint(buf@.subrange(170, 172)),
        h.mag_timeoffset == signed(le_uint(buf@.subrange(172, 176)) as int, 32),
        h.mag_range == le_uint(buf@.subrange(176, 180)),
{
    let h = Header {
        imu_orientation: [buf[60], buf[61], buf[62], buf[63]],
        log_freq: from_bytes::<u32>(&buf[92..96]),
        acc_odr: from_bytes::<u16>(&buf[144..146]),
        acc_max_bw: from_bytes::<u16>(&buf[146..148]),
        acc_timeoffset: from_bytes::<i32>(&buf[148..152]),
        acc_range: from_bytes::<u32>(&buf[152..156]),
        gyro_odr: from_bytes::<u16>(&buf[156..158]),
        gyro_max_bw: from_bytes::<u16>(&buf[158..160]),
        gyro_timeoffset: from_bytes::<i32>(&buf[160..164]),
        gyro_range: from_bytes::<u32>(&buf[164..168]),
        mag_odr: from_bytes::<u16>(&buf[168..170]),
        mag_max_bw: from_bytes::<u16>(&buf[170..172]),
        mag_timeoffset: from_bytes::<i32>(&buf[172..176]),
        mag_range: from_bytes::<u32>(&buf[176..180]),
    };
    proof {
        assert(h.imu_orientation@ =~= buf@.subrange(60, 64));
        assert(buf@.subrange(92, 96).subrange(0, 4) =~= buf@.subrange(92, 96));
        assert(buf@.subrange(144, 146).subrange(0, 2) =~= buf@.subrange(144, 146));
        assert(buf@.subrange(146, 148).subrange(0, 2) =~= buf@.subrange(146, 148));
        assert(buf@.subrange(148, 152).subrange(0, 4) =~= buf@.subrange(148, 152));
        assert(buf@.subrange(152, 156).subrange(0, 4) =~= buf@.subrange(152, 156));
        assert(buf@.subrange(156, 158).subrange(0, 2) =~= buf@.subrange(156, 158));
        assert(buf@.subrange(158, 160).subrange(0, 2) =~= buf@.subrange(158, 160));
        assert(buf@.subrange(160, 164).subrange(0, 4) =~= buf@.subrange(160, 164));
        assert(buf@.subrange(164, 168).subrange(0, 4) =~= buf@.subrange(164, 168));
        assert(buf@.subrange(168, 170).subrange(0, 2) =~= buf@.subrange(168, 170));
        assert(buf@.subrange(170, 172).subrange(0, 2) =~= buf@.subrange(170, 172));
        assert(buf@.subrange(172, 176).subrange(0, 4) =~= buf@.subrange(172, 176));
        assert(buf@.subrange(176, 180).subrange(0, 4) =~= buf@.subrange(176, 180));
        lemma_le_bounds(buf@.subrange(92, 96));
        lemma_le_bounds(buf@.subrange(144, 146));
        lemma_le_bounds(buf@.subrange(146, 148));
        lemma_le_bounds(buf@.subrange(152, 156));
        lemma_le_bounds(buf@.subrange(156, 158));
        lemma_le_bounds(buf@.subrange(158, 160));
        lemma_le_bounds(buf@.subrange(164, 168));
        lemma_le_bounds(buf@.subrange(168, 170));
        lemma_le_bounds(buf@.subrange(170, 172));
        lemma_le_bounds(buf@.subrange(176, 180));
        lemma_le_bounds(buf@.subrange(148, 152));
        lemma_le_bounds(buf@.subrange(160, 164));
        lemma_le_bounds(buf@.subrange(172, 176));
    }
    h
}

proof fn lemma_le_bounds(s: Seq<u8>)
    ensures
        s.len() == 2 ==> le_uint(s) < 0x10000,
        s.len() == 4 ==> le_uint(s) < 0x1_0000_0000,
{
    reveal_with_fuel(le_uint, 5);
    if s.len() == 2 {
        assert(s.drop_first().drop_first().len() == 0);
    }
    if s.len() == 4 {
        assert(s.drop_first().drop_first().drop_first().drop_first().len() == 0);
    }
}

/// Wrapping sum of bytes.
pub open spec fn byte_sum(b: Seq<u8>) -> u8
    decreases b.len(),
{
    if b.len() == 0 {
        0
    } else {
        byte_sum(b.drop_last()).wrapping_add(b.last())
    }
}

/// The frame data `item` matches its checksum byte `sum`.
pub fn checksum(item: &[u8], sum: u8) -> (ok: bool)
    ensures
        ok == (byte_sum(item@) == sum),
{
    let mut acc: u8 = 0;
    let mut i: usize = 0;
    while i < item.len()
        invariant
            i <= item.len(),
            acc == byte_sum(item@.subrange(0, i as int)),
        decreases item.len() - i,
    {
        assert(item@.subrange(0, i + 1).drop_last() =~= item@.subrange(0, i as int));
        acc = acc.wrapping_add(item[i]);
        i = i + 1;
    }
    assert(item@.subrange(0, item.len() as int) =~= item@);
    acc == sum
}

/// Sensor readings of one frame, as raw 16-bit values.
#[derive(Clone, Copy, Debug)]
pub struct Frame {
    pub acc: Option<[i16; 3]>,
    pub gyro: Option<[i16; 3]>,
    pub mag: Option<[i16; 3]>,
    pub quat: Option<[i16; 4]>,
    pub angle: Option<[i16; 3]>,
}

/// Bit `n` of the sensor byte.
pub open spec fn has(v: u8, n: u8) -> bool {
    (v >> n) & 1u8 == 1u8
}

/// Bytes of one frame's sensor data: accelerometer, gyroscope and
/// magnetometer 6 each, quaternion 8, angles 12, temperature 2.
pub open spec fn frame_len(v: u8) -> int {
    (if has(v, 0) { 6int } else { 0 }) + (if has(v, 1) { 6int } else { 0 }) + (if has(v, 2) { 6int } else { 0 })
        + (if has(v, 3) { 8int } else { 0 }) + (if has(v, 4) { 12int } else { 0 }) + (if has(v, 5) { 2int } else { 0 })
}

/// The little-endian `i16` at `pos`.
pub open spec fn i16_at(b: Seq<u8>, pos: int) -> i16 {
    signed(le_uint(b.subrange(pos, pos + 2)) as int, 16) as i16
}

/// The `n` little-endian `i16` values from `pos`.
pub open spec fn i16s_at(b: Seq<u8>, pos: int, n: int) -> Seq<i16> {
    Seq::new(n as nat, |k: int| i16_at(b, pos + 2 * k))
}

/// The readings of a frame with sensor byte `v` and data `b`.
pub open spec fn frame_spec(v: u8, b: Seq<u8>) -> (Option<Seq<i16>>, Option<Seq<i16>>, Option<Seq<i16>>, Option<Seq<i16>>, Option<Seq<i16>>) {
    let o1 = if has(v, 0) { 6int } else { 0 };
    let o2 = o1 + if has(v, 1) { 6int } else { 0 };
    let o3 = o2 + if has(v, 2) { 6int } else { 0 };
    let o4 = o3 + if has(v, 3) { 8int } else { 0 };
    (
        if has(v, 0) { Some(i16s_at(b, 0, 3)) } else { None },
        if has(v, 1) { Some(i16s_at(b, o1, 3)) } else { None },
        if has(v, 2) { Some(i16s_at(b, o2, 3)) } else { None },
        if has(v, 3) { Some(i16s_at(b, o3, 4)) } else { None },
        if has(v, 4) { Some(i16s_at(b, o4, 3)) } else { None },
    )
}

/// The readings of `f` as sequences.
pub open spec fn frame_view(f: Frame) -> (Option<Seq<i16>>, Option<Seq<i16>>, Option<Seq<i16>>, Option<Seq<i16>>, Option<Seq<i16>>) {
    (
        match f.acc { Some(a) => Some(a@), None => None },
        match f.gyro { Some(a) => Some(a@), None => None },
        match f.mag { Some(a) => Some(a@), None => None },
        match f.quat { Some(a) => Some(a@), None => None },
        match f.angle { Some(a) => Some(a@), None => None },
    )
}

/// The frames of the log body `d` from `pos`: a marker that is not
/// `0xAA55` skips two bytes, a frame whose checksum fails is skipped, and
/// the data ends at the first frame that is cut off. `None` when the data
/// ends right after a marker.
pub open spec fn frames_from(d: Seq<u8>, pos: int) -> Option<Seq<(Option<Seq<i16>>, Option<Seq<i16>>, Option<Seq<i16>>, Option<Seq<i16>>, Option<Seq<i16>>)>>
    decreases d.len() - pos,
{
    if pos < 0 || pos + 2 > d.len() {
        Some(Seq::empty())
    } else if be_uint(d.subrange(pos, pos + 2)) != 0xAA55 {
        frames_from(d, pos + 2)
    } else if pos + 3 > d.len() {
        None
    } else {
        let v = d[pos + 2];
        let n = frame_len(v);
        if pos + 3 + n + 1 > d.len() {
            Some(Seq::empty())
        } else {
            let item = d.subrange(pos + 3, pos + 3 + n);
            let rest = frames_from(d, pos + 3 + n + 1);
            if byte_sum(item) != d[pos + 3 + n] {
                rest
            } else {
                match rest {
                    Some(r) => Some(seq![frame_spec(v, item)] + r),
                    None => None,
                }
            }
        }
    }
}


/// The view of each decoded frame.
pub open spec fn views(fs: Seq<Frame>) -> Seq<(Option<Seq<i16>>, Option<Seq<i16>>, Option<Seq<i16>>, Option<Seq<i16>>, Option<Seq<i16>>)> {
    fs.map_values(|f: Frame| frame_view(f))
}

fn read_i16_at(b: &[u8], pos: usize) -> (r: i16)
    requires
        pos + 2 <= b.len(),
    ensures
        r == i16_at(b@, pos as int),
{
    let s = &b[pos..pos + 2];
    assert(s@.subrange(0, 2) =~= b@.subrange(pos as int, pos + 2));
    read_i16_le(s)
}

fn read3(b: &[u8], pos: usize) -> (r: [i16; 3])
    requires
        pos + 6 <= b.len(),
    ensures
        r@ == i16s_at(b@, pos as int, 3),
{
    let r = [read_i16_at(b, pos), read_i16_at(b, pos + 2), read_i16_at(b, pos + 4)];
    assert(r@ =~= i16s_at(b@, pos as int, 3));
    r
}

fn read4(b: &[u8], pos: usize) -> (r: [i16; 4])
    requires
        pos + 8 <= b.len(),
    ensures
        r@ == i16s_at(b@, pos as int, 4),
{
    let r = [read_i16_at(b, pos), read_i16_at(b, pos + 2), read_i16_at(b, pos + 4), read_i16_at(b, pos + 6)];
    assert(r@ =~= i16s_at(b@, pos as int, 4));
    r
}

fn has_bit(v: u8, n: u8) -> (b: bool)
    requires
        n < 8,
    ensures
        b == has(v, n),
{
    (v >> n) & 1 == 1
}

/// Number of data bytes of a frame with sensor byte `v`.
pub fn frame_length(v: u8) -> (n: usize)
    ensures
        n == frame_len(v),
{
    let mut n: usize = 0;
    if has_bit(v, 0) { n = n + 6; }
    if has_bit(v, 1) { n = n + 6; }
    if has_bit(v, 2) { n = n + 6; }
    if has_bit(v, 3) { n = n + 8; }
    if has_bit(v, 4) { n = n + 12; }
    if has_bit(v, 5) { n = n + 2; }
    n
}

/// The readings of a frame with sensor byte `v` and data `item`.
pub fn decode_frame(v: u8, item: &[u8]) -> (f: Frame)
    requires
        item.len() == frame_len(v),
    ensures
        frame_view(f) == frame_spec(v, item@),
{
    let mut o: usize = 0;
    let acc = if has_bit(v, 0) { o = 6; Some(read3(item, 0)) } else { None };
    let gyro = if has_bit(v, 1) { let r = read3(item, o); o = o + 6; Some(r) } else { None };
    let mag = if has_bit(v, 2) { let r = read3(item, o); o = o + 6; Some(r) } else { None };
    let quat = if has_bit(v, 3) { let r = read4(item, o); o = o + 8; Some(r) } else { None };
    let angle = if has_bit(v, 4) { Some(read3(item, o)) } else { None };
    Frame { acc, gyro, mag, quat, angle }
}

/// The frames of a log body (the bytes after the 512-byte header); see
/// `frames_from`.
pub fn decode_frames(d: &[u8]) -> (r: Result<Vec<Frame>, ParseError>)
    ensures
        match frames_from(d@, 0) {
            Some(fs) => r is Ok && views(r->Ok_0@) == fs,
            None => r == Err::<Vec<Frame>, ParseError>(ParseError::UnexpectedEof),
        },
{
    let mut out: Vec<Frame> = Vec::new();
    let mut pos: usize = 0;
    while pos <= d.len() && d.len() - pos >= 2
        invariant
            pos <= d.len(),
            frames_from(d@, 0) == match frames_from(d@, pos as int) {
                Some(r) => Some(views(out@) + r),
                None => None,
            },
        decreases d.len() - pos,
    {
        let tag = read_u16_be(&d[pos..pos + 2]);
        assert(d@.subrange(pos as int, pos + 2).subrange(0, 2) =~= d@.subrange(pos as int, pos + 2));
        if tag != 0xAA55 {
            pos = pos + 2;
            continue;
        }
        if d.len() - pos < 3 {
            return Err(ParseError::UnexpectedEof);
        }
        let v = d[pos + 2];
        let n = frame_length(v);
        if n + 1 > d.len() - (pos + 3) {
            assert(frames_from(d@, pos as int) == Some(Seq::<(Option<Seq<i16>>, Option<Seq<i16>>, Option<Seq<i16>>, Option<Seq<i16>>, Option<Seq<i16>>)>::empty()));
            assert(views(out@) + Seq::<(Option<Seq<i16>>, Option<Seq<i16>>, Option<Seq<i16>>, Option<Seq<i16>>, Option<Seq<i16>>)>::empty() =~= views(out@));
            return Ok(out);
        }
        let item = &d[pos + 3..pos + 3 + n];
        let sum = d[pos + 3 + n];
        if checksum(item, sum) {
            let f = decode_frame(v, item);
            let ghost old_out = out@;
            out.push(f);
            proof {
                assert(views(out@) =~= views(old_out) + seq![frame_view(f)]);
                let rest = frames_from(d@, pos + 3 + n + 1);
                if let Some(r) = rest {
                    assert(views(old_out) + (seq![frame_view(f)] + r) =~= views(out@) + r);
                }
            }
        }
        pos = pos + 3 + n + 1;
    }
    proof {
        assert(views(out@) + Seq::<(Option<Seq<i16>>, Option<Seq<i16>>, Option<Seq<i16>>, Option<Seq<i16>>, Option<Seq<i16>>)>::empty() =~= views(out@));
    }
    Ok(out)
}


/// Three consecutive little-endian `i16` values from `p`.
pub open spec fn three_at(b: Seq<u8>, p: int) -> Seq<int> {
    seq![s16(b, p), s16(b, p + 2), s16(b, p + 4)]
}

/// The data of a frame is the present sensors' values one after the
/// other, in the order accelerometer (6 bytes), gyroscope (6),
/// magnetometer (6), quaternion (8) and angles (6), each little-endian
/// `i16`: a present sensor's values start right after those of the present
/// sensors before it, and an absent sensor has none.
pub proof fn lemma_frame_layout(v: u8, b: Seq<u8>)
    requires
        b.len() == frame_len(v),
    ensures
        ({
            let a = if has(v, 0) { 6int } else { 0 };
            let g = a + if has(v, 1) { 6int } else { 0 };
            let m = g + if has(v, 2) { 6int } else { 0 };
            let q = m + if has(v, 3) { 8int } else { 0 };
            let f = frame_spec(v, b);
            &&& (f.0 is Some <==> has(v, 0)) && (f.1 is Some <==> has(v, 1)) && (f.2 is Some <==> has(v, 2))
            &&& (f.3 is Some <==> has(v, 3)) && (f.4 is Some <==> has(v, 4))
            &&& f.0 matches Some(x) ==> x.map_values(|e: i16| e as int) == three_at(b, 0)
            &&& f.1 matches Some(x) ==> x.map_values(|e: i16| e as int) == three_at(b, a)
            &&& f.2 matches Some(x) ==> x.map_values(|e: i16| e as int) == three_at(b, g)
            &&& f.3 matches Some(x) ==> x.map_values(|e: i16| e as int) == three_at(b, m).push(s16(b, m + 6))
            &&& f.4 matches Some(x) ==> x.map_values(|e: i16| e as int) == three_at(b, q)
        }),
{
    let a = if has(v, 0) { 6int } else { 0 };
    let g = a + if has(v, 1) { 6int } else { 0 };
    let m = g + if has(v, 2) { 6int } else { 0 };
    let q = m + if has(v, 3) { 8int } else { 0 };
    let f = frame_spec(v, b);
    assert forall|p: int| 0 <= p && p + 2 <= b.len() implies #[trigger] i16_at(b, p) as int == s16(b, p) by {
        lemma_le_at_2(b, p);
        assert(b.subrange(p, p + 2) == b.subrange(p, p + 2));
    }
    if let Some(x) = f.0 {
        assert(x.map_values(|e: i16| e as int) =~= three_at(b, 0));
    }
    if let Some(x) = f.1 {
        assert(x.map_values(|e: i16| e as int) =~= three_at(b, a));
    }
    if let Some(x) = f.2 {
        assert(x.map_values(|e: i16| e as int) =~= three_at(b, g));
    }
    if let Some(x) = f.3 {
        assert(x.map_values(|e: i16| e as int) =~= three_at(b, m).push(s16(b, m + 6)));
    }
    if let Some(x) = f.4 {
        assert(x.map_values(|e: i16| e as int) =~= three_at(b, q));
    }
}

/// The settings of a header, byte by byte, least significant byte first:
/// the IMU orientation at bytes 60-63, the log frequency at 92-95, then
/// for the accelerometer from byte 144, the gyroscope from 156 and the
/// magnetometer from 168: output data rate (2 bytes), maximum bandwidth
/// (2), signed time offset (4) and range (4).
pub proof fn lemma_header_layout(buf: Seq<u8>)
    requires
        buf.len() >= 512,
    ensures
        header_spec(buf).imu_orientation@ == buf.subrange(60, 64),
        header_spec(buf).log_freq == le4(buf, 92),
        header_spec(buf).acc_odr == le2(buf, 144),
        header_spec(buf).acc_max_bw == le2(buf, 146),
        header_spec(buf).acc_timeoffset == s32(buf, 148),
        header_spec(buf).acc_range == le4(buf, 152),
        header_spec(buf).gyro_odr == le2(buf, 156),
        header_spec(buf).gyro_max_bw == le2(buf, 158),
        header_spec(buf).gyro_timeoffset == s32(buf, 160),
        header_spec(buf).gyro_range == le4(buf, 164),
        header_spec(buf).mag_odr == le2(buf, 168),
        header_spec(buf).mag_max_bw == le2(buf, 170),
        header_spec(buf).mag_timeoffset == s32(buf, 172),
        header_spec(buf).mag_range == le4(buf, 176),
{
    assert(header_spec(buf).imu_orientation@ =~= buf.subrange(60, 64));
    lemma_le_at_4(buf, 92);
    lemma_le_at_2(buf, 144);
    lemma_le_at_2(buf, 146);
    lemma_le_at_4(buf, 148);
    lemma_le_at_4(buf, 152);
    lemma_le_at_2(buf, 156);
    lemma_le_at_2(buf, 158);
    lemma_le_at_4(buf, 160);
    lemma_le_at_4(buf, 164);
    lemma_le_at_2(buf, 168);
    lemma_le_at_2(buf, 170);
    lemma_le_at_4(buf, 172);
    lemma_le_at_4(buf, 176);
}
} // verus!
