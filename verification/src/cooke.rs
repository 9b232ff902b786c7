//! Cooke /i and ZEISS eXtended Data lens records in packed binary form:
//! each byte carries six (or fewer) bits of a field.

use vstd::prelude::*;
use crate::bytes::{be2, be_uint, lemma_be_at_2, read_i16_be, read_u16_be, signed};
use crate::text::{str_chars, str_eq, string_from_chars, trim_chars, trimmed, utf8_strict};

verus! {

/// The lowest bit of `v`.
pub fn b1(v: u8) -> (r: u32)
    ensures
        r == v % 2,
{
    assert(v & 1 == v % 2) by (bit_vector);
    (v & 1) as u32
}

/// The lowest four bits of `v`.
pub fn b4(v: u8) -> (r: u32)
    ensures
        r == v % 16,
{
    assert(v & 0xf == v % 16) by (bit_vector);
    (v & 0xf) as u32
}

/// The lowest six bits of `v`.
pub fn b6(v: u8) -> (r: u32)
    ensures
        r == v % 64,
{
    assert(v & 0x3f == v % 64) by (bit_vector);
    (v & 0x3f) as u32
}

/// The lowest seven bits of `v`.
pub fn b7(v: u8) -> (r: u32)
    ensures
        r == v % 128,
{
    assert(v & 0x7f == v % 128) by (bit_vector);
    (v & 0x7f) as u32
}

/// A 24-bit value spread over four bytes of six bits each, most
/// significant first.
pub open spec fn six_bit4(d: Seq<u8>, i: int) -> int {
    (d[i] % 64) * 0x40000 + (d[i + 1] % 64) * 0x1000 + (d[i + 2] % 64) * 0x40 + d[i + 3] % 64
}

/// A 12-bit value spread over two bytes of six bits each.
pub open spec fn six_bit2(d: Seq<u8>, i: int) -> int {
    (d[i] % 64) * 0x40 + d[i + 1] % 64
}

/// A 10-bit value: four bits of one byte, six of the next.
pub open spec fn four_six(d: Seq<u8>, i: int) -> int {
    (d[i] % 16) * 0x40 + d[i + 1] % 64
}

/// The T-number in tenths: the top bit of the second byte, then seven bits
/// of the first.
pub open spec fn t_number_of(d: Seq<u8>, i: int) -> int {
    ((d[i + 1] / 64) % 2) * 128 + d[i] % 128
}

/// The entrance pupil position: a 10-bit magnitude whose sign is bit 5 of
/// the first byte.
pub open spec fn pupil_of(d: Seq<u8>, i: int) -> int {
    if (d[i] / 32) % 2 == 1 {
        -four_six(d, i)
    } else {
        four_six(d, i)
    }
}

fn six_bit4_at(d: &[u8], i: usize) -> (r: u32)
    requires
        i + 4 <= d.len(),
    ensures
        r == six_bit4(d@, i as int),
{
    b6(d[i]) * 0x40000 + b6(d[i + 1]) * 0x1000 + b6(d[i + 2]) * 0x40 + b6(d[i + 3])
}

fn six_bit2_at(d: &[u8], i: usize) -> (r: u32)
    requires
        i + 2 <= d.len(),
    ensures
        r == six_bit2(d@, i as int),
{
    b6(d[i]) * 0x40 + b6(d[i + 1])
}

fn four_six_at(d: &[u8], i: usize) -> (r: u32)
    requires
        i + 2 <= d.len(),
    ensures
        r == four_six(d@, i as int),
{
    b4(d[i]) * 0x40 + b6(d[i + 1])
}

fn t_number_at(d: &[u8], i: usize) -> (r: u32)
    requires
        i + 2 <= d.len(),
    ensures
        r == t_number_of(d@, i as int),
{
    b1(d[i + 1] / 64) * 128 + b7(d[i])
}

fn pupil_at(d: &[u8], i: usize) -> (r: i32)
    requires
        i + 2 <= d.len(),
    ensures
        r == pupil_of(d@, i as int),
{
    let m = four_six_at(d, i) as i32;
    if (d[i] / 32) % 2 == 1 {
        -m
    } else {
        m
    }
}

/// The lens data of a packed binary (`Kd`) record, in the record's units:
/// distances in millimetres, the aperture value in hundredths, the
/// T-number and the horizontal field of view in tenths, the normalised
/// zoom position in thousandths.
#[derive(Debug, Clone)]
pub struct KdRecord {
    pub focus_distance: u32,
    pub aperture_value: u32,
    pub t_number: u32,
    pub tenths: u32,
    pub focal_length: u32,
    pub hyperfocal_distance: u32,
    pub near_focus_distance: u32,
    pub far_focus_distance: u32,
    pub horizontal_fov: u32,
    pub entrance_pupil_position: i32,
    pub serial_number: Option<String>,
    pub normalized_zoom_position: Option<u32>,
}

/// The trimmed text of UTF-8 bytes.
pub open spec fn trimmed_text(b: Seq<u8>) -> Seq<char> {
    trimmed(vstd::utf8::decode_utf8(b))
}

/// What a `Kd` record leaves of its input: after a serial number at byte 26
/// the input moves past it (36 bytes); then a serial number at byte 28 of
/// what is left, where 38 bytes are left, moves past that one too; a
/// trailing line break is dropped.
pub open spec fn kd_rest(d: Seq<u8>) -> Seq<u8> {
    let a = if d[26] == 0x53 {
        d.subrange(36, d.len() as int)
    } else {
        d
    };
    let b = if a.len() >= 38 && a[28] == 0x53 {
        a.subrange(38, a.len() as int)
    } else {
        a
    };
    if b.len() >= 2 && b[0] == 0x0a && b[1] == 0x0d {
        b.subrange(2, b.len() as int)
    } else {
        b
    }
}

/// The serial number bytes of a `Kd` record: at byte 27 where byte 26 is
/// `S`; then at byte 29 of what is left, where that holds a second one,
/// which is the one kept.
pub open spec fn kd_serial_bytes(d: Seq<u8>) -> Option<Seq<u8>> {
    let a = if d[26] == 0x53 {
        d.subrange(36, d.len() as int)
    } else {
        d
    };
    if a.len() >= 38 && a[28] == 0x53 {
        Some(a.subrange(29, 38))
    } else if d[26] == 0x53 {
        Some(d.subrange(27, 36))
    } else {
        None
    }
}

/// The serial number fields of a `Kd` record hold UTF-8 text.
pub open spec fn kd_serials_valid(d: Seq<u8>) -> bool {
    let a = if d[26] == 0x53 {
        d.subrange(36, d.len() as int)
    } else {
        d
    };
    &&& d[26] == 0x53 ==> vstd::utf8::valid_utf8(d.subrange(27, 36))
    &&& a.len() >= 38 && a[28] == 0x53 ==> vstd::utf8::valid_utf8(a.subrange(29, 38))
}

/// `k` holds the lens data of the `Kd` record that the bytes `d` encode.
pub open spec fn kd_fields(d: Seq<u8>, k: KdRecord) -> bool {
    &&& k.focus_distance == six_bit4(d, 0)
    &&& k.aperture_value == six_bit2(d, 4)
    &&& k.t_number == t_number_of(d, 6)
    &&& k.tenths == d[7] % 16
    &&& k.focal_length == four_six(d, 8)
    &&& k.hyperfocal_distance == six_bit4(d, 10)
    &&& k.near_focus_distance == six_bit4(d, 14)
    &&& k.far_focus_distance == six_bit4(d, 18)
    &&& k.horizontal_fov == six_bit2(d, 22)
    &&& k.entrance_pupil_position == pupil_of(d, 24)
    &&& (d[26] == 0x53 ==> k.normalized_zoom_position is None)
    &&& (d[26] != 0x53 ==> k.normalized_zoom_position == Some(four_six(d, 26) as u32))
    &&& match kd_serial_bytes(d) {
        Some(b) => k.serial_number is Some && k.serial_number.unwrap()@ == trimmed_text(b),
        None => k.serial_number is None,
    }
}

/// `k` is the `Kd` record that the bytes `d` encode, and `used` the number
/// of bytes it takes.
pub open spec fn kd_decoded(d: Seq<u8>, k: KdRecord, used: usize) -> bool {
    &&& kd_fields(d, k)
    &&& used <= d.len()
    &&& d.subrange(used as int, d.len() as int) == kd_rest(d)
}

fn text_at(d: &[u8], i: usize, n: usize) -> (r: String)
    requires
        i + n <= d.len(),
        vstd::utf8::valid_utf8(d@.subrange(i as int, i + n)),
    ensures
        r@ == trimmed_text(d@.subrange(i as int, i + n)),
{
    let s = utf8_strict(&d[i..i + n]);
    match s {
        Some(t) => {
            let c = crate::text::str_chars(t.as_str());
            let tr = trim_chars(c.as_slice());
            crate::text::string_from_chars(tr.as_slice())
        },
        None => {
            assert(false);
            String::new()
        },
    }
}

/// Decodes a packed binary (`Kd`) record of at least 36 bytes, returning
/// it with the number of input bytes it takes; `None` for a shorter input.
pub fn parse_kd(d: &[u8]) -> (r: Option<(KdRecord, usize)>)
    requires
        d.len() >= 36 ==> kd_serials_valid(d@),
    ensures
        d.len() < 36 ==> r is None,
        d.len() >= 36 ==> (r matches Some(p) && kd_decoded(d@, p.0, p.1)),
{
    if d.len() < 36 {
        return None;
    }
    let mut serial: Option<String> = None;
    let mut zoom: Option<u32> = None;
    let mut pos: usize = 0;
    if d[26] == 0x53 {
        serial = Some(text_at(d, 27, 9));
        pos = 36;
    } else {
        zoom = Some(four_six_at(d, 26));
    }
    let ghost a = if d@[26] == 0x53 {
        d@.subrange(36, d@.len() as int)
    } else {
        d@
    };
    assert(a =~= d@.subrange(pos as int, d@.len() as int));
    let ghost ser_before = serial;
    if d.len() - pos >= 38 && d[pos + 28] == 0x53 {
        assert(a.subrange(29, 38) =~= d@.subrange(pos + 29, pos + 38));
        assert(a[28] == d@[pos + 28]);
        serial = Some(text_at(d, pos + 29, 9));
        assert(a.subrange(38, a.len() as int) =~= d@.subrange(pos + 38, d@.len() as int));
        pos = pos + 38;
    } else {
        assert(!(a.len() >= 38 && a[28] == 0x53));
    }
    let ghost b = if a.len() >= 38 && a[28] == 0x53 {
        a.subrange(38, a.len() as int)
    } else {
        a
    };
    assert(b =~= d@.subrange(pos as int, d@.len() as int));
    if d.len() - pos >= 2 && d[pos] == 0x0a && d[pos + 1] == 0x0d {
        assert(b.subrange(2, b.len() as int) =~= d@.subrange(pos + 2, d@.len() as int));
        pos = pos + 2;
    }
    assert(kd_rest(d@) =~= d@.subrange(pos as int, d@.len() as int));
    let k = KdRecord {
        focus_distance: six_bit4_at(d, 0),
        aperture_value: six_bit2_at(d, 4),
        t_number: t_number_at(d, 6),
        tenths: b4(d[7]),
        focal_length: four_six_at(d, 8),
        hyperfocal_distance: six_bit4_at(d, 10),
        near_focus_distance: six_bit4_at(d, 14),
        far_focus_distance: six_bit4_at(d, 18),
        horizontal_fov: six_bit2_at(d, 22),
        entrance_pupil_position: pupil_at(d, 24),
        serial_number: serial,
        normalized_zoom_position: zoom,
    };
    Some((k, pos))
}

/// The lens data of a ZEISS eXtended Data record, in the units of a `Kd`
/// record, with six shading and six distortion coefficients.
#[derive(Debug, Clone)]
pub struct ZeissRecord {
    pub focus_distance: u32,
    pub t_number: u32,
    pub tenths: u32,
    pub horizontal_fov: u32,
    pub entrance_pupil_position: i32,
    pub shading: Vec<i16>,
    pub distortion: Vec<i16>,
}

/// The six big-endian `i16` starting at byte `i`.
pub open spec fn i16s_at(d: Seq<u8>, i: int) -> Seq<i16> {
    Seq::new(6, |k: int| signed(be_uint(d.subrange(i + 2 * k, i + 2 * k + 2)) as int, 16) as i16)
}

fn read_i16s(d: &[u8], i: usize) -> (r: Vec<i16>)
    requires
        i + 12 <= d.len(),
    ensures
        r@ == i16s_at(d@, i as int),
{
    let mut v: Vec<i16> = Vec::new();
    let mut k: usize = 0;
    while k < 6
        invariant
            k <= 6,
            i + 12 <= d.len(),
            v@.len() == k,
            forall|j: int| 0 <= j < k ==> v@[j] == i16s_at(d@, i as int)[j],
        decreases 6 - k,
    {
        let x = read_i16_be(&d[i + 2 * k..i + 2 * k + 2]);
        assert(d@.subrange(i + 2 * k, i + 2 * k + 2).subrange(0, 2) =~= d@.subrange(i + 2 * k, i + 2 * k + 2));
        v.push(x);
        k = k + 1;
    }
    assert(v@ =~= i16s_at(d@, i as int));
    v
}

/// `z` holds the lens data of the ZEISS record that the bytes `d` encode.
pub open spec fn zeiss_fields(d: Seq<u8>, z: ZeissRecord) -> bool {
    &&& z.focus_distance == six_bit4(d, 0)
    &&& z.t_number == t_number_of(d, 4)
    &&& z.tenths == d[5] % 16
    &&& z.horizontal_fov == six_bit2(d, 6)
    &&& z.entrance_pupil_position == pupil_of(d, 8)
    &&& z.shading@ == i16s_at(d, 10)
    &&& z.distortion@ == i16s_at(d, 22)
}

/// The number of bytes a ZEISS record takes: 34, and a trailing line break.
pub open spec fn zeiss_used(d: Seq<u8>) -> int {
    if d.len() >= 36 && d[34] == 0x0a && d[35] == 0x0d {
        36
    } else {
        34
    }
}

/// `z` is the ZEISS record that the bytes `d` encode, and `used` the
/// number of bytes it takes.
pub open spec fn zeiss_decoded(d: Seq<u8>, z: ZeissRecord, used: usize) -> bool {
    &&& zeiss_fields(d, z)
    &&& used == zeiss_used(d)
}

/// Decodes a ZEISS eXtended Data record (the bytes after its `z`): at
/// least 34 bytes, of which it takes 34 and a trailing line break.
pub fn parse_zeiss(d: &[u8]) -> (r: Option<(ZeissRecord, usize)>)
    ensures
        d.len() < 34 ==> r is None,
        d.len() >= 34 ==> (r matches Some(p) && zeiss_decoded(d@, p.0, p.1)),
{
    if d.len() < 34 {
        return None;
    }
    let z = ZeissRecord {
        focus_distance: six_bit4_at(d, 0),
        t_number: t_number_at(d, 4),
        tenths: b4(d[5]),
        horizontal_fov: six_bit2_at(d, 6),
        entrance_pupil_position: pupil_at(d, 8),
        shading: read_i16s(d, 10),
        distortion: read_i16s(d, 22),
    };
    let used: usize = if d.len() >= 36 && d[34] == 0x0a && d[35] == 0x0d { 36 } else { 34 };
    Some((z, used))
}


/// A field of a lens information (`N`) record.
#[derive(Debug, Clone)]
pub enum InfoField {
    SerialNumber(String),
    Owner(String),
    /// `true` for a zoom lens, `false` for a prime.
    LensType(bool),
    MinFocalLength(u32),
    MaxFocalLength(u32),
    /// `true` for imperial units, `false` for metric.
    Units(bool),
    /// The two characters of the transmission factor in hundredths.
    TransmissionFactor(String),
    FirmwareVersion(String),
}

/// A lens information field with its text as a sequence.
pub enum InfoView {
    SerialNumber(Seq<char>),
    Owner(Seq<char>),
    LensType(bool),
    MinFocalLength(u32),
    MaxFocalLength(u32),
    Units(bool),
    TransmissionFactor(Seq<char>),
    FirmwareVersion(Seq<char>),
}

/// The view of a lens information field.
pub open spec fn info_view(f: InfoField) -> InfoView {
    match f {
        InfoField::SerialNumber(s) => InfoView::SerialNumber(s@),
        InfoField::Owner(s) => InfoView::Owner(s@),
        InfoField::LensType(b) => InfoView::LensType(b),
        InfoField::MinFocalLength(v) => InfoView::MinFocalLength(v),
        InfoField::MaxFocalLength(v) => InfoView::MaxFocalLength(v),
        InfoField::Units(b) => InfoView::Units(b),
        InfoField::TransmissionFactor(s) => InfoView::TransmissionFactor(s@),
        InfoField::FirmwareVersion(s) => InfoView::FirmwareVersion(s@),
    }
}

/// One record of a Cooke /i data stream.
#[derive(Debug, Clone)]
pub enum CookeRecord {
    /// Fixed lens information (`N`).
    LensInfo(Vec<InfoField>),
    /// Packed binary lens data (`Kd`).
    Kd(KdRecord),
    /// A raw magnetometer sample of a `Kdi` record.
    Magnetometer { timestamp: u16, x: i16, y: i16, z: i16 },
    /// Eight raw gyroscope (`gyro`) or accelerometer samples of a `Kdi`
    /// record.
    Inertial { gyro: bool, timestamp: u16, samples: Vec<(i16, i16, i16)> },
    /// ZEISS eXtended Data.
    Zeiss(ZeissRecord),
}

/// What a record holds: lens data records as the bytes that encode them.
pub enum RecordSpec {
    LensInfo(Seq<InfoView>),
    Kd(Seq<u8>),
    Magnetometer(u16, i16, i16, i16),
    Inertial(bool, u16, Seq<(i16, i16, i16)>),
    Zeiss(Seq<u8>),
}

/// `r` is the record that `s` describes.
pub open spec fn record_matches(r: CookeRecord, s: RecordSpec) -> bool {
    match r {
        CookeRecord::LensInfo(v) => s matches RecordSpec::LensInfo(w) && v@.map_values(|f: InfoField| info_view(f)) == w,
        CookeRecord::Kd(k) => s matches RecordSpec::Kd(b) && kd_fields(b, k),
        CookeRecord::Magnetometer { timestamp, x, y, z } => s == RecordSpec::Magnetometer(timestamp, x, y, z),
        CookeRecord::Inertial { gyro, timestamp, samples } => s matches RecordSpec::Inertial(g, t, w) && g == gyro
            && t == timestamp && w == samples@,
        CookeRecord::Zeiss(z) => s matches RecordSpec::Zeiss(b) && zeiss_fields(b, z),
    }
}

/// Each record of `v` is the one that `s` describes at its index.
pub open spec fn records_match(v: Seq<CookeRecord>, s: Seq<RecordSpec>) -> bool {
    &&& v.len() == s.len()
    &&& forall|i: int| 0 <= i < v.len() ==> record_matches(#[trigger] v[i], s[i])
}

/// How reading a data stream ends: with records, refused (a record kind
/// that is not read), or malformed (a record that does not hold the bytes
/// its kind needs, or whose text is not what its kind allows).
pub enum CookeOutcome {
    Records(Seq<RecordSpec>),
    Refused,
    Malformed,
}

/// `pre` before the records of `o`.
pub open spec fn prepend(pre: Seq<RecordSpec>, o: CookeOutcome) -> CookeOutcome {
    match o {
        CookeOutcome::Records(s) => CookeOutcome::Records(pre + s),
        _ => o,
    }
}

/// An ASCII digit.
pub open spec fn is_digit(b: u8) -> bool {
    0x30 <= b <= 0x39
}

/// Every byte of `s` is an ASCII digit.
pub open spec fn all_digits(s: Seq<u8>) -> bool {
    forall|i: int| 0 <= i < s.len() ==> is_digit(#[trigger] s[i])
}

/// The decimal value of ASCII digits.
pub open spec fn decimal(s: Seq<u8>) -> nat
    decreases s.len(),
{
    if s.len() == 0 {
        0
    } else {
        decimal(s.drop_last()) * 10 + (s.last() - 0x30) as nat
    }
}

/// `s` without its leading `0` bytes.
pub open spec fn skip_zeros(s: Seq<u8>) -> Seq<u8>
    decreases s.len(),
{
    if s.len() > 0 && s[0] == 0x30 {
        skip_zeros(s.drop_first())
    } else {
        s
    }
}

/// The digits of a focal length field: after its leading zeros, digits or
/// `+` and digits; `None` for any other text.
pub open spec fn focal_digits(s: Seq<u8>) -> Option<Seq<u8>> {
    let t = skip_zeros(s);
    if t.len() > 0 && all_digits(t) {
        Some(t)
    } else if t.len() > 1 && t[0] == 0x2b && all_digits(t.drop_first()) {
        Some(t.drop_first())
    } else {
        None
    }
}

/// Two characters that read as a decimal number: two digits, a digit and
/// a point, a point and a digit, or a sign and a digit.
pub open spec fn number2(a: u8, b: u8) -> bool {
    ||| is_digit(a) && is_digit(b)
    ||| is_digit(a) && b == 0x2e
    ||| a == 0x2e && is_digit(b)
    ||| (a == 0x2b || a == 0x2d) && is_digit(b)
}

/// One field of a lens information record at the start of `e`, with the
/// number of bytes it takes: `Some(None)` where `e` starts with no field
/// key, `None` where the field is malformed.
pub open spec fn info_step(e: Seq<u8>) -> Option<Option<(InfoView, int)>> {
    let c = e[0];
    if c == 0x53 {
        if e.len() < 10 || !vstd::utf8::valid_utf8(e.subrange(1, 10)) {
            None
        } else {
            Some(Some((InfoView::SerialNumber(trimmed_text(e.subrange(1, 10))), 10)))
        }
    } else if c == 0x4f {
        if e.len() < 32 || !vstd::utf8::valid_utf8(e.subrange(1, 32)) {
            None
        } else {
            Some(Some((InfoView::Owner(trimmed_text(e.subrange(1, 32))), 32)))
        }
    } else if c == 0x4c {
        if e.len() < 2 {
            None
        } else {
            Some(Some((InfoView::LensType(e[1] == 0x5a), 2)))
        }
    } else if c == 0x4e || c == 0x66 || c == 0x4d {
        if e.len() < 4 {
            None
        } else {
            match focal_digits(e.subrange(1, 4)) {
                Some(ds) => if c == 0x4d {
                    Some(Some((InfoView::MaxFocalLength(decimal(ds) as u32), 4)))
                } else {
                    Some(Some((InfoView::MinFocalLength(decimal(ds) as u32), 4)))
                },
                None => None,
            }
        }
    } else if c == 0x55 {
        if e.len() < 2 {
            None
        } else {
            Some(Some((InfoView::Units(e[1] == 0x49 || e[1] == 0x42), 2)))
        }
    } else if c == 0x54 {
        if e.len() < 5 || !number2(e[1], e[2]) {
            None
        } else {
            Some(Some((InfoView::TransmissionFactor(seq![e[1] as char, e[2] as char]), 5)))
        }
    } else if c == 0x42 {
        if e.len() < 5 || !vstd::utf8::valid_utf8(e.subrange(1, 5)) {
            None
        } else {
            Some(Some((InfoView::FirmwareVersion(trimmed_text(e.subrange(1, 5))), 5)))
        }
    } else {
        Some(None)
    }
}

/// The fields of a lens information record read from `e`, and what is
/// left after them; `None` where a field is malformed.
pub open spec fn info_from(e: Seq<u8>) -> Option<(Seq<InfoView>, Seq<u8>)>
    decreases e.len(),
{
    if e.len() == 0 {
        Some((Seq::empty(), e))
    } else {
        match info_step(e) {
            None => None,
            Some(None) => Some((Seq::empty(), e)),
            Some(Some((f, n))) => if 0 < n <= e.len() {
                match info_from(e.subrange(n, e.len() as int)) {
                    Some((fs, rest)) => Some((seq![f] + fs, rest)),
                    None => None,
                }
            } else {
                None
            },
        }
    }
}

/// The big-endian `u16` at `i`.
pub open spec fn be16(d: Seq<u8>, i: int) -> u16 {
    be_uint(d.subrange(i, i + 2)) as u16
}

/// The big-endian `i16` at `i`.
pub open spec fn sbe16(d: Seq<u8>, i: int) -> i16 {
    signed(be_uint(d.subrange(i, i + 2)) as int, 16) as i16
}

/// The eight samples of three big-endian `i16` from `i`.
pub open spec fn triples_at(d: Seq<u8>, i: int) -> Seq<(i16, i16, i16)> {
    Seq::new(8, |k: int| (sbe16(d, i + 6 * k), sbe16(d, i + 6 * k + 2), sbe16(d, i + 6 * k + 4)))
}

/// Up to `n` inertial packets read from `g`, and what is left after them:
/// a packet of type 1 (gyroscope) or 2 (accelerometer) takes 51 bytes; a
/// line break ends the packets; `None` for a short packet or another type.
pub open spec fn packets_from(g: Seq<u8>, n: nat) -> Option<(Seq<RecordSpec>, Seq<u8>)>
    decreases n,
{
    if n == 0 || g.len() == 0 {
        Some((Seq::empty(), g))
    } else if g[0] == 1 || g[0] == 2 {
        if g.len() < 51 {
            None
        } else {
            match packets_from(g.subrange(51, g.len() as int), (n - 1) as nat) {
                Some((ps, rest)) => Some((seq![RecordSpec::Inertial(g[0] == 1, be16(g, 1), triples_at(g, 3))] + ps, rest)),
                None => None,
            }
        }
    } else if g[0] == 0x0a && g.len() > 1 && g[1] == 0x0d {
        Some((Seq::empty(), g))
    } else {
        None
    }
}

/// `s` without a leading line break (`0A 0D`).
pub open spec fn skip_crlf(s: Seq<u8>) -> Seq<u8> {
    if s.len() >= 2 && s[0] == 0x0a && s[1] == 0x0d {
        s.subrange(2, s.len() as int)
    } else {
        s
    }
}

/// The records of a data stream `d`, read one after another until the
/// data ends, a line break is all that is left, or a `0` byte comes.
pub open spec fn records_from(d: Seq<u8>) -> CookeOutcome
    decreases d.len(),
{
    if d.len() == 0 || (d.len() == 2 && d[0] == 0x0a && d[1] == 0x0d) {
        CookeOutcome::Records(Seq::empty())
    } else {
        let c = d[0];
        if c == 0x4e {
            if d.len() < 2 {
                CookeOutcome::Malformed
            } else if d[1] == 0x4e {
                CookeOutcome::Refused
            } else {
                match info_from(d.subrange(1, d.len() as int)) {
                    Some((fs, rest)) => if rest.len() < d.len() {
                        prepend(seq![RecordSpec::LensInfo(fs)], records_from(rest))
                    } else {
                        CookeOutcome::Malformed
                    },
                    None => CookeOutcome::Malformed,
                }
            }
        } else if c == 0x64 {
            let e = d.subrange(1, d.len() as int);
            if e.len() >= 36 {
                if kd_serials_valid(e) {
                    prepend(seq![RecordSpec::Kd(e)], records_from(kd_rest(e)))
                } else {
                    CookeOutcome::Malformed
                }
            } else {
                records_from(e)
            }
        } else if c == 0x69 {
            if d.len() < 52 || !kd_serials_valid(d.subrange(4, 42)) {
                CookeOutcome::Malformed
            } else {
                let f = d.subrange(42, d.len() as int);
                let mag = RecordSpec::Magnetometer(be16(f, 0), sbe16(f, 2), sbe16(f, 4), sbe16(f, 6));
                match packets_from(f.subrange(8, f.len() as int), ((d.len() - 52) / 51) as nat) {
                    Some((ps, rest)) => if skip_crlf(rest).len() < d.len() {
                        prepend(seq![RecordSpec::Kd(d.subrange(4, 42)), mag] + ps, records_from(skip_crlf(rest)))
                    } else {
                        CookeOutcome::Malformed
                    },
                    None => CookeOutcome::Malformed,
                }
            }
        } else if c == 0x4b {
            if d.len() < 2 {
                CookeOutcome::Malformed
            } else if d[1] == 0x36 || d[1] == 0x39 {
                if d.len() < 3 {
                    CookeOutcome::Malformed
                } else {
                    CookeOutcome::Refused
                }
            } else if d[1] == 0x4b {
                if d.len() < 3 {
                    CookeOutcome::Malformed
                } else if d[2] == 0x69 {
                    if d.len() < 4 {
                        CookeOutcome::Malformed
                    } else {
                        CookeOutcome::Refused
                    }
                } else if d[2] == 0x64 {
                    CookeOutcome::Refused
                } else {
                    CookeOutcome::Malformed
                }
            } else {
                CookeOutcome::Refused
            }
        } else if c == 0x7a {
            if d.len() >= 35 {
                let e = d.subrange(1, d.len() as int);
                prepend(seq![RecordSpec::Zeiss(e)], records_from(e.subrange(zeiss_used(e), e.len() as int)))
            } else {
                CookeOutcome::Malformed
            }
        } else if c == 0 {
            CookeOutcome::Records(Seq::empty())
        } else {
            CookeOutcome::Refused
        }
    }
}

/// How reading Cooke /i data `d` ends: refused when it is shorter than
/// three bytes or holds no record.
pub open spec fn cooke_outcome(d: Seq<u8>) -> CookeOutcome {
    if d.len() < 3 {
        CookeOutcome::Refused
    } else {
        match records_from(d) {
            CookeOutcome::Records(s) => if s.len() == 0 {
                CookeOutcome::Refused
            } else {
                CookeOutcome::Records(s)
            },
            o => o,
        }
    }
}

fn text_field(e: &[u8], n: usize) -> (r: Option<String>)
    requires
        1 <= n <= e.len(),
    ensures
        r is Some <==> vstd::utf8::valid_utf8(e@.subrange(1, n as int)),
        r matches Some(t) ==> t@ == trimmed_text(e@.subrange(1, n as int)),
{
    match utf8_strict(&e[1..n]) {
        Some(_) => Some(text_at(e, 1, n - 1)),
        None => None,
    }
}

fn focal_value(e: &[u8]) -> (r: Option<u32>)
    requires
        e.len() >= 4,
    ensures
        match focal_digits(e@.subrange(1, 4)) {
            Some(ds) => r == Some(decimal(ds) as u32) && decimal(ds) < 1000,
            None => r is None,
        },
{
    let ghost s = e@.subrange(1, 4);
    let mut j: usize = 1;
    while j < 4 && e[j] == 0x30
        invariant
            1 <= j <= 4,
            e.len() >= 4,
            s == e@.subrange(1, 4),
            skip_zeros(s) == skip_zeros(e@.subrange(j as int, 4)),
        decreases 4 - j,
    {
        assert(e@.subrange(j as int, 4).drop_first() =~= e@.subrange(j + 1, 4));
        j = j + 1;
    }
    let ghost t = e@.subrange(j as int, 4);
    assert(skip_zeros(s) == t);
    let mut a = j;
    if j < 4 && e[j] == 0x2b {
        if j + 1 >= 4 {
            return None;
        }
        a = j + 1;
        assert(t.drop_first() =~= e@.subrange(a as int, 4));
    } else if j >= 4 {
        return None;
    }
    let ghost ds = e@.subrange(a as int, 4);
    let mut k: usize = a;
    let mut v: u32 = 0;
    while k < 4
        invariant
            a <= k <= 4,
            e.len() >= 4,
            1 <= j <= a < 4,
            j < 4,
            ds == e@.subrange(a as int, 4),
            t == e@.subrange(j as int, 4),
            skip_zeros(e@.subrange(1, 4)) == t,
            a == j ==> e[j as int] != 0x2b,
            a != j ==> a == j + 1 && e[j as int] == 0x2b,
            all_digits(e@.subrange(a as int, k as int)),
            v == decimal(e@.subrange(a as int, k as int)),
            k == a ==> v == 0,
            k - a <= 1 ==> v < 10,
            k - a <= 2 ==> v < 100,
            v < 1000,
        decreases 4 - k,
    {
        if !(0x30 <= e[k] && e[k] <= 0x39) {
            assert(!is_digit(ds[k - a]));
            assert(!all_digits(ds));
            if a != j {
                assert(t.drop_first() =~= ds);
                assert(!is_digit(t[0]));
            } else {
                assert(t =~= ds);
            }
            return None;
        }
        assert(e@.subrange(a as int, k + 1).drop_last() =~= e@.subrange(a as int, k as int));
        v = v * 10 + (e[k] - 0x30) as u32;
        k = k + 1;
    }
    assert(e@.subrange(a as int, 4) =~= ds);
    if a != j {
        assert(t.drop_first() =~= ds);
        assert(!is_digit(t[0]));
    } else {
        assert(t =~= ds);
    }
    Some(v)
}

fn info_field_at(e: &[u8]) -> (r: Option<Option<(InfoField, usize)>>)
    requires
        e.len() > 0,
    ensures
        match info_step(e@) {
            None => r is None,
            Some(None) => r matches Some(None),
            Some(Some((f, n))) => r matches Some(Some((g, m))) && info_view(g) == f && m == n,
        },
{
    let c = e[0];
    let len = e.len();
    if c == 0x53 {
        if len < 10 {
            return None;
        }
        match text_field(e, 10) {
            Some(t) => Some(Some((InfoField::SerialNumber(t), 10))),
            None => None,
        }
    } else if c == 0x4f {
        if len < 32 {
            return None;
        }
        match text_field(e, 32) {
            Some(t) => Some(Some((InfoField::Owner(t), 32))),
            None => None,
        }
    } else if c == 0x4c {
        if len < 2 {
            return None;
        }
        Some(Some((InfoField::LensType(e[1] == 0x5a), 2)))
    } else if c == 0x4e || c == 0x66 || c == 0x4d {
        if len < 4 {
            return None;
        }
        match focal_value(e) {
            Some(v) => if c == 0x4d {
                Some(Some((InfoField::MaxFocalLength(v), 4)))
            } else {
                Some(Some((InfoField::MinFocalLength(v), 4)))
            },
            None => None,
        }
    } else if c == 0x55 {
        if len < 2 {
            return None;
        }
        Some(Some((InfoField::Units(e[1] == 0x49 || e[1] == 0x42), 2)))
    } else if c == 0x54 {
        if len < 5 {
            return None;
        }
        let a = e[1];
        let b = e[2];
        let da = 0x30 <= a && a <= 0x39;
        let db = 0x30 <= b && b <= 0x39;
        if !((da && db) || (da && b == 0x2e) || (a == 0x2e && db) || ((a == 0x2b || a == 0x2d) && db)) {
            return None;
        }
        let mut cs: Vec<char> = Vec::new();
        cs.push(a as char);
        cs.push(b as char);
        let t = crate::text::string_from_chars(cs.as_slice());
        assert(t@ =~= seq![a as char, b as char]);
        Some(Some((InfoField::TransmissionFactor(t), 5)))
    } else if c == 0x42 {
        if len < 5 {
            return None;
        }
        match text_field(e, 5) {
            Some(t) => Some(Some((InfoField::FirmwareVersion(t), 5))),
            None => None,
        }
    } else {
        Some(None)
    }
}

/// `pre` before the fields of `o`.
pub open spec fn info_then(pre: Seq<InfoView>, o: Option<(Seq<InfoView>, Seq<u8>)>) -> Option<(Seq<InfoView>, Seq<u8>)> {
    match o {
        Some((fs, rest)) => Some((pre + fs, rest)),
        None => None,
    }
}

fn info_fields(e: &[u8]) -> (r: Option<(Vec<InfoField>, usize)>)
    ensures
        match info_from(e@) {
            Some((fs, rest)) => r matches Some(p) && p.1 <= e.len() && p.0@.map_values(|f: InfoField| info_view(f)) == fs
                && e@.subrange(p.1 as int, e.len() as int) == rest,
            None => r is None,
        },
{
    let mut out: Vec<InfoField> = Vec::new();
    let mut pos: usize = 0;
    assert(e@.subrange(0, e.len() as int) =~= e@);
    assert(info_then(Seq::empty(), info_from(e@)) =~~= info_from(e@));
    loop
        invariant
            pos <= e.len(),
            info_from(e@) == info_then(out@.map_values(|f: InfoField| info_view(f)), info_from(e@.subrange(pos as int, e.len() as int))),
        decreases e.len() - pos,
    {
        let ghost pre = out@.map_values(|f: InfoField| info_view(f));
        let ghost rest = e@.subrange(pos as int, e.len() as int);
        if pos == e.len() {
            assert(pre + Seq::<InfoView>::empty() =~= pre);
            return Some((out, pos));
        }
        let step = info_field_at(&e[pos..e.len()]);
        match step {
            None => {
                return None;
            },
            Some(None) => {
                assert(pre + Seq::<InfoView>::empty() =~= pre);
                return Some((out, pos));
            },
            Some(Some((f, n))) => {
                let ghost fv = info_view(f);
                assert(rest.subrange(n as int, rest.len() as int) =~= e@.subrange(pos + n, e.len() as int));
                out.push(f);
                assert(out@.map_values(|f: InfoField| info_view(f)) =~= pre.push(fv));
                proof {
                    match info_from(e@.subrange(pos + n, e.len() as int)) {
                        Some((fs, r2)) => {
                            assert(pre + (seq![fv] + fs) =~= pre.push(fv) + fs);
                        },
                        None => {},
                    }
                }
                pos = pos + n;
            },
        }
    }
}

fn triples(g: &[u8]) -> (r: Vec<(i16, i16, i16)>)
    requires
        g.len() >= 51,
    ensures
        r@ == triples_at(g@, 3),
{
    let mut v: Vec<(i16, i16, i16)> = Vec::new();
    let mut k: usize = 0;
    while k < 8
        invariant
            k <= 8,
            g.len() >= 51,
            v@.len() == k,
            forall|j: int| 0 <= j < k ==> v@[j] == triples_at(g@, 3)[j],
        decreases 8 - k,
    {
        let i = 3 + 6 * k;
        let x = read_i16_be(&g[i..i + 2]);
        let y = read_i16_be(&g[i + 2..i + 4]);
        let z = read_i16_be(&g[i + 4..i + 6]);
        assert(g@.subrange(i as int, i + 2).subrange(0, 2) =~= g@.subrange(i as int, i + 2));
        assert(g@.subrange(i + 2, i + 4).subrange(0, 2) =~= g@.subrange(i + 2, i + 4));
        assert(g@.subrange(i + 4, i + 6).subrange(0, 2) =~= g@.subrange(i + 4, i + 6));
        v.push((x, y, z));
        k = k + 1;
    }
    assert(v@ =~= triples_at(g@, 3));
    v
}

/// `pre` before the packets of `o`.
pub open spec fn packets_then(pre: Seq<RecordSpec>, o: Option<(Seq<RecordSpec>, Seq<u8>)>) -> Option<(Seq<RecordSpec>, Seq<u8>)> {
    match o {
        Some((ps, rest)) => Some((pre + ps, rest)),
        None => None,
    }
}

proof fn lemma_match_push(v: Seq<CookeRecord>, s: Seq<RecordSpec>, r: CookeRecord, x: RecordSpec)
    requires
        records_match(v, s),
        record_matches(r, x),
    ensures
        records_match(v.push(r), s.push(x)),
{
    assert forall|i: int| 0 <= i < v.len() + 1 implies record_matches(#[trigger] v.push(r)[i], s.push(x)[i]) by {
        if i < v.len() {
            assert(v.push(r)[i] == v[i]);
        }
    }
}

proof fn lemma_match_concat(v: Seq<CookeRecord>, s: Seq<RecordSpec>, w: Seq<CookeRecord>, t: Seq<RecordSpec>)
    requires
        records_match(v, s),
        records_match(w, t),
    ensures
        records_match(v + w, s + t),
{
    assert forall|i: int| 0 <= i < v.len() + w.len() implies record_matches(#[trigger] (v + w)[i], (s + t)[i]) by {
        if i < v.len() {
            assert((v + w)[i] == v[i]);
        } else {
            assert((v + w)[i] == w[i - v.len()]);
        }
    }
}

fn packets_at(g: &[u8], n: usize) -> (r: Option<(Vec<CookeRecord>, usize)>)
    ensures
        match packets_from(g@, n as nat) {
            Some((ps, rest)) => r matches Some(p) && p.1 <= g.len() && records_match(p.0@, ps)
                && g@.subrange(p.1 as int, g.len() as int) == rest,
            None => r is None,
        },
{
    let mut out: Vec<CookeRecord> = Vec::new();
    let ghost mut done: Seq<RecordSpec> = Seq::empty();
    let mut pos: usize = 0;
    let mut left: usize = n;
    assert(g@.subrange(0, g.len() as int) =~= g@);
    assert(packets_then(Seq::empty(), packets_from(g@, n as nat)) =~~= packets_from(g@, n as nat));
    loop
        invariant
            pos <= g.len(),
            records_match(out@, done),
            packets_from(g@, n as nat) == packets_then(done, packets_from(g@.subrange(pos as int, g.len() as int), left as nat)),
        decreases left,
    {
        let ghost rest = g@.subrange(pos as int, g.len() as int);
        if left == 0 || pos == g.len() {
            assert(done + Seq::<RecordSpec>::empty() =~= done);
            return Some((out, pos));
        }
        let t = g[pos];
        if t == 1 || t == 2 {
            if g.len() - pos < 51 {
                return None;
            }
            let h = &g[pos..g.len()];
            let ts = read_u16_be(&h[1..3]);
            assert(h@.subrange(1, 3).subrange(0, 2) =~= h@.subrange(1, 3));
            let samples = triples(h);
            let ghost x = RecordSpec::Inertial(t == 1, be16(h@, 1), triples_at(h@, 3));
            let rec = CookeRecord::Inertial { gyro: t == 1, timestamp: ts, samples };
            proof {
                lemma_match_push(out@, done, rec, x);
            }
            out.push(rec);
            assert(rest.subrange(51, rest.len() as int) =~= g@.subrange(pos + 51, g.len() as int));
            proof {
                match packets_from(g@.subrange(pos + 51, g.len() as int), (left - 1) as nat) {
                    Some((ps, r2)) => {
                        assert(done + (seq![x] + ps) =~= done.push(x) + ps);
                    },
                    None => {},
                }
                done = done.push(x);
            }
            pos = pos + 51;
            left = left - 1;
        } else if t == 0x0a && g.len() - pos > 1 && g[pos + 1] == 0x0d {
            assert(done + Seq::<RecordSpec>::empty() =~= done);
            return Some((out, pos));
        } else {
            return None;
        }
    }
}

proof fn lemma_prepend(pre: Seq<RecordSpec>, mid: Seq<RecordSpec>, o: CookeOutcome)
    ensures
        prepend(pre, prepend(mid, o)) == prepend(pre + mid, o),
{
    match o {
        CookeOutcome::Records(s) => {
            assert(pre + (mid + s) =~= (pre + mid) + s);
        },
        _ => {},
    }
}

fn kd_valid(e: &[u8]) -> (b: bool)
    requires
        e.len() >= 36,
    ensures
        b == kd_serials_valid(e@),
{
    if e[26] == 0x53 && utf8_strict(&e[27..36]).is_none() {
        return false;
    }
    let p: usize = if e[26] == 0x53 {
        36
    } else {
        0
    };
    let ghost a = if e@[26] == 0x53 {
        e@.subrange(36, e@.len() as int)
    } else {
        e@
    };
    assert(a =~= e@.subrange(p as int, e@.len() as int));
    if e.len() - p >= 38 && e[p + 28] == 0x53 {
        assert(a.subrange(29, 38) =~= e@.subrange(p + 29, p + 38));
        return utf8_strict(&e[p + 29..p + 38]).is_some();
    }
    true
}

/// What one step of reading gives: the end of the records, a refusal, a
/// malformed record, or records and the position after them.
enum Step {
    Stop,
    Refused,
    Malformed,
    Read(Vec<CookeRecord>, usize, Ghost<Seq<RecordSpec>>),
}

/// `r` is what the records from `pos` start with.
spec fn step_spec(d: Seq<u8>, pos: int, r: Step) -> bool {
    match r {
        Step::Stop => records_from(d.subrange(pos, d.len() as int)) == CookeOutcome::Records(Seq::empty()),
        Step::Refused => records_from(d.subrange(pos, d.len() as int)) is Refused,
        Step::Malformed => records_from(d.subrange(pos, d.len() as int)) is Malformed,
        Step::Read(v, p2, xs) => pos < p2 <= d.len() && records_match(v@, xs@) && records_from(d.subrange(pos, d.len() as int))
            == prepend(xs@, records_from(d.subrange(p2 as int, d.len() as int))),
    }
}

fn one_record(rec: CookeRecord, p2: usize, Ghost(x): Ghost<RecordSpec>) -> (r: Step)
    requires
        record_matches(rec, x),
    ensures
        r matches Step::Read(v, q, xs) && q == p2 && xs@ == seq![x] && records_match(v@, xs@),
{
    let mut v: Vec<CookeRecord> = Vec::new();
    proof {
        lemma_match_push(v@, Seq::empty(), rec, x);
    }
    v.push(rec);
    let ghost xs = seq![x];
    assert(Seq::<RecordSpec>::empty().push(x) =~= xs);
    Step::Read(v, p2, Ghost(xs))
}

fn read_info(d: &[u8], pos: usize) -> (r: Step)
    requires
        pos + 2 <= d.len(),
        d[pos as int] == 0x4e,
        d[pos + 1] != 0x4e,
    ensures
        step_spec(d@, pos as int, r),
{
    let len = d.len();
    let ghost e = d@.subrange(pos as int, len as int);
    assert(e.subrange(1, e.len() as int) =~= d@.subrange(pos + 1, len as int));
    match info_fields(&d[pos + 1..len]) {
        None => Step::Malformed,
        Some((fs, used)) => {
            let ghost x = RecordSpec::LensInfo(fs@.map_values(|f: InfoField| info_view(f)));
            assert(d@.subrange(pos + 1, len as int).subrange(used as int, len - pos - 1) =~= d@.subrange(
                pos + 1 + used,
                len as int,
            ));
            one_record(CookeRecord::LensInfo(fs), pos + 1 + used, Ghost(x))
        },
    }
}

fn read_kd(d: &[u8], pos: usize) -> (r: Step)
    requires
        pos + 1 <= d.len(),
        d[pos as int] == 0x64,
    ensures
        step_spec(d@, pos as int, r),
{
    let len = d.len();
    let ghost e = d@.subrange(pos as int, len as int);
    assert(e.subrange(1, e.len() as int) =~= d@.subrange(pos + 1, len as int));
    if len - pos - 1 < 36 {
        let ghost xs = Seq::<RecordSpec>::empty();
        return Step::Read(Vec::new(), pos + 1, Ghost(xs));
    }
    let k = &d[pos + 1..len];
    if !kd_valid(k) {
        return Step::Malformed;
    }
    match parse_kd(k) {
        Some((kr, used)) => {
            assert(k@.subrange(used as int, k@.len() as int) =~= d@.subrange(pos + 1 + used, len as int));
            one_record(CookeRecord::Kd(kr), pos + 1 + used, Ghost(RecordSpec::Kd(k@)))
        },
        None => Step::Malformed,
    }
}

fn read_zeiss(d: &[u8], pos: usize) -> (r: Step)
    requires
        pos + 1 <= d.len(),
        d[pos as int] == 0x7a,
    ensures
        step_spec(d@, pos as int, r),
{
    let len = d.len();
    if len - pos < 35 {
        return Step::Malformed;
    }
    let ghost e = d@.subrange(pos as int, len as int);
    let z = &d[pos + 1..len];
    assert(z@ =~= e.subrange(1, e.len() as int));
    match parse_zeiss(z) {
        Some((zr, used)) => {
            assert(z@.subrange(used as int, z@.len() as int) =~= d@.subrange(pos + 1 + used, len as int));
            one_record(CookeRecord::Zeiss(zr), pos + 1 + used, Ghost(RecordSpec::Zeiss(z@)))
        },
        None => Step::Malformed,
    }
}

#[verifier::rlimit(40)]
fn read_kdi(d: &[u8], pos: usize) -> (r: Step)
    requires
        pos + 1 <= d.len(),
        d[pos as int] == 0x69,
    ensures
        step_spec(d@, pos as int, r),
{
    let len = d.len();
    let rl = len - pos;
    if rl < 52 {
        return Step::Malformed;
    }
    let ghost e = d@.subrange(pos as int, len as int);
    let k = &d[pos + 4..pos + 42];
    assert(k@ =~= e.subrange(4, 42));
    if !kd_valid(k) {
        return Step::Malformed;
    }
    let kr = match parse_kd(k) {
        Some((kr, _)) => kr,
        None => {
            return Step::Malformed;
        },
    };
    let ghost f = e.subrange(42, e.len() as int);
    let f_ts = read_u16_be(&d[pos + 42..pos + 44]);
    let mx = read_i16_be(&d[pos + 44..pos + 46]);
    let my = read_i16_be(&d[pos + 46..pos + 48]);
    let mz = read_i16_be(&d[pos + 48..pos + 50]);
    assert(d@.subrange(pos + 42, pos + 44).subrange(0, 2) =~= f.subrange(0, 2));
    assert(d@.subrange(pos + 44, pos + 46).subrange(0, 2) =~= f.subrange(2, 4));
    assert(d@.subrange(pos + 46, pos + 48).subrange(0, 2) =~= f.subrange(4, 6));
    assert(d@.subrange(pos + 48, pos + 50).subrange(0, 2) =~= f.subrange(6, 8));
    let n = (rl - 52) / 51;
    assert(f.subrange(8, f.len() as int) =~= d@.subrange(pos + 50, len as int));
    match packets_at(&d[pos + 50..len], n) {
        None => Step::Malformed,
        Some((mut ps, used)) => {
            let ghost rest = d@.subrange(pos + 50 + used, len as int);
            assert(d@.subrange(pos + 50, len as int).subrange(used as int, len - pos - 50) =~= rest);
            let mut p2 = pos + 50 + used;
            if len - p2 >= 2 && d[p2] == 0x0a && d[p2 + 1] == 0x0d {
                assert(rest.subrange(2, rest.len() as int) =~= d@.subrange(p2 + 2, len as int));
                p2 = p2 + 2;
            }
            assert(skip_crlf(rest) == d@.subrange(p2 as int, len as int));
            let ghost psv = packets_from(f.subrange(8, f.len() as int), n as nat)->Some_0.0;
            let ghost xk = RecordSpec::Kd(k@);
            let ghost xm = RecordSpec::Magnetometer(be16(f, 0), sbe16(f, 2), sbe16(f, 4), sbe16(f, 6));
            let rk = CookeRecord::Kd(kr);
            let rm = CookeRecord::Magnetometer { timestamp: f_ts, x: mx, y: my, z: mz };
            let mut v: Vec<CookeRecord> = Vec::new();
            proof {
                lemma_match_push(v@, Seq::empty(), rk, xk);
                lemma_match_push(v@.push(rk), Seq::empty().push(xk), rm, xm);
                lemma_match_concat(v@.push(rk).push(rm), Seq::empty().push(xk).push(xm), ps@, psv);
                assert(Seq::empty().push(xk).push(xm) + psv =~= seq![xk, xm] + psv);
            }
            v.push(rk);
            v.push(rm);
            v.append(&mut ps);
            let ghost xs = seq![xk, xm] + psv;
            Step::Read(v, p2, Ghost(xs))
        },
    }
}

fn step_at(d: &[u8], pos: usize) -> (r: Step)
    requires
        pos <= d.len(),
    ensures
        step_spec(d@, pos as int, r),
{
    let len = d.len();
    let rl = len - pos;
    if rl == 0 || (rl == 2 && d[pos] == 0x0a && d[pos + 1] == 0x0d) || d[pos] == 0 {
        return Step::Stop;
    }
    let c = d[pos];
    if c == 0x4e {
        if rl < 2 {
            Step::Malformed
        } else if d[pos + 1] == 0x4e {
            Step::Refused
        } else {
            read_info(d, pos)
        }
    } else if c == 0x64 {
        read_kd(d, pos)
    } else if c == 0x69 {
        read_kdi(d, pos)
    } else if c == 0x4b {
        if rl < 2 {
            return Step::Malformed;
        }
        let c1 = d[pos + 1];
        if c1 == 0x36 || c1 == 0x39 {
            if rl < 3 {
                Step::Malformed
            } else {
                Step::Refused
            }
        } else if c1 == 0x4b {
            if rl < 3 {
                return Step::Malformed;
            }
            let c2 = d[pos + 2];
            if c2 == 0x69 {
                if rl < 4 {
                    Step::Malformed
                } else {
                    Step::Refused
                }
            } else if c2 == 0x64 {
                Step::Refused
            } else {
                Step::Malformed
            }
        } else {
            Step::Refused
        }
    } else if c == 0x7a {
        read_zeiss(d, pos)
    } else {
        Step::Refused
    }
}

/// How reading Cooke /i data ends, with the records read.
pub enum CookeParse {
    Records(Vec<CookeRecord>),
    Refused,
    Malformed,
}

/// Reads the records of Cooke /i data (see `records_from`): refused for
/// data shorter than three bytes, holding no record, or holding a record
/// kind that is not read; malformed where a record lacks the bytes or the
/// text its kind needs.
pub fn parse_outcome(d: &[u8]) -> (r: CookeParse)
    ensures
        match cooke_outcome(d@) {
            CookeOutcome::Records(s) => r matches CookeParse::Records(v) && records_match(v@, s),
            CookeOutcome::Refused => r is Refused,
            CookeOutcome::Malformed => r is Malformed,
        },
{
    if d.len() < 3 {
        return CookeParse::Refused;
    }
    let mut out: Vec<CookeRecord> = Vec::new();
    let ghost mut done: Seq<RecordSpec> = Seq::empty();
    let mut pos: usize = 0;
    let len = d.len();
    assert(d@.subrange(0, len as int) =~= d@);
    assert(prepend(Seq::empty(), records_from(d@)) =~~= records_from(d@));
    loop
        invariant
            len == d.len() >= 3,
            pos <= len,
            records_match(out@, done),
            records_from(d@) == prepend(done, records_from(d@.subrange(pos as int, len as int))),
        ensures
            records_match(out@, done),
            records_from(d@) == CookeOutcome::Records(done),
        decreases len - pos,
    {
        match step_at(d, pos) {
            Step::Stop => {
                assert(done + Seq::<RecordSpec>::empty() =~= done);
                break;
            },
            Step::Refused => {
                return CookeParse::Refused;
            },
            Step::Malformed => {
                return CookeParse::Malformed;
            },
            Step::Read(mut v, p2, xs) => {
                proof {
                    lemma_match_concat(out@, done, v@, xs@);
                    lemma_prepend(done, xs@, records_from(d@.subrange(p2 as int, len as int)));
                    done = done + xs@;
                }
                out.append(&mut v);
                pos = p2;
            },
        }
    }
    if out.len() == 0 {
        CookeParse::Refused
    } else {
        CookeParse::Records(out)
    }
}

/// Reads the records of Cooke /i data (see `parse_outcome`); `None` where
/// the data is refused.
pub fn parse(d: &[u8]) -> (r: Option<Vec<CookeRecord>>)
    requires
        !(cooke_outcome(d@) is Malformed),
    ensures
        match cooke_outcome(d@) {
            CookeOutcome::Records(s) => r matches Some(v) && records_match(v@, s),
            _ => r is None,
        },
{
    match parse_outcome(d) {
        CookeParse::Records(v) => Some(v),
        _ => None,
    }
}


/// The two bytes at `p`, most significant first, as a two's complement
/// 16-bit number.
pub open spec fn be_i16_bytes(d: Seq<u8>, p: int) -> int {
    if be2(d, p) >= 32768 {
        be2(d, p) - 65536
    } else {
        be2(d, p)
    }
}

proof fn lemma_sbe16_bytes(d: Seq<u8>, p: int)
    requires
        0 <= p,
        p + 2 <= d.len(),
    ensures
        sbe16(d, p) as int == be_i16_bytes(d, p),
        be16(d, p) as int == be2(d, p),
{
    lemma_be_at_2(d, p);
}

/// The fields of a `Kd` record, by their bytes: each byte carries six bits
/// (its value modulo 64) of a number, most significant first. Focus
/// distance: bytes 0-3; aperture value: 4-5; T-number: the top bit (bit 6)
/// of byte 7 above the seven low bits of byte 6, with the tenths in the
/// low four bits of byte 7; focal length: the low four bits of byte 8 above
/// six of byte 9; hyperfocal, near and far focus distance: bytes 10-13,
/// 14-17 and 18-21; horizontal field of view: 22-23; entrance pupil: a
/// magnitude like the focal length in bytes 24-25, negative where bit 5 of
/// byte 24 is set.
pub proof fn lemma_kd_layout(d: Seq<u8>, k: KdRecord)
    requires
        d.len() >= 26,
        kd_fields(d, k),
    ensures
        k.focus_distance == (d[0] % 64) * 262144 + (d[1] % 64) * 4096 + (d[2] % 64) * 64 + d[3] % 64,
        k.aperture_value == (d[4] % 64) * 64 + d[5] % 64,
        k.t_number == ((d[7] / 64) % 2) * 128 + d[6] % 128,
        k.tenths == d[7] % 16,
        k.focal_length == (d[8] % 16) * 64 + d[9] % 64,
        k.hyperfocal_distance == (d[10] % 64) * 262144 + (d[11] % 64) * 4096 + (d[12] % 64) * 64 + d[13] % 64,
        k.near_focus_distance == (d[14] % 64) * 262144 + (d[15] % 64) * 4096 + (d[16] % 64) * 64 + d[17] % 64,
        k.far_focus_distance == (d[18] % 64) * 262144 + (d[19] % 64) * 4096 + (d[20] % 64) * 64 + d[21] % 64,
        k.horizontal_fov == (d[22] % 64) * 64 + d[23] % 64,
        k.entrance_pupil_position == (if (d[24] / 32) % 2 == 1 { -((d[24] % 16) * 64 + d[25] % 64) } else { (d[24] % 16) * 64 + d[25] % 64 }),
{
}

/// The fields of a ZEISS record, by their bytes (six bits per byte as in
/// `Kd` records): focus distance bytes 0-3, T-number and tenths bytes 4-5,
/// horizontal field of view 6-7, entrance pupil 8-9, then six shading and
/// six distortion values, big-endian `i16`, from bytes 10 and 22.
pub proof fn lemma_zeiss_layout(d: Seq<u8>, z: ZeissRecord)
    requires
        d.len() >= 34,
        zeiss_fields(d, z),
    ensures
        z.focus_distance == (d[0] % 64) * 262144 + (d[1] % 64) * 4096 + (d[2] % 64) * 64 + d[3] % 64,
        z.t_number == ((d[5] / 64) % 2) * 128 + d[4] % 128,
        z.tenths == d[5] % 16,
        z.horizontal_fov == (d[6] % 64) * 64 + d[7] % 64,
        z.entrance_pupil_position == (if (d[8] / 32) % 2 == 1 { -((d[8] % 16) * 64 + d[9] % 64) } else { (d[8] % 16) * 64 + d[9] % 64 }),
        z.shading@.len() == 6 && z.distortion@.len() == 6,
        forall|k: int| 0 <= k < 6 ==> #[trigger] z.shading@[k] as int == be_i16_bytes(d, 10 + 2 * k),
        forall|k: int| 0 <= k < 6 ==> #[trigger] z.distortion@[k] as int == be_i16_bytes(d, 22 + 2 * k),
{
    assert forall|k: int| 0 <= k < 6 implies #[trigger] z.shading@[k] as int == be_i16_bytes(d, 10 + 2 * k) by {
        lemma_be_at_2(d, 10 + 2 * k);
    }
    assert forall|k: int| 0 <= k < 6 implies #[trigger] z.distortion@[k] as int == be_i16_bytes(d, 22 + 2 * k) by {
        lemma_be_at_2(d, 22 + 2 * k);
    }
}

/// An inertial packet is 51 bytes: its type (1 gyroscope, 2
/// accelerometer), a big-endian `u16` timestamp at bytes 1-2, then eight
/// samples of x, y, z as big-endian `i16`, sample `k` at bytes `3 + 6 * k`,
/// `5 + 6 * k` and `7 + 6 * k`; the next packet starts at byte 51.
pub proof fn lemma_inertial_packet_layout(g: Seq<u8>, n: nat)
    requires
        n > 0,
        g.len() >= 51,
        g[0] == 1 || g[0] == 2,
    ensures
        packets_from(g, n) matches Some((ps, rest)) ==> ps.len() > 0 && packets_from(g.subrange(51, g.len() as int), (n - 1) as nat)
            == Some((ps.drop_first(), rest)) && (ps[0] matches RecordSpec::Inertial(gy, t, w) && gy == (g[0] == 1)
            && t == be2(g, 1) && w.len() == 8 && forall|k: int| 0 <= k < 8 ==> (#[trigger] w[k]).0 == be_i16_bytes(g, 3 + 6 * k)
            && w[k].1 == be_i16_bytes(g, 5 + 6 * k) && w[k].2 == be_i16_bytes(g, 7 + 6 * k)),
{
    lemma_sbe16_bytes(g, 1);
    match packets_from(g, n) {
        Some((ps, rest)) => {
            let inner = packets_from(g.subrange(51, g.len() as int), (n - 1) as nat);
            assert(inner is Some);
            assert(ps.drop_first() =~= inner->Some_0.0);
            let w = triples_at(g, 3);
            assert forall|k: int| 0 <= k < 8 implies (#[trigger] w[k]).0 == be_i16_bytes(g, 3 + 6 * k)
                && w[k].1 == be_i16_bytes(g, 5 + 6 * k) && w[k].2 == be_i16_bytes(g, 7 + 6 * k) by {
                lemma_sbe16_bytes(g, 3 + 6 * k);
                lemma_sbe16_bytes(g, 3 + 6 * k + 2);
                lemma_sbe16_bytes(g, 3 + 6 * k + 4);
            }
        },
        None => {},
    }
}
} // verus!
