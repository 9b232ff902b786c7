//! The values of Canon metadata tags: each tag id names how its bytes
//! encode the value, big-endian.

use vstd::prelude::*;
use crate::bytes::{be_uint, read_u16_be, read_u32_be};
use crate::canon::read_utf8;
use crate::tags::ParseError;

verus! {

/// How the value of a tag is encoded: 1 aperture display mode, 2 text,
/// 3 `u32`, 4 `f32`, 5 two `u16`, 6 four bytes, 7 `u16`, 8 a flag set by 0,
/// 9 a flag set by 1, 10 `u8`, 11 two `u32` (numerator, denominator),
/// 12 `f16` triples, 13 a timestamp, 14 eight `f32`, 15 two `f32`, 16 a
/// UUID, 0 an unknown tag.
pub open spec fn kind_of_tag(tag: u16) -> u8 {
    if tag == 0xe100 {
        1
    } else if tag == 0xe108 {
        2
    } else if tag == 0xe109 {
        2
    } else if tag == 0xe10d {
        3
    } else if tag == 0xe117 {
        3
    } else if tag == 0xe118 {
        3
    } else if tag == 0xe119 {
        2
    } else if tag == 0xe11e {
        4
    } else if tag == 0xe219 {
        5
    } else if tag == 0xe21a {
        6
    } else if tag == 0xe204 {
        7
    } else if tag == 0xe205 {
        7
    } else if tag == 0xe206 {
        5
    } else if tag == 0xe207 {
        5
    } else if tag == 0xe209 {
        3
    } else if tag == 0xe20a {
        3
    } else if tag == 0xe11f {
        4
    } else if tag == 0xe120 {
        4
    } else if tag == 0xe203 {
        5
    } else if tag == 0xe210 {
        2
    } else if tag == 0xe21b {
        8
    } else if tag == 0xe222 {
        9
    } else if tag == 0xe224 {
        10
    } else if tag == 0xe225 {
        10
    } else if tag == 0xe226 {
        10
    } else if tag == 0xe228 {
        2
    } else if tag == 0xe229 {
        2
    } else if tag == 0xe22a {
        2
    } else if tag == 0xe22b {
        7
    } else if tag == 0xe231 {
        11
    } else if tag == 0xe21f {
        12
    } else if tag == 0xe220 {
        12
    } else if tag == 0xe227 {
        13
    } else if tag == 0xe121 {
        14
    } else if tag == 0xe11d {
        15
    } else if tag == 0xe211 {
        16
    } else if tag == 0xe212 {
        16
    } else {
        0
    }
}

fn tag_kind(tag: u16) -> (k: u8)
    ensures
        k == kind_of_tag(tag),
{
    if tag == 0xe100 {
        1
    } else if tag == 0xe108 {
        2
    } else if tag == 0xe109 {
        2
    } else if tag == 0xe10d {
        3
    } else if tag == 0xe117 {
        3
    } else if tag == 0xe118 {
        3
    } else if tag == 0xe119 {
        2
    } else if tag == 0xe11e {
        4
    } else if tag == 0xe219 {
        5
    } else if tag == 0xe21a {
        6
    } else if tag == 0xe204 {
        7
    } else if tag == 0xe205 {
        7
    } else if tag == 0xe206 {
        5
    } else if tag == 0xe207 {
        5
    } else if tag == 0xe209 {
        3
    } else if tag == 0xe20a {
        3
    } else if tag == 0xe11f {
        4
    } else if tag == 0xe120 {
        4
    } else if tag == 0xe203 {
        5
    } else if tag == 0xe210 {
        2
    } else if tag == 0xe21b {
        8
    } else if tag == 0xe222 {
        9
    } else if tag == 0xe224 {
        10
    } else if tag == 0xe225 {
        10
    } else if tag == 0xe226 {
        10
    } else if tag == 0xe228 {
        2
    } else if tag == 0xe229 {
        2
    } else if tag == 0xe22a {
        2
    } else if tag == 0xe22b {
        7
    } else if tag == 0xe231 {
        11
    } else if tag == 0xe21f {
        12
    } else if tag == 0xe220 {
        12
    } else if tag == 0xe227 {
        13
    } else if tag == 0xe121 {
        14
    } else if tag == 0xe11d {
        15
    } else if tag == 0xe211 {
        16
    } else if tag == 0xe212 {
        16
    } else {
        0
    }
}

/// The group, the name and the description of a tag.
pub open spec fn tag_names(tag: u16) -> (Seq<char>, Seq<char>, Seq<char>) {
    if tag == 0xe100 {
        ("Lens"@, "ApertureDisplayMode"@, "Aperture Display Mode"@)
    } else if tag == 0xe108 {
        ("Lens"@, "SerialNumber"@, "Lens Serial Number"@)
    } else if tag == 0xe109 {
        ("Lens"@, "DisplayName"@, "Lens Type"@)
    } else if tag == 0xe10d {
        ("Lens"@, "LensZoomNative"@, "LensZoom (Actual Focal Length)"@)
    } else if tag == 0xe117 {
        ("Lens"@, "FocalLengthNative"@, "Focal Length (native)"@)
    } else if tag == 0xe118 {
        ("Lens"@, "LensZoom35mm"@, "LensZoom (35mm Still Camera Equivalent)"@)
    } else if tag == 0xe119 {
        ("Lens"@, "Data2"@, "Lens Make"@)
    } else if tag == 0xe11e {
        ("Lens"@, "FocalLength"@, "Focal length"@)
    } else if tag == 0xe219 {
        ("Lens"@, "DistortionPixelCenter"@, "OpenCV Distortion Center Pixel"@)
    } else if tag == 0xe21a {
        ("Lens"@, "EnabledCorrections"@, "Optical Correction (Vignetting, Chroma Aberration, Distortion, Breathing)"@)
    } else if tag == 0xe204 {
        ("Imager"@, "PixelHeight"@, "Image Sensor Pixel Effective Height"@)
    } else if tag == 0xe205 {
        ("Imager"@, "PixelWidth"@, "Image Sensor Pixel Effective Width"@)
    } else if tag == 0xe206 {
        ("Imager"@, "EffectiveMarkerAspectRatio"@, "Effective Marker Aspect Ratio"@)
    } else if tag == 0xe207 {
        ("Imager"@, "ActiveAreaAspectRatio"@, "Active Area Aspect Ratio"@)
    } else if tag == 0xe209 {
        ("Imager"@, "FrameReadoutTime"@, "Sensor readout time"@)
    } else if tag == 0xe20a {
        ("Imager"@, "ExposureTime"@, "Exposure time"@)
    } else if tag == 0xe11f {
        ("Default"@, "SensorWidth"@, "Imager Dimension (Effective Width)"@)
    } else if tag == 0xe120 {
        ("Default"@, "SensorHeight"@, "Imager Dimension (Effective Height)"@)
    } else if tag == 0xe203 {
        ("Default"@, "PixelAspectRatio"@, "Image Sensor Pixel Aspect Ratio"@)
    } else if tag == 0xe210 {
        ("Default"@, "LookFileName"@, "Look File Name"@)
    } else if tag == 0xe21b {
        ("Default"@, "ImageStabilizer"@, "Optical Image Stabilizer"@)
    } else if tag == 0xe222 {
        ("Default"@, "RollingShutterCorrection"@, "RS Distortion Flag"@)
    } else if tag == 0xe224 {
        ("Default"@, "LensStabilizerMode"@, "Lens Image Stabilizer Mode"@)
    } else if tag == 0xe225 {
        ("Default"@, "IBISStabilizerMode"@, "In-Body Image Stabilizer Mode"@)
    } else if tag == 0xe226 {
        ("Default"@, "EISStabilizerMode"@, "Electronic Image Stabilizer Mode"@)
    } else if tag == 0xe228 {
        ("Default"@, "Name"@, "Model name"@)
    } else if tag == 0xe229 {
        ("Default"@, "SerialNumber"@, "Camera Serial Number"@)
    } else if tag == 0xe22a {
        ("Default"@, "Firmware"@, "Camera firmware"@)
    } else if tag == 0xe22b {
        ("Default"@, "AnamorphicSqueezeRatio"@, "Anamorphic Squeeze Ratio"@)
    } else if tag == 0xe231 {
        ("Exposure"@, "ShutterSpeed2"@, "Shutter Speed"@)
    } else if tag == 0xe21f {
        ("Gyroscope"@, "Data"@, "Gyroscope data"@)
    } else if tag == 0xe220 {
        ("Accelerometer"@, "Data"@, "Accelerometer data"@)
    } else if tag == 0xe227 {
        ("Default"@, "TimestampMs"@, "Timestamp per frame"@)
    } else if tag == 0xe121 {
        ("Lens"@, "Distortion"@, "OpenCV distortion param"@)
    } else if tag == 0xe11d {
        ("Lens"@, "PixelFocalLength"@, "Focal Length Expressed in Pixel Unit"@)
    } else if tag == 0xe211 {
        ("Colors"@, "CaptureGammaEquation"@, "Capture Gamma Equation"@)
    } else if tag == 0xe212 {
        ("Colors"@, "ColorPrimaries"@, "Color Primaries"@)
    } else {
        ("Unknown"@, "Unknown"@, "Unknown"@)
    }
}

/// The group, the name and the description of a tag (see `tag_names`).
pub fn describe_tag(tag: u16) -> (r: (String, String, String))
    ensures
        (r.0@, r.1@, r.2@) == tag_names(tag),
{
    if tag == 0xe100 {
        ("Lens".to_owned(), "ApertureDisplayMode".to_owned(), "Aperture Display Mode".to_owned())
    } else if tag == 0xe108 {
        ("Lens".to_owned(), "SerialNumber".to_owned(), "Lens Serial Number".to_owned())
    } else if tag == 0xe109 {
        ("Lens".to_owned(), "DisplayName".to_owned(), "Lens Type".to_owned())
    } else if tag == 0xe10d {
        ("Lens".to_owned(), "LensZoomNative".to_owned(), "LensZoom (Actual Focal Length)".to_owned())
    } else if tag == 0xe117 {
        ("Lens".to_owned(), "FocalLengthNative".to_owned(), "Focal Length (native)".to_owned())
    } else if tag == 0xe118 {
        ("Lens".to_owned(), "LensZoom35mm".to_owned(), "LensZoom (35mm Still Camera Equivalent)".to_owned())
    } else if tag == 0xe119 {
        ("Lens".to_owned(), "Data2".to_owned(), "Lens Make".to_owned())
    } else if tag == 0xe11e {
        ("Lens".to_owned(), "FocalLength".to_owned(), "Focal length".to_owned())
    } else if tag == 0xe219 {
        ("Lens".to_owned(), "DistortionPixelCenter".to_owned(), "OpenCV Distortion Center Pixel".to_owned())
    } else if tag == 0xe21a {
        ("Lens".to_owned(), "EnabledCorrections".to_owned(), "Optical Correction (Vignetting, Chroma Aberration, Distortion, Breathing)".to_owned())
    } else if tag == 0xe204 {
        ("Imager".to_owned(), "PixelHeight".to_owned(), "Image Sensor Pixel Effective Height".to_owned())
    } else if tag == 0xe205 {
        ("Imager".to_owned(), "PixelWidth".to_owned(), "Image Sensor Pixel Effective Width".to_owned())
    } else if tag == 0xe206 {
        ("Imager".to_owned(), "EffectiveMarkerAspectRatio".to_owned(), "Effective Marker Aspect Ratio".to_owned())
    } else if tag == 0xe207 {
        ("Imager".to_owned(), "ActiveAreaAspectRatio".to_owned(), "Active Area Aspect Ratio".to_owned())
    } else if tag == 0xe209 {
        ("Imager".to_owned(), "FrameReadoutTime".to_owned(), "Sensor readout time".to_owned())
    } else if tag == 0xe20a {
        ("Imager".to_owned(), "ExposureTime".to_owned(), "Exposure time".to_owned())
    } else if tag == 0xe11f {
        ("Default".to_owned(), "SensorWidth".to_owned(), "Imager Dimension (Effective Width)".to_owned())
    } else if tag == 0xe120 {
        ("Default".to_owned(), "SensorHeight".to_owned(), "Imager Dimension (Effective Height)".to_owned())
    } else if tag == 0xe203 {
        ("Default".to_owned(), "PixelAspectRatio".to_owned(), "Image Sensor Pixel Aspect Ratio".to_owned())
    } else if tag == 0xe210 {
        ("Default".to_owned(), "LookFileName".to_owned(), "Look File Name".to_owned())
    } else if tag == 0xe21b {
        ("Default".to_owned(), "ImageStabilizer".to_owned(), "Optical Image Stabilizer".to_owned())
    } else if tag == 0xe222 {
        ("Default".to_owned(), "RollingShutterCorrection".to_owned(), "RS Distortion Flag".to_owned())
    } else if tag == 0xe224 {
        ("Default".to_owned(), "LensStabilizerMode".to_owned(), "Lens Image Stabilizer Mode".to_owned())
    } else if tag == 0xe225 {
        ("Default".to_owned(), "IBISStabilizerMode".to_owned(), "In-Body Image Stabilizer Mode".to_owned())
    } else if tag == 0xe226 {
        ("Default".to_owned(), "EISStabilizerMode".to_owned(), "Electronic Image Stabilizer Mode".to_owned())
    } else if tag == 0xe228 {
        ("Default".to_owned(), "Name".to_owned(), "Model name".to_owned())
    } else if tag == 0xe229 {
        ("Default".to_owned(), "SerialNumber".to_owned(), "Camera Serial Number".to_owned())
    } else if tag == 0xe22a {
        ("Default".to_owned(), "Firmware".to_owned(), "Camera firmware".to_owned())
    } else if tag == 0xe22b {
        ("Default".to_owned(), "AnamorphicSqueezeRatio".to_owned(), "Anamorphic Squeeze Ratio".to_owned())
    } else if tag == 0xe231 {
        ("Exposure".to_owned(), "ShutterSpeed2".to_owned(), "Shutter Speed".to_owned())
    } else if tag == 0xe21f {
        ("Gyroscope".to_owned(), "Data".to_owned(), "Gyroscope data".to_owned())
    } else if tag == 0xe220 {
        ("Accelerometer".to_owned(), "Data".to_owned(), "Accelerometer data".to_owned())
    } else if tag == 0xe227 {
        ("Default".to_owned(), "TimestampMs".to_owned(), "Timestamp per frame".to_owned())
    } else if tag == 0xe121 {
        ("Lens".to_owned(), "Distortion".to_owned(), "OpenCV distortion param".to_owned())
    } else if tag == 0xe11d {
        ("Lens".to_owned(), "PixelFocalLength".to_owned(), "Focal Length Expressed in Pixel Unit".to_owned())
    } else if tag == 0xe211 {
        ("Colors".to_owned(), "CaptureGammaEquation".to_owned(), "Capture Gamma Equation".to_owned())
    } else if tag == 0xe212 {
        ("Colors".to_owned(), "ColorPrimaries".to_owned(), "Color Primaries".to_owned())
    } else {
        ("Unknown".to_owned(), "Unknown".to_owned(), "Unknown".to_owned())
    }
}
/// The value of a tag; `f32` values as their bits, `f16` values of the
/// motion tags as their bits.
#[derive(Debug, Clone, PartialEq)]
pub enum CanonValue {
    Text(String),
    U8(u8),
    U16(u16),
    U32(u32),
    Pair(u32, u32),
    Bytes(Vec<u8>),
    Flag(bool),
    F32Bits(u32),
    F32BitsList(Vec<u32>),
    HalfTriples(Vec<(u16, u16, u16)>),
    TimestampMs(i64),
    Uuid(u32, u32, u32, u32),
    Raw(Vec<u8>),
}

/// A tag value with its text and lists as sequences.
pub enum CanonView {
    Text(Seq<char>),
    U8(u8),
    U16(u16),
    U32(u32),
    Pair(u32, u32),
    Bytes(Seq<u8>),
    Flag(bool),
    F32Bits(u32),
    F32BitsList(Seq<u32>),
    HalfTriples(Seq<(u16, u16, u16)>),
    TimestampMs(i64),
    Uuid(u32, u32, u32, u32),
    Raw(Seq<u8>),
}

/// The view of a tag value.
pub open spec fn canon_view(v: CanonValue) -> CanonView {
    match v {
        CanonValue::Text(s) => CanonView::Text(s@),
        CanonValue::U8(x) => CanonView::U8(x),
        CanonValue::U16(x) => CanonView::U16(x),
        CanonValue::U32(x) => CanonView::U32(x),
        CanonValue::Pair(a, b) => CanonView::Pair(a, b),
        CanonValue::Bytes(b) => CanonView::Bytes(b@),
        CanonValue::Flag(f) => CanonView::Flag(f),
        CanonValue::F32Bits(x) => CanonView::F32Bits(x),
        CanonValue::F32BitsList(v) => CanonView::F32BitsList(v@),
        CanonValue::HalfTriples(v) => CanonView::HalfTriples(v@),
        CanonValue::TimestampMs(t) => CanonView::TimestampMs(t),
        CanonValue::Uuid(a, b, c, d) => CanonView::Uuid(a, b, c, d),
        CanonValue::Raw(b) => CanonView::Raw(b@),
    }
}

/// What decoding a tag gives: its value, an error (the bytes end early or
/// the text is not UTF-8), or malformed (a timestamp that names no valid
/// date and time).
pub enum TagOutcome {
    Value(CanonValue),
    Failed(ParseError),
    Malformed,
}

/// A decoding outcome with its value as a view.
pub enum TagSpec {
    Value(CanonView),
    Failed(ParseError),
    Malformed,
}

/// The view of a decoding outcome.
pub open spec fn outcome_view(o: TagOutcome) -> TagSpec {
    match o {
        TagOutcome::Value(v) => TagSpec::Value(canon_view(v)),
        TagOutcome::Failed(e) => TagSpec::Failed(e),
        TagOutcome::Malformed => TagSpec::Malformed,
    }
}

/// The big-endian number in the `n` bytes at `i`.
pub open spec fn be(d: Seq<u8>, i: int, n: int) -> nat {
    be_uint(d.subrange(i, i + n))
}

/// The aperture display mode that a byte names.
pub open spec fn aperture_mode(b: u8) -> Seq<char> {
    if b == 0 {
        "TNumber"@
    } else if b == 1 {
        "FNumber"@
    } else if b == 0xff {
        ""@
    } else {
        "Unknown"@
    }
}

/// The length of the text of a tag: up to its first NUL.
pub open spec fn text_end(d: Seq<u8>) -> int {
    if d.contains(0u8) {
        choose|i: int| 0 <= i < d.len() && d[i] == 0 && forall|k: int| 0 <= k < i ==> d[k] != 0
    } else {
        d.len() as int
    }
}

/// The `f16` triples of a motion tag from `pos`, all-zero ones left out;
/// `None` where the last one is cut short.
pub open spec fn half_triples(d: Seq<u8>, pos: int) -> Option<Seq<(u16, u16, u16)>>
    decreases d.len() - pos,
{
    if pos < 0 || pos >= d.len() {
        Some(Seq::empty())
    } else if pos + 6 > d.len() {
        None
    } else {
        let t = (be(d, pos, 2) as u16, be(d, pos + 2, 2) as u16, be(d, pos + 4, 2) as u16);
        match half_triples(d, pos + 6) {
            Some(rest) => Some(if t == (0u16, 0u16, 0u16) {
                rest
            } else {
                seq![t] + rest
            }),
            None => None,
        }
    }
}

/// A leap year of the proleptic Gregorian calendar.
pub open spec fn leap_year(y: int) -> bool {
    y % 4 == 0 && (y % 100 != 0 || y % 400 == 0)
}

/// The number of days of month `m` of year `y`.
pub open spec fn month_days(y: int, m: int) -> int {
    if m == 2 {
        if leap_year(y) {
            29
        } else {
            28
        }
    } else if m == 4 || m == 6 || m == 9 || m == 11 {
        30
    } else {
        31
    }
}

/// The number of days of year `y` before month `m`.
pub open spec fn days_before_month(y: int, m: int) -> int
    decreases m,
{
    if m <= 1 {
        0
    } else {
        days_before_month(y, m - 1) + month_days(y, m - 1)
    }
}

/// The number of leap years from year 1 up to year `y`.
pub open spec fn leaps_before(y: int) -> int {
    (y - 1) / 4 - (y - 1) / 100 + (y - 1) / 400
}

/// The number of days from 1 January 1970 to the given date.
pub open spec fn days_since_epoch(y: int, m: int, d: int) -> int {
    365 * (y - 1970) + leaps_before(y) - leaps_before(1970) + days_before_month(y, m) + d - 1
}

/// Milliseconds since 1970-01-01 00:00:00 UTC; a leap second counts its
/// milliseconds past 1000 within second 59.
pub open spec fn civil_millis(y: int, mo: int, d: int, h: int, mi: int, s: int, ms: int) -> int {
    (((days_since_epoch(y, mo, d) * 24 + h) * 60 + mi) * 60 + s) * 1000 + ms
}

/// A date and time that chrono accepts: a day of the month, a time of the
/// day, and milliseconds up to 999, or up to 1999 in second 59.
pub open spec fn valid_date_time(y: int, mo: int, d: int, h: int, mi: int, s: int, ms: int) -> bool {
    &&& 1 <= mo <= 12
    &&& 1 <= d <= month_days(y, mo)
    &&& 0 <= h < 24
    &&& 0 <= mi < 60
    &&& 0 <= s < 60
    &&& 0 <= ms
    &&& (ms < 1000 || (ms < 2000 && s == 59))
}

/// The fields of a timestamp tag: year, month, day, hour, minute, second
/// and milliseconds, after four bytes of time zone; milliseconds of
/// `FFFF` count as 0.
pub open spec fn stamp_fields(d: Seq<u8>) -> (int, int, int, int, int, int, int) {
    let ms = be(d, 11, 2);
    (be(d, 4, 2) as int, d[6] as int, d[7] as int, d[8] as int, d[9] as int, d[10] as int, if ms == 0xffff { 0 } else { ms as int })
}

/// What the bytes `d` of tag `tag` decode to.
pub open spec fn tag_spec(tag: u16, d: Seq<u8>) -> TagSpec {
    let k = kind_of_tag(tag);
    let short = TagSpec::Failed(ParseError::UnexpectedEof);
    if k == 1 {
        if d.len() < 1 { short } else { TagSpec::Value(CanonView::Text(aperture_mode(d[0]))) }
    } else if k == 2 {
        if vstd::utf8::valid_utf8(d.subrange(0, text_end(d))) {
            TagSpec::Value(CanonView::Text(vstd::utf8::decode_utf8(d.subrange(0, text_end(d)))))
        } else {
            TagSpec::Failed(ParseError::InvalidData)
        }
    } else if k == 3 || k == 4 {
        if d.len() < 4 {
            short
        } else if k == 3 {
            TagSpec::Value(CanonView::U32(be(d, 0, 4) as u32))
        } else {
            TagSpec::Value(CanonView::F32Bits(be(d, 0, 4) as u32))
        }
    } else if k == 5 {
        if d.len() < 4 { short } else { TagSpec::Value(CanonView::Pair(be(d, 0, 2) as u32, be(d, 2, 2) as u32)) }
    } else if k == 6 {
        if d.len() < 4 { short } else { TagSpec::Value(CanonView::Bytes(d.subrange(0, 4))) }
    } else if k == 7 {
        if d.len() < 2 { short } else { TagSpec::Value(CanonView::U16(be(d, 0, 2) as u16)) }
    } else if k == 8 || k == 9 || k == 10 {
        if d.len() < 1 {
            short
        } else if k == 8 {
            TagSpec::Value(CanonView::Flag(d[0] == 0))
        } else if k == 9 {
            TagSpec::Value(CanonView::Flag(d[0] == 1))
        } else {
            TagSpec::Value(CanonView::U8(d[0]))
        }
    } else if k == 11 {
        if d.len() < 8 { short } else { TagSpec::Value(CanonView::Pair(be(d, 4, 4) as u32, be(d, 0, 4) as u32)) }
    } else if k == 12 {
        match half_triples(d, 0) {
            Some(s) => TagSpec::Value(CanonView::HalfTriples(s)),
            None => short,
        }
    } else if k == 13 {
        if d.len() < 13 {
            short
        } else {
            let (y, mo, dd, h, mi, s, ms) = stamp_fields(d);
            if valid_date_time(y, mo, dd, h, mi, s, ms) {
                TagSpec::Value(CanonView::TimestampMs(civil_millis(y, mo, dd, h, mi, s, ms) as i64))
            } else {
                TagSpec::Malformed
            }
        }
    } else if k == 14 || k == 15 {
        let n: int = if k == 14 { 8 } else { 2 };
        if d.len() < 4 * n {
            short
        } else {
            TagSpec::Value(CanonView::F32BitsList(Seq::new(n as nat, |j: int| be(d, 4 * j, 4) as u32)))
        }
    } else if k == 16 {
        if d.len() < 16 {
            short
        } else {
            TagSpec::Value(CanonView::Uuid(be(d, 0, 4) as u32, be(d, 4, 4) as u32, be(d, 8, 4) as u32, be(d, 12, 4) as u32))
        }
    } else {
        TagSpec::Value(CanonView::Raw(d))
    }
}

fn be16(d: &[u8], i: usize) -> (r: u16)
    requires
        i + 2 <= d.len(),
    ensures
        r == be(d@, i as int, 2),
{
    let x = read_u16_be(&d[i..i + 2]);
    assert(d@.subrange(i as int, i + 2).subrange(0, 2) =~= d@.subrange(i as int, i + 2));
    x
}

fn be32(d: &[u8], i: usize) -> (r: u32)
    requires
        i + 4 <= d.len(),
    ensures
        r == be(d@, i as int, 4),
{
    let x = read_u32_be(&d[i..i + 4]);
    assert(d@.subrange(i as int, i + 4).subrange(0, 4) =~= d@.subrange(i as int, i + 4));
    x
}

fn triples_of(d: &[u8]) -> (r: Option<Vec<(u16, u16, u16)>>)
    ensures
        match half_triples(d@, 0) {
            Some(s) => r matches Some(v) && v@ == s,
            None => r is None,
        },
{
    let mut v: Vec<(u16, u16, u16)> = Vec::new();
    let mut pos: usize = 0;
    assert(half_triples(d@, 0) == match half_triples(d@, 0) {
        Some(rest) => Some(v@ + rest),
        None => None::<Seq<(u16, u16, u16)>>,
    }) by {
        match half_triples(d@, 0) {
            Some(rest) => {
                assert(v@ + rest =~= rest);
            },
            None => {},
        }
    }
    while pos < d.len()
        invariant
            pos <= d.len(),
            half_triples(d@, 0) == match half_triples(d@, pos as int) {
                Some(rest) => Some(v@ + rest),
                None => None::<Seq<(u16, u16, u16)>>,
            },
        decreases d.len() - pos,
    {
        if d.len() - pos < 6 {
            return None;
        }
        let t = (be16(d, pos), be16(d, pos + 2), be16(d, pos + 4));
        let ghost pre = v@;
        if !(t.0 == 0 && t.1 == 0 && t.2 == 0) {
            v.push(t);
        }
        proof {
            match half_triples(d@, pos + 6) {
                Some(rest) => {
                    if t == (0u16, 0u16, 0u16) {
                        assert(v@ == pre);
                    } else {
                        assert(pre + (seq![t] + rest) =~= v@ + rest);
                    }
                },
                None => {},
            }
        }
        pos = pos + 6;
    }
    assert(v@ + Seq::<(u16, u16, u16)>::empty() =~= v@);
    Some(v)
}

fn month_days_of(y: u16, m: u8) -> (r: u8)
    requires
        1 <= m <= 12,
    ensures
        r == month_days(y as int, m as int),
{
    if m == 2 {
        if y % 4 == 0 && (y % 100 != 0 || y % 400 == 0) {
            29
        } else {
            28
        }
    } else if m == 4 || m == 6 || m == 9 || m == 11 {
        30
    } else {
        31
    }
}

/// Calls chrono: `NaiveDate::from_ymd_opt`, then `and_hms_milli_opt`, then
/// `timestamp_millis` of that time taken as UTC. For a date and time that
/// both accept, this is the number of milliseconds since 1970-01-01
/// 00:00:00 UTC in the proleptic Gregorian calendar, the milliseconds of a
/// leap second counting past 1000.
#[verifier::external_body]
fn chrono_millis(year: u16, month: u8, day: u8, hour: u8, minute: u8, second: u8, milli: u16) -> (r: i64)
    requires
        valid_date_time(year as int, month as int, day as int, hour as int, minute as int, second as int, milli as int),
    ensures
        r == civil_millis(year as int, month as int, day as int, hour as int, minute as int, second as int, milli as int),
{
    let date = chrono::NaiveDate::from_ymd_opt(year as i32, month as u32, day as u32).unwrap();
    let time = date.and_hms_milli_opt(hour as u32, minute as u32, second as u32, milli as u32).unwrap();
    time.and_utc().timestamp_millis()
}

fn timestamp_of(d: &[u8]) -> (r: TagOutcome)
    requires
        d.len() >= 13,
    ensures
        ({
            let (y, mo, dd, h, mi, s, ms) = stamp_fields(d@);
            if valid_date_time(y, mo, dd, h, mi, s, ms) {
                outcome_view(r) == TagSpec::Value(CanonView::TimestampMs(civil_millis(y, mo, dd, h, mi, s, ms) as i64))
            } else {
                r is Malformed
            }
        }),
{
    let y = be16(d, 4);
    let mo = d[6];
    let day = d[7];
    let h = d[8];
    let mi = d[9];
    let s = d[10];
    let raw = be16(d, 11);
    let ms: u16 = if raw == 0xffff { 0 } else { raw };
    if mo < 1 || mo > 12 {
        return TagOutcome::Malformed;
    }
    if day < 1 || day > month_days_of(y, mo) || h >= 24 || mi >= 60 || s >= 60 || !(ms < 1000 || (ms < 2000 && s == 59)) {
        return TagOutcome::Malformed;
    }
    TagOutcome::Value(CanonValue::TimestampMs(chrono_millis(y, mo, day, h, mi, s, ms)))
}

/// Decodes the bytes of tag `tag` (see `tag_spec`).
#[verifier::rlimit(40)]
pub fn get_tag(tag: u16, tag_data: &[u8]) -> (r: TagOutcome)
    ensures
        outcome_view(r) == tag_spec(tag, tag_data@),
{
    let d = tag_data;
    let k = tag_kind(tag);
    let len = d.len();
    if k == 1 {
        if len < 1 {
            return TagOutcome::Failed(ParseError::UnexpectedEof);
        }
        let t = if d[0] == 0 {
            "TNumber"
        } else if d[0] == 1 {
            "FNumber"
        } else if d[0] == 0xff {
            ""
        } else {
            "Unknown"
        };
        TagOutcome::Value(CanonValue::Text(t.to_owned()))
    } else if k == 2 {
        match read_utf8(d) {
            Ok(s) => TagOutcome::Value(CanonValue::Text(s)),
            Err(e) => TagOutcome::Failed(e),
        }
    } else if k == 3 || k == 4 {
        if len < 4 {
            TagOutcome::Failed(ParseError::UnexpectedEof)
        } else if k == 3 {
            TagOutcome::Value(CanonValue::U32(be32(d, 0)))
        } else {
            TagOutcome::Value(CanonValue::F32Bits(be32(d, 0)))
        }
    } else if k == 5 {
        if len < 4 {
            TagOutcome::Failed(ParseError::UnexpectedEof)
        } else {
            TagOutcome::Value(CanonValue::Pair(be16(d, 0) as u32, be16(d, 2) as u32))
        }
    } else if k == 6 {
        if len < 4 {
            TagOutcome::Failed(ParseError::UnexpectedEof)
        } else {
            let b = vec![d[0], d[1], d[2], d[3]];
            assert(b@ =~= d@.subrange(0, 4));
            TagOutcome::Value(CanonValue::Bytes(b))
        }
    } else if k == 7 {
        if len < 2 {
            TagOutcome::Failed(ParseError::UnexpectedEof)
        } else {
            TagOutcome::Value(CanonValue::U16(be16(d, 0)))
        }
    } else if k == 8 || k == 9 || k == 10 {
        if len < 1 {
            TagOutcome::Failed(ParseError::UnexpectedEof)
        } else if k == 8 {
            TagOutcome::Value(CanonValue::Flag(d[0] == 0))
        } else if k == 9 {
            TagOutcome::Value(CanonValue::Flag(d[0] == 1))
        } else {
            TagOutcome::Value(CanonValue::U8(d[0]))
        }
    } else if k == 11 {
        if len < 8 {
            TagOutcome::Failed(ParseError::UnexpectedEof)
        } else {
            TagOutcome::Value(CanonValue::Pair(be32(d, 4), be32(d, 0)))
        }
    } else if k == 12 {
        match triples_of(d) {
            Some(v) => TagOutcome::Value(CanonValue::HalfTriples(v)),
            None => TagOutcome::Failed(ParseError::UnexpectedEof),
        }
    } else if k == 13 {
        if len < 13 {
            TagOutcome::Failed(ParseError::UnexpectedEof)
        } else {
            timestamp_of(d)
        }
    } else if k == 14 || k == 15 {
        let n: usize = if k == 14 { 8 } else { 2 };
        if len < 4 * n {
            return TagOutcome::Failed(ParseError::UnexpectedEof);
        }
        let mut v: Vec<u32> = Vec::new();
        let mut j: usize = 0;
        while j < n
            invariant
                j <= n,
                4 * n <= d.len(),
                v@.len() == j,
                forall|i: int| 0 <= i < j ==> v@[i] == be(d@, 4 * i, 4) as u32,
            decreases n - j,
        {
            v.push(be32(d, 4 * j));
            j = j + 1;
        }
        assert(v@ =~= Seq::new(n as nat, |j: int| be(d@, 4 * j, 4) as u32));
        TagOutcome::Value(CanonValue::F32BitsList(v))
    } else if k == 16 {
        if len < 16 {
            TagOutcome::Failed(ParseError::UnexpectedEof)
        } else {
            TagOutcome::Value(CanonValue::Uuid(be32(d, 0), be32(d, 4), be32(d, 8), be32(d, 12)))
        }
    } else {
        let mut v: Vec<u8> = Vec::new();
        let mut j: usize = 0;
        while j < len
            invariant
                j <= len == d.len(),
                v@ == d@.subrange(0, j as int),
            decreases len - j,
        {
            v.push(d[j]);
            j = j + 1;
            assert(v@ =~= d@.subrange(0, j as int));
        }
        assert(d@.subrange(0, len as int) =~= d@);
        TagOutcome::Value(CanonValue::Raw(v))
    }
}

/// The name of a capture gamma equation, by the last two words of its UUID.
pub open spec fn gamma_name(c: u32, d: u32) -> Option<Seq<char>> {
    if c == 0x04010101 && d == 0x01020000 {
        Some("BT.709"@)
    } else if c == 0x04010101 && d == 0x010a0000 {
        Some("BT.2100 Perceptual Quantization"@)
    } else if c == 0x04010101 && d == 0x010b0000 {
        Some("BT.2100 Hybrid Log-Gamma"@)
    } else if c == 0x04010101 && d == 0x01100000 {
        Some("Camera Log C2"@)
    } else if c == 0x04010101 && d == 0x01110000 {
        Some("Camera Log C3"@)
    } else if c == 0x0e150001 && d == 0x01000000 {
        Some("Canon Log"@)
    } else if c == 0x0e150001 && d == 0x02000000 {
        Some("Canon Log 2"@)
    } else if c == 0x0e150001 && d == 0x06000000 {
        Some("DCI"@)
    } else if c == 0x0e150001 && d == 0x07000000 {
        Some("Canon Log 3"@)
    } else {
        None
    }
}

/// The name of a set of color primaries, by the last two words of its UUID.
pub open spec fn primaries_name(c: u32, d: u32) -> Option<Seq<char>> {
    if c == 0x04010101 && d == 0x03030000 {
        Some("BT.709"@)
    } else if c == 0x04010101 && d == 0x03040000 {
        Some("BT.2020"@)
    } else if c == 0x04010101 && d == 0x030e0000 {
        Some("Camera Gamut C"@)
    } else if c == 0x0e150002 && d == 0x02000000 {
        Some("Cinema Gamut"@)
    } else if c == 0x0e150002 && d == 0x04000000 {
        Some("DCI-P3"@)
    } else {
        None
    }
}

fn gamma_name_of(c: u32, d: u32) -> (r: Option<String>)
    ensures
        match gamma_name(c, d) {
            Some(n) => r matches Some(s) && s@ == n,
            None => r is None,
        },
{
    if c == 0x04010101 && d == 0x01020000 {
        Some("BT.709".to_owned())
    } else if c == 0x04010101 && d == 0x010a0000 {
        Some("BT.2100 Perceptual Quantization".to_owned())
    } else if c == 0x04010101 && d == 0x010b0000 {
        Some("BT.2100 Hybrid Log-Gamma".to_owned())
    } else if c == 0x04010101 && d == 0x01100000 {
        Some("Camera Log C2".to_owned())
    } else if c == 0x04010101 && d == 0x01110000 {
        Some("Camera Log C3".to_owned())
    } else if c == 0x0e150001 && d == 0x01000000 {
        Some("Canon Log".to_owned())
    } else if c == 0x0e150001 && d == 0x02000000 {
        Some("Canon Log 2".to_owned())
    } else if c == 0x0e150001 && d == 0x06000000 {
        Some("DCI".to_owned())
    } else if c == 0x0e150001 && d == 0x07000000 {
        Some("Canon Log 3".to_owned())
    } else {
        None
    }
}

fn primaries_name_of(c: u32, d: u32) -> (r: Option<String>)
    ensures
        match primaries_name(c, d) {
            Some(n) => r matches Some(s) && s@ == n,
            None => r is None,
        },
{
    if c == 0x04010101 && d == 0x03030000 {
        Some("BT.709".to_owned())
    } else if c == 0x04010101 && d == 0x03040000 {
        Some("BT.2020".to_owned())
    } else if c == 0x04010101 && d == 0x030e0000 {
        Some("Camera Gamut C".to_owned())
    } else if c == 0x0e150002 && d == 0x02000000 {
        Some("Cinema Gamut".to_owned())
    } else if c == 0x0e150002 && d == 0x04000000 {
        Some("DCI-P3".to_owned())
    } else {
        None
    }
}

/// The eight lowercase hexadecimal digits of `x`.
pub open spec fn hex8(x: u32) -> Seq<char> {
    Seq::new(8, |i: int| {
        let n: int = (x as int / pow16(7 - i) as int) % 16;
        if n < 10 {
            (0x30 + n) as char
        } else {
            (0x57 + n) as char
        }
    })
}

/// `16` to the power `n`.
pub open spec fn pow16(n: int) -> nat
    decreases n,
{
    if n <= 0 {
        1
    } else {
        16 * pow16(n - 1)
    }
}

/// The text of a UUID value of tag `tag`: the name of a known capture
/// gamma equation (`0xE211`) or set of color primaries (`0xE212`), else
/// its four words in hexadecimal between braces.
pub open spec fn uuid_text(tag: u16, a: u32, b: u32, c: u32, d: u32) -> Seq<char> {
    let named = if tag == 0xe211 {
        gamma_name(c, d)
    } else if tag == 0xe212 {
        primaries_name(c, d)
    } else {
        None
    };
    match named {
        Some(n) => n,
        None => seq!['{'] + hex8(a) + seq!['-'] + hex8(b) + seq!['-'] + hex8(c) + seq!['-'] + hex8(d) + seq!['}'],
    }
}

proof fn lemma_pow16_pos(n: int)
    ensures
        pow16(n) >= 1,
    decreases n,
{
    if n > 0 {
        lemma_pow16_pos(n - 1);
    }
}

pub(crate) fn push_hex8(out: &mut Vec<char>, x: u32)
    ensures
        final(out)@ == old(out)@ + hex8(x),
{
    let ghost start = out@;
    let mut i: usize = 0;
    let mut div: u32 = 0x1000_0000;
    assert(pow16(7) == 0x1000_0000) by {
        reveal_with_fuel(pow16, 8);
    }
    while i < 8
        invariant
            i <= 8,
            div >= 1,
            div as nat == pow16(7 - i as int),
            out@ == start + hex8(x).subrange(0, i as int),
        decreases 8 - i,
    {
        let n = (x / div) % 16;
        let ch = if n < 10 { (0x30 + n as u8) as char } else { (0x57 + n as u8) as char };
        assert(ch == hex8(x)[i as int]);
        out.push(ch);
        assert(hex8(x).subrange(0, i + 1) =~= hex8(x).subrange(0, i as int).push(ch));
        i = i + 1;
        if i < 8 {
            assert(pow16(8 - i as int) == 16 * pow16(7 - i as int));
            proof {
                lemma_pow16_pos(7 - i as int);
            }
            div = div / 16;
        }
    }
    assert(hex8(x).subrange(0, 8) =~= hex8(x));
}

/// The text of a UUID value (see `uuid_text`).
pub fn describe_uuid(tag: u16, a: u32, b: u32, c: u32, d: u32) -> (r: String)
    ensures
        r@ == uuid_text(tag, a, b, c, d),
{
    let named = if tag == 0xe211 {
        gamma_name_of(c, d)
    } else if tag == 0xe212 {
        primaries_name_of(c, d)
    } else {
        None
    };
    match named {
        Some(n) => n,
        None => {
            let mut v: Vec<char> = Vec::new();
            v.push('{');
            push_hex8(&mut v, a);
            v.push('-');
            push_hex8(&mut v, b);
            v.push('-');
            push_hex8(&mut v, c);
            v.push('-');
            push_hex8(&mut v, d);
            v.push('}');
            let r = crate::text::string_from_chars(v.as_slice());
            assert(r@ =~= uuid_text(tag, a, b, c, d));
            r
        },
    }
}

} // verus!
