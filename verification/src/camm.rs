//! Camera motion metadata (CAMM) samples: a reserved `u16`, a type and the
//! type's values, little-endian; floating-point values as their bits.

use vstd::prelude::*;
use crate::bytes::{
    contains_seq, find, first_index, le2, le4, le8, lemma_first_index, lemma_le_at_2, lemma_le_at_4, lemma_le_at_8, le_at, occurs_at, read_le, s32,
    signed,
};

verus! {

/// A CAMM sample.
#[derive(Debug, Clone, Copy, PartialEq, Eq)]
pub enum CammRecord {
    /// Type 0: an orientation as an angle-axis vector of three `f32`.
    AngleAxis(u32, u32, u32),
    /// Type 1: the pixel exposure time and the rolling shutter skew time,
    /// in nanoseconds.
    Exposure(i32, i32),
    /// Type 2: gyroscope rates, three `f32`.
    Gyro(u32, u32, u32),
    /// Type 3: accelerations, three `f32`.
    Accel(u32, u32, u32),
    /// Type 4: a position, three `f32`.
    Position(u32, u32, u32),
    /// Type 5: latitude, longitude and altitude, three `f64`.
    MinimalGps(u64, u64, u64),
    /// Type 6: GPS time (`f64`), fix type, latitude and longitude (`f64`)
    /// and altitude (`f32`), followed by six accuracies and velocities.
    Gps { time: u64, fix_type: i32, latitude: u64, longitude: u64, altitude: u32 },
    /// Type 7: magnetic field, three `f32`.
    Magnetic(u32, u32, u32),
    /// Any other type.
    Unknown(u16),
}

/// The number of bytes of the values of a type.
pub open spec fn camm_size(t: int) -> int {
    if t == 0 || t == 2 || t == 3 || t == 4 || t == 7 {
        12
    } else if t == 1 {
        8
    } else if t == 5 {
        24
    } else if t == 6 {
        56
    } else {
        0
    }
}

/// The `u32` at `i`.
pub open spec fn w32(d: Seq<u8>, i: int) -> u32 {
    le_at(d, i, 4) as u32
}

/// The `u64` at `i`.
pub open spec fn w64(d: Seq<u8>, i: int) -> u64 {
    le_at(d, i, 8) as u64
}

/// The sample that `d` holds; `None` for fewer than four bytes or values
/// cut short.
pub open spec fn camm_spec(d: Seq<u8>) -> Option<CammRecord> {
    if d.len() < 4 {
        None
    } else {
        let t = le_at(d, 2, 2) as int;
        if 4 + camm_size(t) > d.len() {
            None
        } else if t == 0 {
            Some(CammRecord::AngleAxis(w32(d, 4), w32(d, 8), w32(d, 12)))
        } else if t == 1 {
            Some(CammRecord::Exposure(signed(le_at(d, 4, 4) as int, 32) as i32, signed(le_at(d, 8, 4) as int, 32) as i32))
        } else if t == 2 {
            Some(CammRecord::Gyro(w32(d, 4), w32(d, 8), w32(d, 12)))
        } else if t == 3 {
            Some(CammRecord::Accel(w32(d, 4), w32(d, 8), w32(d, 12)))
        } else if t == 4 {
            Some(CammRecord::Position(w32(d, 4), w32(d, 8), w32(d, 12)))
        } else if t == 5 {
            Some(CammRecord::MinimalGps(w64(d, 4), w64(d, 12), w64(d, 20)))
        } else if t == 6 {
            Some(CammRecord::Gps {
                time: w64(d, 4),
                fix_type: signed(le_at(d, 12, 4) as int, 32) as i32,
                latitude: w64(d, 16),
                longitude: w64(d, 24),
                altitude: w32(d, 32),
            })
        } else if t == 7 {
            Some(CammRecord::Magnetic(w32(d, 4), w32(d, 8), w32(d, 12)))
        } else {
            Some(CammRecord::Unknown(t as u16))
        }
    }
}

fn u32_at(d: &[u8], i: usize) -> (r: u32)
    requires
        i + 4 <= d.len(),
    ensures
        r == w32(d@, i as int),
{
    let x = crate::bytes::read_u32_le(&d[i..i + 4]);
    assert(d@.subrange(i as int, i + 4).subrange(0, 4) =~= d@.subrange(i as int, i + 4));
    x
}

fn i32_at(d: &[u8], i: usize) -> (r: i32)
    requires
        i + 4 <= d.len(),
    ensures
        r == signed(le_at(d@, i as int, 4) as int, 32) as i32,
{
    let x = crate::bytes::read_i32_le(&d[i..i + 4]);
    assert(d@.subrange(i as int, i + 4).subrange(0, 4) =~= d@.subrange(i as int, i + 4));
    x
}

/// Reads a CAMM sample (see `camm_spec`).
pub fn camm_record(d: &[u8]) -> (r: Option<CammRecord>)
    ensures
        r == camm_spec(d@),
{
    if d.len() < 4 {
        return None;
    }
    let t16 = crate::bytes::read_u16_le(&d[2..4]);
    assert(d@.subrange(2, 4).subrange(0, 2) =~= d@.subrange(2, 4));
    let t = t16 as usize;
    let size: usize = if t == 0 || t == 2 || t == 3 || t == 4 || t == 7 {
        12
    } else if t == 1 {
        8
    } else if t == 5 {
        24
    } else if t == 6 {
        56
    } else {
        0
    };
    if d.len() - 4 < size {
        return None;
    }
    if t == 0 {
        Some(CammRecord::AngleAxis(u32_at(d, 4), u32_at(d, 8), u32_at(d, 12)))
    } else if t == 1 {
        Some(CammRecord::Exposure(i32_at(d, 4), i32_at(d, 8)))
    } else if t == 2 {
        Some(CammRecord::Gyro(u32_at(d, 4), u32_at(d, 8), u32_at(d, 12)))
    } else if t == 3 {
        Some(CammRecord::Accel(u32_at(d, 4), u32_at(d, 8), u32_at(d, 12)))
    } else if t == 4 {
        Some(CammRecord::Position(u32_at(d, 4), u32_at(d, 8), u32_at(d, 12)))
    } else if t == 5 {
        Some(CammRecord::MinimalGps(read_le(d, 4, 8), read_le(d, 12, 8), read_le(d, 20, 8)))
    } else if t == 6 {
        Some(CammRecord::Gps {
            time: read_le(d, 4, 8),
            fix_type: i32_at(d, 12),
            latitude: read_le(d, 16, 8),
            longitude: read_le(d, 24, 8),
            altitude: u32_at(d, 32),
        })
    } else if t == 7 {
        Some(CammRecord::Magnetic(u32_at(d, 4), u32_at(d, 8), u32_at(d, 12)))
    } else {
        Some(CammRecord::Unknown(t16))
    }
}

/// `camm`
pub open spec fn camm_tag() -> Seq<u8> {
    seq![0x63u8, 0x61, 0x6d, 0x6d]
}

/// An occurrence of `camm` at `i` with more than 16 bytes after its start,
/// in a file whose bytes 4 to 7 are `ftyp`.
pub open spec fn candidate(b: Seq<u8>, i: int) -> bool {
    &&& occurs_at(b, camm_tag(), i)
    &&& b.len() > 16 + i
    &&& b.len() > 8 && b.subrange(4, 8) == seq![0x66u8, 0x74, 0x79, 0x70]
}

/// The sample description (`stsd`) box starts 16 bytes before `i`.
pub open spec fn stsd_before(b: Seq<u8>, i: int) -> bool {
    i >= 16 && b.subrange(i - 16, i - 12) == seq![0x73u8, 0x74, 0x73, 0x64]
}

/// How looking for a CAMM track in a file's first bytes ends.
#[derive(Debug, Clone, Copy, PartialEq, Eq)]
pub enum CammDetect {
    Found,
    Absent,
    /// A candidate `camm` starts within the first 16 bytes, so that no
    /// `stsd` can precede it.
    Malformed,
}

/// The outcome of looking for a CAMM track: found when a candidate
/// `camm` follows an `stsd` box, malformed when the first candidate
/// starts within the first 16 bytes.
pub open spec fn camm_detect(b: Seq<u8>) -> CammDetect {
    if exists|i: int| #[trigger] candidate(b, i) && i < 16 {
        CammDetect::Malformed
    } else if exists|i: int| #[trigger] candidate(b, i) && stsd_before(b, i) {
        CammDetect::Found
    } else {
        CammDetect::Absent
    }
}

/// Looks for a CAMM track in a file's first bytes (see `camm_detect`),
/// going through the occurrences of `camm` in order.
pub fn detect_outcome(buffer: &[u8]) -> (r: CammDetect)
    ensures
        r == camm_detect(buffer@),
{
    let tag: [u8; 4] = [0x63, 0x61, 0x6d, 0x6d];
    assert(tag@ =~= camm_tag());
    let ftyp = buffer.len() > 8 && buffer[4] == 0x66 && buffer[5] == 0x74 && buffer[6] == 0x79 && buffer[7] == 0x70;
    if buffer.len() > 8 {
        assert(ftyp == (buffer@.subrange(4, 8) == seq![0x66u8, 0x74, 0x79, 0x70])) by {
            if buffer@.subrange(4, 8) == seq![0x66u8, 0x74, 0x79, 0x70] {
                assert(buffer@.subrange(4, 8)[0] == buffer@[4]);
                assert(buffer@.subrange(4, 8)[1] == buffer@[5]);
                assert(buffer@.subrange(4, 8)[2] == buffer@[6]);
                assert(buffer@.subrange(4, 8)[3] == buffer@[7]);
            }
            if ftyp {
                assert(buffer@.subrange(4, 8) =~= seq![0x66u8, 0x74, 0x79, 0x70]);
            }
        }
    }
    if !ftyp {
        return CammDetect::Absent;
    }
    let mut k: usize = 0;
    while k < buffer.len()
        invariant
            k <= buffer.len(),
            ftyp,
            buffer.len() > 8 && buffer@.subrange(4, 8) == seq![0x66u8, 0x74, 0x79, 0x70],
            tag@ == camm_tag(),
            forall|i: int| 0 <= i < k && #[trigger] candidate(buffer@, i) ==> i >= 16 && !stsd_before(buffer@, i),
        decreases buffer.len() - k,
    {
        let rest = &buffer[k..buffer.len()];
        let q = match find(rest, tag.as_slice()) {
            Some(q) => q,
            None => {
                assert forall|i: int| k <= i && #[trigger] candidate(buffer@, i) implies false by {
                    assert(rest@.subrange(i - k, i - k + 4) =~= buffer@.subrange(i, i + 4));
                    assert(occurs_at(rest@, camm_tag(), i - k));
                }
                return CammDetect::Absent;
            },
        };
        let i = k + q;
        assert(rest@.subrange(q as int, q + 4) =~= buffer@.subrange(i as int, i + 4));
        assert(occurs_at(buffer@, camm_tag(), i as int));
        assert forall|j: int| k <= j < i implies !#[trigger] candidate(buffer@, j) by {
            if occurs_at(buffer@, camm_tag(), j) {
                assert(rest@.subrange(j - k, j - k + 4) =~= buffer@.subrange(j, j + 4));
                assert(occurs_at(rest@, camm_tag(), j - k));
            }
        }
        if buffer.len() <= 16 || buffer.len() - 16 <= i {
            assert forall|j: int| k <= j && #[trigger] candidate(buffer@, j) implies false by {
                if j > i {
                }
            }
            return CammDetect::Absent;
        }
        assert(candidate(buffer@, i as int));
        if i < 16 {
            return CammDetect::Malformed;
        }
        if buffer[i - 16] == 0x73 && buffer[i - 15] == 0x74 && buffer[i - 14] == 0x73 && buffer[i - 13] == 0x64 {
            assert(buffer@.subrange(i - 16, i - 12) =~= seq![0x73u8, 0x74, 0x73, 0x64]);
            assert(!(exists|j: int| #[trigger] candidate(buffer@, j) && j < 16));
            return CammDetect::Found;
        }
        assert(!stsd_before(buffer@, i as int)) by {
            if stsd_before(buffer@, i as int) {
                assert(buffer@.subrange(i - 16, i - 12)[0] == buffer@[i - 16]);
                assert(buffer@.subrange(i - 16, i - 12)[1] == buffer@[i - 15]);
                assert(buffer@.subrange(i - 16, i - 12)[2] == buffer@[i - 14]);
                assert(buffer@.subrange(i - 16, i - 12)[3] == buffer@[i - 13]);
            }
        }
        k = i + 1;
    }
    CammDetect::Absent
}

/// A file with camera motion metadata.
#[derive(Debug, Clone, Default)]
pub struct Camm {
    pub model: Option<String>,
}

impl Camm {
    pub fn possible_extensions() -> (v: Vec<&'static str>)
        ensures
            v@.len() == 2,
            v@[0]@ == "mp4"@,
            v@[1]@ == "mov"@,
    {
        vec!["mp4", "mov"]
    }

    /// Detects a CAMM track (see `camm_detect`); a candidate in the first
    /// 16 bytes is left out.
    pub fn detect(buffer: &[u8]) -> (r: Option<Camm>)
        requires
            camm_detect(buffer@) != CammDetect::Malformed,
        ensures
            r is Some <==> camm_detect(buffer@) == CammDetect::Found,
            r matches Some(c) ==> c.model is None,
    {
        match detect_outcome(buffer) {
            CammDetect::Found => Some(Camm { model: None }),
            _ => None,
        }
    }

    pub fn normalize_imu_orientation(v: String) -> (r: String)
        ensures
            r@ == v@,
    {
        v
    }

    pub fn camera_type(&self) -> (r: String)
        ensures
            r@ == "CAMM"@,
    {
        "CAMM".to_owned()
    }
}


/// What a CAMM sample decodes to, byte by byte: its type is the
/// little-endian `u16` at byte 2, and each variant comes only from its own
/// type, with its values read in order from byte 4, least significant byte
/// first: angle-axis (0), exposure (1), gyroscope (2), acceleration (3),
/// position (4) and magnetic field (7) from 4-byte values, minimal GPS (5)
/// from 8-byte values, and GPS (6) from time (8 bytes), fix type (4),
/// latitude and longitude (8 each) and altitude (4).
pub proof fn lemma_camm_layout(d: Seq<u8>)
    ensures
        d.len() < 4 ==> camm_spec(d) is None,
        camm_spec(d) matches Some(r) ==> d.len() >= 4 && match r {
            CammRecord::AngleAxis(x, y, z) => le2(d, 2) == 0 && d.len() >= 16 && x == le4(d, 4) && y == le4(d, 8) && z == le4(d, 12),
            CammRecord::Exposure(e, s) => le2(d, 2) == 1 && d.len() >= 12 && e == s32(d, 4) && s == s32(d, 8),
            CammRecord::Gyro(x, y, z) => le2(d, 2) == 2 && d.len() >= 16 && x == le4(d, 4) && y == le4(d, 8) && z == le4(d, 12),
            CammRecord::Accel(x, y, z) => le2(d, 2) == 3 && d.len() >= 16 && x == le4(d, 4) && y == le4(d, 8) && z == le4(d, 12),
            CammRecord::Position(x, y, z) => le2(d, 2) == 4 && d.len() >= 16 && x == le4(d, 4) && y == le4(d, 8) && z == le4(d, 12),
            CammRecord::MinimalGps(a, b, c) => le2(d, 2) == 5 && d.len() >= 28 && a == le8(d, 4) && b == le8(d, 12) && c == le8(d, 20),
            CammRecord::Gps { time, fix_type, latitude, longitude, altitude } => le2(d, 2) == 6 && d.len() >= 60 && time == le8(d, 4)
                && fix_type == s32(d, 12) && latitude == le8(d, 16) && longitude == le8(d, 24) && altitude == le4(d, 32),
            CammRecord::Magnetic(x, y, z) => le2(d, 2) == 7 && d.len() >= 16 && x == le4(d, 4) && y == le4(d, 8) && z == le4(d, 12),
            CammRecord::Unknown(t) => t == le2(d, 2) && t > 7,
        },
        d.len() >= 4 && le2(d, 2) > 7 ==> camm_spec(d) is Some,
        d.len() >= 16 && (le2(d, 2) == 0 || le2(d, 2) == 2 || le2(d, 2) == 3 || le2(d, 2) == 4 || le2(d, 2) == 7) ==> camm_spec(d) is Some,
        d.len() >= 12 && le2(d, 2) == 1 ==> camm_spec(d) is Some,
        d.len() >= 28 && le2(d, 2) == 5 ==> camm_spec(d) is Some,
        d.len() >= 60 && le2(d, 2) == 6 ==> camm_spec(d) is Some,
        d.len() >= 4 && 4 + camm_size(le2(d, 2)) > d.len() ==> camm_spec(d) is None,
{
    if d.len() >= 4 {
        lemma_le_at_2(d, 2);
        if d.len() >= 12 {
            lemma_le_at_4(d, 4);
            lemma_le_at_4(d, 8);
            lemma_le_at_8(d, 4);
        }
        if d.len() >= 16 {
            lemma_le_at_4(d, 12);
        }
        if d.len() >= 28 {
            lemma_le_at_8(d, 12);
            lemma_le_at_8(d, 20);
        }
        if d.len() >= 60 {
            lemma_le_at_8(d, 16);
            lemma_le_at_8(d, 24);
            lemma_le_at_4(d, 32);
        }
    }
}
} // verus!
