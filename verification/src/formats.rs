//! Detection and fixed properties of the lens, camera and logger formats
//! whose samples come as IMU logs or lens metadata.

use vstd::prelude::*;
use vstd::string::StringSliceAdditionalSpecFns;
use crate::bytes::{contains, contains_seq};

verus! {

/// Cooke /i lens metadata, recorded as YAML.
pub struct Cooke {
    pub model: Option<String>,
}

/// ESP32 flight logs with compressed gyroscope data.
pub struct EspLog {
    pub model: Option<String>,
}

/// KanDao `imu.bin` logs.
pub struct KanDao {
    pub model: Option<String>,
}

/// KanDao QooCam EGO and QooCam 3 Ultra videos.
pub struct QoocamEgo {
    pub model: Option<String>,
}

/// SenseFlow binary IMU logs.
pub struct SenseFlow {
    pub model: Option<String>,
}

/// The YAML records of a Cooke lens header.
pub open spec fn is_cooke(b: Seq<u8>) -> bool {
    contains_seq(b, "RecordType: rt.header.lens.info".spec_bytes()) || contains_seq(
        b,
        "RecordType: rt.header.recorder.info".spec_bytes(),
    )
}

/// The `EspLog0` magic at the start of the buffer.
pub open spec fn is_esplog(b: Seq<u8>) -> bool {
    b.len() > 7 && b.subrange(0, 7) == seq![0x45u8, 0x73u8, 0x70u8, 0x4cu8, 0x6fu8, 0x67u8, 0x30u8]
}

/// KanDao IMU markers.
pub open spec fn is_kandao(b: Seq<u8>) -> bool {
    contains_seq(b, "KANDAO_IMU_DATA".spec_bytes()) && contains_seq(b, "GYROACC".spec_bytes())
}

/// `SenseFlow` within the first 12 bytes.
pub open spec fn is_senseflow(b: Seq<u8>) -> bool {
    b.len() > 12 && contains_seq(b.subrange(0, 12), "SenseFlow".spec_bytes())
}

impl Cooke {
    pub fn camera_type(&self) -> (s: String)
        ensures
            s@ == "Cooke /i"@,
    {
        "Cooke /i".to_owned()
    }

    pub fn has_accurate_timestamps(&self) -> (b: bool)
        ensures
            !b,
    {
        false
    }

    pub fn possible_extensions() -> (v: Vec<&'static str>)
        ensures
            v@.len() == 2,
            v@[0]@ == "yml"@,
            v@[1]@ == "yaml"@,
    {
        vec!["yml", "yaml"]
    }

    pub fn normalize_imu_orientation(v: String) -> (r: String)
        ensures
            r == v,
    {
        v
    }

    /// Recognises the YAML lens or recorder header.
    pub fn detect(buffer: &[u8], _filepath: &str) -> (r: Option<Cooke>)
        ensures
            r is Some <==> is_cooke(buffer@),
            r matches Some(c) ==> c.model matches Some(m) && m@ == "YAML metadata"@,
    {
        if contains(buffer, "RecordType: rt.header.lens.info".as_bytes()) || contains(
            buffer,
            "RecordType: rt.header.recorder.info".as_bytes(),
        ) {
            Some(Cooke { model: Some("YAML metadata".to_owned()) })
        } else {
            None
        }
    }
}

impl EspLog {
    pub fn possible_extensions() -> (v: Vec<&'static str>)
        ensures
            v@.len() == 1,
            v@[0]@ == "bin"@,
    {
        vec!["bin"]
    }

    /// Recognises the `EspLog0` magic.
    pub fn detect(buffer: &[u8], _filepath: &str) -> (r: Option<EspLog>)
        ensures
            r is Some <==> is_esplog(buffer@),
            r matches Some(e) ==> e.model is None,
    {
        if buffer.len() > 7 && buffer[0] == 0x45 && buffer[1] == 0x73 && buffer[2] == 0x70 && buffer[3] == 0x4c
            && buffer[4] == 0x6f && buffer[5] == 0x67 && buffer[6] == 0x30 {
            assert(buffer@.subrange(0, 7) =~= seq![0x45u8, 0x73u8, 0x70u8, 0x4cu8, 0x6fu8, 0x67u8, 0x30u8]);
            return Some(EspLog { model: None });
        }
        proof {
            if buffer@.len() > 7 && buffer@.subrange(0, 7) == seq![0x45u8, 0x73u8, 0x70u8, 0x4cu8, 0x6fu8, 0x67u8, 0x30u8] {
                assert(buffer@[0] == buffer@.subrange(0, 7)[0]);
                assert(buffer@[1] == buffer@.subrange(0, 7)[1]);
                assert(buffer@[2] == buffer@.subrange(0, 7)[2]);
                assert(buffer@[3] == buffer@.subrange(0, 7)[3]);
                assert(buffer@[4] == buffer@.subrange(0, 7)[4]);
                assert(buffer@[5] == buffer@.subrange(0, 7)[5]);
                assert(buffer@[6] == buffer@.subrange(0, 7)[6]);
            }
        }
        None
    }

    pub fn normalize_imu_orientation(v: String) -> (r: String)
        ensures
            r == v,
    {
        v
    }

    pub fn camera_type(&self) -> (s: String)
        ensures
            s@ == "EspLog"@,
    {
        "EspLog".to_owned()
    }
}

impl KanDao {
    pub fn camera_type(&self) -> (s: String)
        ensures
            s@ == "KanDao"@,
    {
        "KanDao".to_owned()
    }

    pub fn has_accurate_timestamps(&self) -> (b: bool)
        ensures
            !b,
    {
        false
    }

    pub fn possible_extensions() -> (v: Vec<&'static str>)
        ensures
            v@.len() == 1,
            v@[0]@ == "bin"@,
    {
        vec!["bin"]
    }

    pub fn normalize_imu_orientation(v: String) -> (r: String)
        ensures
            r == v,
    {
        v
    }

    /// Recognises the IMU data markers of `imu.bin`.
    pub fn detect(buffer: &[u8], _filepath: &str) -> (r: Option<KanDao>)
        ensures
            r is Some <==> is_kandao(buffer@),
            r matches Some(k) ==> k.model is None,
    {
        if contains(buffer, "KANDAO_IMU_DATA".as_bytes()) && contains(buffer, "GYROACC".as_bytes()) {
            return Some(KanDao { model: None });
        }
        None
    }
}

impl QoocamEgo {
    pub fn camera_type(&self) -> (s: String)
        ensures
            s@ == "KanDao"@,
    {
        "KanDao".to_owned()
    }

    pub fn has_accurate_timestamps(&self) -> (b: bool)
        ensures
            !b,
    {
        false
    }

    pub fn possible_extensions() -> (v: Vec<&'static str>)
        ensures
            v@.len() == 2,
            v@[0]@ == "mp4"@,
            v@[1]@ == "mov"@,
    {
        vec!["mp4", "mov"]
    }

    pub fn normalize_imu_orientation(v: String) -> (r: String)
        ensures
            r == v,
    {
        v
    }

    /// Recognises the camera by the model name in the file.
    pub fn detect(buffer: &[u8], _filepath: &str) -> (r: Option<QoocamEgo>)
        ensures
            r is Some <==> contains_seq(buffer@, "QooCam EGO".spec_bytes()) || contains_seq(buffer@, "QooCam 3 Ultra".spec_bytes()),
            r matches Some(q) ==> q.model matches Some(m) && (contains_seq(buffer@, "QooCam EGO".spec_bytes()) ==> m@ == "QooCam EGO"@)
                && (!contains_seq(buffer@, "QooCam EGO".spec_bytes()) ==> m@ == "QooCam 3 Ultra"@),
    {
        if contains(buffer, "QooCam EGO".as_bytes()) {
            return Some(QoocamEgo { model: Some("QooCam EGO".to_owned()) });
        }
        if contains(buffer, "QooCam 3 Ultra".as_bytes()) {
            return Some(QoocamEgo { model: Some("QooCam 3 Ultra".to_owned()) });
        }
        None
    }
}

impl SenseFlow {
    pub fn camera_type(&self) -> (s: String)
        ensures
            s@ == "SenseFlow"@,
    {
        "SenseFlow".to_owned()
    }

    pub fn has_accurate_timestamps(&self) -> (b: bool)
        ensures
            !b,
    {
        false
    }

    pub fn possible_extensions() -> (v: Vec<&'static str>)
        ensures
            v@.len() == 1,
            v@[0]@ == "bin"@,
    {
        vec!["bin"]
    }

    pub fn normalize_imu_orientation(v: String) -> (r: String)
        ensures
            r == v,
    {
        v
    }

    /// Recognises `SenseFlow` within the first 12 bytes.
    pub fn detect(buffer: &[u8], _filepath: &str) -> (r: Option<SenseFlow>)
        ensures
            r is Some <==> is_senseflow(buffer@),
            r matches Some(s) ==> s.model is None,
    {
        if buffer.len() > 12 && contains(&buffer[0..12], "SenseFlow".as_bytes()) {
            return Some(SenseFlow { model: None });
        }
        None
    }
}

/// Freefly camera clips with per-frame metadata.
pub struct Freefly {
    pub model: Option<String>,
}

/// The metadata track name of Freefly clips.
pub open spec fn is_freefly(b: Seq<u8>) -> bool {
    contains_seq(b, "com.freeflysystems.frame-metadata".spec_bytes())
}

impl Freefly {
    pub fn camera_type(&self) -> (s: String)
        ensures
            s@ == "Freefly"@,
    {
        "Freefly".to_owned()
    }

    pub fn has_accurate_timestamps(&self) -> (b: bool)
        ensures
            b,
    {
        true
    }

    pub fn possible_extensions() -> (v: Vec<&'static str>)
        ensures
            v@.len() == 2,
            v@[0]@ == "mov"@,
            v@[1]@ == "mp4"@,
    {
        vec!["mov", "mp4"]
    }

    pub fn normalize_imu_orientation(v: String) -> (r: String)
        ensures
            r == v,
    {
        v
    }

    /// Recognises the Freefly metadata track name anywhere in `buffer`.
    pub fn detect(buffer: &[u8], _filepath: &str) -> (r: Option<Freefly>)
        ensures
            r is Some <==> is_freefly(buffer@),
            r matches Some(f) ==> f.model is None,
    {
        if contains(buffer, "com.freeflysystems.frame-metadata".as_bytes()) {
            Some(Freefly { model: None })
        } else {
            None
        }
    }
}

} // verus!
