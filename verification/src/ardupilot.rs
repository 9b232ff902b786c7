//! ArduPilot dataflash logs, binary (`.bin`) or text (`.log`).

use vstd::prelude::*;
use vstd::string::StringSliceAdditionalSpecFns;
use crate::bytes::{contains, contains_seq};

verus! {

/// An ArduPilot flight log.
pub struct ArduPilot {
    /// `.bin` or `.log`, the kind of log that was detected.
    pub model: Option<String>,
}

/// The magic bytes of a binary dataflash log.
pub open spec fn bin_magic(b: Seq<u8>) -> bool {
    b.len() > 4 && b[0] == 0xA3 && b[1] == 0x95 && b[2] == 0x80 && b[3] == 0x80
}

/// The buffer starts a binary log: magic bytes, and the format messages
/// within the first 256 bytes.
pub open spec fn is_bin_log(b: Seq<u8>) -> bool {
    bin_magic(b) && contains_seq(b.subrange(0, 256), "BBnNZ".spec_bytes())
        && contains_seq(b.subrange(0, 256), "Type,Length,Name,Format,Columns".spec_bytes())
}

/// The buffer holds a text log: format, parameter and stabilisation lines.
pub open spec fn is_text_log(b: Seq<u8>) -> bool {
    contains_seq(b, "FMT,".spec_bytes()) && contains_seq(b, "PARM,".spec_bytes()) && contains_seq(
        b,
        "VSTB,".spec_bytes(),
    )
}

impl ArduPilot {
    pub fn camera_type(&self) -> (s: String)
        ensures
            s@ == "ArduPilot"@,
    {
        "ArduPilot".to_owned()
    }

    pub fn has_accurate_timestamps(&self) -> (b: bool)
        ensures
            !b,
    {
        false
    }

    pub fn possible_extensions() -> (v: Vec<&'static str>)
        ensures
            v@.len() == 2,
            v@[0]@ == "bin"@,
            v@[1]@ == "log"@,
    {
        vec!["bin", "log"]
    }

    pub fn normalize_imu_orientation(v: String) -> (r: String)
        ensures
            r == v,
    {
        v
    }

    /// Recognises a binary log by its header, or a text log by its message
    /// names. A buffer with the binary magic must hold at least 256 bytes.
    pub fn detect(buffer: &[u8], _filepath: &str) -> (r: Option<ArduPilot>)
        requires
            bin_magic(buffer@) ==> buffer.len() >= 256,
        ensures
            r is Some <==> is_bin_log(buffer@) || is_text_log(buffer@),
            r matches Some(a) ==> a.model matches Some(m) && (is_bin_log(buffer@) ==> m@ == ".bin"@)
                && (!is_bin_log(buffer@) ==> m@ == ".log"@),
    {
        if buffer.len() > 4 && buffer[0] == 0xA3 && buffer[1] == 0x95 && buffer[2] == 0x80 && buffer[3] == 0x80 {
            let head = &buffer[0..256];
            if contains(head, "BBnNZ".as_bytes()) && contains(head, "Type,Length,Name,Format,Columns".as_bytes()) {
                return Some(ArduPilot { model: Some(".bin".to_owned()) });
            }
        }
        if contains(buffer, "FMT,".as_bytes()) && contains(buffer, "PARM,".as_bytes()) && contains(buffer, "VSTB,".as_bytes()) {
            return Some(ArduPilot { model: Some(".log".to_owned()) });
        }
        None
    }
}

} // verus!
