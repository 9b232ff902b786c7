//! Logs of phone sensor-recording apps: which app wrote a file, and the
//! names under which the OpenCamera Sensors app stores its CSV files.

use vstd::prelude::*;
use vstd::string::StringSliceAdditionalSpecFns;
use crate::bytes::{contains, contains_seq};
use crate::text::{
    chars_ends_with, concat_chars, ends_with, remove_all, remove_all_chars, str_chars,
};

verus! {

/// A log written by a phone app; `model` names the app.
#[derive(Debug, Clone)]
pub struct PhoneApps {
    pub model: Option<String>,
    pub path: String,
}

/// The CSV header of the Gyro app.
pub open spec fn is_gyro_app(b: Seq<u8>) -> bool {
    contains_seq(b, "Time, Rotation Rate (X), Rotation Rate (Y), Rotation Rate (Z)".spec_bytes())
}

/// The head in which the GF Recorder columns are looked for: the first 200
/// bytes, and never the last byte.
pub open spec fn gf_recorder_head(b: Seq<u8>) -> Seq<u8> {
    b.subrange(0, if 200 < b.len() - 1 { 200 } else { b.len() - 1 })
}

/// The column names of GF Recorder within its head.
pub open spec fn is_gf_recorder(b: Seq<u8>) -> bool {
    let h = gf_recorder_head(b);
    &&& contains_seq(h, "Time".spec_bytes())
    &&& contains_seq(h, "Xg".spec_bytes())
    &&& contains_seq(h, "Yg".spec_bytes())
    &&& contains_seq(h, "Zg".spec_bytes())
    &&& contains_seq(h, "Pitch".spec_bytes())
    &&& contains_seq(h, "Roll".spec_bytes())
    &&& contains_seq(h, "Yaw".spec_bytes())
}

/// The CSV header of Sensor Logger for Android.
pub open spec fn is_sensor_logger_android(b: Seq<u8>) -> bool {
    contains_seq(b, "time,seconds_elapsed,z,y,x".spec_bytes())
}

/// The gyroscope track name of Film it.
pub open spec fn is_filmit(b: Seq<u8>) -> bool {
    contains_seq(b, "mettapplication/gyro".spec_bytes())
}

/// The app that wrote a file, in the order in which the apps are tried.
/// `sensor_logger`, `sensor_record` and `opencamera` are the findings of
/// the Sensor Logger and Sensor Record readers and of the OpenCamera file
/// lookup.
pub open spec fn phone_app_of(b: Seq<u8>, sensor_logger: bool, sensor_record: bool, opencamera: bool) -> Option<
    Seq<char>,
> {
    if sensor_logger {
        Some("Sensor Logger"@)
    } else if is_gf_recorder(b) {
        Some("GF Recorder"@)
    } else if is_gyro_app(b) {
        Some("Gyro"@)
    } else if is_sensor_logger_android(b) {
        Some("Sensor Logger Android"@)
    } else if sensor_record {
        Some("Sensor Record"@)
    } else if opencamera {
        Some("OpenCamera Sensors"@)
    } else if is_filmit(b) {
        Some("Film it"@)
    } else {
        None
    }
}

fn gf_recorder_detect(buffer: &[u8]) -> (r: bool)
    requires
        buffer.len() >= 1,
    ensures
        r == is_gf_recorder(buffer@),
{
    let end: usize = if 200 < buffer.len() - 1 { 200 } else { buffer.len() - 1 };
    let hdr = &buffer[0..end];
    assert(hdr@ =~= gf_recorder_head(buffer@));
    contains(hdr, "Time".as_bytes()) && contains(hdr, "Xg".as_bytes()) && contains(hdr, "Yg".as_bytes())
        && contains(hdr, "Zg".as_bytes()) && contains(hdr, "Pitch".as_bytes()) && contains(
        hdr,
        "Roll".as_bytes(),
    ) && contains(hdr, "Yaw".as_bytes())
}

impl PhoneApps {
    pub fn camera_type(&self) -> (s: String)
        ensures
            s@ == "Mobile app"@,
    {
        "Mobile app".to_owned()
    }

    pub fn has_accurate_timestamps(&self) -> (b: bool)
        ensures
            !b,
    {
        false
    }

    pub fn possible_extensions() -> (v: Vec<&'static str>)
        ensures
            v@.len() == 0,
    {
        Vec::new()
    }

    pub fn normalize_imu_orientation(v: String) -> (r: String)
        ensures
            r == v,
    {
        v
    }

    /// The app that wrote `buffer`, read from `filepath`; see `phone_app_of`
    /// for the order and for the three findings made elsewhere.
    pub fn detect(buffer: &[u8], filepath: &str, sensor_logger: bool, sensor_record: bool, opencamera: bool) -> (r:
        Option<Self>)
        requires
            sensor_logger || buffer.len() >= 1,
        ensures
            r is Some <==> phone_app_of(buffer@, sensor_logger, sensor_record, opencamera) is Some,
            r matches Some(a) ==> a.path@ == filepath@ && a.model is Some && a.model.unwrap()@ == phone_app_of(
                buffer@,
                sensor_logger,
                sensor_record,
                opencamera,
            ).unwrap(),
    {
        let path = filepath.to_owned();
        let name = if sensor_logger {
            "Sensor Logger"
        } else if gf_recorder_detect(buffer) {
            "GF Recorder"
        } else if contains(buffer, "Time, Rotation Rate (X), Rotation Rate (Y), Rotation Rate (Z)".as_bytes()) {
            "Gyro"
        } else if contains(buffer, "time,seconds_elapsed,z,y,x".as_bytes()) {
            "Sensor Logger Android"
        } else if sensor_record {
            "Sensor Record"
        } else if opencamera {
            "OpenCamera Sensors"
        } else if contains(buffer, "mettapplication/gyro".as_bytes()) {
            "Film it"
        } else {
            return None;
        };
        Some(PhoneApps { model: Some(name.to_owned()), path })
    }
}

/// A byte of a headerless OpenCamera Sensors CSV: a digit, `.`, `e`, `E`,
/// `,`, `-` or ASCII white space.
pub open spec fn is_number_byte(c: u8) -> bool {
    (0x30 <= c <= 0x39) || c == 0x2e || c == 0x65 || c == 0x45 || c == 0x2c || c == 0x2d || c == 0x20 || c
        == 0x09 || c == 0x0a || c == 0x0c || c == 0x0d
}

/// At least ten bytes, all of them numeric CSV bytes.
pub open spec fn numbers_only(b: Seq<u8>) -> bool {
    b.len() >= 10 && forall|i: int| 0 <= i < b.len() ==> is_number_byte(#[trigger] b[i])
}

/// Whether `buf` looks like a headerless numeric CSV.
pub fn is_numbers_only(buf: &[u8]) -> (r: bool)
    ensures
        r == numbers_only(buf@),
{
    if buf.len() < 10 {
        return false;
    }
    let mut i: usize = 0;
    while i < buf.len()
        invariant
            i <= buf.len(),
            forall|k: int| 0 <= k < i ==> is_number_byte(#[trigger] buf@[k]),
        decreases buf.len() - i,
    {
        let c = buf[i];
        if !((0x30 <= c && c <= 0x39) || c == 0x2e || c == 0x65 || c == 0x45 || c == 0x2c || c == 0x2d || c
            == 0x20 || c == 0x09 || c == 0x0a || c == 0x0c || c == 0x0d) {
            assert(!is_number_byte(buf@[i as int]));
            return false;
        }
        i = i + 1;
    }
    true
}

/// Whether a file name ends like one of the CSV files of a recording.
pub open spec fn is_sensor_csv_name(f: Seq<char>) -> bool {
    ends_with(f, "gyro.csv"@) || ends_with(f, "accel.csv"@) || ends_with(f, "_imu_timestamps.csv"@) || ends_with(
        f,
        "magnetic.csv"@,
    )
}

/// The name shared by the CSV files of one recording: the file name
/// without the sensor suffixes.
pub open spec fn recording_stem(f: Seq<char>) -> Seq<char> {
    remove_all(
        remove_all(remove_all(remove_all(f, "gyro.csv"@), "accel.csv"@), "_imu_timestamps.csv"@),
        "magnetic.csv"@,
    )
}

/// The gyroscope, accelerometer and magnetometer files of the recording
/// that a sensor CSV file belongs to; `None` for any other file name.
pub fn csv_companions(filename: &str) -> (r: Option<Vec<String>>)
    ensures
        r is Some <==> is_sensor_csv_name(filename@),
        r matches Some(v) ==> v@.len() == 3 && v@[0]@ == recording_stem(filename@) + "gyro.csv"@ && v@[1]@
            == recording_stem(filename@) + "accel.csv"@ && v@[2]@ == recording_stem(filename@)
            + "magnetic.csv"@,
{
    let f = str_chars(filename);
    if !(chars_ends_with(f.as_slice(), "gyro.csv") || chars_ends_with(f.as_slice(), "accel.csv")
        || chars_ends_with(f.as_slice(), "_imu_timestamps.csv") || chars_ends_with(
        f.as_slice(),
        "magnetic.csv",
    )) {
        return None;
    }
    let a = remove_all_chars(f.as_slice(), "gyro.csv");
    let b = remove_all_chars(a.as_slice(), "accel.csv");
    let c = remove_all_chars(b.as_slice(), "_imu_timestamps.csv");
    let stem = remove_all_chars(c.as_slice(), "magnetic.csv");
    let mut v: Vec<String> = Vec::new();
    v.push(concat_chars(stem.as_slice(), "gyro.csv"));
    v.push(concat_chars(stem.as_slice(), "accel.csv"));
    v.push(concat_chars(stem.as_slice(), "magnetic.csv"));
    Some(v)
}

/// For a video `….mp4`: the folder in which OpenCamera Sensors may keep its
/// files (the name without `VID_` and `.mp4`), and the name of its
/// gyroscope file (the name without `.mp4`, then `gyro.csv`).
pub fn video_companion(filename: &str) -> (r: Option<(String, String)>)
    ensures
        r is Some <==> ends_with(filename@, ".mp4"@),
        r matches Some(p) ==> p.0@ == remove_all(remove_all(filename@, "VID_"@), ".mp4"@) && p.1@ == remove_all(
            filename@,
            ".mp4"@,
        ) + "gyro.csv"@,
{
    let f = str_chars(filename);
    if !chars_ends_with(f.as_slice(), ".mp4") {
        return None;
    }
    let base = remove_all_chars(f.as_slice(), ".mp4");
    let gyro_name = concat_chars(base.as_slice(), "gyro.csv");
    let no_vid = remove_all_chars(f.as_slice(), "VID_");
    let part = remove_all_chars(no_vid.as_slice(), ".mp4");
    let part_name = concat_chars(part.as_slice(), "");
    assert(part@ + ""@ =~= part@) by {
        reveal_strlit("");
    }
    Some((part_name, gyro_name))
}


/// The app found is one of seven, and none is found only where no
/// detector accepts the input: the earlier detectors win.
pub proof fn lemma_phone_app_first_match(b: Seq<u8>, sensor_logger: bool, sensor_record: bool, opencamera: bool)
    ensures
        phone_app_of(b, sensor_logger, sensor_record, opencamera) matches Some(n) ==> {
            ||| n == "Sensor Logger"@
            ||| n == "GF Recorder"@
            ||| n == "Gyro"@
            ||| n == "Sensor Logger Android"@
            ||| n == "Sensor Record"@
            ||| n == "OpenCamera Sensors"@
            ||| n == "Film it"@
        },
        phone_app_of(b, sensor_logger, sensor_record, opencamera) is None <==> !sensor_logger && !is_gf_recorder(b)
            && !is_gyro_app(b) && !is_sensor_logger_android(b) && !sensor_record && !opencamera && !is_filmit(b),
        sensor_logger ==> phone_app_of(b, sensor_logger, sensor_record, opencamera) == Some("Sensor Logger"@),
        !sensor_logger && is_gf_recorder(b) ==> phone_app_of(b, sensor_logger, sensor_record, opencamera) == Some("GF Recorder"@),
{
}
} // verus!
