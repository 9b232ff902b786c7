//! RunCam, iFlight and Mobius gyroscope CSV logs: which camera wrote a log,
//! and which file beside a video holds its log.

use vstd::prelude::*;
use vstd::string::StringSliceAdditionalSpecFns;
use crate::filesystem::{ascii_lower, filename_of, first_named, get_filename, listed_path};
use crate::text::{
    chars_ends_with, chars_starts_with, concat_chars, ends_with, remove_all, remove_all_chars, replace_all,
    replace_all_chars, str_chars, string_from_chars,
};

verus! {

/// A RunCam-style gyroscope log; `gyro_buf` holds the log itself.
#[derive(Debug, Clone)]
pub struct Runcam {
    pub model: Option<String>,
    pub gyro_buf: Vec<u8>,
}

/// Whether `s` begins with `p`.
pub open spec fn starts_with(s: Seq<char>, p: Seq<char>) -> bool {
    p.len() <= s.len() && s.subrange(0, p.len() as int) == p
}

/// Whether the bytes `b` begin with `p`.
pub open spec fn bytes_start_with(b: Seq<u8>, p: Seq<u8>) -> bool {
    p.len() <= b.len() && b.subrange(0, p.len() as int) == p
}

fn starts_with_bytes(b: &[u8], p: &[u8]) -> (r: bool)
    ensures
        r == bytes_start_with(b@, p@),
{
    if p.len() > b.len() {
        return false;
    }
    let mut i: usize = 0;
    while i < p.len()
        invariant
            i <= p.len() <= b.len(),
            forall|k: int| 0 <= k < i ==> b@[k] == p@[k],
        decreases p.len() - i,
    {
        if b[i] != p[i] {
            assert(b@.subrange(0, p@.len() as int)[i as int] != p@[i as int]);
            return false;
        }
        i = i + 1;
    }
    assert(b@.subrange(0, p@.len() as int) =~= p@);
    true
}

/// The CSV headers of these logs.
pub open spec fn has_runcam_header(b: Seq<u8>) -> bool {
    bytes_start_with(b, "time,x,y,z,ax,ay,az".spec_bytes()) || bytes_start_with(
        b,
        "time,rx,ry,rz,ax,ay,az".spec_bytes(),
    ) || bytes_start_with(b, "time,x,y,z".spec_bytes()) || bytes_start_with(b, "time(ms),x,y,z".spec_bytes())
}

/// The camera that wrote a log with file name `f`: the Mobius header has a
/// temperature column; the others are told apart by the file name.
pub open spec fn runcam_model_of(b: Seq<u8>, f: Seq<char>) -> Option<Seq<char>> {
    if bytes_start_with(b, "time,rx,ry,rz,ax,ay,az,temp".spec_bytes()) {
        Some("Mobius Maxi 4K"@)
    } else if starts_with(f, "RC_"@) {
        Some("Runcam 5 Orange"@)
    } else if starts_with(f, "gyroDat"@) || starts_with(f, "IF-RC"@) {
        Some("iFlight GOCam GR"@)
    } else if starts_with(f, "Thumb"@) {
        Some("Thumb"@)
    } else {
        None
    }
}

/// The camera brand for a model.
pub open spec fn runcam_brand(model: Option<String>) -> Seq<char> {
    match model {
        Some(m) => if m@ == "iFlight GOCam GR"@ {
            "iFlight"@
        } else if m@ == "Mobius Maxi 4K"@ {
            "Mobius"@
        } else {
            "Runcam"@
        },
        None => "Runcam"@,
    }
}

/// The text before the first `_` of `s` (all of `s` when it has none).
pub open spec fn before_underscore(s: Seq<char>) -> Seq<char>
    decreases s.len(),
{
    if s.len() == 0 || s[0] == '_' {
        Seq::empty()
    } else {
        seq![s[0]] + before_underscore(s.drop_first())
    }
}

/// The text after the first `_` of `s`, when it has one.
pub open spec fn after_underscore(s: Seq<char>) -> Option<Seq<char>>
    decreases s.len(),
{
    if s.len() == 0 {
        None
    } else if s[0] == '_' {
        Some(s.drop_first())
    } else {
        after_underscore(s.drop_first())
    }
}

/// The second `_`-separated field of `s`, or nothing when `s` has no `_`.
pub open spec fn second_field(s: Seq<char>) -> Seq<char> {
    match after_underscore(s) {
        Some(r) => before_underscore(r),
        None => Seq::empty(),
    }
}

fn second_field_of(s: &[char]) -> (r: Vec<char>)
    ensures
        r@ == second_field(s@),
{
    let mut i: usize = 0;
    assert(s@.subrange(0, s@.len() as int) =~= s@);
    while i < s.len() && s[i] != '_'
        invariant
            i <= s.len(),
            after_underscore(s@.subrange(i as int, s@.len() as int)) == after_underscore(s@),
        decreases s.len() - i,
    {
        assert(s@.subrange(i as int, s@.len() as int).drop_first() =~= s@.subrange(i + 1, s@.len() as int));
        i = i + 1;
    }
    let mut out: Vec<char> = Vec::new();
    if i == s.len() {
        assert(s@.subrange(i as int, s@.len() as int) =~= Seq::<char>::empty());
        return out;
    }
    let ghost rest = s@.subrange(i + 1, s@.len() as int);
    assert(s@.subrange(i as int, s@.len() as int).drop_first() =~= rest);
    let mut j: usize = i + 1;
    assert(rest.subrange(0, rest.len() as int) =~= rest);
    assert(out@ + before_underscore(rest) =~= before_underscore(rest));
    while j < s.len() && s[j] != '_'
        invariant
            i + 1 <= j <= s.len(),
            rest == s@.subrange(i + 1, s@.len() as int),
            out@ + before_underscore(s@.subrange(j as int, s@.len() as int)) == before_underscore(rest),
        decreases s.len() - j,
    {
        let ghost t = s@.subrange(j as int, s@.len() as int);
        assert(t.drop_first() =~= s@.subrange(j + 1, s@.len() as int));
        assert(out@.push(s@[j as int]) + before_underscore(t.drop_first()) =~= out@ + (seq![s@[j as int]]
            + before_underscore(t.drop_first())));
        out.push(s[j]);
        j = j + 1;
    }
    assert(before_underscore(s@.subrange(j as int, s@.len() as int)) =~= Seq::<char>::empty());
    assert(out@ + Seq::<char>::empty() =~= out@);
    out
}

/// The ASCII lower case of a text.
pub open spec fn ascii_lowercase(s: Seq<char>) -> Seq<char> {
    s.map_values(|c: char| ascii_lower(c))
}

pub(crate) fn ascii_lowercase_of(s: &[char]) -> (r: Vec<char>)
    ensures
        r@ == ascii_lowercase(s@),
{
    let mut v: Vec<char> = Vec::new();
    let mut i: usize = 0;
    while i < s.len()
        invariant
            i <= s.len(),
            v@ == ascii_lowercase(s@.subrange(0, i as int)),
        decreases s.len() - i,
    {
        let c = s[i];
        let l = if 'A' <= c && c <= 'Z' {
            ((c as u32 + 32) as u8) as char
        } else {
            c
        };
        v.push(l);
        i = i + 1;
        assert(ascii_lowercase(s@.subrange(0, i as int)) =~= ascii_lowercase(s@.subrange(0, i - 1)).push(
            ascii_lower(c),
        ));
    }
    assert(s@.subrange(0, s@.len() as int) =~= s@);
    v
}

/// The gyroscope log that belongs to the video named `f`, among the listed
/// files of its folder: `RC_GyroData<n>.csv` for `RC_…`, `gyroDate<n>.csv`
/// or else `gyroData<n>.csv` for `IF-RC…` (with `<n>` the second `_` field,
/// in lower case and without `.mp4`), and the name with `.csv` for `.mp4`
/// for `Thumb…`; each tried only where the ones before found nothing.
pub open spec fn gyro_path_of(files: Seq<(String, String)>, f: Seq<char>) -> Option<Seq<char>> {
    let rc = if starts_with(f, "RC_"@) {
        first_named(files, "RC_GyroData"@ + second_field(f) + ".csv"@)
    } else {
        None
    };
    let num = remove_all(ascii_lowercase(second_field(f)), ".mp4"@);
    let ifrc = if starts_with(f, "IF-RC"@) {
        match first_named(files, "gyroDate"@ + num + ".csv"@) {
            Some(p) => Some(p),
            None => first_named(files, "gyroData"@ + num + ".csv"@),
        }
    } else {
        None
    };
    if rc is Some {
        rc
    } else if ifrc is Some {
        ifrc
    } else if starts_with(f, "Thumb"@) {
        first_named(files, replace_all(f, ".mp4"@, ".csv"@))
    } else {
        None
    }
}

fn find_named(files: &[(String, String)], a: &[char], b: &str) -> (r: Option<String>)
    ensures
        match r {
            Some(p) => first_named(files@, a@ + b@) == Some(p@),
            None => first_named(files@, a@ + b@) is None,
        },
{
    let name = concat_chars(a, b);
    listed_path(files, name.as_str())
}

fn prefixed(p: &str, a: &[char]) -> (r: Vec<char>)
    ensures
        r@ == p@ + a@,
{
    let mut v = str_chars(p);
    let ghost pv = v@;
    let mut i: usize = 0;
    while i < a.len()
        invariant
            i <= a.len(),
            pv == p@,
            v@ == pv + a@.subrange(0, i as int),
        decreases a.len() - i,
    {
        v.push(a[i]);
        i = i + 1;
    }
    assert(a@.subrange(0, a@.len() as int) =~= a@);
    v
}

impl Runcam {
    pub fn camera_type(&self) -> (s: String)
        ensures
            s@ == runcam_brand(self.model),
    {
        match &self.model {
            Some(m) => {
                if crate::text::str_eq(m.as_str(), "iFlight GOCam GR") {
                    "iFlight".to_owned()
                } else if crate::text::str_eq(m.as_str(), "Mobius Maxi 4K") {
                    "Mobius".to_owned()
                } else {
                    "Runcam".to_owned()
                }
            },
            None => "Runcam".to_owned(),
        }
    }

    pub fn has_accurate_timestamps(&self) -> (b: bool)
        ensures
            !b,
    {
        false
    }

    pub fn possible_extensions() -> (v: Vec<&'static str>)
        ensures
            v@.len() == 0,
    {
        Vec::new()
    }

    pub fn normalize_imu_orientation(v: String) -> (r: String)
        ensures
            r == v,
    {
        v
    }

    /// Recognises a log by its header and names the camera by the header and
    /// the file name. `gyro_buf` is the log: the companion file that
    /// `gyro_log_path` names when there is one, else the file at `filepath`.
    pub fn detect(gyro_buf: Vec<u8>, filepath: &str) -> (r: Option<Self>)
        ensures
            r is Some <==> has_runcam_header(gyro_buf@),
            r matches Some(c) ==> c.gyro_buf@ == gyro_buf@ && match runcam_model_of(
                gyro_buf@,
                filename_of(filepath@),
            ) {
                Some(m) => c.model is Some && c.model.unwrap()@ == m,
                None => c.model is None,
            },
    {
        let filename = get_filename(filepath);
        let f = str_chars(filename.as_str());
        let b = gyro_buf.as_slice();
        if !(starts_with_bytes(b, "time,x,y,z,ax,ay,az".as_bytes()) || starts_with_bytes(
            b,
            "time,rx,ry,rz,ax,ay,az".as_bytes(),
        ) || starts_with_bytes(b, "time,x,y,z".as_bytes()) || starts_with_bytes(b, "time(ms),x,y,z".as_bytes())) {
            return None;
        }
        let model = if starts_with_bytes(b, "time,rx,ry,rz,ax,ay,az,temp".as_bytes()) {
            Some("Mobius Maxi 4K".to_owned())
        } else if chars_starts_with(f.as_slice(), "RC_") {
            Some("Runcam 5 Orange".to_owned())
        } else if chars_starts_with(f.as_slice(), "gyroDat") || chars_starts_with(f.as_slice(), "IF-RC") {
            Some("iFlight GOCam GR".to_owned())
        } else if chars_starts_with(f.as_slice(), "Thumb") {
            Some("Thumb".to_owned())
        } else {
            None
        };
        Some(Runcam { model, gyro_buf })
    }

    /// The gyroscope log that belongs to the video named `filename`, among
    /// the files `(name, path)` listed in the video's folder.
    pub fn detect_gyro_path(filename: &str, files: &[(String, String)]) -> (r: Option<String>)
        ensures
            match r {
                Some(p) => gyro_path_of(files@, filename@) == Some(p@),
                None => gyro_path_of(files@, filename@) is None,
            },
    {
        let f = str_chars(filename);
        let num = second_field_of(f.as_slice());
        let is_rc = chars_starts_with(f.as_slice(), "RC_");
        let is_ifrc = chars_starts_with(f.as_slice(), "IF-RC");
        if is_rc {
            let a = prefixed("RC_GyroData", num.as_slice());
            let found = find_named(files, a.as_slice(), ".csv");
            if found.is_some() {
                return found;
            }
        }
        if is_ifrc {
            let lower = ascii_lowercase_of(num.as_slice());
            let n = remove_all_chars(lower.as_slice(), ".mp4");
            let a = prefixed("gyroDate", n.as_slice());
            let found = find_named(files, a.as_slice(), ".csv");
            if found.is_some() {
                return found;
            }
            let b = prefixed("gyroData", n.as_slice());
            let found = find_named(files, b.as_slice(), ".csv");
            if found.is_some() {
                return found;
            }
        }
        if chars_starts_with(f.as_slice(), "Thumb") {
            proof {
                reveal_strlit(".mp4");
            }
            let t = replace_all_chars(f.as_slice(), ".mp4", ".csv");
            let name = string_from_chars(t.as_slice());
            return listed_path(files, name.as_str());
        }
        None
    }

    /// The companion gyroscope log of the file at `filepath`: looked for
    /// only beside an `.mp4` video (in any letter case).
    pub fn gyro_log_path(filepath: &str, files: &[(String, String)]) -> (r: Option<String>)
        ensures
            !ends_with(ascii_lowercase(filename_of(filepath@)), ".mp4"@) ==> r is None,
            ends_with(ascii_lowercase(filename_of(filepath@)), ".mp4"@) ==> match r {
                Some(p) => gyro_path_of(files@, filename_of(filepath@)) == Some(p@),
                None => gyro_path_of(files@, filename_of(filepath@)) is None,
            },
    {
        let filename = get_filename(filepath);
        let f = str_chars(filename.as_str());
        let lower = ascii_lowercase_of(f.as_slice());
        if chars_ends_with(lower.as_slice(), ".mp4") {
            Runcam::detect_gyro_path(filename.as_str(), files)
        } else {
            None
        }
    }
}

} // verus!
