//! DJI metadata helpers: model names, GPS status texts and the choice of
//! the metadata schema.

use vstd::prelude::*;
use vstd::string::StringSliceAdditionalSpecFns;
use crate::bytes::{contains, contains_seq};
use crate::text::{
    concat_chars, is_whitespace, remove_all, remove_all_chars, str_chars, string_from_chars, trim_chars,
    trimmed, unicode_whitespace,
};

verus! {

/// Line breaks turned into spaces.
pub open spec fn unbreak(c: char) -> char {
    if c == '\n' || c == '\r' {
        ' '
    } else {
        c
    }
}

/// The words of `s` joined by single spaces. `started` says a word was
/// already written, `pending` that white space followed it.
pub open spec fn collapse(s: Seq<char>, started: bool, pending: bool) -> Seq<char>
    decreases s.len(),
{
    if s.len() == 0 {
        Seq::empty()
    } else if unicode_whitespace(s[0]) {
        collapse(s.drop_first(), started, started)
    } else {
        (if pending {
            seq![' ', s[0]]
        } else {
            seq![s[0]]
        }) + collapse(s.drop_first(), true, false)
    }
}

/// The product name without the `DJI ` prefix and with its words separated
/// by single spaces.
pub open spec fn normalized_name(raw: Seq<char>) -> Seq<char> {
    collapse(remove_all(raw, "DJI "@).map_values(|c: char| unbreak(c)), false, false)
}

/// Normalises a DJI product name: removes `DJI `, turns line breaks into
/// spaces, and joins the words with single spaces.
pub fn normalize_model_name(raw: &str) -> (r: String)
    ensures
        r@ == normalized_name(raw@),
{
    let s = str_chars(raw);
    let d = remove_all_chars(s.as_slice(), "DJI ");
    let ghost m = d@.map_values(|c: char| unbreak(c));
    let mut out: Vec<char> = Vec::new();
    let mut started = false;
    let mut pending = false;
    let mut j: usize = 0;
    assert(m.subrange(0, m.len() as int) =~= m);
    assert(out@ + collapse(m, false, false) =~= collapse(m, false, false));
    while j < d.len()
        invariant
            j <= d.len(),
            m == d@.map_values(|c: char| unbreak(c)),
            d@ == remove_all(raw@, "DJI "@),
            out@ + collapse(m.subrange(j as int, m.len() as int), started, pending) == collapse(m, false, false),
        decreases d.len() - j,
    {
        let c0 = d[j];
        let c = if c0 == '\n' || c0 == '\r' { ' ' } else { c0 };
        let ghost rest = m.subrange(j as int, m.len() as int);
        assert(rest[0] == c);
        assert(rest.drop_first() =~= m.subrange(j + 1, m.len() as int));
        if is_whitespace(c) {
            pending = started;
        } else {
            let ghost before = out@;
            if pending {
                out.push(' ');
            }
            out.push(c);
            assert(before + (if pending { seq![' ', c] } else { seq![c] }) =~= out@);
            assert(before + ((if pending { seq![' ', c] } else { seq![c] }) + collapse(m.subrange(j + 1, m.len() as int), true, false))
                =~= out@ + collapse(m.subrange(j + 1, m.len() as int), true, false));
            started = true;
            pending = false;
        }
        j = j + 1;
    }
    proof {
        assert(m.subrange(m.len() as int, m.len() as int) =~= Seq::<char>::empty());
        assert(out@ + Seq::<char>::empty() =~= out@);
    }
    string_from_chars(out.as_slice())
}

/// Spaces in `r` separate other characters: each space is followed by a
/// character that is not white space, and every character is a space or
/// not white space.
pub open spec fn single_spaced(r: Seq<char>) -> bool {
    &&& forall|i: int| 0 <= i < r.len() ==> #[trigger] r[i] == ' ' || !unicode_whitespace(r[i])
    &&& forall|i: int| 0 <= i < r.len() && #[trigger] r[i] == ' ' ==> i + 1 < r.len() && !unicode_whitespace(r[i + 1])
}

proof fn lemma_collapse(s: Seq<char>, started: bool, pending: bool)
    ensures
        single_spaced(collapse(s, started, pending)),
        !started && !pending && collapse(s, started, pending).len() > 0 ==> !unicode_whitespace(
            collapse(s, started, pending)[0],
        ),
    decreases s.len(),
{
    if s.len() == 0 {
    } else if unicode_whitespace(s[0]) {
        lemma_collapse(s.drop_first(), started, started);
    } else {
        lemma_collapse(s.drop_first(), true, false);
        let pre = if pending {
            seq![' ', s[0]]
        } else {
            seq![s[0]]
        };
        let rest = collapse(s.drop_first(), true, false);
        let r = pre + rest;
        assert(collapse(s, started, pending) == r);
        assert forall|i: int| 0 <= i < r.len() implies #[trigger] r[i] == ' ' || !unicode_whitespace(r[i]) by {
            if i >= pre.len() {
                assert(r[i] == rest[i - pre.len()]);
            }
        }
        assert forall|i: int| 0 <= i < r.len() && #[trigger] r[i] == ' ' implies i + 1 < r.len() && !unicode_whitespace(
            r[i + 1],
        ) by {
            if i >= pre.len() {
                assert(r[i] == rest[i - pre.len()]);
                assert(r[i + 1] == rest[i + 1 - pre.len()]);
            }
        }
    }
}

/// A normalised name has no line breaks, begins and ends with a character
/// that is not white space, and holds no two spaces in a row: its words
/// are separated by single spaces.
pub proof fn lemma_normalized_name_shape(raw: Seq<char>)
    ensures
        ({
            let r = normalized_name(raw);
            &&& single_spaced(r)
            &&& forall|i: int| 0 <= i < r.len() ==> #[trigger] r[i] != '\n' && r[i] != '\r'
            &&& r.len() > 0 ==> !unicode_whitespace(r[0]) && !unicode_whitespace(r.last())
            &&& forall|i: int| 0 <= i < r.len() - 1 ==> !(#[trigger] r[i] == ' ' && r[i + 1] == ' ')
        }),
{
    let m = remove_all(raw, "DJI "@).map_values(|c: char| unbreak(c));
    lemma_collapse(m, false, false);
    let r = normalized_name(raw);
    assert forall|i: int| 0 <= i < r.len() implies #[trigger] r[i] != '\n' && r[i] != '\r' by {
        assert(r[i] == ' ' || !unicode_whitespace(r[i]));
    }
    if r.len() > 0 {
        let l = r.len() - 1;
        assert(r[l] == ' ' || !unicode_whitespace(r[l]));
    }
    assert forall|i: int| 0 <= i < r.len() - 1 implies !(#[trigger] r[i] == ' ' && r[i + 1] == ' ') by {
        if r[i] == ' ' {
            assert(!unicode_whitespace(r[i + 1]));
        }
    }
}

/// The decimal digits of `n`.
pub open spec fn decimal(n: nat) -> Seq<char>
    decreases n,
{
    if n < 10 {
        seq![('0' as u32 + n) as char]
    } else {
        decimal(n / 10) + seq![('0' as u32 + n % 10) as char]
    }
}

fn digit(d: u64) -> (c: char)
    requires
        d < 10,
    ensures
        c == ('0' as u32 + d) as char,
{
    ((d as u8) + 48) as char
}

/// The decimal text of `n`.
pub fn u64_to_decimal(n: u64) -> (s: Vec<char>)
    ensures
        s@ == decimal(n as nat),
    decreases n,
{
    if n < 10 {
        let mut v: Vec<char> = Vec::new();
        v.push(digit(n));
        v
    } else {
        let mut v = u64_to_decimal(n / 10);
        v.push(digit(n % 10));
        v
    }
}

fn with_number(prefix: &str, n: u64) -> (s: String)
    ensures
        s@ == prefix@ + decimal(n as nat) + ")"@,
{
    let p = str_chars(prefix);
    let d = u64_to_decimal(n);
    let mut v: Vec<char> = Vec::new();
    let mut i: usize = 0;
    while i < p.len()
        invariant
            i <= p.len(),
            v@ == p@.subrange(0, i as int),
        decreases p.len() - i,
    {
        v.push(p[i]);
        i = i + 1;
    }
    let mut j: usize = 0;
    while j < d.len()
        invariant
            j <= d.len(),
            v@ == p@ + d@.subrange(0, j as int),
        decreases d.len() - j,
    {
        v.push(d[j]);
        j = j + 1;
    }
    assert(p@.subrange(0, p@.len() as int) =~= p@);
    assert(d@.subrange(0, d@.len() as int) =~= d@);
    concat_chars(v.as_slice(), ")")
}

/// The name of a GPS fix status.
pub fn gps_status_str(status: u64) -> (s: String)
    ensures
        status == 0 ==> s@ == "GPS_NORMAL"@,
        status == 1 ==> s@ == "GPS_INVALID"@,
        status == 2 ==> s@ == "GPS_RTK"@,
        status > 2 ==> s@ == "GPS_UNKNOWN("@ + decimal(status as nat) + ")"@,
{
    match status {
        0 => "GPS_NORMAL".to_owned(),
        1 => "GPS_INVALID".to_owned(),
        2 => "GPS_RTK".to_owned(),
        _ => with_number("GPS_UNKNOWN(", status),
    }
}

/// The name of a GPS altitude source.
pub fn gps_alt_type_str(alt_type: u64) -> (s: String)
    ensures
        alt_type == 0 ==> s@ == "PRESSURE_ALTITUDE"@,
        alt_type == 1 ==> s@ == "GPS_FUSION_ALTITUDE"@,
        alt_type == 2 ==> s@ == "RTK_ALTITUDE"@,
        alt_type > 2 ==> s@ == "ALTITUDE_UNKNOWN("@ + decimal(alt_type as nat) + ")"@,
{
    match alt_type {
        0 => "PRESSURE_ALTITUDE".to_owned(),
        1 => "GPS_FUSION_ALTITUDE".to_owned(),
        2 => "RTK_ALTITUDE".to_owned(),
        _ => with_number("ALTITUDE_UNKNOWN(", alt_type),
    }
}

/// The metadata schema of a DJI camera.
#[derive(PartialEq, Eq, Debug, Clone, Copy)]
pub enum DeviceProtobuf {
    Unknown,
    Wm169,
    Wa530,
    Ac203,
    Ac204,
    Ow001,
}

/// The schema that the head of the first metadata sample names.
pub open spec fn protobuf_of(head: Seq<u8>) -> DeviceProtobuf {
    if contains_seq(head, "ac203".spec_bytes()) {
        DeviceProtobuf::Ac203
    } else if contains_seq(head, "ac204".spec_bytes()) {
        DeviceProtobuf::Ac204
    } else if contains_seq(head, "OW001".spec_bytes()) || contains_seq(head, "ow001".spec_bytes()) {
        DeviceProtobuf::Ow001
    } else if contains_seq(head, "WA530".spec_bytes()) || contains_seq(head, "wa530".spec_bytes()) {
        DeviceProtobuf::Wa530
    } else {
        DeviceProtobuf::Wm169
    }
}

/// Chooses the metadata schema by the product code within the first 128
/// bytes of a sample.
pub fn detect_protobuf(data: &[u8]) -> (p: DeviceProtobuf)
    ensures
        p == protobuf_of(if data.len() > 128 { data@.subrange(0, 128) } else { data@ }),
{
    let head = if data.len() > 128 { &data[0..128] } else { data };
    if contains(head, "ac203".as_bytes()) || contains(head, "ac204".as_bytes()) {
        if contains(head, "ac203".as_bytes()) {
            DeviceProtobuf::Ac203
        } else {
            DeviceProtobuf::Ac204
        }
    } else if contains(head, "OW001".as_bytes()) || contains(head, "ow001".as_bytes()) {
        DeviceProtobuf::Ow001
    } else if contains(head, "WA530".as_bytes()) || contains(head, "wa530".as_bytes()) {
        DeviceProtobuf::Wa530
    } else {
        DeviceProtobuf::Wm169
    }
}

/// The seconds since 1970 of the UTC date and time that `s` holds in the
/// `strftime`-style format `fmt`, as chrono reads it; `None` where it does
/// not match.
pub uninterp spec fn naive_utc_seconds(s: Seq<char>, fmt: Seq<char>) -> Option<i64>;

/// Calls `chrono::NaiveDateTime::parse_from_str` and takes the result's
/// Unix timestamp as UTC; its value is named by `naive_utc_seconds`.
#[verifier::external_body]
fn utc_seconds(s: &str, fmt: &str) -> (r: Option<i64>)
    ensures
        r == naive_utc_seconds(s@, fmt@),
{
    chrono::NaiveDateTime::parse_from_str(s, fmt).ok().map(|dt| dt.and_utc().timestamp())
}

/// The first of the four GPS date-time formats that the trimmed text
/// matches, as seconds since 1970: `-` or `:` between the date's parts,
/// `:` or `-` between the time's.
pub open spec fn gps_seconds(s: Seq<char>) -> Option<i64> {
    let t = trimmed(s);
    match naive_utc_seconds(t, "%Y-%m-%d %H:%M:%S"@) {
        Some(x) => Some(x),
        None => match naive_utc_seconds(t, "%Y-%m-%d %H-%M-%S"@) {
            Some(x) => Some(x),
            None => match naive_utc_seconds(t, "%Y:%m:%d %H:%M:%S"@) {
                Some(x) => Some(x),
                None => naive_utc_seconds(t, "%Y:%m:%d %H-%M-%S"@),
            },
        },
    }
}

/// The seconds since 1970 of a GPS date and time (see `gps_seconds`).
pub fn parse_gps_datetime(s: &str) -> (r: Option<i64>)
    ensures
        r == gps_seconds(s@),
{
    let c = str_chars(s);
    let t = trim_chars(c.as_slice());
    let ts = string_from_chars(t.as_slice());
    if let Some(x) = utc_seconds(ts.as_str(), "%Y-%m-%d %H:%M:%S") {
        return Some(x);
    }
    if let Some(x) = utc_seconds(ts.as_str(), "%Y-%m-%d %H-%M-%S") {
        return Some(x);
    }
    if let Some(x) = utc_seconds(ts.as_str(), "%Y:%m:%d %H:%M:%S") {
        return Some(x);
    }
    utc_seconds(ts.as_str(), "%Y:%m:%d %H-%M-%S")
}

} // verus!
