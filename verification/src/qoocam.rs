//! KanDao QooCam EGO and QooCam 3 Ultra metadata boxes: a count, then
//! records of a name, a type, a length and the values, little-endian; and
//! the IMU samples and exposure times that such records hold.

use vstd::prelude::*;
use crate::ardupilot_bin::{field_text, text_of};
use crate::bytes::{le2, le4, le8, le_at, lemma_le_at_2, lemma_le_at_4, lemma_le_at_8, read_le, s16, s32, signed};
use crate::text::{str_chars, str_eq, string_from_chars};

verus! {

/// The values of a metadata record; `f64` values as their bits.
#[derive(Debug, Clone, PartialEq)]
pub enum QooValue {
    Text(String),
    I32s(Vec<i32>),
    U32s(Vec<u32>),
    U64s(Vec<u64>),
    F64Bits(Vec<u64>),
    Bytes(Vec<u8>),
    /// A record of an unknown type, whose values are not read.
    Unknown,
}

/// The values of a record as sequences.
pub enum QooView {
    Text(Seq<char>),
    I32s(Seq<i32>),
    U32s(Seq<u32>),
    U64s(Seq<u64>),
    F64Bits(Seq<u64>),
    Bytes(Seq<u8>),
    Unknown,
}

/// The view of record values.
pub open spec fn qoo_view(v: QooValue) -> QooView {
    match v {
        QooValue::Text(s) => QooView::Text(s@),
        QooValue::I32s(x) => QooView::I32s(x@),
        QooValue::U32s(x) => QooView::U32s(x@),
        QooValue::U64s(x) => QooView::U64s(x@),
        QooValue::F64Bits(x) => QooView::F64Bits(x@),
        QooValue::Bytes(x) => QooView::Bytes(x@),
        QooValue::Unknown => QooView::Unknown,
    }
}

/// A metadata record: its name and values.
#[derive(Debug, Clone)]
pub struct QooRecord {
    pub name: String,
    pub value: QooValue,
}

/// The view of a record.
pub open spec fn record_view(r: QooRecord) -> (Seq<char>, QooView) {
    (r.name@, qoo_view(r.value))
}

/// The kind of a type name: 1 `CHAR`, 2 `S32`, 3 `U32`, 4 `U64`,
/// 5 `DOUBLE`, 6 `U8`, 0 any other.
pub open spec fn kind_of(t: Seq<char>) -> int {
    if t == "CHAR"@ {
        1
    } else if t == "S32"@ {
        2
    } else if t == "U32"@ {
        3
    } else if t == "U64"@ {
        4
    } else if t == "DOUBLE"@ {
        5
    } else if t == "U8"@ {
        6
    } else {
        0
    }
}

/// The width of one value of a kind.
pub open spec fn kind_width(k: int) -> int {
    if k == 2 || k == 3 {
        4
    } else if k == 4 || k == 5 {
        8
    } else {
        1
    }
}

/// The bits of a finite `f64`: its exponent is not all ones.
pub open spec fn finite_bits(b: u64) -> bool {
    (b / 0x10_0000_0000_0000) % 0x800 != 0x7ff
}

/// The `n` values of kind `k` at `p`.
pub open spec fn values_at(d: Seq<u8>, p: int, k: int, n: nat) -> QooView {
    if k == 1 {
        QooView::Text(field_text(d.subrange(p, p + n)))
    } else if k == 2 {
        QooView::I32s(Seq::new(n, |j: int| signed(le_at(d, p + 4 * j, 4) as int, 32) as i32))
    } else if k == 3 {
        QooView::U32s(Seq::new(n, |j: int| le_at(d, p + 4 * j, 4) as u32))
    } else if k == 4 {
        QooView::U64s(Seq::new(n, |j: int| le_at(d, p + 8 * j, 8) as u64))
    } else if k == 5 {
        QooView::F64Bits(Seq::new(n, |j: int| le_at(d, p + 8 * j, 8) as u64))
    } else {
        QooView::Bytes(d.subrange(p, p + n))
    }
}

/// How reading metadata records ends: with the records, cut short by the
/// end of the data, or malformed (an `f64` value that is not finite).
pub enum QooOutcome {
    Records(Seq<(Seq<char>, QooView)>),
    Cut,
    Malformed,
}

/// `r` before the records of `o`.
pub open spec fn qoo_then(r: (Seq<char>, QooView), o: QooOutcome) -> QooOutcome {
    match o {
        QooOutcome::Records(s) => QooOutcome::Records(seq![r] + s),
        _ => o,
    }
}

/// `left` records from `pos`: a 32-byte name, an 8-byte type, a `u32`
/// count, then the values of a known type.
pub open spec fn records_from(d: Seq<u8>, pos: int, left: nat) -> QooOutcome
    decreases left,
{
    if left == 0 {
        QooOutcome::Records(Seq::empty())
    } else if pos < 0 || pos + 44 > d.len() {
        QooOutcome::Cut
    } else {
        let name = field_text(d.subrange(pos, pos + 32));
        let k = kind_of(field_text(d.subrange(pos + 32, pos + 40)));
        let n = le_at(d, pos + 40, 4);
        let p = pos + 44;
        if k == 0 {
            qoo_then((name, QooView::Unknown), records_from(d, p, (left - 1) as nat))
        } else {
            let w = kind_width(k);
            let avail: int = (d.len() - p) / w;
            let m: int = if avail < n { avail } else { n as int };
            if k == 5 && exists|j: int| 0 <= j < m && !finite_bits(#[trigger] le_at(d, p + 8 * j, 8) as u64) {
                QooOutcome::Malformed
            } else if m < n {
                QooOutcome::Cut
            } else {
                qoo_then((name, values_at(d, p, k, n)), records_from(d, p + w * n, (left - 1) as nat))
            }
        }
    }
}

/// The records of a metadata box: a `u32` count, then the records.
pub open spec fn box_records(d: Seq<u8>) -> QooOutcome {
    if d.len() < 4 {
        QooOutcome::Cut
    } else {
        records_from(d, 4, le_at(d, 0, 4))
    }
}

fn kind_exec(t: &[char]) -> (k: u8)
    ensures
        k as int == kind_of(t@),
{
    let s = string_from_chars(t);
    proof {
        reveal_strlit("CHAR");
    }
    if str_eq(s.as_str(), "CHAR") {
        1
    } else if str_eq(s.as_str(), "S32") {
        2
    } else if str_eq(s.as_str(), "U32") {
        3
    } else if str_eq(s.as_str(), "U64") {
        4
    } else if str_eq(s.as_str(), "DOUBLE") {
        5
    } else if str_eq(s.as_str(), "U8") {
        6
    } else {
        0
    }
}

enum ValuesRead {
    Cut,
    Malformed,
    Values(QooValue, usize),
}

fn read_words(d: &[u8], p: usize, nn: usize, signed_words: bool) -> (r: Option<QooValue>)
    requires
        p <= d.len(),
    ensures
        r is None <==> (d.len() - p) / 4 < nn,
        r matches Some(v) ==> qoo_view(v) == values_at(d@, p as int, if signed_words { 2 } else { 3 }, nn as nat),
{
    if (d.len() - p) / 4 < nn {
        return None;
    }
    let mut u: Vec<u32> = Vec::new();
    let mut s: Vec<i32> = Vec::new();
    let mut j: usize = 0;
    while j < nn
        invariant
            j <= nn,
            p + 4 * nn <= d.len(),
            u@.len() == j,
            s@.len() == j,
            forall|i: int| 0 <= i < j ==> u@[i] == le_at(d@, p + 4 * i, 4) as u32,
            forall|i: int| 0 <= i < j ==> s@[i] == signed(le_at(d@, p + 4 * i, 4) as int, 32) as i32,
        decreases nn - j,
    {
        let a = p + 4 * j;
        let x = crate::bytes::read_u32_le(&d[a..a + 4]);
        let y = crate::bytes::read_i32_le(&d[a..a + 4]);
        assert(d@.subrange(a as int, a + 4).subrange(0, 4) =~= d@.subrange(a as int, a + 4));
        u.push(x);
        s.push(y);
        j = j + 1;
    }
    if signed_words {
        assert(s@ =~= Seq::new(nn as nat, |j: int| signed(le_at(d@, p + 4 * j, 4) as int, 32) as i32));
        Some(QooValue::I32s(s))
    } else {
        assert(u@ =~= Seq::new(nn as nat, |j: int| le_at(d@, p + 4 * j, 4) as u32));
        Some(QooValue::U32s(u))
    }
}

fn read_longs(d: &[u8], p: usize, nn: usize, doubles: bool) -> (r: ValuesRead)
    requires
        p <= d.len(),
    ensures
        ({
            let avail: int = (d.len() - p) / 8;
            let m: int = if avail < nn { avail } else { nn as int };
            let bad = doubles && exists|j: int| 0 <= j < m && !finite_bits(#[trigger] le_at(d@, p + 8 * j, 8) as u64);
            match r {
                ValuesRead::Malformed => bad,
                ValuesRead::Cut => !bad && m < nn,
                ValuesRead::Values(v, p2) => !bad && m == nn && p2 == p + 8 * nn && qoo_view(v) == values_at(
                    d@,
                    p as int,
                    if doubles { 5 } else { 4 },
                    nn as nat,
                ),
            }
        }),
{
    let avail = (d.len() - p) / 8;
    let m = if avail < nn { avail } else { nn };
    let mut v: Vec<u64> = Vec::new();
    let mut j: usize = 0;
    while j < m
        invariant
            j <= m <= avail,
            m == (if avail < nn { avail } else { nn }),
            avail == (d.len() - p) / 8,
            p <= d.len(),
            v@.len() == j,
            forall|i: int| 0 <= i < j ==> v@[i] == le_at(d@, p + 8 * i, 8),
            doubles ==> forall|i: int| 0 <= i < j ==> finite_bits(#[trigger] le_at(d@, p + 8 * i, 8) as u64),
        decreases m - j,
    {
        let x = read_le(d, p + 8 * j, 8);
        if doubles && (x / 0x10_0000_0000_0000) % 0x800 == 0x7ff {
            assert(!finite_bits(le_at(d@, p + 8 * j, 8) as u64));
            assert(exists|i: int| 0 <= i < m && !finite_bits(#[trigger] le_at(d@, p + 8 * i, 8) as u64));
            return ValuesRead::Malformed;
        }
        v.push(x);
        j = j + 1;
    }
    if m < nn {
        return ValuesRead::Cut;
    }
    assert(v@ =~= Seq::new(nn as nat, |j: int| le_at(d@, p + 8 * j, 8) as u64));
    if doubles {
        ValuesRead::Values(QooValue::F64Bits(v), p + 8 * nn)
    } else {
        ValuesRead::Values(QooValue::U64s(v), p + 8 * nn)
    }
}

fn read_values(d: &[u8], p: usize, k: u8, n: u32) -> (r: ValuesRead)
    requires
        1 <= k <= 6,
        p <= d.len(),
    ensures
        ({
            let w = kind_width(k as int);
            let avail: int = (d.len() - p) / w;
            let m: int = if avail < n { avail } else { n as int };
            let bad = k == 5 && exists|j: int| 0 <= j < m && !finite_bits(#[trigger] le_at(d@, p + 8 * j, 8) as u64);
            match r {
                ValuesRead::Malformed => bad,
                ValuesRead::Cut => !bad && m < n,
                ValuesRead::Values(v, p2) => !bad && m == n && p2 == p + w * n && qoo_view(v) == values_at(
                    d@,
                    p as int,
                    k as int,
                    n as nat,
                ),
            }
        }),
{
    let nn = n as usize;
    if k == 1 || k == 6 {
        if d.len() - p < nn {
            return ValuesRead::Cut;
        }
        let b = &d[p..p + nn];
        if k == 1 {
            let t = text_of(b);
            return ValuesRead::Values(QooValue::Text(string_from_chars(t.as_slice())), p + nn);
        }
        let mut v: Vec<u8> = Vec::new();
        let mut j: usize = 0;
        while j < nn
            invariant
                j <= nn,
                b@.len() == nn,
                v@ == b@.subrange(0, j as int),
            decreases nn - j,
        {
            v.push(b[j]);
            j = j + 1;
            assert(v@ =~= b@.subrange(0, j as int));
        }
        assert(b@.subrange(0, nn as int) =~= b@);
        return ValuesRead::Values(QooValue::Bytes(v), p + nn);
    }
    if k == 2 || k == 3 {
        return match read_words(d, p, nn, k == 2) {
            None => ValuesRead::Cut,
            Some(v) => ValuesRead::Values(v, p + 4 * nn),
        };
    }
    read_longs(d, p, nn, k == 5)
}

enum RecStep {
    Cut,
    Malformed,
    Record(QooRecord, usize),
}

#[verifier::rlimit(60)]
#[verifier::spinoff_prover]
fn record_at(d: &[u8], pos: usize, left: Ghost<nat>) -> (r: RecStep)
    requires
        pos <= d.len(),
        left@ > 0,
    ensures
        match r {
            RecStep::Cut => records_from(d@, pos as int, left@) is Cut,
            RecStep::Malformed => records_from(d@, pos as int, left@) is Malformed,
            RecStep::Record(rec, p2) => pos < p2 <= d.len() && records_from(d@, pos as int, left@) == qoo_then(
                record_view(rec),
                records_from(d@, p2 as int, (left@ - 1) as nat),
            ),
        },
{
    if d.len() - pos < 44 {
        assert(records_from(d@, pos as int, left@) is Cut);
        return RecStep::Cut;
    }
    let name_c = text_of(&d[pos..pos + 32]);
    let typ_c = text_of(&d[pos + 32..pos + 40]);
    let name = string_from_chars(name_c.as_slice());
    let k = kind_exec(typ_c.as_slice());
    let n = crate::bytes::read_u32_le(&d[pos + 40..pos + 44]);
    assert(d@.subrange(pos + 40, pos + 44).subrange(0, 4) =~= d@.subrange(pos + 40, pos + 44));
    let p = pos + 44;
    assert(name@ == field_text(d@.subrange(pos as int, pos + 32)));
    assert(k == kind_of(field_text(d@.subrange(pos + 32, pos + 40))));
    assert(n == le_at(d@, pos + 40, 4));
    if k == 0 {
        return RecStep::Record(QooRecord { name, value: QooValue::Unknown }, p);
    }
    proof {
        let w = kind_width(k as int);
        let avail: int = (d.len() - p) / w;
        let m: int = if avail < n { avail } else { n as int };
        let bad = k == 5 && exists|j: int| 0 <= j < m && !finite_bits(#[trigger] le_at(d@, p + 8 * j, 8) as u64);
        assert(records_from(d@, pos as int, left@) == (if bad {
            QooOutcome::Malformed
        } else if m < n {
            QooOutcome::Cut
        } else {
            qoo_then(
                (name@, values_at(d@, p as int, k as int, n as nat)),
                records_from(d@, p + w * n, (left@ - 1) as nat),
            )
        }));
    }
    match read_values(d, p, k, n) {
        ValuesRead::Cut => {
            assert(records_from(d@, pos as int, left@) is Cut);
            RecStep::Cut
        },
        ValuesRead::Malformed => RecStep::Malformed,
        ValuesRead::Values(v, p2) => RecStep::Record(QooRecord { name, value: v }, p2),
    }
}

/// How reading a metadata box ends, with its records.
pub enum QooParse {
    Records(Vec<QooRecord>),
    Cut,
    Malformed,
}

/// Reads the records of a metadata box (see `box_records`).
pub fn parse_data(d: &[u8]) -> (r: QooParse)
    ensures
        match box_records(d@) {
            QooOutcome::Records(s) => r matches QooParse::Records(v) && v@.map_values(|x: QooRecord| record_view(x)) == s,
            QooOutcome::Cut => r is Cut,
            QooOutcome::Malformed => r is Malformed,
        },
{
    if d.len() < 4 {
        return QooParse::Cut;
    }
    let count = read_le(d, 0, 4);
    let mut left = count;
    let mut pos: usize = 4;
    let mut out: Vec<QooRecord> = Vec::new();
    assert(box_records(d@) == records_from(d@, 4, count as nat));
    loop
        invariant
            pos <= d.len(),
            box_records(d@) == match records_from(d@, pos as int, left as nat) {
                QooOutcome::Records(s) => QooOutcome::Records(out@.map_values(|x: QooRecord| record_view(x)) + s),
                o => o,
            },
        decreases left,
    {
        let ghost pre = out@.map_values(|x: QooRecord| record_view(x));
        if left == 0 {
            assert(pre + Seq::<(Seq<char>, QooView)>::empty() =~= pre);
            return QooParse::Records(out);
        }
        match record_at(d, pos, Ghost(left as nat)) {
            RecStep::Cut => {
                return QooParse::Cut;
            },
            RecStep::Malformed => {
                return QooParse::Malformed;
            },
            RecStep::Record(rec, p2) => {
                proof {
                    match records_from(d@, p2 as int, (left - 1) as nat) {
                        QooOutcome::Records(s) => {
                            assert(pre + (seq![record_view(rec)] + s) =~= pre.push(record_view(rec)) + s);
                        },
                        _ => {},
                    }
                }
                out.push(rec);
                assert(out@.map_values(|x: QooRecord| record_view(x)) =~= pre.push(record_view(rec)));
                pos = p2;
                left = left - 1;
            },
        }
    }
}

/// A sample of an `IMU` record: a timestamp in microseconds, then the
/// gyroscope and the accelerometer sample.
#[derive(Debug, Clone, Copy, PartialEq, Eq)]
pub struct QooImu {
    pub timestamp: u64,
    pub gyro: (i16, i16, i16),
    pub accel: (i16, i16, i16),
}

/// The little-endian `i16` at `i`.
pub open spec fn i16_at(b: Seq<u8>, i: int) -> i16 {
    signed(le_at(b, i, 2) as int, 16) as i16
}

/// The samples of an `IMU` record, 20 bytes each; `None` where the last
/// one is cut short.
pub open spec fn imu_of(b: Seq<u8>) -> Option<Seq<QooImu>> {
    if b.len() % 20 == 0 {
        Some(Seq::new(b.len() / 20, |k: int| QooImu {
            timestamp: le_at(b, 20 * k, 8) as u64,
            gyro: (i16_at(b, 20 * k + 8), i16_at(b, 20 * k + 10), i16_at(b, 20 * k + 12)),
            accel: (i16_at(b, 20 * k + 14), i16_at(b, 20 * k + 16), i16_at(b, 20 * k + 18)),
        }))
    } else {
        None
    }
}

pub(crate) fn i16_exec(b: &[u8], i: usize) -> (r: i16)
    requires
        i + 2 <= b.len(),
    ensures
        r == i16_at(b@, i as int),
{
    let x = crate::bytes::read_i16_le(&b[i..i + 2]);
    assert(b@.subrange(i as int, i + 2).subrange(0, 2) =~= b@.subrange(i as int, i + 2));
    x
}

/// Reads the samples of an `IMU` record (see `imu_of`).
pub fn imu_samples(b: &[u8]) -> (r: Option<Vec<QooImu>>)
    ensures
        match imu_of(b@) {
            Some(s) => r matches Some(v) && v@ == s,
            None => r is None,
        },
{
    if b.len() % 20 != 0 {
        return None;
    }
    let n = b.len() / 20;
    let mut v: Vec<QooImu> = Vec::new();
    let mut k: usize = 0;
    while k < n
        invariant
            k <= n == b.len() / 20,
            b.len() % 20 == 0,
            v@.len() == k,
            forall|j: int| 0 <= j < k ==> v@[j] == imu_of(b@)->Some_0[j],
        decreases n - k,
    {
        let i = 20 * k;
        let s = QooImu {
            timestamp: read_le(b, i, 8),
            gyro: (i16_exec(b, i + 8), i16_exec(b, i + 10), i16_exec(b, i + 12)),
            accel: (i16_exec(b, i + 14), i16_exec(b, i + 16), i16_exec(b, i + 18)),
        };
        v.push(s);
        k = k + 1;
    }
    assert(v@ =~= imu_of(b@)->Some_0);
    Some(v)
}

/// The pairs of an `EXP` record: a time and an exposure time, `u32` each;
/// `None` where the last one is cut short.
pub open spec fn exposures_of(b: Seq<u8>) -> Option<Seq<(u32, u32)>> {
    if b.len() % 8 == 0 {
        Some(Seq::new(b.len() / 8, |k: int| (le_at(b, 8 * k, 4) as u32, le_at(b, 8 * k + 4, 4) as u32)))
    } else {
        None
    }
}

/// Reads the pairs of an `EXP` record (see `exposures_of`).
pub fn exposures(b: &[u8]) -> (r: Option<Vec<(u32, u32)>>)
    ensures
        match exposures_of(b@) {
            Some(s) => r matches Some(v) && v@ == s,
            None => r is None,
        },
{
    if b.len() % 8 != 0 {
        return None;
    }
    let n = b.len() / 8;
    let mut v: Vec<(u32, u32)> = Vec::new();
    let mut k: usize = 0;
    while k < n
        invariant
            k <= n == b.len() / 8,
            b.len() % 8 == 0,
            v@.len() == k,
            forall|j: int| 0 <= j < k ==> v@[j] == exposures_of(b@)->Some_0[j],
        decreases n - k,
    {
        let i = 8 * k;
        let t = crate::bytes::read_u32_le(&b[i..i + 4]);
        let e = crate::bytes::read_u32_le(&b[i + 4..i + 8]);
        assert(b@.subrange(i as int, i + 4).subrange(0, 4) =~= b@.subrange(i as int, i + 4));
        assert(b@.subrange(i + 4, i + 8).subrange(0, 4) =~= b@.subrange(i + 4, i + 8));
        v.push((t, e));
        k = k + 1;
    }
    assert(v@ =~= exposures_of(b@)->Some_0);
    Some(v)
}


/// Each sample of an `IMU` record is 20 bytes at `20 * k`: an 8-byte
/// timestamp, the gyroscope x, y, z at bytes 8, 10, 12 and the
/// accelerometer x, y, z at bytes 14, 16, 18, little-endian `i16`.
pub proof fn lemma_imu_sample_layout(b: Seq<u8>, k: int)
    requires
        b.len() % 20 == 0,
        0 <= k < b.len() / 20,
    ensures
        imu_of(b) matches Some(s) && s.len() == b.len() / 20
            && s[k].timestamp == le8(b, 20 * k)
            && s[k].gyro.0 == s16(b, 20 * k + 8) && s[k].gyro.1 == s16(b, 20 * k + 10) && s[k].gyro.2 == s16(b, 20 * k + 12)
            && s[k].accel.0 == s16(b, 20 * k + 14) && s[k].accel.1 == s16(b, 20 * k + 16) && s[k].accel.2 == s16(b, 20 * k + 18),
{
    let q = 20 * k;
    assert(q + 20 <= b.len()) by (nonlinear_arith)
        requires 0 <= k < b.len() / 20, q == 20 * k;
    lemma_le_at_8(b, q);
    lemma_le_at_2(b, q + 8);
    lemma_le_at_2(b, q + 10);
    lemma_le_at_2(b, q + 12);
    lemma_le_at_2(b, q + 14);
    lemma_le_at_2(b, q + 16);
    lemma_le_at_2(b, q + 18);
}

/// Each pair of an `EXP` record is 8 bytes at `8 * k`: a time and an
/// exposure time, 4 bytes each, least significant byte first.
pub proof fn lemma_exposure_pair_layout(b: Seq<u8>, k: int)
    requires
        b.len() % 8 == 0,
        0 <= k < b.len() / 8,
    ensures
        exposures_of(b) matches Some(s) && s.len() == b.len() / 8 && s[k].0 == le4(b, 8 * k) && s[k].1 == le4(b, 8 * k + 4),
{
    assert(8 * k + 8 <= b.len()) by (nonlinear_arith)
        requires 0 <= k < b.len() / 8;
    lemma_le_at_4(b, 8 * k);
    lemma_le_at_4(b, 8 * k + 4);
}

/// The values of a metadata record are stored one after another from `p`,
/// least significant byte first: value `j` of a signed (kind 2) or
/// unsigned (kind 3) 32-bit record at `p + 4 * j`, of an unsigned 64-bit
/// (kind 4) or `f64` (kind 5) record at `p + 8 * j`.
pub proof fn lemma_record_values_layout(d: Seq<u8>, p: int, k: int, n: nat, j: int)
    requires
        0 <= p,
        0 <= j < n,
        p + 8 * n <= d.len() || ((k == 2 || k == 3) && p + 4 * n <= d.len()),
    ensures
        k == 2 ==> (values_at(d, p, k, n) matches QooView::I32s(v) && v.len() == n && v[j] == s32(d, p + 4 * j)),
        k == 3 ==> (values_at(d, p, k, n) matches QooView::U32s(v) && v.len() == n && v[j] == le4(d, p + 4 * j)),
        k == 4 ==> (values_at(d, p, k, n) matches QooView::U64s(v) && v.len() == n && v[j] == le8(d, p + 8 * j)),
        k == 5 ==> (values_at(d, p, k, n) matches QooView::F64Bits(v) && v.len() == n && v[j] == le8(d, p + 8 * j)),
{
    if k == 2 || k == 3 {
        lemma_le_at_4(d, p + 4 * j);
    } else if k == 4 || k == 5 {
        lemma_le_at_8(d, p + 8 * j);
    }
}
} // verus!
