//! Betaflight blackbox flight logs (binary `.bbl`/`.bfl` or CSV export).

use vstd::prelude::*;
use vstd::string::StringSliceAdditionalSpecFns;
use crate::bytes::{contains, contains_seq};
use crate::tags::{GroupId, TagId};
use crate::text::{chars_eq, lossy_utf8, str_chars, str_eq, string_from_chars};
use crate::util::{between, find_between};

verus! {

/// A blackbox flight log.
pub struct BlackBox {
    /// Firmware revision found in the log header.
    pub model: Option<String>,
    /// The log is a CSV export rather than a binary log.
    pub csv: bool,
}

/// How a CSV column of the log is stored: a single value, or one component
/// of a vector of 2, 3, 4 or 8 values.
#[derive(Debug)]
pub enum FieldType {
    Single(String),
    Vector2(String, u8),
    Vector3(String, u8),
    Vector4(String, u8),
    Vector8(String, u8),
}

/// Index of the first `[` in `f`.
pub open spec fn bracket_pos(f: Seq<char>) -> int {
    choose|i: int| 0 <= i < f.len() && f[i] == '[' && forall|k: int| 0 <= k < i ==> f[k] != '['
}

/// The column name has an index: a `[` followed by a digit.
pub open spec fn indexed_ok(f: Seq<char>) -> bool {
    f.contains('[') ==> {
        let p = bracket_pos(f);
        p + 1 < f.len() && '0' <= f[p + 1] <= '9'
    }
}

/// The field type of column `f` with base name `name` and component `idx`.
pub open spec fn field_kind(name: Seq<char>, idx: u8, t: FieldType) -> bool {
    if name == "GPS_coord"@ || name == "GPS_home"@ {
        t matches FieldType::Vector2(n, i) && n@ == name && i == idx
    } else if name == "setpoint"@ || name == "rcCommand"@ || name == "rcCommands"@ {
        t matches FieldType::Vector4(n, i) && n@ == name && i == idx
    } else if name == "motor"@ || name == "debug"@ {
        t matches FieldType::Vector8(n, i) && n@ == name && i == idx
    } else {
        t matches FieldType::Vector3(n, i) && n@ == name && i == idx
    }
}

/// The header of a binary log.
pub open spec fn is_binary_log(b: Seq<u8>) -> bool {
    contains_seq(b, "H Product:Blackbox".spec_bytes())
}

/// The header of a CSV export.
pub open spec fn is_csv_log(b: Seq<u8>) -> bool {
    contains_seq(b, "\"loopIteration\",\"time\"".spec_bytes()) || contains_seq(b, "loopIteration,time".spec_bytes())
}

impl BlackBox {
    pub fn camera_type(&self) -> (s: String)
        ensures
            s@ == "BlackBox"@,
    {
        "BlackBox".to_owned()
    }

    pub fn has_accurate_timestamps(&self) -> (b: bool)
        ensures
            !b,
    {
        false
    }

    pub fn possible_extensions() -> (v: Vec<&'static str>)
        ensures
            v@.len() == 4,
            v@[0]@ == "bfl"@,
            v@[1]@ == "bbl"@,
            v@[2]@ == "csv"@,
            v@[3]@ == "txt"@,
    {
        vec!["bfl", "bbl", "csv", "txt"]
    }

    /// Blackbox logs always use the `ZYx` axis order.
    pub fn normalize_imu_orientation(_v: String) -> (r: String)
        ensures
            r@ == "ZYx"@,
    {
        "ZYx".to_owned()
    }

    /// Whether the detected log is a CSV export.
    pub fn is_csv(&self) -> (b: bool)
        ensures
            b == self.csv,
    {
        self.csv
    }

    /// Recognises a binary log by its product header, or a CSV export by its
    /// column header; the model is the firmware revision it names.
    pub fn detect(buffer: &[u8], _filepath: &str) -> (r: Option<BlackBox>)
        ensures
            r is Some <==> is_binary_log(buffer@) || is_csv_log(buffer@),
            r matches Some(b) ==> {
                &&& b.csv == !is_binary_log(buffer@)
                &&& is_binary_log(buffer@) ==> (b.model is Some <==> between(buffer@, "H Firmware revision:".spec_bytes(), 10u8) is Some)
                &&& is_binary_log(buffer@) && b.model is Some ==> b.model->Some_0@ == lossy_utf8(
                    between(buffer@, "H Firmware revision:".spec_bytes(), 10u8)->Some_0,
                )
                &&& !is_binary_log(buffer@) ==> (b.model is Some <==> between(buffer@, "\"Firmware revision\",\"".spec_bytes(), 34u8) is Some)
                &&& !is_binary_log(buffer@) && b.model is Some ==> b.model->Some_0@ == lossy_utf8(
                    between(buffer@, "\"Firmware revision\",\"".spec_bytes(), 34u8)->Some_0,
                )
            },
    {
        if contains(buffer, "H Product:Blackbox".as_bytes()) {
            return Some(BlackBox { model: find_between(buffer, "H Firmware revision:".as_bytes(), 10u8), csv: false });
        }
        if contains(buffer, "\"loopIteration\",\"time\"".as_bytes()) || contains(buffer, "loopIteration,time".as_bytes()) {
            return Some(BlackBox { model: find_between(buffer, "\"Firmware revision\",\"".as_bytes(), 34u8), csv: true });
        }
        None
    }

    /// Splits a CSV column name such as `gyroADC[1]` into its base name and
    /// component index; names without `[` are single values.
    pub fn parse_field_name(field: &str) -> (t: FieldType)
        requires
            indexed_ok(field@),
        ensures
            !field@.contains('[') ==> (t matches FieldType::Single(n) && n@ == field@),
            field@.contains('[') ==> field_kind(
                field@.subrange(0, bracket_pos(field@)),
                (field@[bracket_pos(field@) + 1] as u32 - '0' as u32) as u8,
                t,
            ),
    {
        let f = str_chars(field);
        let mut pos: usize = 0;
        while pos < f.len() && f[pos] != '['
            invariant
                pos <= f.len(),
                f@ == field@,
                forall|k: int| 0 <= k < pos ==> f@[k] != '[',
            decreases f.len() - pos,
        {
            pos = pos + 1;
        }
        if pos == f.len() {
            assert(!field@.contains('[')) by {
                if field@.contains('[') {
                    let k = choose|k: int| 0 <= k < field@.len() && field@[k] == '[';
                    assert(f@[k] != '[');
                }
            }
            return FieldType::Single(field.to_owned());
        }
        proof {
            assert(field@.contains('[')) by {
                assert(field@[pos as int] == '[');
            }
            let p = bracket_pos(field@);
            assert(p == pos) by {
                if p < pos {
                    assert(f@[p] != '[');
                } else if pos < p {
                }
            }
        }
        let digit = f[pos + 1];
        let idx = (digit as u32 - '0' as u32) as u8;
        let name_chars = &f[0..pos];
        let name = string_from_chars(name_chars);
        if chars_eq(name_chars, str_chars("GPS_coord").as_slice()) || chars_eq(name_chars, str_chars("GPS_home").as_slice()) {
            FieldType::Vector2(name, idx)
        } else if chars_eq(name_chars, str_chars("setpoint").as_slice()) || chars_eq(name_chars, str_chars("rcCommand").as_slice())
            || chars_eq(name_chars, str_chars("rcCommands").as_slice()) {
            FieldType::Vector4(name, idx)
        } else if chars_eq(name_chars, str_chars("motor").as_slice()) || chars_eq(name_chars, str_chars("debug").as_slice()) {
            FieldType::Vector8(name, idx)
        } else {
            FieldType::Vector3(name, idx)
        }
    }

    /// The tag of a log column: gyroscope and accelerometer readings are
    /// data, other columns keep their name.
    pub fn tag_id(name: &str) -> (t: TagId)
        ensures
            (name@ == "gyroADC"@ || name@ == "accSmooth"@) ==> t == TagId::Data,
            !(name@ == "gyroADC"@ || name@ == "accSmooth"@) ==> (t matches TagId::Custom(n) && n@ == name@),
    {
        if str_eq(name, "gyroADC") || str_eq(name, "accSmooth") {
            TagId::Data
        } else {
            TagId::Custom(name.to_owned())
        }
    }

    /// The group of a log column.
    pub fn group_from_key(name: &str) -> (g: GroupId)
        ensures
            name@ == "gyroADC"@ ==> g == GroupId::Gyroscope,
            name@ == "accSmooth"@ ==> g == GroupId::Accelerometer,
            !(name@ == "gyroADC"@ || name@ == "accSmooth"@) ==> (g matches GroupId::Custom(n) && n@ == name@),
    {
        proof {
            reveal_strlit("gyroADC");
            reveal_strlit("accSmooth");
            assert("gyroADC"@.len() == 7);
            assert("accSmooth"@.len() == 9);
        }
        if str_eq(name, "gyroADC") {
            GroupId::Gyroscope
        } else if str_eq(name, "accSmooth") {
            GroupId::Accelerometer
        } else {
            GroupId::Custom(name.to_owned())
        }
    }
}

/// How the values of a group of CSV columns are stored.
#[derive(Debug, Clone, Copy, PartialEq, Eq, Structural)]
pub enum ColumnKind {
    Single,
    Vector2,
    Vector3,
    Vector4,
    Vector8,
}

/// The vector kind of an indexed column by its base name.
pub open spec fn vector_kind(name: Seq<char>) -> ColumnKind {
    if name == "GPS_coord"@ || name == "GPS_home"@ {
        ColumnKind::Vector2
    } else if name == "setpoint"@ || name == "rcCommand"@ || name == "rcCommands"@ {
        ColumnKind::Vector4
    } else if name == "motor"@ || name == "debug"@ {
        ColumnKind::Vector8
    } else {
        ColumnKind::Vector3
    }
}

/// The base name, kind and component of a column header.
pub open spec fn column_of(f: Seq<char>) -> (Seq<char>, ColumnKind, u8) {
    if f.contains('[') {
        let name = f.subrange(0, bracket_pos(f));
        (name, vector_kind(name), (f[bracket_pos(f) + 1] as u32 - '0' as u32) as u8)
    } else {
        (f, ColumnKind::Single, 0)
    }
}

/// The value groups of the headers `hs` (a base name and kind for each
/// header of component 0), and for each header its component and the
/// group it belongs to (the last one begun).
pub open spec fn prepared(hs: Seq<Seq<char>>) -> (Seq<(Seq<char>, ColumnKind)>, Seq<(u8, int)>)
    decreases hs.len(),
{
    if hs.len() == 0 {
        (Seq::empty(), Seq::empty())
    } else {
        let (d, c) = prepared(hs.drop_last());
        let (name, kind, comp) = column_of(hs.last());
        let d2 = if comp == 0 {
            d.push((name, kind))
        } else {
            d
        };
        (d2, c.push((comp, d2.len() - 1)))
    }
}

/// A group of CSV columns that hold one value: its base name and kind.
pub struct ColumnDesc {
    pub name: String,
    pub kind: ColumnKind,
}

/// A CSV column: its component and the index of its group.
#[derive(Debug, Clone, Copy, PartialEq, Eq)]
pub struct HeaderColumn {
    pub index: u8,
    pub desc: usize,
}

/// The groups of the columns of a CSV log, and each column's place.
pub struct Columns {
    pub descriptions: Vec<ColumnDesc>,
    pub columns: Vec<HeaderColumn>,
}

/// The view of the groups.
pub open spec fn descs_view(v: Seq<ColumnDesc>) -> Seq<(Seq<char>, ColumnKind)> {
    v.map_values(|d: ColumnDesc| (d.name@, d.kind))
}

/// The view of the columns.
pub open spec fn cols_view(v: Seq<HeaderColumn>) -> Seq<(u8, int)> {
    v.map_values(|c: HeaderColumn| (c.index, c.desc as int))
}

/// The texts of headers.
pub open spec fn headers_view(v: Seq<String>) -> Seq<Seq<char>> {
    v.map_values(|s: String| s@)
}

impl BlackBox {
    /// Groups the CSV columns of a log (see `prepared`): every header has an
    /// index where it holds a `[`, and the first has component 0.
    pub fn prepare_vectors_from_headers(headers: &[String]) -> (r: Columns)
        requires
            forall|k: int| 0 <= k < headers@.len() ==> indexed_ok(#[trigger] headers@[k]@),
            headers@.len() > 0 ==> column_of(headers@[0]@).2 == 0,
        ensures
            (descs_view(r.descriptions@), cols_view(r.columns@)) == prepared(headers_view(headers@)),
    {
        let mut descriptions: Vec<ColumnDesc> = Vec::new();
        let mut columns: Vec<HeaderColumn> = Vec::new();
        let ghost hv = headers_view(headers@);
        let mut i: usize = 0;
        assert(hv.subrange(0, 0) =~= Seq::<Seq<char>>::empty());
        assert(descs_view(descriptions@) =~= Seq::<(Seq<char>, ColumnKind)>::empty());
        assert(cols_view(columns@) =~= Seq::<(u8, int)>::empty());
        while i < headers.len()
            invariant
                i <= headers.len(),
                hv == headers_view(headers@),
                forall|k: int| 0 <= k < headers@.len() ==> indexed_ok(#[trigger] headers@[k]@),
                headers@.len() > 0 ==> column_of(headers@[0]@).2 == 0,
                i > 0 ==> descriptions@.len() > 0,
                (descs_view(descriptions@), cols_view(columns@)) == prepared(hv.subrange(0, i as int)),
            decreases headers.len() - i,
        {
            let h = &headers[i];
            assert(hv[i as int] == h@);
            let t = Self::parse_field_name(h.as_str());
            let (name, kind, comp) = match t {
                FieldType::Single(n) => (n, ColumnKind::Single, 0u8),
                FieldType::Vector2(n, c) => (n, ColumnKind::Vector2, c),
                FieldType::Vector3(n, c) => (n, ColumnKind::Vector3, c),
                FieldType::Vector4(n, c) => (n, ColumnKind::Vector4, c),
                FieldType::Vector8(n, c) => (n, ColumnKind::Vector8, c),
            };
            assert(column_of(h@) == (name@, kind, comp));
            assert(hv.subrange(0, i + 1).drop_last() =~= hv.subrange(0, i as int));
            assert(hv.subrange(0, i + 1).last() == h@);
            let ghost dv = descs_view(descriptions@);
            let ghost cv = cols_view(columns@);
            if comp == 0 {
                descriptions.push(ColumnDesc { name, kind });
                assert(descs_view(descriptions@) =~= dv.push((name@, kind)));
            } else {
                assert(i > 0);
            }
            let d = descriptions.len() - 1;
            columns.push(HeaderColumn { index: comp, desc: d });
            assert(cols_view(columns@) =~= cv.push((comp, d as int)));
            i = i + 1;
        }
        assert(hv.subrange(0, hv.len() as int) =~= hv);
        Columns { descriptions, columns }
    }
}


/// The number of headers that begin a group: those of component 0.
pub open spec fn group_starts(hs: Seq<Seq<char>>) -> nat
    decreases hs.len(),
{
    if hs.len() == 0 {
        0
    } else {
        group_starts(hs.drop_last()) + if column_of(hs.last()).2 == 0 {
            1nat
        } else {
            0nat
        }
    }
}

/// Preparing headers gives one column per header, carrying the header's
/// component, and one group per header of component 0; where the first
/// header has component 0, every column lies in a group that exists.
pub proof fn lemma_prepared_counts(hs: Seq<Seq<char>>)
    ensures
        prepared(hs).1.len() == hs.len(),
        prepared(hs).0.len() == group_starts(hs),
        forall|i: int| 0 <= i < hs.len() ==> (#[trigger] prepared(hs).1[i]).0 == column_of(hs[i]).2,
        hs.len() > 0 && column_of(hs[0]).2 == 0 ==> forall|i: int|
            0 <= i < hs.len() ==> 0 <= (#[trigger] prepared(hs).1[i]).1 < prepared(hs).0.len(),
    decreases hs.len(),
{
    if hs.len() > 0 {
        let t = hs.drop_last();
        lemma_prepared_counts(t);
        if column_of(hs[0]).2 == 0 && t.len() > 0 {
            assert(t[0] == hs[0]);
            lemma_first_starts_group(t);
        }
    }
}

proof fn lemma_first_starts_group(hs: Seq<Seq<char>>)
    requires
        hs.len() > 0,
        column_of(hs[0]).2 == 0,
    ensures
        group_starts(hs) >= 1,
    decreases hs.len(),
{
    if hs.len() > 1 {
        let t = hs.drop_last();
        assert(t[0] == hs[0]);
        lemma_first_starts_group(t);
    } else {
        assert(hs.drop_last().len() == 0);
    }
}

} // verus!
