//! ArduPilot binary dataflash logs: messages that begin with `A3 95` and a
//! type byte. Format messages (type `0x80`) describe the other types: a
//! name, one format character per field, and the field labels. Field values
//! are little-endian; floating-point values are kept as their bits.

use vstd::prelude::*;
use crate::bytes::{le2, le4, le8, le_at, lemma_le_at_2, lemma_le_at_4, lemma_le_at_8, lemma_le_fits, read_le, s16, s32, signed};
use crate::tags::ParseError;
use crate::text::{lossy_utf8, str_chars, str_eq, string_from_chars, utf8_lossy};

verus! {

/// `s` without NUL characters at either end.
pub open spec fn trim_nul(s: Seq<char>) -> Seq<char>
    decreases s.len(),
{
    if s.len() > 0 && s[0] == '\0' {
        trim_nul(s.drop_first())
    } else if s.len() > 0 && s.last() == '\0' {
        trim_nul(s.drop_last())
    } else {
        s
    }
}

proof fn lemma_trim_nul_range(s: Seq<char>, i: int, j: int)
    requires
        0 <= i <= j <= s.len(),
        forall|k: int| 0 <= k < i ==> s[k] == '\0',
        forall|k: int| j <= k < s.len() ==> s[k] == '\0',
        i < j ==> s[i] != '\0' && s[j - 1] != '\0',
    ensures
        trim_nul(s) == s.subrange(i, j),
    decreases s.len(),
{
    if s.len() > 0 && s[0] == '\0' {
        if i == 0 {
            assert(j == 0);
            assert(trim_nul(s.drop_first()) == s.drop_first().subrange(0, 0)) by {
                lemma_trim_nul_range(s.drop_first(), 0, 0);
            }
            assert(s.drop_first().subrange(0, 0) =~= s.subrange(0, 0));
        } else {
            lemma_trim_nul_range(s.drop_first(), i - 1, j - 1);
            assert(s.drop_first().subrange(i - 1, j - 1) =~= s.subrange(i, j));
        }
    } else if s.len() > 0 && s.last() == '\0' {
        lemma_trim_nul_range(s.drop_last(), i, if j == s.len() { j - 1 } else { j });
        assert(s.drop_last().subrange(i, if j == s.len() { j - 1 } else { j }) =~= s.subrange(i, j));
    } else {
        assert(s.subrange(0, s.len() as int) =~= s);
    }
}

/// The characters of `s` without NUL characters at either end.
fn trim_nul_chars(s: &[char]) -> (r: Vec<char>)
    ensures
        r@ == trim_nul(s@),
{
    let mut i: usize = 0;
    while i < s.len() && s[i] == '\0'
        invariant
            i <= s.len(),
            forall|k: int| 0 <= k < i ==> s@[k] == '\0',
        decreases s.len() - i,
    {
        i = i + 1;
    }
    let mut j: usize = s.len();
    while j > i && s[j - 1] == '\0'
        invariant
            i <= j <= s.len(),
            forall|k: int| j <= k < s.len() ==> s@[k] == '\0',
        decreases j,
    {
        j = j - 1;
    }
    proof {
        if i == s.len() {
            assert(j == i);
        }
        lemma_trim_nul_range(s@, i as int, j as int);
    }
    let mut r: Vec<char> = Vec::new();
    let mut k: usize = i;
    while k < j
        invariant
            i <= k <= j <= s.len(),
            r@ == s@.subrange(i as int, k as int),
        decreases j - k,
    {
        r.push(s[k]);
        k = k + 1;
    }
    r
}

/// The pieces of `s` between commas, empty ones included; `cur` is the
/// piece begun before `s`.
pub open spec fn comma_pieces(s: Seq<char>, cur: Seq<char>) -> Seq<Seq<char>>
    decreases s.len(),
{
    if s.len() == 0 {
        seq![cur]
    } else if s[0] == ',' {
        seq![cur] + comma_pieces(s.drop_first(), Seq::empty())
    } else {
        comma_pieces(s.drop_first(), cur.push(s[0]))
    }
}

fn split_commas(s: &[char]) -> (r: Vec<String>)
    ensures
        r@.map_values(|x: String| x@) == comma_pieces(s@, Seq::empty()),
{
    let mut out: Vec<String> = Vec::new();
    let mut cur: Vec<char> = Vec::new();
    let mut i: usize = 0;
    assert(s@.subrange(0, s@.len() as int) =~= s@);
    assert(out@.map_values(|x: String| x@) + comma_pieces(s@, cur@) =~= comma_pieces(s@, Seq::empty()));
    while i < s.len()
        invariant
            i <= s.len(),
            out@.map_values(|x: String| x@) + comma_pieces(s@.subrange(i as int, s@.len() as int), cur@)
                == comma_pieces(s@, Seq::empty()),
        decreases s.len() - i,
    {
        let ghost rest = s@.subrange(i as int, s@.len() as int);
        assert(rest.drop_first() =~= s@.subrange(i + 1, s@.len() as int));
        assert(rest[0] == s@[i as int]);
        if s[i] == ',' {
            let ghost before = out@.map_values(|x: String| x@);
            let piece = string_from_chars(cur.as_slice());
            out.push(piece);
            assert(out@.map_values(|x: String| x@) =~= before.push(cur@));
            assert(before.push(cur@) + comma_pieces(s@.subrange(i + 1, s@.len() as int), Seq::empty())
                =~= before + (seq![cur@] + comma_pieces(s@.subrange(i + 1, s@.len() as int), Seq::empty())));
            cur = Vec::new();
            assert(cur@ =~= Seq::<char>::empty());
        } else {
            cur.push(s[i]);
        }
        i = i + 1;
    }
    let ghost before = out@.map_values(|x: String| x@);
    assert(s@.subrange(s@.len() as int, s@.len() as int) =~= Seq::<char>::empty());
    let piece = string_from_chars(cur.as_slice());
    out.push(piece);
    assert(out@.map_values(|x: String| x@) =~= before + seq![cur@]);
    out
}

/// The text of a fixed-width text field: its bytes decoded as
/// `String::from_utf8_lossy` does, without NUL characters at either end.
pub open spec fn field_text(b: Seq<u8>) -> Seq<char> {
    trim_nul(lossy_utf8(b))
}

pub(crate) fn text_of(b: &[u8]) -> (r: Vec<char>)
    ensures
        r@ == field_text(b@),
{
    let s = utf8_lossy(b);
    let c = str_chars(s.as_str());
    trim_nul_chars(c.as_slice())
}

/// A field value as the log stores it; `f32` and `f64` values as their
/// bits.
#[derive(Clone, Debug, PartialEq)]
pub enum FieldValue {
    I8(i8),
    U8(u8),
    I16(i16),
    U16(u16),
    I32(i32),
    U32(u32),
    I64(i64),
    U64(u64),
    F32Bits(u32),
    F64Bits(u64),
    Text(String),
    I16s(Vec<i16>),
    U16s(Vec<u16>),
    I32s(Vec<i32>),
    U32s(Vec<u32>),
}

/// A field value with its text and arrays as sequences.
pub enum FieldView {
    I8(i8),
    U8(u8),
    I16(i16),
    U16(u16),
    I32(i32),
    U32(u32),
    I64(i64),
    U64(u64),
    F32Bits(u32),
    F64Bits(u64),
    Text(Seq<char>),
    I16s(Seq<i16>),
    U16s(Seq<u16>),
    I32s(Seq<i32>),
    U32s(Seq<u32>),
}

/// The view of a field value.
pub open spec fn value_view(v: FieldValue) -> FieldView {
    match v {
        FieldValue::I8(x) => FieldView::I8(x),
        FieldValue::U8(x) => FieldView::U8(x),
        FieldValue::I16(x) => FieldView::I16(x),
        FieldValue::U16(x) => FieldView::U16(x),
        FieldValue::I32(x) => FieldView::I32(x),
        FieldValue::U32(x) => FieldView::U32(x),
        FieldValue::I64(x) => FieldView::I64(x),
        FieldValue::U64(x) => FieldView::U64(x),
        FieldValue::F32Bits(x) => FieldView::F32Bits(x),
        FieldValue::F64Bits(x) => FieldView::F64Bits(x),
        FieldValue::Text(s) => FieldView::Text(s@),
        FieldValue::I16s(v) => FieldView::I16s(v@),
        FieldValue::U16s(v) => FieldView::U16s(v@),
        FieldValue::I32s(v) => FieldView::I32s(v@),
        FieldValue::U32s(v) => FieldView::U32s(v@),
    }
}

/// The position after reading `n` bytes at `pos`: a read that does not fit
/// takes what is left.
pub open spec fn after_read(d: Seq<u8>, pos: int, n: int) -> int {
    if pos + n <= d.len() {
        pos + n
    } else {
        d.len() as int
    }
}

/// How many of `count` values of `w` bytes can be read from `pos`.
pub open spec fn readable(d: Seq<u8>, pos: int, count: int, w: int) -> int {
    if pos + count * w <= d.len() {
        count
    } else {
        (d.len() - pos) / w
    }
}

/// The scalar value of format character `f` in the `n` bytes at `pos`.
pub open spec fn scalar_of(d: Seq<u8>, pos: int, f: char, n: int) -> FieldView {
    let u = le_at(d, pos, n) as int;
    if f == 'b' {
        FieldView::I8(signed(u, 8) as i8)
    } else if f == 'B' || f == 'M' {
        FieldView::U8(u as u8)
    } else if f == 'h' {
        FieldView::I16(signed(u, 16) as i16)
    } else if f == 'H' {
        FieldView::U16(u as u16)
    } else if f == 'i' || f == 'L' {
        FieldView::I32(signed(u, 32) as i32)
    } else if f == 'I' {
        FieldView::U32(u as u32)
    } else if f == 'f' {
        FieldView::F32Bits(u as u32)
    } else if f == 'd' {
        FieldView::F64Bits(u as u64)
    } else if f == 'q' {
        FieldView::I64(signed(u, 64) as i64)
    } else {
        FieldView::U64(u as u64)
    }
}

/// The width of a scalar format character, 0 for any other.
pub open spec fn scalar_width(f: char) -> int {
    if f == 'b' || f == 'B' || f == 'M' {
        1
    } else if f == 'h' || f == 'H' {
        2
    } else if f == 'i' || f == 'I' || f == 'L' || f == 'f' {
        4
    } else if f == 'd' || f == 'q' || f == 'Q' {
        8
    } else {
        0
    }
}

/// The width of a text format character (`n`, `N`, `Z`), 0 for any other.
pub open spec fn text_width(f: char) -> int {
    if f == 'n' {
        4
    } else if f == 'N' {
        16
    } else if f == 'Z' {
        64
    } else {
        0
    }
}

/// The element count of an array format character (`a`, `c`, `C`, `e`,
/// `E`), 0 for any other.
pub open spec fn array_len(f: char) -> int {
    if f == 'a' {
        32
    } else if f == 'c' || f == 'C' || f == 'e' || f == 'E' {
        100
    } else {
        0
    }
}

/// The element width of an array format character.
pub open spec fn array_width(f: char) -> int {
    if f == 'e' || f == 'E' {
        4
    } else {
        2
    }
}

/// The array of format character `f` whose first `m` elements are read
/// from `pos`.
pub open spec fn array_of(d: Seq<u8>, pos: int, f: char, m: int) -> FieldView {
    if f == 'a' || f == 'c' {
        FieldView::I16s(Seq::new(m as nat, |k: int| signed(le_at(d, pos + 2 * k, 2) as int, 16) as i16))
    } else if f == 'C' {
        FieldView::U16s(Seq::new(m as nat, |k: int| le_at(d, pos + 2 * k, 2) as u16))
    } else if f == 'e' {
        FieldView::I32s(Seq::new(m as nat, |k: int| signed(le_at(d, pos + 4 * k, 4) as int, 32) as i32))
    } else {
        FieldView::U32s(Seq::new(m as nat, |k: int| le_at(d, pos + 4 * k, 4) as u32))
    }
}

/// The value of a field with format character `f` at `pos`, and the
/// position after it. A scalar or text that does not fit has no value and
/// takes the rest; an array holds the elements that fit; an unknown
/// character reads nothing and has no value.
pub open spec fn field_at(d: Seq<u8>, pos: int, f: char) -> (Option<FieldView>, int) {
    if scalar_width(f) > 0 {
        let n = scalar_width(f);
        if pos + n <= d.len() {
            (Some(scalar_of(d, pos, f, n)), pos + n)
        } else {
            (None, d.len() as int)
        }
    } else if text_width(f) > 0 {
        let n = text_width(f);
        if pos + n <= d.len() {
            (Some(FieldView::Text(field_text(d.subrange(pos, pos + n)))), pos + n)
        } else {
            (None, d.len() as int)
        }
    } else if array_len(f) > 0 {
        let w = array_width(f);
        let m = readable(d, pos, array_len(f), w);
        (Some(array_of(d, pos, f, m)), if m == array_len(f) { pos + m * w } else { d.len() as int })
    } else {
        (None, pos)
    }
}


fn as_i8(u: u64) -> (r: i8)
    requires
        u < 0x100,
    ensures
        r == signed(u as int, 8),
{
    if u >= 0x80 {
        (u as i64 - 0x100) as i8
    } else {
        u as i8
    }
}

fn as_i16(u: u64) -> (r: i16)
    requires
        u < 0x10000,
    ensures
        r == signed(u as int, 16),
{
    if u >= 0x8000 {
        (u as i64 - 0x10000) as i16
    } else {
        u as i16
    }
}

fn as_i32(u: u64) -> (r: i32)
    requires
        u < 0x1_0000_0000,
    ensures
        r == signed(u as int, 32),
{
    if u >= 0x8000_0000 {
        (u as i64 - 0x1_0000_0000) as i32
    } else {
        u as i32
    }
}

fn as_i64(u: u64) -> (r: i64)
    ensures
        r == signed(u as int, 64),
{
    if u >= 0x8000_0000_0000_0000 {
        ((u - 0x8000_0000_0000_0000) as i64) + i64::MIN
    } else {
        u as i64
    }
}

/// Reads the field with format character `f` at `pos` (see `field_at`).
pub fn read_field(d: &[u8], pos: usize, f: char) -> (r: (Option<FieldValue>, usize))
    requires
        pos <= d.len(),
    ensures
        ({
            let (v, p) = field_at(d@, pos as int, f);
            &&& r.1 == p
            &&& match r.0 {
                Some(x) => v == Some(value_view(x)),
                None => v is None,
            }
        }),
{
    let len = d.len();
    if f == 'b' || f == 'B' || f == 'M' || f == 'h' || f == 'H' || f == 'i' || f == 'I' || f == 'L' || f == 'f'
        || f == 'd' || f == 'q' || f == 'Q' {
        let n: usize = if f == 'b' || f == 'B' || f == 'M' {
            1
        } else if f == 'h' || f == 'H' {
            2
        } else if f == 'i' || f == 'I' || f == 'L' || f == 'f' {
            4
        } else {
            8
        };
        if len - pos < n {
            return (None, len);
        }
        let u = read_le(d, pos, n);
        proof {
            lemma_le_fits(d@.subrange(pos as int, pos + n));
        }
        let v = if f == 'b' {
            FieldValue::I8(as_i8(u))
        } else if f == 'B' || f == 'M' {
            FieldValue::U8(u as u8)
        } else if f == 'h' {
            FieldValue::I16(as_i16(u))
        } else if f == 'H' {
            FieldValue::U16(u as u16)
        } else if f == 'i' || f == 'L' {
            FieldValue::I32(as_i32(u))
        } else if f == 'I' {
            FieldValue::U32(u as u32)
        } else if f == 'f' {
            FieldValue::F32Bits(u as u32)
        } else if f == 'd' {
            FieldValue::F64Bits(u)
        } else if f == 'q' {
            FieldValue::I64(as_i64(u))
        } else {
            FieldValue::U64(u)
        };
        return (Some(v), pos + n);
    }
    if f == 'n' || f == 'N' || f == 'Z' {
        let n: usize = if f == 'n' {
            4
        } else if f == 'N' {
            16
        } else {
            64
        };
        if len - pos < n {
            return (None, len);
        }
        let t = text_of(&d[pos..pos + n]);
        return (Some(FieldValue::Text(string_from_chars(t.as_slice()))), pos + n);
    }
    if f == 'a' || f == 'c' || f == 'C' || f == 'e' || f == 'E' {
        let count: usize = if f == 'a' { 32 } else { 100 };
        let w: usize = if f == 'e' || f == 'E' { 4 } else { 2 };
        let ghost m = readable(d@, pos as int, count as int, w as int);
        proof {
            assert(0 <= m <= count) by (nonlinear_arith)
                requires
                    m == readable(d@, pos as int, count as int, w as int),
                    pos <= d@.len(),
                    w > 0,
                    count >= 0,
            {
                if pos + count * w > d@.len() {
                    assert((d@.len() - pos) / (w as int) <= count) by (nonlinear_arith)
                        requires
                            pos + count * w > d@.len(),
                            w > 0,
                            pos <= d@.len(),
                    ;
                }
            }
            assert(pos + m * w <= d@.len()) by (nonlinear_arith)
                requires
                    m == readable(d@, pos as int, count as int, w as int),
                    pos <= d@.len(),
                    w > 0,
            ;
            assert(m < count ==> pos + (m + 1) * w > d@.len()) by (nonlinear_arith)
                requires
                    m == readable(d@, pos as int, count as int, w as int),
                    pos <= d@.len(),
                    w > 0,
            ;
        }
        let mut k: usize = 0;
        let mut p: usize = pos;
        let mut i16s: Vec<i16> = Vec::new();
        let mut u16s: Vec<u16> = Vec::new();
        let mut i32s: Vec<i32> = Vec::new();
        let mut u32s: Vec<u32> = Vec::new();
        while k < count && len - p >= w
            invariant
                len == d.len(),
                count == array_len(f),
                w == array_width(f),
                w == 2 || w == 4,
                m == readable(d@, pos as int, count as int, w as int),
                0 <= m <= count,
                pos + m * w <= d@.len(),
                m < count ==> pos + (m + 1) * w > d@.len(),
                k <= m,
                p == pos + k * w,
                p <= len,
                w == 2 ==> forall|j: int| 0 <= j < k ==> #[trigger] i16s@[j] == signed(le_at(d@, pos + 2 * j, 2) as int, 16) as i16,
                w == 2 ==> forall|j: int| 0 <= j < k ==> #[trigger] u16s@[j] == le_at(d@, pos + 2 * j, 2) as u16,
                w == 4 ==> forall|j: int| 0 <= j < k ==> #[trigger] i32s@[j] == signed(le_at(d@, pos + 4 * j, 4) as int, 32) as i32,
                w == 4 ==> forall|j: int| 0 <= j < k ==> #[trigger] u32s@[j] == le_at(d@, pos + 4 * j, 4) as u32,
                i16s@.len() == k,
                u16s@.len() == k,
                i32s@.len() == k,
                u32s@.len() == k,
            decreases count - k,
        {
            proof {
                if k >= m {
                    assert(m < count);
                    assert(pos + (m + 1) * w <= p + w) by (nonlinear_arith)
                        requires
                            p == pos + k * w,
                            k >= m,
                            w > 0,
                    ;
                }
                lemma_le_fits(d@.subrange(p as int, p + w));
            }
            let u = read_le(d, p, w);
            if w == 2 {
                i16s.push(as_i16(u));
                u16s.push(u as u16);
                i32s.push(0);
                u32s.push(0);
            } else {
                i16s.push(0);
                u16s.push(0);
                i32s.push(as_i32(u));
                u32s.push(u as u32);
            }
            assert((k + 1) * w == k * w + w) by (nonlinear_arith);
            k = k + 1;
            p = p + w;
        }
        proof {
            if k < m {
                assert(p + w <= pos + m * w) by (nonlinear_arith)
                    requires
                        p == pos + k * w,
                        k < m,
                        w > 0,
                ;
            }
            assert(k == m);
        }
        let v = if f == 'a' || f == 'c' {
            FieldValue::I16s(i16s)
        } else if f == 'C' {
            FieldValue::U16s(u16s)
        } else if f == 'e' {
            FieldValue::I32s(i32s)
        } else {
            FieldValue::U32s(u32s)
        };
        proof {
            if f == 'a' || f == 'c' {
                assert(i16s@ =~= Seq::new(m as nat, |j: int| signed(le_at(d@, pos + 2 * j, 2) as int, 16) as i16));
            } else if f == 'C' {
                assert(u16s@ =~= Seq::new(m as nat, |j: int| le_at(d@, pos + 2 * j, 2) as u16));
            } else if f == 'e' {
                assert(i32s@ =~= Seq::new(m as nat, |j: int| signed(le_at(d@, pos + 4 * j, 4) as int, 32) as i32));
            } else {
                assert(u32s@ =~= Seq::new(m as nat, |j: int| le_at(d@, pos + 4 * j, 4) as u32));
            }
        }
        let end = if k == count { p } else { len };
        return (Some(v), end);
    }
    (None, pos)
}


/// A message format: type, name, format characters (one per field),
/// field labels, and the unit and multiplier ids set by `FMTU` messages.
#[derive(Debug)]
pub struct Format {
    pub typ: u8,
    pub name: String,
    pub format: String,
    pub labels: Vec<String>,
    pub units: Option<String>,
    pub multipliers: Option<String>,
}

/// A format with its texts as sequences.
pub struct FormatView {
    pub typ: u8,
    pub name: Seq<char>,
    pub format: Seq<char>,
    pub labels: Seq<Seq<char>>,
    pub units: Option<Seq<char>>,
    pub multipliers: Option<Seq<char>>,
}

/// The view of an optional text.
pub open spec fn opt_view(o: Option<String>) -> Option<Seq<char>> {
    match o {
        Some(s) => Some(s@),
        None => None,
    }
}

/// The view of a format.
pub open spec fn format_view(f: Format) -> FormatView {
    FormatView {
        typ: f.typ,
        name: f.name@,
        format: f.format@,
        labels: f.labels@.map_values(|l: String| l@),
        units: opt_view(f.units),
        multipliers: opt_view(f.multipliers),
    }
}

/// One field of a message: its label, value, unit name and multiplier id.
#[derive(Debug)]
pub struct LogField {
    pub label: String,
    pub value: FieldValue,
    pub unit: Option<String>,
    pub multiplier_id: Option<char>,
}

/// One message: its type, the name of its format and its fields in order.
#[derive(Debug)]
pub struct LogItem {
    pub typ: u8,
    pub name: String,
    pub fields: Vec<LogField>,
}

/// The view of a field.
pub open spec fn field_view(f: LogField) -> (Seq<char>, FieldView, Option<Seq<char>>, Option<char>) {
    (f.label@, value_view(f.value), opt_view(f.unit), f.multiplier_id)
}

/// The view of a message.
pub open spec fn item_view(i: LogItem) -> (u8, Seq<char>, Seq<(Seq<char>, FieldView, Option<Seq<char>>, Option<char>)>) {
    (i.typ, i.name@, i.fields@.map_values(|f: LogField| field_view(f)))
}

/// The unit name of unit id `c`: the last entry for it in `tbl`.
pub open spec fn lookup_unit(tbl: Seq<(char, Seq<char>)>, c: char) -> Option<Seq<char>>
    decreases tbl.len(),
{
    if tbl.len() == 0 {
        None
    } else if tbl.last().0 == c {
        Some(tbl.last().1)
    } else {
        lookup_unit(tbl.drop_last(), c)
    }
}

/// The unit of field `i` of a format with unit ids `units`: the name of
/// its id, or the id itself where the id has no name.
pub open spec fn unit_of(tbl: Seq<(char, Seq<char>)>, units: Option<Seq<char>>, i: int) -> Option<Seq<char>> {
    match units {
        Some(u) => if 0 <= i < u.len() {
            match lookup_unit(tbl, u[i]) {
                Some(n) => Some(n),
                None => Some(seq![u[i]]),
            }
        } else {
            None
        },
        None => None,
    }
}

/// The multiplier id of field `i`.
pub open spec fn mult_of(mults: Option<Seq<char>>, i: int) -> Option<char> {
    match mults {
        Some(m) => if 0 <= i < m.len() {
            Some(m[i])
        } else {
            None
        },
        None => None,
    }
}

/// The fields of a message of format `desc` from field `i` on, read from
/// `pos`, and the position after them. Format characters are paired with
/// labels as far as both go; a field without a value is left out.
pub open spec fn fields_from(d: Seq<u8>, pos: int, desc: FormatView, tbl: Seq<(char, Seq<char>)>, i: int) -> (
    Seq<(Seq<char>, FieldView, Option<Seq<char>>, Option<char>)>,
    int,
)
    decreases desc.format.len() - i,
{
    if i < 0 || i >= desc.format.len() || i >= desc.labels.len() {
        (Seq::empty(), pos)
    } else {
        let (v, p2) = field_at(d, pos, desc.format[i]);
        let (rest, p3) = fields_from(d, p2, desc, tbl, i + 1);
        match v {
            Some(x) => (seq![(desc.labels[i], x, unit_of(tbl, desc.units, i), mult_of(desc.multipliers, i))] + rest, p3),
            None => (rest, p3),
        }
    }
}

proof fn lemma_field_at_pos(d: Seq<u8>, pos: int, f: char)
    requires
        0 <= pos <= d.len(),
    ensures
        pos <= field_at(d, pos, f).1 <= d.len(),
{
    if array_len(f) > 0 && scalar_width(f) == 0 && text_width(f) == 0 {
        let w = array_width(f);
        let m = readable(d, pos, array_len(f), w);
        if m == array_len(f) {
            assert(pos + m * w <= d.len()) by (nonlinear_arith)
                requires
                    m == readable(d, pos, array_len(f), w),
                    m == array_len(f),
                    pos <= d.len(),
                    w > 0,
            ;
            assert(m * w >= 0) by (nonlinear_arith)
                requires
                    m >= 0,
                    w > 0,
            ;
        }
    }
}

proof fn lemma_fields_pos(d: Seq<u8>, pos: int, desc: FormatView, tbl: Seq<(char, Seq<char>)>, i: int)
    requires
        0 <= pos <= d.len(),
    ensures
        pos <= fields_from(d, pos, desc, tbl, i).1 <= d.len(),
    decreases desc.format.len() - i,
{
    if !(i < 0 || i >= desc.format.len() || i >= desc.labels.len()) {
        lemma_field_at_pos(d, pos, desc.format[i]);
        lemma_fields_pos(d, field_at(d, pos, desc.format[i]).1, desc, tbl, i + 1);
    }
}

/// The value of the last field labelled `label`.
pub open spec fn last_value(fs: Seq<(Seq<char>, FieldView, Option<Seq<char>>, Option<char>)>, label: Seq<char>) -> Option<
    FieldView,
>
    decreases fs.len(),
{
    if fs.len() == 0 {
        None
    } else if fs.last().0 == label {
        Some(fs.last().1)
    } else {
        last_value(fs.drop_last(), label)
    }
}

/// What the parser keeps between messages: the format of each type, and
/// the unit names, latest last.
pub struct ParserState {
    pub formats: Seq<Option<FormatView>>,
    pub units: Seq<(char, Seq<char>)>,
}

/// The state after a message named `name` with fields `fs`: a `UNIT`
/// message names a unit id, an `FMTU` message sets the unit and multiplier
/// ids of a known format.
pub open spec fn after_message(st: ParserState, name: Seq<char>, fs: Seq<(Seq<char>, FieldView, Option<Seq<char>>, Option<char>)>) -> ParserState {
    if name == "UNIT"@ {
        match (last_value(fs, "Id"@), last_value(fs, "Label"@)) {
            (Some(FieldView::I8(id)), Some(FieldView::Text(l))) => ParserState {
                formats: st.formats,
                units: st.units.push(((id as u8) as char, l)),
            },
            _ => st,
        }
    } else if name == "FMTU"@ {
        match (last_value(fs, "FmtType"@), last_value(fs, "MultIds"@), last_value(fs, "UnitIds"@)) {
            (Some(FieldView::U8(t)), Some(FieldView::Text(m)), Some(FieldView::Text(u))) => match st.formats[t as int] {
                Some(f) => ParserState {
                    formats: st.formats.update(
                        t as int,
                        Some(FormatView { units: Some(u), multipliers: Some(m), ..f }),
                    ),
                    units: st.units,
                },
                None => st,
            },
            _ => st,
        }
    } else {
        st
    }
}

/// The format that a format message at `p` (after its type byte) defines.
pub open spec fn format_at(d: Seq<u8>, p: int) -> FormatView {
    FormatView {
        typ: d[p],
        name: field_text(d.subrange(p + 2, p + 6)),
        format: field_text(d.subrange(p + 6, p + 22)),
        labels: comma_pieces(field_text(d.subrange(p + 22, p + 86)), Seq::empty()),
        units: None,
        multipliers: None,
    }
}

/// The messages of a log from `pos`. Two bytes that are not `A3 95` are
/// skipped; a format message defines the format of its type; a message of
/// a known type whose format has as many bytes as labels is read field by
/// field. `None` when a format message is cut short.
pub open spec fn log_from(d: Seq<u8>, pos: int, st: ParserState) -> Option<
    Seq<(u8, Seq<char>, Seq<(Seq<char>, FieldView, Option<Seq<char>>, Option<char>)>)>,
>
    decreases d.len() - pos,
{
    if pos < 0 || d.len() - pos < 3 {
        Some(Seq::empty())
    } else if !(d[pos] == 0xA3 && d[pos + 1] == 0x95) {
        log_from(d, pos + 2, st)
    } else {
        let id = d[pos + 2];
        let p = pos + 3;
        if id == 0x80 {
            if p + 86 > d.len() {
                None
            } else {
                let f = format_at(d, p);
                log_from(d, p + 86, ParserState { formats: st.formats.update(f.typ as int, Some(f)), units: st.units })
            }
        } else {
            match st.formats[id as int] {
                Some(desc) => if vstd::utf8::encode_utf8(desc.format).len() > 0 && vstd::utf8::encode_utf8(
                    desc.format,
                ).len() == desc.labels.len() {
                    let (fs, p2) = fields_from(d, p, desc, st.units, 0);
                    let next = if p2 < p {
                        p
                    } else if p2 > d.len() {
                        d.len() as int
                    } else {
                        p2
                    };
                    match log_from(d, next, after_message(st, desc.name, fs)) {
                        Some(rest) => Some(seq![(desc.typ, desc.name, fs)] + rest),
                        None => None,
                    }
                } else {
                    log_from(d, p, st)
                },
                None => log_from(d, p, st),
            }
        }
    }
}

/// The unit names that a log starts with.
pub open spec fn initial_units() -> Seq<(char, Seq<char>)> {
    seq![
        ('-', ""@),
        ('?', "UNKNOWN"@),
        ('A', "A"@),
        ('a', "Ah"@),
        ('d', "deg"@),
        ('b', "B"@),
        ('k', "deg/s"@),
        ('D', "deglatitude"@),
        ('e', "deg/s/s"@),
        ('E', "rad/s"@),
        ('G', "Gauss"@),
        ('h', "degheading"@),
        ('i', "A.s"@),
        ('J', "W.s"@),
        ('L', "rad/s/s"@),
        ('m', "m"@),
        ('n', "m/s"@),
        ('o', "m/s/s"@),
        ('O', "degC"@),
        ('%', "%"@),
        ('S', "satellites"@),
        ('s', "s"@),
        ('q', "rpm"@),
        ('r', "rad"@),
        ('U', "deglongitude"@),
        ('u', "ppm"@),
        ('v', "V"@),
        ('P', "Pa"@),
        ('w', "Ohm"@),
        ('W', "Watt"@),
        ('X', "W.h"@),
        ('Y', "us"@),
        ('z', "Hz"@),
        ('#', "instance"@),
    ]
}


/// The view of a unit table.
pub open spec fn units_view(v: Seq<(char, String)>) -> Seq<(char, Seq<char>)> {
    v.map_values(|e: (char, String)| (e.0, e.1@))
}

/// The view of a format table.
pub open spec fn formats_view(v: Seq<Option<Format>>) -> Seq<Option<FormatView>> {
    v.map_values(
        |o: Option<Format>|
            match o {
                Some(f) => Some(format_view(f)),
                None => None,
            },
    )
}

fn initial_unit_table() -> (v: Vec<(char, String)>)
    ensures
        units_view(v@) == initial_units(),
{
    let mut v: Vec<(char, String)> = Vec::new();
    v.push(('-', "".to_owned()));
    v.push(('?', "UNKNOWN".to_owned()));
    v.push(('A', "A".to_owned()));
    v.push(('a', "Ah".to_owned()));
    v.push(('d', "deg".to_owned()));
    v.push(('b', "B".to_owned()));
    v.push(('k', "deg/s".to_owned()));
    v.push(('D', "deglatitude".to_owned()));
    v.push(('e', "deg/s/s".to_owned()));
    v.push(('E', "rad/s".to_owned()));
    v.push(('G', "Gauss".to_owned()));
    v.push(('h', "degheading".to_owned()));
    v.push(('i', "A.s".to_owned()));
    v.push(('J', "W.s".to_owned()));
    v.push(('L', "rad/s/s".to_owned()));
    v.push(('m', "m".to_owned()));
    v.push(('n', "m/s".to_owned()));
    v.push(('o', "m/s/s".to_owned()));
    v.push(('O', "degC".to_owned()));
    v.push(('%', "%".to_owned()));
    v.push(('S', "satellites".to_owned()));
    v.push(('s', "s".to_owned()));
    v.push(('q', "rpm".to_owned()));
    v.push(('r', "rad".to_owned()));
    v.push(('U', "deglongitude".to_owned()));
    v.push(('u', "ppm".to_owned()));
    v.push(('v', "V".to_owned()));
    v.push(('P', "Pa".to_owned()));
    v.push(('w', "Ohm".to_owned()));
    v.push(('W', "Watt".to_owned()));
    v.push(('X', "W.h".to_owned()));
    v.push(('Y', "us".to_owned()));
    v.push(('z', "Hz".to_owned()));
    v.push(('#', "instance".to_owned()));
    assert(units_view(v@) =~= initial_units());
    v
}

fn find_unit(tbl: &Vec<(char, String)>, c: char) -> (r: Option<String>)
    ensures
        opt_view(r) == lookup_unit(units_view(tbl@), c),
{
    let mut k: usize = tbl.len();
    assert(tbl@.subrange(0, tbl@.len() as int) =~= tbl@);
    while k > 0
        invariant
            k <= tbl.len(),
            lookup_unit(units_view(tbl@), c) == lookup_unit(units_view(tbl@.subrange(0, k as int)), c),
        decreases k,
    {
        let ghost pre = units_view(tbl@.subrange(0, k as int));
        assert(pre.drop_last() =~= units_view(tbl@.subrange(0, k - 1)));
        assert(pre.last() == (tbl@[k - 1].0, tbl@[k - 1].1@));
        if tbl[k - 1].0 == c {
            return Some(tbl[k - 1].1.clone());
        }
        k = k - 1;
    }
    assert(units_view(tbl@.subrange(0, 0)) =~= Seq::<(char, Seq<char>)>::empty());
    None
}

fn unit_name(tbl: &Vec<(char, String)>, units: &Option<String>, i: usize) -> (r: Option<String>)
    ensures
        opt_view(r) == unit_of(units_view(tbl@), opt_view(*units), i as int),
{
    match units {
        Some(u) => {
            let uc = str_chars(u.as_str());
            if i < uc.len() {
                match find_unit(tbl, uc[i]) {
                    Some(n) => Some(n),
                    None => {
                        let mut one: Vec<char> = Vec::new();
                        one.push(uc[i]);
                        assert(one@ =~= seq![uc@[i as int]]);
                        Some(string_from_chars(one.as_slice()))
                    },
                }
            } else {
                None
            }
        },
        None => None,
    }
}

fn mult_id(mults: &Option<String>, i: usize) -> (r: Option<char>)
    ensures
        r == mult_of(opt_view(*mults), i as int),
{
    match mults {
        Some(m) => {
            let mc = str_chars(m.as_str());
            if i < mc.len() {
                Some(mc[i])
            } else {
                None
            }
        },
        None => None,
    }
}

/// The view of a list of fields.
pub open spec fn fields_view(v: Seq<LogField>) -> Seq<(Seq<char>, FieldView, Option<Seq<char>>, Option<char>)> {
    v.map_values(|f: LogField| field_view(f))
}

fn read_fields(d: &[u8], pos: usize, desc: &Format, tbl: &Vec<(char, String)>) -> (r: (Vec<LogField>, usize))
    requires
        pos <= d.len(),
    ensures
        fields_view(r.0@) == fields_from(d@, pos as int, format_view(*desc), units_view(tbl@), 0).0,
        r.1 == fields_from(d@, pos as int, format_view(*desc), units_view(tbl@), 0).1,
{
    let ghost dv = format_view(*desc);
    let ghost tv = units_view(tbl@);
    let chars = str_chars(desc.format.as_str());
    let mut out: Vec<LogField> = Vec::new();
    let mut p: usize = pos;
    let mut i: usize = 0;
    while i < chars.len() && i < desc.labels.len()
        invariant
            chars@ == dv.format,
            dv == format_view(*desc),
            tv == units_view(tbl@),
            pos <= p <= d.len(),
            fields_view(out@) + fields_from(d@, p as int, dv, tv, i as int).0 == fields_from(d@, pos as int, dv, tv, 0).0,
            fields_from(d@, p as int, dv, tv, i as int).1 == fields_from(d@, pos as int, dv, tv, 0).1,
        decreases chars.len() - i,
    {
        proof {
            lemma_field_at_pos(d@, p as int, chars@[i as int]);
        }
        let (v, p2) = read_field(d, p, chars[i]);
        match v {
            Some(x) => {
                let ghost before = fields_view(out@);
                let label = desc.labels[i].clone();
                let unit = unit_name(tbl, &desc.units, i);
                let mult = mult_id(&desc.multipliers, i);
                assert(dv.labels[i as int] == label@);
                out.push(LogField { label, value: x, unit, multiplier_id: mult });
                let ghost rest = fields_from(d@, p2 as int, dv, tv, i + 1).0;
                assert(fields_view(out@) =~= before.push(field_view(out@.last())));
                assert(fields_view(out@) + rest =~= before + (seq![field_view(out@.last())] + rest));
            },
            None => {},
        }
        p = p2;
        i = i + 1;
    }
    assert(fields_view(out@) + Seq::<(Seq<char>, FieldView, Option<Seq<char>>, Option<char>)>::empty() =~= fields_view(out@));
    (out, p)
}


pub(crate) fn last_field<'a>(fs: &'a Vec<LogField>, label: &str) -> (r: Option<&'a FieldValue>)
    ensures
        match r {
            Some(v) => last_value(fields_view(fs@), label@) == Some(value_view(*v)),
            None => last_value(fields_view(fs@), label@) is None,
        },
{
    let mut k: usize = fs.len();
    assert(fs@.subrange(0, fs@.len() as int) =~= fs@);
    while k > 0
        invariant
            k <= fs.len(),
            last_value(fields_view(fs@), label@) == last_value(fields_view(fs@.subrange(0, k as int)), label@),
        decreases k,
    {
        let ghost pre = fields_view(fs@.subrange(0, k as int));
        assert(pre.drop_last() =~= fields_view(fs@.subrange(0, k - 1)));
        assert(pre.last() == field_view(fs@[k - 1]));
        if str_eq(fs[k - 1].label.as_str(), label) {
            return Some(&fs[k - 1].value);
        }
        k = k - 1;
    }
    assert(fields_view(fs@.subrange(0, 0)) =~= Seq::<(Seq<char>, FieldView, Option<Seq<char>>, Option<char>)>::empty());
    None
}

fn clone_labels(v: &Vec<String>) -> (r: Vec<String>)
    ensures
        r@ == v@,
{
    let mut out: Vec<String> = Vec::new();
    let mut i: usize = 0;
    while i < v.len()
        invariant
            i <= v.len(),
            out@ == v@.subrange(0, i as int),
        decreases v.len() - i,
    {
        out.push(v[i].clone());
        i = i + 1;
    }
    assert(v@.subrange(0, v@.len() as int) =~= v@);
    out
}

fn read_format(d: &[u8], p: usize) -> (r: Format)
    requires
        p + 86 <= d.len(),
    ensures
        format_view(r) == format_at(d@, p as int),
{
    let name = text_of(&d[p + 2..p + 6]);
    let format = text_of(&d[p + 6..p + 22]);
    let labels_text = text_of(&d[p + 22..p + 86]);
    let labels = split_commas(labels_text.as_slice());
    let f = Format {
        typ: d[p],
        name: string_from_chars(name.as_slice()),
        format: string_from_chars(format.as_slice()),
        labels,
        units: None,
        multipliers: None,
    };
    assert(format_view(f) =~= format_at(d@, p as int));
    f
}

/// The view of the parser state.
pub open spec fn state_view(formats: Seq<Option<Format>>, units: Seq<(char, String)>) -> ParserState {
    ParserState { formats: formats_view(formats), units: units_view(units) }
}

/// The state at the start of a log: no formats, the standard unit names.
pub open spec fn initial_state() -> ParserState {
    ParserState { formats: Seq::new(256, |i: int| None), units: initial_units() }
}

/// The view of a list of messages.
pub open spec fn items_view(v: Seq<LogItem>) -> Seq<(u8, Seq<char>, Seq<(Seq<char>, FieldView, Option<Seq<char>>, Option<char>)>)> {
    v.map_values(|i: LogItem| item_view(i))
}

/// `rest` after `pre`, where `rest` was read.
pub open spec fn then_log(
    pre: Seq<(u8, Seq<char>, Seq<(Seq<char>, FieldView, Option<Seq<char>>, Option<char>)>)>,
    rest: Option<Seq<(u8, Seq<char>, Seq<(Seq<char>, FieldView, Option<Seq<char>>, Option<char>)>)>>,
) -> Option<Seq<(u8, Seq<char>, Seq<(Seq<char>, FieldView, Option<Seq<char>>, Option<char>)>)>> {
    match rest {
        Some(r) => Some(pre + r),
        None => None,
    }
}

/// Reads the messages of a binary log (see `log_from`); fails when a
/// format message is cut short.
#[verifier::rlimit(60)]
pub fn parse_log(d: &[u8]) -> (r: Result<Vec<LogItem>, ParseError>)
    ensures
        match log_from(d@, 0, initial_state()) {
            Some(items) => r matches Ok(v) && items_view(v@) == items,
            None => r == Err::<Vec<LogItem>, ParseError>(ParseError::UnexpectedEof),
        },
{
    let mut formats: Vec<Option<Format>> = Vec::new();
    let mut k: usize = 0;
    while k < 256
        invariant
            k <= 256,
            formats@.len() == k,
            forall|j: int| 0 <= j < k ==> (#[trigger] formats@[j]) is None,
        decreases 256 - k,
    {
        formats.push(None);
        k = k + 1;
    }
    let mut units = initial_unit_table();
    assert(state_view(formats@, units@) == initial_state()) by {
        assert(formats_view(formats@) =~= Seq::new(256, |i: int| None::<FormatView>));
    }
    let mut out: Vec<LogItem> = Vec::new();
    let mut pos: usize = 0;
    assert(then_log(items_view(out@), log_from(d@, 0, initial_state())) =~~= log_from(d@, 0, initial_state()));
    while pos <= d.len() && d.len() - pos >= 3
        invariant
            pos <= d.len(),
            formats@.len() == 256,
            log_from(d@, 0, initial_state()) == then_log(items_view(out@), log_from(d@, pos as int, state_view(formats@, units@))),
        decreases d.len() - pos,
    {
        let ghost st = state_view(formats@, units@);
        let ghost before = items_view(out@);
        if !(d[pos] == 0xA3 && d[pos + 1] == 0x95) {
            pos = pos + 2;
            continue;
        }
        let id = d[pos + 2];
        let p = pos + 3;
        if id == 0x80 {
            if d.len() - p < 86 {
                return Err(ParseError::UnexpectedEof);
            }
            let f = read_format(d, p);
            let typ = f.typ;
            formats.set(typ as usize, Some(f));
            assert(formats_view(formats@) =~= st.formats.update(typ as int, Some(format_at(d@, p as int))));
            pos = p + 86;
            continue;
        }
        assert(st.formats[id as int] == match formats@[id as int] {
            Some(f) => Some(format_view(f)),
            None => None::<FormatView>,
        });
        let ok = match &formats[id as usize] {
            Some(desc) => {
                proof {
                    assert(format_view(*desc).labels.len() == desc.labels@.len());
                }
                let n = desc.format.as_str().as_bytes().len();
                n > 0 && n == desc.labels.len()
            },
            None => false,
        };
        if !ok {
            pos = p;
            continue;
        }
        let (fields, p2, typ, name) = match &formats[id as usize] {
            Some(desc) => {
                let (fs, p2) = read_fields(d, p, desc, &units);
                proof {
                    lemma_fields_pos(d@, p as int, format_view(*desc), units_view(units@), 0);
                }
                (fs, p2, desc.typ, desc.name.clone())
            },
            None => {
                pos = p;
                continue;
            },
        };
        let ghost desc_v = st.formats[id as int]->Some_0;
        let ghost fs_v = fields_view(fields@);
        assert(fs_v == fields_from(d@, p as int, desc_v, st.units, 0).0);
        assert(p2 == fields_from(d@, p as int, desc_v, st.units, 0).1);
        let is_unit = str_eq(name.as_str(), "UNIT");
        let is_fmtu = str_eq(name.as_str(), "FMTU");
        if is_unit {
            let id_v = last_field(&fields, "Id");
            let label_v = last_field(&fields, "Label");
            match (id_v, label_v) {
                (Some(FieldValue::I8(uid)), Some(FieldValue::Text(l))) => {
                    let c = (#[verifier::truncate] (*uid as u8)) as char;
                    units.push((c, l.clone()));
                    assert(units_view(units@) =~= st.units.push((c, l@)));
                },
                _ => {},
            }
        } else if is_fmtu {
            let t_v = last_field(&fields, "FmtType");
            let m_v = last_field(&fields, "MultIds");
            let u_v = last_field(&fields, "UnitIds");
            match (t_v, m_v, u_v) {
                (Some(FieldValue::U8(t)), Some(FieldValue::Text(m)), Some(FieldValue::Text(u))) => {
                    let t = *t;
                    let upd = match &formats[t as usize] {
                        Some(f) => Some(Format {
                            typ: f.typ,
                            name: f.name.clone(),
                            format: f.format.clone(),
                            labels: clone_labels(&f.labels),
                            units: Some(u.clone()),
                            multipliers: Some(m.clone()),
                        }),
                        None => None,
                    };
                    match upd {
                        Some(nf) => {
                            let ghost old_f = st.formats[t as int]->Some_0;
                            assert(format_view(nf) == FormatView { units: Some(u@), multipliers: Some(m@), ..old_f });
                            formats.set(t as usize, Some(nf));
                            assert(formats_view(formats@) =~= st.formats.update(
                                t as int,
                                Some(FormatView { units: Some(u@), multipliers: Some(m@), ..old_f }),
                            ));
                        },
                        None => {},
                    }
                },
                _ => {},
            }
        }
        assert(state_view(formats@, units@) == after_message(st, desc_v.name, fs_v));
        let item = LogItem { typ, name, fields };
        out.push(item);
        proof {
            assert(items_view(out@) =~= before.push((desc_v.typ, desc_v.name, fs_v)));
            match log_from(d@, p2 as int, state_view(formats@, units@)) {
                Some(rest) => {
                    assert(items_view(out@) + rest =~= before + (seq![(desc_v.typ, desc_v.name, fs_v)] + rest));
                },
                None => {},
            }
        }
        pos = p2;
    }
    proof {
        assert(log_from(d@, pos as int, state_view(formats@, units@)) == Some(
            Seq::<(u8, Seq<char>, Seq<(Seq<char>, FieldView, Option<Seq<char>>, Option<char>)>)>::empty(),
        ));
        assert(items_view(out@) + Seq::<(u8, Seq<char>, Seq<(Seq<char>, FieldView, Option<Seq<char>>, Option<char>)>)>::empty()
            =~= items_view(out@));
    }
    Ok(out)
}

/// Every known format is stored under its own type.
pub open spec fn formats_keyed(st: ParserState) -> bool {
    &&& st.formats.len() == 256
    &&& forall|k: int| 0 <= k < 256 ==> (#[trigger] st.formats[k] matches Some(f) ==> f.typ == k)
}

proof fn lemma_after_message_keyed(st: ParserState, name: Seq<char>, fs: Seq<(Seq<char>, FieldView, Option<Seq<char>>, Option<char>)>)
    requires
        formats_keyed(st),
    ensures
        formats_keyed(after_message(st, name, fs)),
{
    let s2 = after_message(st, name, fs);
    assert forall|k: int| 0 <= k < 256 implies (#[trigger] s2.formats[k] matches Some(f) ==> f.typ == k) by {
        if s2.formats[k] != st.formats[k] {
            assert(st.formats[k] is Some);
        }
    }
}

/// Format messages yield no message of their own: every message read
/// from a log, starting from a state whose formats are stored under their
/// types, is a data message, of a type other than the format type 0x80.
pub proof fn lemma_log_items_are_data(d: Seq<u8>, pos: int, st: ParserState)
    requires
        formats_keyed(st),
    ensures
        log_from(d, pos, st) matches Some(items) ==> forall|i: int| 0 <= i < items.len() ==> (#[trigger] items[i]).0 != 0x80,
    decreases d.len() - pos,
{
    if pos < 0 || d.len() - pos < 3 {
    } else if !(d[pos] == 0xA3 && d[pos + 1] == 0x95) {
        lemma_log_items_are_data(d, pos + 2, st);
    } else {
        let id = d[pos + 2];
        let p = pos + 3;
        if id == 0x80 {
            if p + 86 <= d.len() {
                let f = format_at(d, p);
                let s2 = ParserState { formats: st.formats.update(f.typ as int, Some(f)), units: st.units };
                assert(formats_keyed(s2));
                lemma_log_items_are_data(d, p + 86, s2);
            }
        } else {
            match st.formats[id as int] {
                Some(desc) => if vstd::utf8::encode_utf8(desc.format).len() > 0 && vstd::utf8::encode_utf8(desc.format).len()
                    == desc.labels.len() {
                    let (fs, p2) = fields_from(d, p, desc, st.units, 0);
                    let next = if p2 < p {
                        p
                    } else if p2 > d.len() {
                        d.len() as int
                    } else {
                        p2
                    };
                    lemma_after_message_keyed(st, desc.name, fs);
                    lemma_log_items_are_data(d, next, after_message(st, desc.name, fs));
                    assert(desc.typ == id);
                    match log_from(d, next, after_message(st, desc.name, fs)) {
                        Some(rest) => {
                            let items = seq![(desc.typ, desc.name, fs)] + rest;
                            assert forall|i: int| 0 <= i < items.len() implies (#[trigger] items[i]).0 != 0x80 by {
                                if i > 0 {
                                    assert(items[i] == rest[i - 1]);
                                }
                            }
                        },
                        None => {},
                    }
                } else {
                    lemma_log_items_are_data(d, p, st);
                },
                None => {
                    lemma_log_items_are_data(d, p, st);
                },
            }
        }
    }
}

/// A format message of `d` whose body (after its type byte `0x80`)
/// starts at `q` and fits.
pub open spec fn format_message_at(d: Seq<u8>, q: int) -> bool {
    3 <= q && q + 86 <= d.len() && d[q - 3] == 0xA3 && d[q - 2] == 0x95 && d[q - 1] == 0x80
}

/// Some format message of `d` defines the type, name, format and labels
/// of `f`.
pub open spec fn defined_in(d: Seq<u8>, f: FormatView) -> bool {
    exists|q: int| #[trigger] format_message_at(d, q) && format_at(d, q).typ == f.typ && format_at(d, q).name == f.name
        && format_at(d, q).format == f.format && format_at(d, q).labels == f.labels
}

/// Every known format comes from a format message of `d`.
pub open spec fn formats_from(d: Seq<u8>, st: ParserState) -> bool {
    forall|k: int| 0 <= k < st.formats.len() ==> (#[trigger] st.formats[k] matches Some(f) ==> defined_in(d, f))
}

/// A message of type `typ` named `name` is one that a format message of
/// `d` defines with a non-empty format of as many bytes as labels.
pub open spec fn data_message_of(d: Seq<u8>, typ: u8, name: Seq<char>) -> bool {
    exists|q: int| #[trigger] format_message_at(d, q) && format_at(d, q).typ == typ && format_at(d, q).name == name
        && vstd::utf8::encode_utf8(format_at(d, q).format).len() > 0
        && vstd::utf8::encode_utf8(format_at(d, q).format).len() == format_at(d, q).labels.len()
}

proof fn lemma_after_message_from(d: Seq<u8>, st: ParserState, name: Seq<char>, fs: Seq<(Seq<char>, FieldView, Option<Seq<char>>, Option<char>)>)
    requires
        formats_from(d, st),
        st.formats.len() == 256,
    ensures
        formats_from(d, after_message(st, name, fs)),
{
    let s2 = after_message(st, name, fs);
    if name == "FMTU"@ {
        match (last_value(fs, "FmtType"@), last_value(fs, "MultIds"@), last_value(fs, "UnitIds"@)) {
            (Some(FieldView::U8(t)), Some(FieldView::Text(m)), Some(FieldView::Text(u))) => match st.formats[t as int] {
                Some(f) => {
                    assert(defined_in(d, f));
                    let q = choose|q: int| #[trigger] format_message_at(d, q) && format_at(d, q).typ == f.typ
                        && format_at(d, q).name == f.name && format_at(d, q).format == f.format
                        && format_at(d, q).labels == f.labels;
                    assert forall|k: int| 0 <= k < s2.formats.len() implies (#[trigger] s2.formats[k] matches Some(g) ==> defined_in(d, g)) by {
                        if k == t as int {
                            let g = s2.formats[k]->Some_0;
                            assert(format_message_at(d, q) && format_at(d, q).typ == g.typ && format_at(d, q).name == g.name
                                && format_at(d, q).format == g.format && format_at(d, q).labels == g.labels);
                        } else {
                            assert(s2.formats[k] == st.formats[k]);
                        }
                    }
                },
                None => {},
            },
            _ => {},
        }
    }
}

/// Every message read from a log is a data message that a format message
/// of the log defines: its type and name are those of that format, whose
/// format string is non-empty and has as many bytes as labels (starting
/// from formats that all come from the log, as at its start).
pub proof fn lemma_log_items_are_defined(d: Seq<u8>, pos: int, st: ParserState)
    requires
        formats_keyed(st),
        formats_from(d, st),
    ensures
        log_from(d, pos, st) matches Some(items) ==> forall|i: int|
            0 <= i < items.len() ==> #[trigger] data_message_of(d, items[i].0, items[i].1),
    decreases d.len() - pos,
{
    if pos < 0 || d.len() - pos < 3 {
    } else if !(d[pos] == 0xA3 && d[pos + 1] == 0x95) {
        lemma_log_items_are_defined(d, pos + 2, st);
    } else {
        let id = d[pos + 2];
        let p = pos + 3;
        if id == 0x80 {
            if p + 86 <= d.len() {
                let f = format_at(d, p);
                let s2 = ParserState { formats: st.formats.update(f.typ as int, Some(f)), units: st.units };
                assert(formats_keyed(s2));
                assert(format_message_at(d, p));
                assert forall|k: int| 0 <= k < s2.formats.len() implies (#[trigger] s2.formats[k] matches Some(g) ==> defined_in(d, g)) by {
                    if k == f.typ as int {
                        assert(s2.formats[k] == Some(f));
                        assert(format_message_at(d, p));
                    } else {
                        assert(s2.formats[k] == st.formats[k]);
                    }
                }
                lemma_log_items_are_defined(d, p + 86, s2);
            }
        } else {
            match st.formats[id as int] {
                Some(desc) => if vstd::utf8::encode_utf8(desc.format).len() > 0 && vstd::utf8::encode_utf8(desc.format).len()
                    == desc.labels.len() {
                    let (fs, p2) = fields_from(d, p, desc, st.units, 0);
                    let next = if p2 < p {
                        p
                    } else if p2 > d.len() {
                        d.len() as int
                    } else {
                        p2
                    };
                    lemma_after_message_keyed(st, desc.name, fs);
                    lemma_after_message_from(d, st, desc.name, fs);
                    lemma_log_items_are_defined(d, next, after_message(st, desc.name, fs));
                    assert(defined_in(d, desc));
                    let q = choose|q: int| #[trigger] format_message_at(d, q) && format_at(d, q).typ == desc.typ
                        && format_at(d, q).name == desc.name && format_at(d, q).format == desc.format
                        && format_at(d, q).labels == desc.labels;
                    assert(format_message_at(d, q));
                    assert(data_message_of(d, desc.typ, desc.name));
                    match log_from(d, next, after_message(st, desc.name, fs)) {
                        Some(rest) => {
                            let items = seq![(desc.typ, desc.name, fs)] + rest;
                            assert forall|i: int| 0 <= i < items.len() implies #[trigger] data_message_of(d, items[i].0, items[i].1) by {
                                if i > 0 {
                                    assert(items[i] == rest[i - 1]);
                                }
                            }
                        },
                        None => {},
                    }
                } else {
                    lemma_log_items_are_defined(d, p, st);
                },
                None => {
                    lemma_log_items_are_defined(d, p, st);
                },
            }
        }
    }
}

/// The messages that `parse_log` reads from a log are data messages that
/// its format messages define (see `lemma_log_items_are_defined`), none of
/// the format type.
pub proof fn lemma_parse_log_items_are_defined(d: Seq<u8>)
    ensures
        log_from(d, 0, initial_state()) matches Some(items) ==> forall|i: int|
            0 <= i < items.len() ==> #[trigger] data_message_of(d, items[i].0, items[i].1) && items[i].0 != 0x80,
{
    assert(formats_keyed(initial_state()));
    assert(formats_from(d, initial_state()));
    lemma_log_items_are_defined(d, 0, initial_state());
    lemma_log_items_are_data(d, 0, initial_state());
}

/// A scalar field is read from the bytes at its position, least
/// significant byte first, by its format character: `b` a signed byte,
/// `B` and `M` an unsigned byte, `h`/`H` a signed/unsigned 2-byte number,
/// `i` and `L` a signed 4-byte number, `I` an unsigned one, `f` the bits
/// of a 4-byte float, `d` those of an 8-byte float, `q`/`Q` a
/// signed/unsigned 8-byte number, where it fits; the next field starts right
/// after it.
pub proof fn lemma_scalar_field_layout(d: Seq<u8>, pos: int, f: char)
    requires
        0 <= pos,
    ensures
        f == 'b' && pos + 1 <= d.len() ==> field_at(d, pos, f) == (Some(FieldView::I8((if d[pos] >= 128 { d[pos] - 256 } else { d[pos] as int }) as i8)), pos + 1),
        (f == 'B' || f == 'M') && pos + 1 <= d.len() ==> field_at(d, pos, f) == (Some(FieldView::U8(d[pos])), pos + 1),
        f == 'h' && pos + 2 <= d.len() ==> field_at(d, pos, f) == (Some(FieldView::I16(s16(d, pos) as i16)), pos + 2),
        f == 'H' && pos + 2 <= d.len() ==> field_at(d, pos, f) == (Some(FieldView::U16(le2(d, pos) as u16)), pos + 2),
        (f == 'i' || f == 'L') && pos + 4 <= d.len() ==> field_at(d, pos, f) == (Some(FieldView::I32(s32(d, pos) as i32)), pos + 4),
        f == 'I' && pos + 4 <= d.len() ==> field_at(d, pos, f) == (Some(FieldView::U32(le4(d, pos) as u32)), pos + 4),
        f == 'f' && pos + 4 <= d.len() ==> field_at(d, pos, f) == (Some(FieldView::F32Bits(le4(d, pos) as u32)), pos + 4),
        f == 'd' && pos + 8 <= d.len() ==> field_at(d, pos, f) == (Some(FieldView::F64Bits(le8(d, pos) as u64)), pos + 8),
        f == 'q' && pos + 8 <= d.len() ==> field_at(d, pos, f) == (Some(FieldView::I64(
            (if le8(d, pos) >= 0x8000_0000_0000_0000 { le8(d, pos) - 0x1_0000_0000_0000_0000 } else { le8(d, pos) }) as i64,
        )), pos + 8),
        f == 'Q' && pos + 8 <= d.len() ==> field_at(d, pos, f) == (Some(FieldView::U64(le8(d, pos) as u64)), pos + 8),
{
    if pos + 1 <= d.len() {
        lemma_le_at_1(d, pos);
    }
    if pos + 2 <= d.len() {
        lemma_le_at_2(d, pos);
    }
    if pos + 4 <= d.len() {
        lemma_le_at_4(d, pos);
    }
    if pos + 8 <= d.len() {
        lemma_le_at_8(d, pos);
    }
}

proof fn lemma_le_at_1(d: Seq<u8>, pos: int)
    requires
        0 <= pos < d.len(),
    ensures
        le_at(d, pos, 1) == d[pos],
{
    assert(d.subrange(pos, pos + 1).drop_first() =~= Seq::<u8>::empty());
    assert(crate::bytes::le_uint(Seq::<u8>::empty()) == 0);
}
} // verus!
