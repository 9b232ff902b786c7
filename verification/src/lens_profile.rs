//! The index logic behind GoPro lens profiles: where the coefficients of the
//! de-stretch polynomials go, how the calibration resolution is read, how the
//! coefficient names are read, and the default output size.

use vstd::prelude::*;
use crate::text::{
    is_whitespace, str_chars, str_eq, string_from_chars, to_lowercase, trim_chars, trimmed,
    unicode_lowercase, unicode_whitespace,
};

verus! {

/// The slot of a horizontal warp coefficient, by its power name:
/// `x*(c0 + c1*x² + … + c6*x¹²) + c7*x*y²`.
pub open spec fn mapx_slot_of(name: Seq<char>) -> Option<usize> {
    if name == "x1"@ {
        Some(0)
    } else if name == "x3"@ {
        Some(1)
    } else if name == "x5"@ {
        Some(2)
    } else if name == "x7"@ {
        Some(3)
    } else if name == "x9"@ {
        Some(4)
    } else if name == "x11"@ {
        Some(5)
    } else if name == "x13"@ {
        Some(6)
    } else if name == "x1y2"@ {
        Some(7)
    } else {
        None
    }
}

/// The slot of a vertical warp coefficient, by its power name:
/// `y*(d0 + d1*y² + d2*y⁴ + d3*x² + d4*y²*x² + d5*x⁴)`.
pub open spec fn mapy_slot_of(name: Seq<char>) -> Option<usize> {
    if name == "y1"@ {
        Some(0)
    } else if name == "y3"@ {
        Some(1)
    } else if name == "y5"@ {
        Some(2)
    } else if name == "y1x2"@ {
        Some(3)
    } else if name == "y3x2"@ {
        Some(4)
    } else if name == "y1x4"@ {
        Some(5)
    } else {
        None
    }
}

/// The slot of the horizontal warp coefficient named `name`.
pub fn mapx_slot(name: &str) -> (r: Option<usize>)
    ensures
        r == mapx_slot_of(name@),
{
    if str_eq(name, "x1") {
        Some(0)
    } else if str_eq(name, "x3") {
        Some(1)
    } else if str_eq(name, "x5") {
        Some(2)
    } else if str_eq(name, "x7") {
        Some(3)
    } else if str_eq(name, "x9") {
        Some(4)
    } else if str_eq(name, "x11") {
        Some(5)
    } else if str_eq(name, "x13") {
        Some(6)
    } else if str_eq(name, "x1y2") {
        Some(7)
    } else {
        None
    }
}

/// The slot of the vertical warp coefficient named `name`.
pub fn mapy_slot(name: &str) -> (r: Option<usize>)
    ensures
        r == mapy_slot_of(name@),
{
    if str_eq(name, "y1") {
        Some(0)
    } else if str_eq(name, "y3") {
        Some(1)
    } else if str_eq(name, "y5") {
        Some(2)
    } else if str_eq(name, "y1x2") {
        Some(3)
    } else if str_eq(name, "y3x2") {
        Some(4)
    } else if str_eq(name, "y1x4") {
        Some(5)
    } else {
        None
    }
}

/// The views of a list of names.
pub open spec fn names_view(names: Option<Vec<String>>) -> Option<Seq<Seq<char>>> {
    match names {
        Some(v) => Some(v@.map_values(|s: String| s@)),
        None => None,
    }
}

/// The name given to the `i`-th coefficient, if any.
pub open spec fn name_at(names: Option<Seq<Seq<char>>>, i: int) -> Option<Seq<char>> {
    match names {
        Some(n) => if 0 <= i < n.len() {
            Some(n[i])
        } else {
            None
        },
        None => None,
    }
}

/// The slot of the `i`-th horizontal coefficient: by its name where it has
/// a known one, else by its position (at most the last slot).
pub open spec fn mapx_index_slot(names: Option<Seq<Seq<char>>>, i: int) -> int {
    match name_at(names, i) {
        Some(n) => match mapx_slot_of(n) {
            Some(s) => s as int,
            None => if i < 7 {
                i
            } else {
                7
            },
        },
        None => if i < 7 {
            i
        } else {
            7
        },
    }
}

/// The position-based slot of the `i`-th vertical coefficient among `count`:
/// four coefficients are `y1, y3, y1x2, y1x4`, any other count is sequential.
pub open spec fn mapy_default_slot(count: int, i: int) -> Option<int> {
    if count == 4 {
        if i == 0 {
            Some(0)
        } else if i == 1 {
            Some(1)
        } else if i == 2 {
            Some(3)
        } else if i == 3 {
            Some(5)
        } else {
            None
        }
    } else if 0 <= i < 6 {
        Some(i)
    } else {
        None
    }
}

/// The slot of the `i`-th vertical coefficient among `count`: by its name
/// where it has a known one, else by the known layouts, else by position.
pub open spec fn mapy_index_slot(names: Option<Seq<Seq<char>>>, count: int, i: int) -> int {
    let by_name = match name_at(names, i) {
        Some(n) => match mapy_slot_of(n) {
            Some(s) => Some(s as int),
            None => None,
        },
        None => None,
    };
    match by_name {
        Some(s) => s,
        None => match mapy_default_slot(count, i) {
            Some(s) => s,
            None => if i < 5 {
                i
            } else {
                5
            },
        },
    }
}

/// `init` after writing `values[i]` to slot `slot(i)` for each `i` in turn;
/// a slot past the end is skipped.
pub open spec fn placed<T>(values: Seq<T>, slot: spec_fn(int) -> int, init: Seq<T>) -> Seq<T>
    decreases values.len(),
{
    if values.len() == 0 {
        init
    } else {
        let prev = placed(values.drop_last(), slot, init);
        let s = slot(values.len() - 1);
        if 0 <= s < prev.len() {
            prev.update(s, values.last())
        } else {
            prev
        }
    }
}

fn names_slot_x(names: &Option<Vec<String>>, i: usize) -> (s: usize)
    ensures
        s == mapx_index_slot(names_view(*names), i as int),
{
    let fallback: usize = if i < 7 { i } else { 7 };
    match names {
        Some(n) => {
            if i < n.len() {
                match mapx_slot(n[i].as_str()) {
                    Some(s) => s,
                    None => fallback,
                }
            } else {
                fallback
            }
        },
        None => fallback,
    }
}

fn names_slot_y(names: &Option<Vec<String>>, count: usize, i: usize) -> (s: usize)
    ensures
        s == mapy_index_slot(names_view(*names), count as int, i as int),
{
    let by_name = match names {
        Some(n) => {
            if i < n.len() {
                mapy_slot(n[i].as_str())
            } else {
                None
            }
        },
        None => None,
    };
    match by_name {
        Some(s) => s,
        None => {
            if count == 4 {
                if i == 0 {
                    0
                } else if i == 1 {
                    1
                } else if i == 2 {
                    3
                } else if i == 3 {
                    5
                } else if i < 5 {
                    i
                } else {
                    5
                }
            } else if i < 6 {
                i
            } else {
                5
            }
        },
    }
}

/// Places the horizontal warp coefficients into the eight canonical slots,
/// starting from `zero` everywhere.
pub fn slots_mapx<T: Copy>(values: &[T], names: Option<Vec<String>>, zero: T) -> (out: Vec<T>)
    ensures
        out@ == placed(
            values@,
            |i: int| mapx_index_slot(names_view(names), i),
            seq![zero, zero, zero, zero, zero, zero, zero, zero],
        ),
        out@.len() == 8,
{
    let ghost slot = |i: int| mapx_index_slot(names_view(names), i);
    let ghost init = seq![zero, zero, zero, zero, zero, zero, zero, zero];
    let mut out: Vec<T> = Vec::new();
    let mut k: usize = 0;
    while k < 8
        invariant
            k <= 8,
            init == seq![zero, zero, zero, zero, zero, zero, zero, zero],
            out@ == init.subrange(0, k as int),
        decreases 8 - k,
    {
        out.push(zero);
        k = k + 1;
    }
    assert(init.subrange(0, 8) =~= init);
    assert(values@.subrange(0, 0) =~= Seq::<T>::empty());
    let mut i: usize = 0;
    while i < values.len()
        invariant
            i <= values.len(),
            out@ == placed(values@.subrange(0, i as int), slot, init),
            out@.len() == 8,
            slot == (|i: int| mapx_index_slot(names_view(names), i)),
        decreases values.len() - i,
    {
        let s = names_slot_x(&names, i);
        proof {
            assert(values@.subrange(0, i + 1).drop_last() =~= values@.subrange(0, i as int));
            assert(values@.subrange(0, i + 1).last() == values@[i as int]);
            assert(slot(i as int) == s);
        }
        if s < 8 {
            out.set(s, values[i]);
        }
        i = i + 1;
    }
    assert(values@.subrange(0, values@.len() as int) =~= values@);
    out
}

/// Places the vertical warp coefficients into the six canonical slots,
/// starting from `zero` everywhere.
pub fn slots_mapy<T: Copy>(values: &[T], names: Option<Vec<String>>, zero: T) -> (out: Vec<T>)
    ensures
        out@ == placed(
            values@,
            |i: int| mapy_index_slot(names_view(names), values@.len() as int, i),
            seq![zero, zero, zero, zero, zero, zero],
        ),
        out@.len() == 6,
{
    let ghost slot = |i: int| mapy_index_slot(names_view(names), values@.len() as int, i);
    let ghost init = seq![zero, zero, zero, zero, zero, zero];
    let mut out: Vec<T> = Vec::new();
    let mut k: usize = 0;
    while k < 6
        invariant
            k <= 6,
            init == seq![zero, zero, zero, zero, zero, zero],
            out@ == init.subrange(0, k as int),
        decreases 6 - k,
    {
        out.push(zero);
        k = k + 1;
    }
    assert(init.subrange(0, 6) =~= init);
    assert(values@.subrange(0, 0) =~= Seq::<T>::empty());
    let mut i: usize = 0;
    while i < values.len()
        invariant
            i <= values.len(),
            out@ == placed(values@.subrange(0, i as int), slot, init),
            out@.len() == 6,
            slot == (|i: int| mapy_index_slot(names_view(names), values@.len() as int, i)),
        decreases values.len() - i,
    {
        let s = names_slot_y(&names, values.len(), i);
        proof {
            assert(values@.subrange(0, i + 1).drop_last() =~= values@.subrange(0, i as int));
            assert(values@.subrange(0, i + 1).last() == values@[i as int]);
            assert(slot(i as int) == s);
        }
        if s < 6 {
            out.set(s, values[i]);
        }
        i = i + 1;
    }
    assert(values@.subrange(0, values@.len() as int) =~= values@);
    out
}

proof fn lemma_placed_identity<T>(values: Seq<T>, slot: spec_fn(int) -> int, init: Seq<T>)
    requires
        values.len() <= init.len(),
        forall|i: int| 0 <= i < values.len() ==> #[trigger] slot(i) == i,
    ensures
        placed(values, slot, init) == values + init.subrange(values.len() as int, init.len() as int),
    decreases values.len(),
{
    if values.len() > 0 {
        let v = values.drop_last();
        assert forall|i: int| 0 <= i < v.len() implies #[trigger] slot(i) == i by {
            assert(slot(i) == i);
        }
        lemma_placed_identity(v, slot, init);
        assert(slot(values.len() - 1) == values.len() - 1);
        assert((v + init.subrange(v.len() as int, init.len() as int)).update(values.len() - 1, values.last())
            =~= values + init.subrange(values.len() as int, init.len() as int));
    } else {
        assert(init.subrange(0, init.len() as int) =~= init);
        assert(values =~= Seq::<T>::empty());
    }
}

/// Without names, up to eight horizontal coefficients land in order in the
/// first slots, and the remaining slots keep `zero`: the known warp layouts
/// are sequential.
pub proof fn lemma_mapx_unnamed_sequential<T>(values: Seq<T>, zero: T)
    requires
        values.len() <= 8,
    ensures
        placed(values, |i: int| mapx_index_slot(None, i), seq![zero, zero, zero, zero, zero, zero, zero, zero])
            == values + Seq::new((8 - values.len()) as nat, |k: int| zero),
{
    let init = seq![zero, zero, zero, zero, zero, zero, zero, zero];
    let slot = |i: int| mapx_index_slot(None, i);
    assert forall|i: int| 0 <= i < values.len() implies #[trigger] slot(i) == i by {}
    lemma_placed_identity(values, slot, init);
    assert(init.subrange(values.len() as int, 8) =~= Seq::new((8 - values.len()) as nat, |k: int| zero));
}

/// Without names, four vertical coefficients are `y1, y3, y1x2, y1x4`: they
/// land in slots 0, 1, 3 and 5.
pub proof fn lemma_mapy_unnamed_four<T>(values: Seq<T>, zero: T)
    requires
        values.len() == 4,
    ensures
        placed(values, |i: int| mapy_index_slot(None, 4, i), seq![zero, zero, zero, zero, zero, zero])
            == seq![values[0], values[1], zero, values[2], zero, values[3]],
{
    let init = seq![zero, zero, zero, zero, zero, zero];
    let slot = |i: int| mapy_index_slot(None, 4, i);
    reveal_with_fuel(placed, 5);
    assert(values.drop_last().drop_last().drop_last().drop_last() =~= Seq::<T>::empty());
    assert(placed(values, slot, init) =~= seq![values[0], values[1], zero, values[2], zero, values[3]]);
}

/// The output size of a frame of `w`×`h`: a frame taller than 16:9 (by more
/// than a pixel) is cropped to the rounded 16:9 height, made even; any other
/// keeps its size.
pub open spec fn output_dimension(w: int, h: int) -> (int, int) {
    if 16 * h > 9 * w + 16 {
        let o = (9 * w + 8) / 16;
        (w, o - o % 2)
    } else {
        (w, h)
    }
}

/// The default output size of a `w`×`h` calibration: a centred 16:9 crop
/// where the frame is taller than that.
pub fn default_output_dimension(w: usize, h: usize) -> (r: (usize, usize))
    ensures
        (r.0 as int, r.1 as int) == output_dimension(w as int, h as int),
        r.0 == w,
        r.1 <= h,
        r.1 != h ==> r.1 % 2 == 0 && 16 * r.1 <= 9 * w + 8,
{
    let w2: u128 = w as u128;
    let h2: u128 = h as u128;
    if 16 * h2 > 9 * w2 + 16 {
        let o: u128 = (9 * w2 + 8) / 16;
        assert(o <= w2);
        let out_h: u128 = o - o % 2;
        (w, out_h as usize)
    } else {
        (w, h)
    }
}

/// A calibration resolution `[w, h]` in one of the integer encodings that
/// the metadata may use.
pub enum ResolutionValue {
    U16(Vec<u16>),
    U32(Vec<u32>),
    I16(Vec<i16>),
    I32(Vec<i32>),
}

/// The resolution that an encoded value gives: its first two entries, when
/// there are two and both are positive.
pub open spec fn resolution_of(v: ResolutionValue) -> Option<(int, int)> {
    match v {
        ResolutionValue::U16(x) => if x@.len() >= 2 && x@[0] > 0 && x@[1] > 0 {
            Some((x@[0] as int, x@[1] as int))
        } else {
            None
        },
        ResolutionValue::U32(x) => if x@.len() >= 2 && x@[0] > 0 && x@[1] > 0 {
            Some((x@[0] as int, x@[1] as int))
        } else {
            None
        },
        ResolutionValue::I16(x) => if x@.len() >= 2 && x@[0] > 0 && x@[1] > 0 {
            Some((x@[0] as int, x@[1] as int))
        } else {
            None
        },
        ResolutionValue::I32(x) => if x@.len() >= 2 && x@[0] > 0 && x@[1] > 0 {
            Some((x@[0] as int, x@[1] as int))
        } else {
            None
        },
    }
}

/// Reads the calibration resolution `(w, h)`.
pub fn read_resolution(v: &ResolutionValue) -> (r: Option<(usize, usize)>)
    ensures
        match r {
            Some(p) => resolution_of(*v) == Some((p.0 as int, p.1 as int)),
            None => resolution_of(*v) is None,
        },
{
    match v {
        ResolutionValue::U16(x) => {
            if x.len() >= 2 && x[0] > 0 && x[1] > 0 {
                Some((x[0] as usize, x[1] as usize))
            } else {
                None
            }
        },
        ResolutionValue::U32(x) => {
            if x.len() >= 2 && x[0] > 0 && x[1] > 0 {
                Some((x[0] as usize, x[1] as usize))
            } else {
                None
            }
        },
        ResolutionValue::I16(x) => {
            if x.len() >= 2 && x[0] > 0 && x[1] > 0 {
                Some((x[0] as usize, x[1] as usize))
            } else {
                None
            }
        },
        ResolutionValue::I32(x) => {
            if x.len() >= 2 && x[0] > 0 && x[1] > 0 {
                Some((x[0] as usize, x[1] as usize))
            } else {
                None
            }
        },
    }
}

/// Coefficient power names: a list, or one text that holds them all.
pub enum NamesValue {
    List(Vec<String>),
    Text(String),
}

/// Whether `c` separates names within one text.
pub open spec fn is_name_separator(c: char) -> bool {
    unicode_whitespace(c) || c == ','
}

/// The non-empty pieces of `s` between separators; `cur` is the piece
/// begun before `s`.
pub open spec fn fields(s: Seq<char>, cur: Seq<char>) -> Seq<Seq<char>>
    decreases s.len(),
{
    if s.len() == 0 {
        if cur.len() > 0 {
            seq![cur]
        } else {
            Seq::empty()
        }
    } else if is_name_separator(s[0]) {
        (if cur.len() > 0 {
            seq![cur]
        } else {
            Seq::empty()
        }) + fields(s.drop_first(), Seq::empty())
    } else {
        fields(s.drop_first(), cur.push(s[0]))
    }
}

/// A name as it is compared: trimmed and in lower case.
pub open spec fn name_key(s: Seq<char>) -> Seq<char> {
    unicode_lowercase(trimmed(s))
}

/// The names that an encoded value gives.
pub open spec fn names_of(v: NamesValue) -> Seq<Seq<char>> {
    match v {
        NamesValue::List(l) => l@.map_values(|s: String| name_key(s@)),
        NamesValue::Text(t) => fields(t@, Seq::empty()).map_values(|p: Seq<char>| name_key(p)),
    }
}

fn key_of(s: &[char]) -> (r: String)
    ensures
        r@ == name_key(s@),
{
    let t = trim_chars(s);
    let u = string_from_chars(t.as_slice());
    to_lowercase(u.as_str())
}

/// Reads coefficient power names, trimmed and in lower case; one text is
/// split at white space and commas, and empty pieces are dropped.
pub fn read_names(v: &NamesValue) -> (r: Vec<String>)
    ensures
        r@.map_values(|s: String| s@) == names_of(*v),
{
    match v {
        NamesValue::List(l) => {
            let mut out: Vec<String> = Vec::new();
            let mut i: usize = 0;
            while i < l.len()
                invariant
                    i <= l.len(),
                    out@.map_values(|s: String| s@) == l@.subrange(0, i as int).map_values(|s: String| name_key(s@)),
                decreases l.len() - i,
            {
                let c = str_chars(l[i].as_str());
                let k = key_of(c.as_slice());
                let ghost before = out@;
                out.push(k);
                assert(out@.map_values(|s: String| s@) =~= before.map_values(|s: String| s@).push(k@));
                assert(l@.subrange(0, i + 1).map_values(|s: String| name_key(s@))
                    =~= l@.subrange(0, i as int).map_values(|s: String| name_key(s@)).push(name_key(l@[i as int]@)));
                i = i + 1;
            }
            assert(l@.subrange(0, l@.len() as int) =~= l@);
            out
        },
        NamesValue::Text(t) => {
            let cs = str_chars(t.as_str());
            let ghost total = fields(cs@, Seq::empty()).map_values(|p: Seq<char>| name_key(p));
            let mut out: Vec<String> = Vec::new();
            let mut cur: Vec<char> = Vec::new();
            let mut i: usize = 0;
            assert(cs@.subrange(0, cs@.len() as int) =~= cs@);
            assert(cur@ =~= Seq::<char>::empty());
            assert(out@.map_values(|s: String| s@) + total =~= total);
            while i < cs.len()
                invariant
                    i <= cs.len(),
                    cs@ == t@,
                    total == fields(cs@, Seq::empty()).map_values(|p: Seq<char>| name_key(p)),
                    out@.map_values(|s: String| s@) + fields(cs@.subrange(i as int, cs@.len() as int), cur@).map_values(
                        |p: Seq<char>| name_key(p),
                    ) == total,
                decreases cs.len() - i,
            {
                let ghost rest = cs@.subrange(i as int, cs@.len() as int);
                let ghost next = cs@.subrange(i + 1, cs@.len() as int);
                assert(rest.drop_first() =~= next);
                assert(rest[0] == cs@[i as int]);
                let c = cs[i];
                if is_whitespace(c) || c == ',' {
                    let ghost before = out@;
                    let ghost piece: Seq<Seq<char>> = if cur@.len() > 0 { seq![cur@] } else { Seq::empty() };
                    assert((piece + fields(next, Seq::empty())).map_values(|p: Seq<char>| name_key(p))
                        =~= piece.map_values(|p: Seq<char>| name_key(p)) + fields(next, Seq::empty()).map_values(|p: Seq<char>| name_key(p)));
                    if cur.len() > 0 {
                        let k = key_of(cur.as_slice());
                        out.push(k);
                        assert(out@.map_values(|s: String| s@) =~= before.map_values(|s: String| s@) + piece.map_values(|p: Seq<char>| name_key(p)));
                    } else {
                        assert(out@.map_values(|s: String| s@) =~= before.map_values(|s: String| s@) + piece.map_values(|p: Seq<char>| name_key(p)));
                    }
                    cur = Vec::new();
                    assert(cur@ =~= Seq::<char>::empty());
                } else {
                    cur.push(c);
                }
                i = i + 1;
            }
            let ghost before = out@;
            let ghost piece: Seq<Seq<char>> = if cur@.len() > 0 { seq![cur@] } else { Seq::empty() };
            assert(cs@.subrange(cs@.len() as int, cs@.len() as int) =~= Seq::<char>::empty());
            if cur.len() > 0 {
                let k = key_of(cur.as_slice());
                out.push(k);
                assert(out@.map_values(|s: String| s@) =~= before.map_values(|s: String| s@) + piece.map_values(|p: Seq<char>| name_key(p)));
            } else {
                assert(out@.map_values(|s: String| s@) =~= before.map_values(|s: String| s@) + piece.map_values(|p: Seq<char>| name_key(p)));
            }
            out
        },
    }
}

/// The lens mode named by a `VFOV` setting: `S` Superview, `H` Hyperview,
/// `W` Wide, `L` Linear, `N` Narrow, `M` Medium, `X` Max SuperView; empty
/// for any other or none.
pub open spec fn lens_mode_spec(vfov: Option<Seq<char>>) -> Seq<char> {
    match vfov {
        Some(v) => if v == "S"@ {
            "Superview"@
        } else if v == "H"@ {
            "Hyperview"@
        } else if v == "W"@ {
            "Wide"@
        } else if v == "L"@ {
            "Linear"@
        } else if v == "N"@ {
            "Narrow"@
        } else if v == "M"@ {
            "Medium"@
        } else if v == "X"@ {
            "Max SuperView"@
        } else {
            ""@
        },
        None => ""@,
    }
}

/// The lens mode named by a `VFOV` setting (see `lens_mode_spec`).
pub fn lens_mode(vfov: Option<&str>) -> (r: &'static str)
    ensures
        r@ == lens_mode_spec(
            match vfov {
                Some(v) => Some(v@),
                None => None,
            },
        ),
{
    match vfov {
        None => "",
        Some(v) => if str_eq(v, "S") {
            "Superview"
        } else if str_eq(v, "H") {
            "Hyperview"
        } else if str_eq(v, "W") {
            "Wide"
        } else if str_eq(v, "L") {
            "Linear"
        } else if str_eq(v, "N") {
            "Narrow"
        } else if str_eq(v, "M") {
            "Medium"
        } else if str_eq(v, "X") {
            "Max SuperView"
        } else {
            ""
        },
    }
}


/// With four vertical coefficients and no names, they go to the slots of
/// `y1, y3, y1x2, y1x4`: 0, 1, 3 and 5, the others keeping `zero`.
pub proof fn lemma_hyperview_slots<T>(a: T, b: T, c: T, d: T, zero: T)
    ensures
        placed(
            seq![a, b, c, d],
            |i: int| mapy_index_slot(None, 4, i),
            seq![zero, zero, zero, zero, zero, zero],
        ) == seq![a, b, zero, c, zero, d],
{
    let slot = |i: int| mapy_index_slot(None, 4, i);
    let init = seq![zero, zero, zero, zero, zero, zero];
    let v = seq![a, b, c, d];
    assert(v.drop_last() =~= seq![a, b, c]);
    assert(seq![a, b, c].drop_last() =~= seq![a, b]);
    assert(seq![a, b].drop_last() =~= seq![a]);
    assert(seq![a].drop_last() =~= Seq::<T>::empty());
    assert(placed(Seq::<T>::empty(), slot, init) == init);
    assert(placed(seq![a], slot, init) =~= seq![a, zero, zero, zero, zero, zero]);
    assert(placed(seq![a, b], slot, init) =~= seq![a, b, zero, zero, zero, zero]);
    assert(placed(seq![a, b, c], slot, init) =~= seq![a, b, zero, c, zero, zero]);
    assert(placed(v, slot, init) =~= seq![a, b, zero, c, zero, d]);
}

/// With six vertical coefficients and no names, they go to the six slots in
/// order.
pub proof fn lemma_sequential_slots<T>(v: Seq<T>, zero: T)
    requires
        v.len() == 6,
    ensures
        placed(v, |i: int| mapy_index_slot(None, 6, i), seq![zero, zero, zero, zero, zero, zero]) == v,
{
    let slot = |i: int| mapy_index_slot(None, 6, i);
    let init = seq![zero, zero, zero, zero, zero, zero];
    lemma_placed_in_order(v, slot, init, 6);
    assert(v.subrange(0, 6) =~= v);
    assert(init.subrange(6, 6) =~= Seq::<T>::empty());
    assert(v.subrange(0, 6) + init.subrange(6, 6) =~= v);
}

proof fn lemma_placed_in_order<T>(v: Seq<T>, slot: spec_fn(int) -> int, init: Seq<T>, n: int)
    requires
        0 <= n <= v.len() <= init.len(),
        forall|i: int| 0 <= i < v.len() ==> #[trigger] slot(i) == i,
    ensures
        placed(v.subrange(0, n), slot, init) == v.subrange(0, n) + init.subrange(n, init.len() as int),
    decreases n,
{
    if n == 0 {
        assert(v.subrange(0, 0) + init.subrange(0, init.len() as int) =~= init);
    } else {
        lemma_placed_in_order(v, slot, init, n - 1);
        assert(v.subrange(0, n).drop_last() =~= v.subrange(0, n - 1));
        assert(slot(n - 1) == n - 1);
        assert((v.subrange(0, n - 1) + init.subrange(n - 1, init.len() as int)).update(n - 1, v[n - 1])
            =~= v.subrange(0, n) + init.subrange(n, init.len() as int));
    }
}

/// A coefficient whose name gives it a slot goes there, whatever the
/// count: where it is the last one written, that slot holds it.
pub proof fn lemma_named_slot_wins<T>(v: Seq<T>, names: Seq<Seq<char>>, init: Seq<T>)
    requires
        v.len() > 0,
        names.len() >= v.len(),
        mapy_slot_of(names[v.len() - 1]) matches Some(s) && s < init.len(),
    ensures
        placed(v, |i: int| mapy_index_slot(Some(names), v.len() as int, i), init)[
            mapy_slot_of(names[v.len() - 1])->Some_0 as int
        ] == v.last(),
{
    let slot = |i: int| mapy_index_slot(Some(names), v.len() as int, i);
    lemma_placed_len(v.drop_last(), slot, init);
}

proof fn lemma_placed_len<T>(v: Seq<T>, slot: spec_fn(int) -> int, init: Seq<T>)
    ensures
        placed(v, slot, init).len() == init.len(),
    decreases v.len(),
{
    if v.len() > 0 {
        lemma_placed_len(v.drop_last(), slot, init);
    }
}

} // verus!
