//! Decoder for the rANS-compressed gyroscope blocks of ESP flight logs.
//!
//! A block starts with the quantisation shift, a byte that selects the
//! symbol model and carries a 3-bit checksum, and the initial 32-bit coder
//! state. Every three decoded symbols form one update of the angular
//! velocity; updates whose symbols are saturated are applied but not
//! emitted.
//!
//! A log is a 7-byte header and then events, each a kind byte and its
//! fields, little-endian.

use vstd::prelude::*;
use crate::bytes::{le2, le4, le_uint, lemma_le_at_2, lemma_le_at_4, s32, read_i16_le, read_i32_le, read_u16_le, read_u32_le, s16, signed};

verus! {

/// Fixed-point shift of the decoded angular rates.
pub const FIX_MULT: i32 = 27;

/// Precision, in bits, of the cumulative frequencies.
pub const SCALE: i32 = 15;

/// Lower bound of the coder state after renormalisation.
pub const RANS_BYTE_L: u32 = 8388608;

/// Number of symbols a model holds a cumulative frequency for (-128..=128).
pub const MODEL_LEN: usize = 257;

/// `x << qp` as the decoder computes it on a 32-bit signed integer.
pub open spec fn shifted(x: i8, qp: u8) -> i32 {
    (x as i32) << qp
}

/// Absolute value of an `i8` as a wrapping computation gives it
/// (`-128` stays `-128`).
pub open spec fn wrapping_abs_i8(x: i8) -> int {
    if x == -128 {
        -128
    } else if x < 0 {
        -x
    } else {
        x as int
    }
}

/// At least one of the three symbols reached the limit `lim`.
pub open spec fn saturated(v: Seq<i8>, lim: i8) -> bool {
    wrapping_abs_i8(v[0]) == lim || wrapping_abs_i8(v[1]) == lim || wrapping_abs_i8(v[2]) == lim
}

/// Adding the shifted update to every component stays within `i32`.
pub open spec fn dequant_fits(v: [i32; 3], upd: Seq<i8>, qp: u8) -> bool {
    &&& qp < 32
    &&& upd.len() >= 3
    &&& forall|k: int|
        0 <= k < 3 ==> i32::MIN <= #[trigger] v[k] + shifted(upd[k], qp) <= i32::MAX
}

/// The angular velocity after one update.
pub open spec fn dequant_spec(v: [i32; 3], upd: Seq<i8>, qp: u8) -> [i32; 3] {
    [
        (v[0] + shifted(upd[0], qp)) as i32,
        (v[1] + shifted(upd[1], qp)) as i32,
        (v[2] + shifted(upd[2], qp)) as i32,
    ]
}

/// The decoder's angular velocity.
#[derive(Copy, Clone, Debug)]
pub struct State {
    pub v: [i32; 3],
}

impl State {
    /// A decoder at rest.
    pub fn new() -> (s: State)
        ensures
            s.v == [0i32, 0i32, 0i32],
    {
        State { v: [0, 0, 0] }
    }

    /// Adds `data[k] << qp` to every component and returns the new
    /// velocity, unless one of the three symbols is saturated.
    pub fn dequant_one(&mut self, data: &[i8], qp: u8) -> (r: Option<[i32; 3]>)
        requires
            dequant_fits(old(self).v, data@, qp),
        ensures
            final(self).v == dequant_spec(old(self).v, data@, qp),
            r is Some <==> !saturated(data@, 127),
            r matches Some(q) ==> q == final(self).v,
    {
        let upd = [data[0], data[1], data[2]];
        self.v = [
            self.v[0] + ((upd[0] as i32) << qp),
            self.v[1] + ((upd[1] as i32) << qp),
            self.v[2] + ((upd[2] as i32) << qp),
        ];
        proof {
            assert(upd@ =~= data@.subrange(0, 3));
        }
        if !is_saturated(upd, 127) {
            return Some(self.v);
        }
        None
    }
}

impl Default for State {
    fn default() -> (s: State)
        ensures
            s.v == [0i32, 0i32, 0i32],
    {
        State::new()
    }
}

fn wrapping_abs(x: i8) -> (r: i8)
    ensures
        r as int == wrapping_abs_i8(x),
{
    if x == -128 {
        -128
    } else if x < 0 {
        -x
    } else {
        x
    }
}

/// Whether one of the three values has absolute value `lim`.
fn is_saturated(v: [i8; 3], lim: i8) -> (b: bool)
    ensures
        b == saturated(v@, lim),
{
    wrapping_abs(v[0]) == lim || wrapping_abs(v[1]) == lim || wrapping_abs(v[2]) == lim
}


/// A table of cumulative frequencies is usable by the decoder: it covers
/// the symbols -128..=128, starts at 0, grows strictly, and stays below
/// the total `1 << SCALE`.
pub open spec fn table_ok(t: Seq<u32>) -> bool {
    &&& t.len() == MODEL_LEN
    &&& t[0] == 0
    &&& t[256] < 32768
    &&& forall|i: int, j: int| 0 <= i < j < MODEL_LEN ==> t[i] < t[j]
}

/// Cumulative distribution used to decode one symbol.
pub trait Cdf {
    /// Cumulative frequency of all symbols below `x`.
    fn cdf(&self, x: i32) -> u32;

    /// The symbol whose frequency interval holds `y`.
    fn icdf(&self, y: u32) -> i32;

    /// Precision of the frequencies, in bits.
    fn scale(&self) -> i32;
}

/// The Laplace symbol model, held as its table of cumulative frequencies
/// for the symbols -128..=128.
pub struct LaplaceCdf {
    table: Vec<u32>,
    scale: i32,
}

impl LaplaceCdf {
    #[verifier::type_invariant]
    spec fn inv(self) -> bool {
        self.scale == SCALE && table_ok(self.table@)
    }

    /// The cumulative frequencies of the symbols -128..=128.
    pub closed spec fn values(self) -> Seq<u32> {
        self.table@
    }

    /// Cumulative frequency below symbol `x`: 0 up to -128, the total
    /// `1 << SCALE` above 128.
    pub open spec fn cdf_at(self, x: int) -> int {
        if x <= -128 {
            0
        } else if x > 128 {
            32768
        } else {
            self.values()[x + 128] as int
        }
    }

    /// The model over the given table of cumulative frequencies, if the
    /// table is usable and `scale` is the decoder's precision.
    pub fn from_table(table: Vec<u32>, scale: i32) -> (r: Option<LaplaceCdf>)
        ensures
            r is Some <==> (scale == SCALE && table_ok(table@)),
            r matches Some(m) ==> m.values() == table@,
    {
        if scale != SCALE || table.len() != MODEL_LEN || table[0] != 0 || table[256] >= 32768 {
            return None;
        }
        let mut k: usize = 1;
        while k < MODEL_LEN
            invariant
                1 <= k <= MODEL_LEN,
                table.len() == MODEL_LEN,
                forall|i: int, j: int| 0 <= i < j < k ==> table@[i] < table@[j],
            decreases MODEL_LEN - k,
        {
            if table[k - 1] >= table[k] {
                assert(!table_ok(table@));
                return None;
            }
            k = k + 1;
        }
        Some(LaplaceCdf { table, scale })
    }
}

impl Cdf for LaplaceCdf {
    fn cdf(&self, x: i32) -> (c: u32)
        ensures
            c as int == self.cdf_at(x as int),
    {
        proof {
            use_type_invariant(self);
        }
        if x <= -128 {
            return 0;
        }
        if x > 128 {
            let sh = self.scale as u32;
            assert(1u32 << 15u32 == 32768u32) by (bit_vector);
            return 1u32 << sh;
        }
        self.table[(x + 128) as usize]
    }

    fn icdf(&self, y: u32) -> (a: i32)
        ensures
            y < 32768 ==> -128 <= a <= 128 && self.cdf_at(a as int) <= y < self.cdf_at(a + 1),
            y >= 32768 ==> a == 129,
    {
        proof {
            use_type_invariant(self);
        }
        let mut l: i32 = -129;
        let mut r: i32 = 129;
        while l + 1 != r
            invariant
                -129 <= l < r <= 129,
                table_ok(self.values()),
                self.cdf_at(l + 1) <= y,
                y < 32768 ==> y < self.cdf_at(r as int),
                y >= 32768 ==> r == 129,
            decreases r - l,
        {
            let mid = (l + r) / 2;
            let c0 = self.cdf(mid);
            let c1 = self.cdf(mid + 1);
            if c0 <= y && c1 > y {
                return mid;
            }
            if c0 <= y {
                l = mid;
            } else {
                r = mid;
            }
        }
        r
    }

    fn scale(&self) -> (s: i32)
        ensures
            s == SCALE,
    {
        proof {
            use_type_invariant(self);
        }
        self.scale
    }
}


/// The symbol whose frequency interval of `m` holds `y`.
pub open spec fn icdf_spec(m: LaplaceCdf, y: int) -> int {
    choose|a: int| -128 <= a <= 128 && #[trigger] m.cdf_at(a) <= y < m.cdf_at(a + 1)
}

/// Refills the coder state from `data` at `pos`, one byte at a time, until
/// it reaches `RANS_BYTE_L`; `None` when the data runs out first.
pub open spec fn renorm_spec(data: Seq<u8>, r: u32, pos: int) -> Option<(u32, int)>
    decreases data.len() - pos,
{
    if r >= RANS_BYTE_L {
        Some((r, pos))
    } else if pos < 0 || pos >= data.len() {
        None
    } else {
        renorm_spec(data, (r << 8u32) | (data[pos] as u32), pos + 1)
    }
}

/// Decodes one symbol from the coder state `r`, then renormalises.
/// Returns the symbol as the decoder stores it (`i8`), the new state and
/// the new read position.
pub open spec fn step_spec(m: LaplaceCdf, data: Seq<u8>, r: u32, pos: int) -> Option<(i8, u32, int)> {
    let c = (r & 0x7fffu32) as int;
    let sym = icdf_spec(m, c);
    if sym == -128 {
        None
    } else {
        let start = m.cdf_at(sym);
        let freq = m.cdf_at(sym + 1) - start;
        let r1 = freq * ((r >> 15u32) as int) + c - start;
        match renorm_spec(data, r1 as u32, pos) {
            Some((r2, p2)) => Some(((sym as i32) as i8, r2, p2)),
            None => None,
        }
    }
}

/// Decodes the three symbols of one update.
pub open spec fn triple_spec(m: LaplaceCdf, data: Seq<u8>, r: u32, pos: int) -> Option<(Seq<i8>, u32, int)> {
    match step_spec(m, data, r, pos) {
        None => None,
        Some((a, r1, p1)) => match step_spec(m, data, r1, p1) {
            None => None,
            Some((b, r2, p2)) => match step_spec(m, data, r2, p2) {
                None => None,
                Some((c, r3, p3)) => Some((seq![a, b, c], r3, p3)),
            },
        },
    }
}

/// The running checksum after the three symbols of one update.
pub open spec fn add_checksum(cks: u8, s: Seq<i8>) -> u8 {
    (s[2] as u8).wrapping_add((s[1] as u8).wrapping_add((s[0] as u8).wrapping_add(cks)))
}

/// Prefixes the emitted velocities of a decoding result with `pre`.
pub open spec fn prepend(
    pre: Seq<[i32; 3]>,
    o: Option<(Seq<[i32; 3]>, [i32; 3], int, u8)>,
) -> Option<(Seq<[i32; 3]>, [i32; 3], int, u8)> {
    match o {
        Some((q, st, p, c)) => Some((pre + q, st, p, c)),
        None => None,
    }
}

/// Decodes updates until `n` velocities have been emitted. The result holds
/// the emitted velocities, the final decoder velocity, the read position
/// and the running checksum; `None` when the data runs out, a symbol is out
/// of the model, or an update leaves the `i32` range.
pub open spec fn block_spec(
    m: LaplaceCdf,
    qp: u8,
    data: Seq<u8>,
    n: nat,
    st: [i32; 3],
    r: u32,
    pos: int,
    put: nat,
    cks: u8,
) -> Option<(Seq<[i32; 3]>, [i32; 3], int, u8)>
    decreases data.len() - pos, r,
{
    if put >= n {
        Some((Seq::empty(), st, pos, cks))
    } else if !table_ok(m.values()) || pos < 0 {
        None
    } else {
        match triple_spec(m, data, r, pos) {
            None => None,
            Some((s, r2, p2)) => {
                proof {
                    lemma_triple_progress(m, data, r, pos);
                }
                if !dequant_fits(st, s, qp) {
                    None
                } else {
                    let st2 = dequant_spec(st, s, qp);
                    let cks2 = add_checksum(cks, s);
                    if saturated(s, 127) {
                        block_spec(m, qp, data, n, st2, r2, p2, put, cks2)
                    } else {
                        prepend(seq![st2], block_spec(m, qp, data, n, st2, r2, p2, put + 1, cks2))
                    }
                }
            },
        }
    }
}

/// The initial coder state: little-endian in bytes 2..6 of the block.
pub open spec fn initial_state(data: Seq<u8>) -> u32 {
    ((data[2] as u32) << 0u32) | ((data[3] as u32) << 8u32) | ((data[4] as u32) << 16u32) | (
    (data[5] as u32) << 24u32)
}

/// Decodes a whole block that fills `n` velocities, starting from the
/// decoder velocity `st`, with the model that byte 1 selects, and checks the
/// block's 3-bit checksum.
pub open spec fn decompress_spec(models: Seq<LaplaceCdf>, data: Seq<u8>, n: nat, st: [i32; 3]) -> Option<
    (Seq<[i32; 3]>, [i32; 3], int, u8),
> {
    let m = models[(data[1] & 0x1f) as int];
    match block_spec(m, data[0], data, n, st, initial_state(data), 6, 0, 0) {
        Some(o) => if (o.3 & 7u8) == (data[1] >> 5u8) {
            Some(o)
        } else {
            None
        },
        None => None,
    }
}

proof fn lemma_cdf_increasing(m: LaplaceCdf, x: int, z: int)
    requires
        table_ok(m.values()),
        -128 <= x < z <= 129,
    ensures
        m.cdf_at(x) < m.cdf_at(z),
{
    let t = m.values();
    if x > -128 && z <= 128 {
        assert(t[x + 128] < t[z + 128]);
    } else if x > -128 {
        assert(t[x + 128] <= t[256]) by {
            if x + 128 < 256 {
                assert(t[x + 128] < t[256]);
            }
        }
    } else if z <= 128 {
        assert(t[0] < t[z + 128]);
    }
}

proof fn lemma_symbol_exists(m: LaplaceCdf, y: int, k: int)
    requires
        table_ok(m.values()),
        0 <= y < 32768,
        -128 <= k <= 128,
        m.cdf_at(k) <= y,
    ensures
        exists|a: int| -128 <= a <= 128 && #[trigger] m.cdf_at(a) <= y < m.cdf_at(a + 1),
    decreases 128 - k,
{
    if m.cdf_at(k + 1) > y {
        assert(-128 <= k <= 128 && m.cdf_at(k) <= y < m.cdf_at(k + 1));
    } else {
        lemma_symbol_exists(m, y, k + 1);
    }
}

proof fn lemma_icdf_spec(m: LaplaceCdf, y: int, a: int)
    requires
        table_ok(m.values()),
        0 <= y < 32768,
        -128 <= a <= 128,
        m.cdf_at(a) <= y < m.cdf_at(a + 1),
    ensures
        icdf_spec(m, y) == a,
{
    lemma_symbol_exists(m, y, -128);
    let b = icdf_spec(m, y);
    if b < a {
        lemma_cdf_increasing(m, b + 1, a);
        if b + 1 == a {
        } else {
        }
        assert(m.cdf_at(b + 1) <= m.cdf_at(a));
    } else if a < b {
        if a + 1 < b {
            lemma_cdf_increasing(m, a + 1, b);
        }
        assert(m.cdf_at(a + 1) <= m.cdf_at(b));
    }
}

proof fn lemma_renorm_progress(data: Seq<u8>, r: u32, pos: int)
    ensures
        renorm_spec(data, r, pos) matches Some((r2, p2)) ==> {
            &&& pos <= p2
            &&& p2 == pos ==> r2 == r
            &&& p2 > pos ==> p2 <= data.len()
        },
    decreases data.len() - pos,
{
    if r < RANS_BYTE_L && 0 <= pos < data.len() {
        lemma_renorm_progress(data, (r << 8u32) | (data[pos] as u32), pos + 1);
    }
}

proof fn lemma_step_bounds(m: LaplaceCdf, r: u32)
    requires
        table_ok(m.values()),
    ensures
        ({
            let c = (r & 0x7fffu32) as int;
            let sym = icdf_spec(m, c);
            let start = m.cdf_at(sym);
            let freq = m.cdf_at(sym + 1) - start;
            let r1 = freq * ((r >> 15u32) as int) + c - start;
            sym != -128 ==> {
                &&& -127 <= sym <= 128
                &&& 1 <= start <= c
                &&& c < start + freq
                &&& 1 <= freq <= 32767
                &&& 0 <= r1 < r
                &&& freq * ((r >> 15u32) as int) + c <= u32::MAX
            }
        }),
{
    let c = (r & 0x7fffu32) as int;
    let q = (r >> 15u32) as int;
    assert((r & 0x7fffu32) < 32768u32) by (bit_vector);
    assert(r >> 15u32 <= 131071u32) by (bit_vector);
    assert(r == (r >> 15u32) * 32768 + (r & 0x7fffu32)) by (bit_vector);
    lemma_symbol_exists(m, c, -128);
    let sym = icdf_spec(m, c);
    if sym != -128 {
        let start = m.cdf_at(sym);
        let freq = m.cdf_at(sym + 1) - start;
        lemma_cdf_increasing(m, -128, sym);
        lemma_cdf_increasing(m, sym, sym + 1);
        if sym + 1 < 129 {
            lemma_cdf_increasing(m, sym + 1, 129);
        }
        assert(m.values()[1] > m.values()[0]);
        if sym > -127 {
            lemma_cdf_increasing(m, -127, sym);
        }
        assert(start >= 1);
        assert(freq <= 32767);
        assert(freq * q <= 32767 * 131071) by (nonlinear_arith)
            requires
                0 <= freq <= 32767,
                0 <= q <= 131071,
        ;
        assert((32768 - freq) * q >= 0) by (nonlinear_arith)
            requires
                freq <= 32768,
                q >= 0,
        ;
        assert(freq * q + c - start < q * 32768 + c) by (nonlinear_arith)
            requires
                (32768 - freq) * q >= 0,
                start >= 1,
        ;
    }
}

proof fn lemma_step_progress(m: LaplaceCdf, data: Seq<u8>, r: u32, pos: int)
    requires
        table_ok(m.values()),
    ensures
        step_spec(m, data, r, pos) matches Some((s, r2, p2)) ==> {
            &&& pos <= p2
            &&& p2 == pos ==> r2 < r
            &&& p2 > pos ==> p2 <= data.len()
        },
{
    lemma_step_bounds(m, r);
    let c = (r & 0x7fffu32) as int;
    let sym = icdf_spec(m, c);
    if sym != -128 {
        let start = m.cdf_at(sym);
        let freq = m.cdf_at(sym + 1) - start;
        let r1 = freq * ((r >> 15u32) as int) + c - start;
        lemma_renorm_progress(data, r1 as u32, pos);
    }
}

pub proof fn lemma_triple_progress(m: LaplaceCdf, data: Seq<u8>, r: u32, pos: int)
    requires
        table_ok(m.values()),
    ensures
        triple_spec(m, data, r, pos) matches Some((s, r2, p2)) ==> {
            &&& pos <= p2
            &&& p2 == pos ==> r2 < r
            &&& p2 > pos ==> p2 <= data.len()
        },
{
    lemma_step_progress(m, data, r, pos);
    if let Some((a, r1, p1)) = step_spec(m, data, r, pos) {
        lemma_step_progress(m, data, r1, p1);
        if let Some((b, r2, p2)) = step_spec(m, data, r1, p1) {
            lemma_step_progress(m, data, r2, p2);
        }
    }
}


proof fn lemma_block_unfold(
    m: LaplaceCdf,
    qp: u8,
    data: Seq<u8>,
    n: nat,
    st: [i32; 3],
    r: u32,
    pos: int,
    put: nat,
    cks: u8,
    s: Seq<i8>,
    r2: u32,
    p2: int,
)
    requires
        put < n,
        table_ok(m.values()),
        pos >= 0,
        triple_spec(m, data, r, pos) == Some((s, r2, p2)),
    ensures
        block_spec(m, qp, data, n, st, r, pos, put, cks) == (if !dequant_fits(st, s, qp) {
            None
        } else if saturated(s, 127) {
            block_spec(m, qp, data, n, dequant_spec(st, s, qp), r2, p2, put, add_checksum(cks, s))
        } else {
            prepend(
                seq![dequant_spec(st, s, qp)],
                block_spec(m, qp, data, n, dequant_spec(st, s, qp), r2, p2, put + 1, add_checksum(cks, s)),
            )
        }),
{
}

proof fn lemma_block_none(
    m: LaplaceCdf,
    qp: u8,
    data: Seq<u8>,
    n: nat,
    st: [i32; 3],
    r: u32,
    pos: int,
    put: nat,
    cks: u8,
)
    requires
        put < n,
        table_ok(m.values()),
        pos >= 0,
        triple_spec(m, data, r, pos) is None,
    ensures
        block_spec(m, qp, data, n, st, r, pos, put, cks) is None,
{
}

proof fn lemma_prepend_assoc(a: Seq<[i32; 3]>, b: Seq<[i32; 3]>, o: Option<(Seq<[i32; 3]>, [i32; 3], int, u8)>)
    ensures
        prepend(a, prepend(b, o)) == prepend(a + b, o),
{
    if let Some((q, st, p, c)) = o {
        assert(a + (b + q) =~= (a + b) + q);
    }
}

/// The outcome of decoding one block.
pub struct DecompressResult {
    pub new_state: State,
    pub bytes_eaten: usize,
    pub quats_put: usize,
}

fn renorm(data: &[u8], rstate: u32, pos: usize) -> (res: Option<(u32, usize)>)
    requires
        pos <= data.len(),
    ensures
        match renorm_spec(data@, rstate, pos as int) {
            Some((r2, p2)) => pos <= p2 <= data.len() && res == Some((r2, p2 as usize)),
            None => res is None,
        },
        res matches Some(t) ==> t.1 <= data.len(),
{
    let mut r = rstate;
    let mut p = pos;
    while r < RANS_BYTE_L
        invariant
            pos <= p <= data.len(),
            renorm_spec(data@, rstate, pos as int) == renorm_spec(data@, r, p as int),
        decreases data.len() - p,
    {
        if p >= data.len() {
            return None;
        }
        r = (r << 8) | data[p] as u32;
        p = p + 1;
    }
    Some((r, p))
}

fn decode_symbol(m: &LaplaceCdf, data: &[u8], rstate: u32, pos: usize) -> (res: Option<(i8, u32, usize)>)
    requires
        pos <= data.len(),
    ensures
        match step_spec(*m, data@, rstate, pos as int) {
            Some((s, r2, p2)) => pos <= p2 <= data.len() && res == Some((s, r2, p2 as usize)),
            None => res is None,
        },
        res matches Some(t) ==> t.2 <= data.len(),
{
    proof {
        use_type_invariant(m);
        lemma_step_bounds(*m, rstate);
    }
    let scale = m.scale() as u32;
    assert((1u32 << 15u32) - 1 == 0x7fffu32) by (bit_vector);
    let mask: u32 = (1u32 << scale) - 1;
    let cum = rstate & mask;
    let sym = m.icdf(cum);
    proof {
        assert(cum < 32768) by (bit_vector)
            requires
                cum == rstate & 0x7fffu32,
        ;
        lemma_icdf_spec(*m, cum as int, sym as int);
    }
    if sym == -128 {
        return None;
    }
    let start = m.cdf(sym);
    let freq = m.cdf(sym + 1) - start;
    let r1 = freq * (rstate >> scale) + (rstate & mask) - start;
    let s = #[verifier::truncate] (sym as i8);
    match renorm(data, r1, pos) {
        Some((r2, p2)) => Some((s, r2, p2)),
        None => None,
    }
}

fn decode_triple(m: &LaplaceCdf, data: &[u8], rstate: u32, pos: usize) -> (res: Option<([i8; 3], u32, usize)>)
    requires
        pos <= data.len(),
    ensures
        match triple_spec(*m, data@, rstate, pos as int) {
            Some((s, r2, p2)) => p2 <= data.len() && (res matches Some(t) && t.0@ == s && t.1 == r2 && t.2 == p2),
            None => res is None,
        },
{
    let (a, r1, p1) = match decode_symbol(m, data, rstate, pos) {
        Some(t) => t,
        None => return None,
    };
    let (b, r2, p2) = match decode_symbol(m, data, r1, p1) {
        Some(t) => t,
        None => return None,
    };
    let (c, r3, p3) = match decode_symbol(m, data, r2, p2) {
        Some(t) => t,
        None => return None,
    };
    let s: [i8; 3] = [a, b, c];
    assert(step_spec(*m, data@, rstate, pos as int) == Some((a, r1, p1 as int)));
    assert(step_spec(*m, data@, r1, p1 as int) == Some((b, r2, p2 as int)));
    assert(step_spec(*m, data@, r2, p2 as int) == Some((c, r3, p3 as int)));
    assert(s@ =~= seq![a, b, c]);
    Some((s, r3, p3))
}

fn dequant_fits_exec(v: [i32; 3], s: [i8; 3], qp: u8) -> (b: bool)
    requires
        qp < 32,
    ensures
        b == dequant_fits(v, s@, qp),
{
    let mut k: usize = 0;
    while k < 3
        invariant
            k <= 3,
            qp < 32,
            forall|j: int| 0 <= j < k ==> i32::MIN <= #[trigger] v[j] + shifted(s@[j], qp) <= i32::MAX,
        decreases 3 - k,
    {
        let d = ((s[k] as i32) << qp) as i64;
        let sum = v[k] as i64 + d;
        if sum < i32::MIN as i64 || sum > i32::MAX as i64 {
            return false;
        }
        k = k + 1;
    }
    true
}

/// Decodes one gyroscope block into `quats`, continuing from the decoder
/// velocity `state`. `models` holds one symbol model per entry of the
/// variance table; the block selects one by the low five bits of byte 1.
///
/// Succeeds exactly when `decompress_spec` does: the result then carries
/// the final velocity, the number of bytes read and the number of
/// velocities written to the front of `quats`. A block that runs out of
/// data, decodes the out-of-model symbol -128, would leave the `i32` range
/// or fails its checksum yields `None`.
#[verifier::rlimit(40)]
pub fn decompress_block(state: &State, data: &[u8], quats: &mut Vec<[i32; 3]>, models: &[LaplaceCdf]) -> (r: Option<DecompressResult>)
    requires
        data.len() >= 6,
        ((data[1] & 0x1fu8) as int) < models.len(),
    ensures
        final(quats).len() == old(quats).len(),
        r is Some <==> decompress_spec(models@, data@, old(quats).len() as nat, state.v) is Some,
        r matches Some(res) ==> {
            let o = decompress_spec(models@, data@, old(quats).len() as nat, state.v)->Some_0;
            &&& res.quats_put == old(quats).len()
            &&& res.bytes_eaten <= data.len()
            &&& res.new_state.v == o.1
            &&& res.bytes_eaten == o.2
            &&& res.quats_put == o.0.len()
            &&& final(quats)@.subrange(0, res.quats_put as int) == o.0
        },
{
    let qp = data[0];
    let i_var = (data[1] & 0x1f) as usize;
    let cksum = data[1] >> 5;
    let mdl = &models[i_var];
    proof {
        use_type_invariant(mdl);
    }
    let mut rstate = ((data[2] as u32) << 0) | ((data[3] as u32) << 8) | ((data[4] as u32) << 16) | ((data[5] as u32) << 24);
    let mut bytes_eaten: usize = 6;
    let mut quats_put: usize = 0;
    let mut new_state = *state;
    let mut own_cksum: u8 = 0;
    let n = quats.len();
    let ghost full = block_spec(*mdl, qp, data@, n as nat, state.v, rstate, 6, 0, 0);
    assert(rstate == initial_state(data@));
    assert(*mdl == models@[(data@[1] & 0x1fu8) as int]);
    assert(n == old(quats).len());
    assert(full == block_spec(models@[(data@[1] & 0x1fu8) as int], data@[0], data@, old(quats).len() as nat, state.v, initial_state(data@), 6, 0, 0));
    while quats_put < quats.len()
        invariant
            quats.len() == n,
            old(quats).len() == n,
            quats_put <= n,
            full == block_spec(models@[(data@[1] & 0x1fu8) as int], data@[0], data@, n as nat, state.v, initial_state(data@), 6, 0, 0),
            6 <= bytes_eaten <= data.len(),
            table_ok(mdl.values()),
            full == prepend(
                quats@.subrange(0, quats_put as int),
                block_spec(*mdl, qp, data@, n as nat, new_state.v, rstate, bytes_eaten as int, quats_put as nat, own_cksum),
            ),
        decreases data.len() - bytes_eaten, rstate,
    {
        let ghost cur = block_spec(*mdl, qp, data@, n as nat, new_state.v, rstate, bytes_eaten as int, quats_put as nat, own_cksum);
        let ghost st0 = new_state.v;
        let ghost r0 = rstate;
        let ghost pos0 = bytes_eaten as int;
        let ghost cks0 = own_cksum;
        let ghost put0 = quats_put;
        let ghost pre0 = quats@.subrange(0, quats_put as int);
        proof {
            lemma_triple_progress(*mdl, data@, rstate, bytes_eaten as int);
        }
        let (s, r3, p3) = match decode_triple(mdl, data, rstate, bytes_eaten) {
            Some(t) => t,
            None => {
                proof {
                    lemma_block_none(*mdl, qp, data@, n as nat, st0, r0, pos0, put0 as nat, cks0);
                }
                return None;
            },
        };
        proof {
            lemma_block_unfold(*mdl, qp, data@, n as nat, st0, r0, pos0, put0 as nat, cks0, s@, r3, p3 as int);
        }
        own_cksum = (#[verifier::truncate] (s[0] as u8)).wrapping_add(own_cksum);
        own_cksum = (#[verifier::truncate] (s[1] as u8)).wrapping_add(own_cksum);
        own_cksum = (#[verifier::truncate] (s[2] as u8)).wrapping_add(own_cksum);
        assert(own_cksum == add_checksum(cks0, s@));
        rstate = r3;
        bytes_eaten = p3;
        if qp >= 32 || !dequant_fits_exec(new_state.v, s, qp) {
            return None;
        }
        let ghost old_quats = quats@;
        if let Some(q) = new_state.dequant_one(&s, qp) {
            quats.set(quats_put, q);
            quats_put = quats_put + 1;
            proof {
                assert(quats@.subrange(0, quats_put as int) =~= pre0 + seq![q]);
                lemma_prepend_assoc(pre0, seq![q], block_spec(*mdl, qp, data@, n as nat, new_state.v, rstate, bytes_eaten as int, quats_put as nat, own_cksum));
            }
        }
    }
    if (own_cksum & 0x07) != cksum {
        return None;
    }
    Some(DecompressResult { new_state, bytes_eaten, quats_put })
}

/// An event of an ESP log.
#[derive(Debug, Clone)]
pub enum EspEvent {
    /// `0x01`: the number of velocities in each gyroscope block.
    GyroSetup(u16),
    /// `0x02`: the time that the samples gathered since the last such
    /// event span, in microseconds.
    DeltaTime(u32),
    /// `0x03`: the velocities that a gyroscope block adds.
    Gyro(Vec<[i32; 3]>),
    /// `0x04`: the number of samples in each accelerometer block and the
    /// exponent of the accelerometer range.
    AccelSetup(u8, u8),
    /// `0x05`: the negated samples of an accelerometer block.
    Accel(Vec<[i16; 3]>),
    /// `0x06`: a time offset in microseconds.
    TimeOffset(i32),
    /// `0x07`: the three bytes that name the IMU orientation.
    Orientation(u8, u8, u8),
}

/// An event with its samples as sequences.
pub enum EventView {
    GyroSetup(u16),
    DeltaTime(u32),
    Gyro(Seq<[i32; 3]>),
    AccelSetup(u8, u8),
    Accel(Seq<[i16; 3]>),
    TimeOffset(i32),
    Orientation(u8, u8, u8),
}

/// The view of an event.
pub open spec fn event_view(e: EspEvent) -> EventView {
    match e {
        EspEvent::GyroSetup(n) => EventView::GyroSetup(n),
        EspEvent::DeltaTime(t) => EventView::DeltaTime(t),
        EspEvent::Gyro(v) => EventView::Gyro(v@),
        EspEvent::AccelSetup(n, r) => EventView::AccelSetup(n, r),
        EspEvent::Accel(v) => EventView::Accel(v@),
        EspEvent::TimeOffset(t) => EventView::TimeOffset(t),
        EspEvent::Orientation(a, b, c) => EventView::Orientation(a, b, c),
    }
}

/// The views of events.
pub open spec fn events_view(v: Seq<EspEvent>) -> Seq<EventView> {
    v.map_values(|e: EspEvent| event_view(e))
}

/// What the reader keeps between events: its 8000-byte read buffer, the
/// decoder velocity, the number of velocities per gyroscope block and the
/// number of samples per accelerometer block.
pub struct ReadState {
    pub buf: Seq<u8>,
    pub v: [i32; 3],
    pub n: nat,
    pub blk: nat,
}

/// How reading a log ends: with its events, or malformed (a gyroscope
/// block that selects no symbol model, an accelerometer range exponent of
/// 32 or more, or an accelerometer sample of -32768, which has no
/// negation).
pub enum EspOutcome {
    Events(Seq<EventView>),
    Malformed,
}

/// `pre` before the events of `o`.
pub open spec fn esp_then(pre: Seq<EventView>, o: EspOutcome) -> EspOutcome {
    match o {
        EspOutcome::Events(s) => EspOutcome::Events(pre + s),
        EspOutcome::Malformed => EspOutcome::Malformed,
    }
}

/// The read buffer after reading from `p`: as many bytes as fit, at most
/// 8000, over the start of what it held.
pub open spec fn read_buffer(buf: Seq<u8>, d: Seq<u8>, p: int) -> Seq<u8> {
    let n = if d.len() - p < 8000 {
        d.len() - p
    } else {
        8000
    };
    d.subrange(p, p + n) + buf.subrange(n, 8000)
}

/// The little-endian `i16` at `i`.
pub open spec fn le_i16(d: Seq<u8>, i: int) -> int {
    signed(le_uint(d.subrange(i, i + 2)) as int, 16)
}

/// The negated samples of an accelerometer block of `blk` samples at `p`.
pub open spec fn accel_samples(d: Seq<u8>, p: int, blk: nat) -> Seq<[i16; 3]> {
    Seq::new(blk, |k: int| [(-le_i16(d, p + 6 * k)) as i16, (-le_i16(d, p + 6 * k + 2)) as i16, (-le_i16(d, p + 6 * k + 4)) as i16])
}

/// The events of a log from `pos` on; reading stops at the end of the
/// data, at a value that the data cuts short, at a gyroscope setup of
/// another revision than 1, at a gyroscope block that does not decode, and
/// at an unknown kind.
pub open spec fn events_from(models: Seq<LaplaceCdf>, d: Seq<u8>, pos: int, st: ReadState) -> EspOutcome
    decreases d.len() - pos,
{
    if pos < 0 || pos >= d.len() {
        EspOutcome::Events(Seq::empty())
    } else {
        let k = d[pos];
        let p = pos + 1;
        if k == 1 {
            if p + 3 > d.len() || d[p] != 1 {
                EspOutcome::Events(Seq::empty())
            } else {
                let n = le_uint(d.subrange(p + 1, p + 3));
                esp_then(seq![EventView::GyroSetup(n as u16)], events_from(models, d, p + 3, ReadState { n, ..st }))
            }
        } else if k == 2 {
            if p + 4 > d.len() {
                EspOutcome::Events(Seq::empty())
            } else {
                esp_then(
                    seq![EventView::DeltaTime(le_uint(d.subrange(p, p + 4)) as u32)],
                    events_from(models, d, p + 4, st),
                )
            }
        } else if k == 3 {
            let buf = read_buffer(st.buf, d, p);
            if (buf[1] & 0x1f) as int >= models.len() {
                EspOutcome::Malformed
            } else {
                match decompress_spec(models, buf, st.n, st.v) {
                    None => EspOutcome::Events(Seq::empty()),
                    Some(o) => esp_then(
                        seq![EventView::Gyro(o.0)],
                        if 0 <= o.2 && p + o.2 < d.len() {
                            events_from(models, d, p + o.2, ReadState { buf, v: o.1, ..st })
                        } else {
                            EspOutcome::Events(Seq::empty())
                        },
                    ),
                }
            }
        } else if k == 4 {
            if p + 2 > d.len() {
                EspOutcome::Events(Seq::empty())
            } else if d[p + 1] >= 32 {
                EspOutcome::Malformed
            } else {
                esp_then(
                    seq![EventView::AccelSetup(d[p], d[p + 1])],
                    events_from(models, d, p + 2, ReadState { blk: d[p] as nat, ..st }),
                )
            }
        } else if k == 5 {
            let avail: int = (d.len() - p) / 2;
            let m: int = if avail < 3 * st.blk {
                avail
            } else {
                (3 * st.blk) as int
            };
            if exists|j: int| 0 <= j < m && #[trigger] le_i16(d, p + 2 * j) == -32768 {
                EspOutcome::Malformed
            } else if m < 3 * st.blk {
                EspOutcome::Events(Seq::empty())
            } else {
                esp_then(
                    seq![EventView::Accel(accel_samples(d, p, st.blk))],
                    events_from(models, d, p + 6 * st.blk, st),
                )
            }
        } else if k == 6 {
            if p + 4 > d.len() {
                EspOutcome::Events(Seq::empty())
            } else {
                esp_then(
                    seq![EventView::TimeOffset(signed(le_uint(d.subrange(p, p + 4)) as int, 32) as i32)],
                    events_from(models, d, p + 4, st),
                )
            }
        } else if k == 7 {
            if p + 3 > d.len() {
                EspOutcome::Events(Seq::empty())
            } else {
                esp_then(seq![EventView::Orientation(d[p], d[p + 1], d[p + 2])], events_from(models, d, p + 3, st))
            }
        } else {
            EspOutcome::Events(Seq::empty())
        }
    }
}

/// How reading a whole log `d` ends: its events after the 7-byte header,
/// which the read buffer starts with; none when the header is cut short.
pub open spec fn log_events(models: Seq<LaplaceCdf>, d: Seq<u8>) -> EspOutcome {
    if d.len() < 7 {
        EspOutcome::Events(Seq::empty())
    } else {
        events_from(
            models,
            d,
            7,
            ReadState { buf: d.subrange(0, 7) + Seq::new(7993, |i: int| 0u8), v: [0i32, 0i32, 0i32], n: 0, blk: 0 },
        )
    }
}

struct Reader {
    buf: Vec<u8>,
    state: State,
    quats: Vec<[i32; 3]>,
    blk: usize,
}

spec fn reader_view(r: Reader) -> ReadState {
    ReadState { buf: r.buf@, v: r.state.v, n: r.quats@.len(), blk: r.blk as nat }
}

enum EspStep {
    Stop,
    Malformed,
    Event(EspEvent, usize),
}

fn zeros(n: usize) -> (v: Vec<[i32; 3]>)
    ensures
        v@.len() == n,
{
    let mut v: Vec<[i32; 3]> = Vec::new();
    while v.len() < n
        invariant
            v@.len() <= n,
        decreases n - v@.len(),
    {
        v.push([0, 0, 0]);
    }
    v
}

fn fill_buffer(buf: &mut Vec<u8>, d: &[u8], p: usize)
    requires
        p <= d.len(),
        old(buf)@.len() == 8000,
    ensures
        final(buf)@ == read_buffer(old(buf)@, d@, p as int),
{
    let len = d.len();
    let nread: usize = if len - p < 8000 {
        len - p
    } else {
        8000
    };
    let ghost old_buf = buf@;
    let mut i: usize = 0;
    while i < nread
        invariant
            i <= nread <= 8000,
            p + nread <= d.len(),
            nread == (if d.len() - p < 8000 { d.len() - p } else { 8000 }),
            buf@.len() == 8000,
            old_buf.len() == 8000,
            forall|j: int| 0 <= j < i ==> buf@[j] == d@[p + j],
            forall|j: int| i <= j < 8000 ==> buf@[j] == old_buf[j],
        decreases nread - i,
    {
        buf.set(i, d[p + i]);
        i = i + 1;
    }
    assert(buf@ =~= read_buffer(old_buf, d@, p as int));
}

#[verifier::rlimit(40)]
fn gyro_step(d: &[u8], p: usize, rd: &mut Reader, models: &[LaplaceCdf]) -> (r: EspStep)
    requires
        p <= d.len(),
        old(rd).buf@.len() == 8000,
    ensures
        final(rd).buf@.len() == 8000,
        final(rd).blk == old(rd).blk,
        ({
            let st = reader_view(*old(rd));
            let buf = read_buffer(st.buf, d@, p as int);
            match r {
                EspStep::Stop => ((buf[1] & 0x1f) as int) < models@.len() && decompress_spec(models@, buf, st.n, st.v) is None,
                EspStep::Malformed => (buf[1] & 0x1f) as int >= models@.len(),
                EspStep::Event(e, p2) => {
                    &&& ((buf[1] & 0x1f) as int) < models@.len()
                    &&& decompress_spec(models@, buf, st.n, st.v) matches Some(o)
                    &&& event_view(e) == EventView::Gyro(o.0)
                    &&& 0 <= o.2
                    &&& p2 == (if p + o.2 < d.len() { p + o.2 } else { d.len() as int })
                    &&& reader_view(*final(rd)) == (ReadState { buf, v: o.1, ..st })
                },
            }
        }),
{
    fill_buffer(&mut rd.buf, d, p);
    if (rd.buf[1] & 0x1f) as usize >= models.len() {
        return EspStep::Malformed;
    }
    let ghost n = rd.quats@.len();
    match decompress_block(&rd.state, rd.buf.as_slice(), &mut rd.quats, models) {
        None => EspStep::Stop,
        Some(res) => {
            rd.state = res.new_state;
            assert(rd.quats@.subrange(0, n as int) =~= rd.quats@);
            let mut got = zeros(rd.quats.len());
            std::mem::swap(&mut got, &mut rd.quats);
            let p2 = if res.bytes_eaten >= d.len() - p {
                d.len()
            } else {
                p + res.bytes_eaten
            };
            EspStep::Event(EspEvent::Gyro(got), p2)
        },
    }
}

enum AccelRead {
    Stop,
    Malformed,
    Samples(Vec<[i16; 3]>),
}

fn accel_block(d: &[u8], p: usize, blk: usize) -> (r: AccelRead)
    requires
        p <= d.len(),
        blk < 256,
    ensures
        ({
            let avail: int = (d.len() - p) / 2;
            let m: int = if avail < 3 * blk { avail } else { (3 * blk) as int };
            match r {
                AccelRead::Malformed => exists|j: int| 0 <= j < m && #[trigger] le_i16(d@, p + 2 * j) == -32768,
                AccelRead::Stop => !(exists|j: int| 0 <= j < m && #[trigger] le_i16(d@, p + 2 * j) == -32768) && m < 3 * blk,
                AccelRead::Samples(v) => !(exists|j: int| 0 <= j < m && #[trigger] le_i16(d@, p + 2 * j) == -32768) && m == 3
                    * blk && v@ == accel_samples(d@, p as int, blk as nat),
            }
        }),
{
    let ghost avail: int = (d.len() - p) / 2;
    let total = 3 * blk;
    let mut flat: Vec<i16> = Vec::new();
    let mut j: usize = 0;
    while j < total
        invariant
            j <= total == 3 * blk,
            p <= d.len(),
            avail == (d.len() - p) / 2,
            j <= avail,
            flat@.len() == j,
            forall|i: int| 0 <= i < j ==> #[trigger] le_i16(d@, p + 2 * i) != -32768,
            forall|i: int| 0 <= i < j ==> flat@[i] == -le_i16(d@, p + 2 * i),
        decreases total - j,
    {
        if d.len() - p - 2 * j < 2 {
            return AccelRead::Stop;
        }
        let x = read_i16_le(&d[p + 2 * j..p + 2 * j + 2]);
        assert(d@.subrange(p + 2 * j, p + 2 * j + 2).subrange(0, 2) =~= d@.subrange(p + 2 * j, p + 2 * j + 2));
        assert(x == le_i16(d@, p + 2 * j));
        if x == i16::MIN {
            return AccelRead::Malformed;
        }
        flat.push(-x);
        j = j + 1;
    }
    let mut v: Vec<[i16; 3]> = Vec::new();
    let mut k: usize = 0;
    while k < blk
        invariant
            k <= blk,
            total == 3 * blk,
            flat@.len() == total,
            forall|i: int| 0 <= i < total ==> flat@[i] == -le_i16(d@, p + 2 * i),
            v@.len() == k,
            forall|i: int| 0 <= i < k ==> v@[i] == accel_samples(d@, p as int, blk as nat)[i],
        decreases blk - k,
    {
        let t = [flat[3 * k], flat[3 * k + 1], flat[3 * k + 2]];
        assert(t == accel_samples(d@, p as int, blk as nat)[k as int]);
        v.push(t);
        k = k + 1;
    }
    assert(v@ =~= accel_samples(d@, p as int, blk as nat));
    AccelRead::Samples(v)
}

fn setup_step(d: &[u8], pos: usize, rd: &mut Reader, models: &[LaplaceCdf]) -> (r: EspStep)
    requires
        pos < d.len(),
        d[pos as int] == 1,
        old(rd).buf@.len() == 8000,
        old(rd).blk < 256,
    ensures
        final(rd).buf@.len() == 8000,
        final(rd).blk < 256,
        match r {
            EspStep::Stop => events_from(models@, d@, pos as int, reader_view(*old(rd))) == EspOutcome::Events(
                Seq::empty(),
            ),
            EspStep::Malformed => events_from(models@, d@, pos as int, reader_view(*old(rd))) is Malformed,
            EspStep::Event(e, p2) => pos < p2 <= d.len() && events_from(models@, d@, pos as int, reader_view(*old(rd)))
                == esp_then(seq![event_view(e)], events_from(models@, d@, p2 as int, reader_view(*final(rd)))),
        },
{
    let len = d.len();
    let p = pos + 1;
    let ghost st = reader_view(*rd);
    if len - p < 3 || d[p] != 1 {
        return EspStep::Stop;
    }
    let n = read_u16_le(&d[p + 1..p + 3]);
    assert(d@.subrange(p + 1, p + 3).subrange(0, 2) =~= d@.subrange(p + 1, p + 3));
    rd.quats = zeros(n as usize);
    assert(reader_view(*rd) == (ReadState { n: n as nat, ..st }));
    EspStep::Event(EspEvent::GyroSetup(n), p + 3)
}

#[verifier::rlimit(40)]
fn fixed_step(d: &[u8], pos: usize, rd: &mut Reader, models: &[LaplaceCdf]) -> (r: EspStep)
    requires
        pos < d.len(),
        d[pos as int] == 2 || d[pos as int] == 6 || d[pos as int] == 7,
        old(rd).buf@.len() == 8000,
        old(rd).blk < 256,
    ensures
        final(rd).buf@.len() == 8000,
        final(rd).blk < 256,
        match r {
            EspStep::Stop => events_from(models@, d@, pos as int, reader_view(*old(rd))) == EspOutcome::Events(
                Seq::empty(),
            ),
            EspStep::Malformed => events_from(models@, d@, pos as int, reader_view(*old(rd))) is Malformed,
            EspStep::Event(e, p2) => pos < p2 <= d.len() && events_from(models@, d@, pos as int, reader_view(*old(rd)))
                == esp_then(seq![event_view(e)], events_from(models@, d@, p2 as int, reader_view(*final(rd)))),
        },
{
    let len = d.len();
    let p = pos + 1;
    let ghost st = reader_view(*rd);
    let k = d[pos];
    if k == 2 {
        if len - p < 4 {
            return EspStep::Stop;
        }
        let t = read_u32_le(&d[p..p + 4]);
        assert(d@.subrange(p as int, p + 4).subrange(0, 4) =~= d@.subrange(p as int, p + 4));
        EspStep::Event(EspEvent::DeltaTime(t), p + 4)
    } else if k == 6 {
        if len - p < 4 {
            return EspStep::Stop;
        }
        let t = read_i32_le(&d[p..p + 4]);
        assert(d@.subrange(p as int, p + 4).subrange(0, 4) =~= d@.subrange(p as int, p + 4));
        EspStep::Event(EspEvent::TimeOffset(t), p + 4)
    } else {
        if len - p < 3 {
            return EspStep::Stop;
        }
        EspStep::Event(EspEvent::Orientation(d[p], d[p + 1], d[p + 2]), p + 3)
    }
}

fn gyro_event(d: &[u8], pos: usize, rd: &mut Reader, models: &[LaplaceCdf]) -> (r: EspStep)
    requires
        pos < d.len(),
        d[pos as int] == 3,
        old(rd).buf@.len() == 8000,
        old(rd).blk < 256,
    ensures
        final(rd).buf@.len() == 8000,
        final(rd).blk < 256,
        match r {
            EspStep::Stop => events_from(models@, d@, pos as int, reader_view(*old(rd))) == EspOutcome::Events(
                Seq::empty(),
            ),
            EspStep::Malformed => events_from(models@, d@, pos as int, reader_view(*old(rd))) is Malformed,
            EspStep::Event(e, p2) => pos < p2 <= d.len() && events_from(models@, d@, pos as int, reader_view(*old(rd)))
                == esp_then(seq![event_view(e)], events_from(models@, d@, p2 as int, reader_view(*final(rd)))),
        },
{
    let len = d.len();
    let p = pos + 1;
    let ghost st = reader_view(*rd);
    let r = gyro_step(d, p, rd, models);
    match r {
        EspStep::Event(e, p2) => {
            if p2 == len {
                assert(events_from(models@, d@, p2 as int, reader_view(*rd)) == EspOutcome::Events(Seq::<EventView>::empty()));
            }
            EspStep::Event(e, p2)
        },
        _ => r,
    }
}

fn accel_setup_step(d: &[u8], pos: usize, rd: &mut Reader, models: &[LaplaceCdf]) -> (r: EspStep)
    requires
        pos < d.len(),
        d[pos as int] == 4,
        old(rd).buf@.len() == 8000,
        old(rd).blk < 256,
    ensures
        final(rd).buf@.len() == 8000,
        final(rd).blk < 256,
        match r {
            EspStep::Stop => events_from(models@, d@, pos as int, reader_view(*old(rd))) == EspOutcome::Events(
                Seq::empty(),
            ),
            EspStep::Malformed => events_from(models@, d@, pos as int, reader_view(*old(rd))) is Malformed,
            EspStep::Event(e, p2) => pos < p2 <= d.len() && events_from(models@, d@, pos as int, reader_view(*old(rd)))
                == esp_then(seq![event_view(e)], events_from(models@, d@, p2 as int, reader_view(*final(rd)))),
        },
{
    let len = d.len();
    let p = pos + 1;
    let ghost st = reader_view(*rd);
    if len - p < 2 {
        return EspStep::Stop;
    }
    if d[p + 1] >= 32 {
        return EspStep::Malformed;
    }
    rd.blk = d[p] as usize;
    assert(reader_view(*rd) == (ReadState { blk: d@[p as int] as nat, ..st }));
    EspStep::Event(EspEvent::AccelSetup(d[p], d[p + 1]), p + 2)
}

fn accel_step(d: &[u8], pos: usize, rd: &mut Reader, models: &[LaplaceCdf]) -> (r: EspStep)
    requires
        pos < d.len(),
        d[pos as int] == 5,
        old(rd).buf@.len() == 8000,
        old(rd).blk < 256,
    ensures
        final(rd).buf@.len() == 8000,
        final(rd).blk < 256,
        match r {
            EspStep::Stop => events_from(models@, d@, pos as int, reader_view(*old(rd))) == EspOutcome::Events(
                Seq::empty(),
            ),
            EspStep::Malformed => events_from(models@, d@, pos as int, reader_view(*old(rd))) is Malformed,
            EspStep::Event(e, p2) => pos < p2 <= d.len() && events_from(models@, d@, pos as int, reader_view(*old(rd)))
                == esp_then(seq![event_view(e)], events_from(models@, d@, p2 as int, reader_view(*final(rd)))),
        },
{
    let len = d.len();
    let p = pos + 1;
    let ghost st = reader_view(*rd);
    match accel_block(d, p, rd.blk) {
        AccelRead::Stop => EspStep::Stop,
        AccelRead::Malformed => EspStep::Malformed,
        AccelRead::Samples(v) => EspStep::Event(EspEvent::Accel(v), p + 6 * rd.blk),
    }
}

fn esp_step(d: &[u8], pos: usize, rd: &mut Reader, models: &[LaplaceCdf]) -> (r: EspStep)
    requires
        pos < d.len(),
        old(rd).buf@.len() == 8000,
        old(rd).blk < 256,
    ensures
        final(rd).buf@.len() == 8000,
        final(rd).blk < 256,
        match r {
            EspStep::Stop => events_from(models@, d@, pos as int, reader_view(*old(rd))) == EspOutcome::Events(
                Seq::empty(),
            ),
            EspStep::Malformed => events_from(models@, d@, pos as int, reader_view(*old(rd))) is Malformed,
            EspStep::Event(e, p2) => pos < p2 <= d.len() && events_from(models@, d@, pos as int, reader_view(*old(rd)))
                == esp_then(seq![event_view(e)], events_from(models@, d@, p2 as int, reader_view(*final(rd)))),
        },
{
    let k = d[pos];
    if k == 1 {
        setup_step(d, pos, rd, models)
    } else if k == 2 || k == 6 || k == 7 {
        fixed_step(d, pos, rd, models)
    } else if k == 3 {
        gyro_event(d, pos, rd, models)
    } else if k == 4 {
        accel_setup_step(d, pos, rd, models)
    } else if k == 5 {
        accel_step(d, pos, rd, models)
    } else {
        EspStep::Stop
    }
}

/// How reading a log ends, with its events.
pub enum EspRead {
    Events(Vec<EspEvent>),
    Malformed,
}

/// Reads the events of a whole ESP log (see `log_events`), decoding its
/// gyroscope blocks with `models`.
pub fn read_events(d: &[u8], models: &[LaplaceCdf]) -> (r: EspRead)
    ensures
        match log_events(models@, d@) {
            EspOutcome::Events(s) => r matches EspRead::Events(v) && events_view(v@) == s,
            EspOutcome::Malformed => r is Malformed,
        },
{
    if d.len() < 7 {
        let v: Vec<EspEvent> = Vec::new();
        assert(events_view(v@) =~= Seq::<EventView>::empty());
        return EspRead::Events(v);
    }
    let mut buf: Vec<u8> = Vec::new();
    let mut i: usize = 0;
    while i < 8000
        invariant
            i <= 8000,
            d.len() >= 7,
            buf@.len() == i,
            forall|j: int| 0 <= j < i ==> buf@[j] == (if j < 7 { d@[j] } else { 0u8 }),
        decreases 8000 - i,
    {
        buf.push(if i < 7 { d[i] } else { 0 });
        i = i + 1;
    }
    let mut rd = Reader { buf, state: State::new(), quats: Vec::new(), blk: 0 };
    assert(reader_view(rd) == (ReadState {
        buf: d@.subrange(0, 7) + Seq::new(7993, |i: int| 0u8),
        v: [0i32, 0i32, 0i32],
        n: 0,
        blk: 0,
    })) by {
        assert(rd.buf@ =~= d@.subrange(0, 7) + Seq::new(7993, |i: int| 0u8));
    }
    let mut out: Vec<EspEvent> = Vec::new();
    let mut pos: usize = 7;
    assert(esp_then(Seq::empty(), log_events(models@, d@)) =~~= log_events(models@, d@));
    while pos < d.len()
        invariant
            pos <= d.len(),
            rd.buf@.len() == 8000,
            rd.blk < 256,
            log_events(models@, d@) == esp_then(events_view(out@), events_from(models@, d@, pos as int, reader_view(rd))),
        decreases d.len() - pos,
    {
        let ghost pre = events_view(out@);
        match esp_step(d, pos, &mut rd, models) {
            EspStep::Stop => {
                assert(pre + Seq::<EventView>::empty() =~= pre);
                return EspRead::Events(out);
            },
            EspStep::Malformed => {
                return EspRead::Malformed;
            },
            EspStep::Event(e, p2) => {
                proof {
                    match events_from(models@, d@, p2 as int, reader_view(rd)) {
                        EspOutcome::Events(s) => {
                            assert(pre + (seq![event_view(e)] + s) =~= pre.push(event_view(e)) + s);
                        },
                        _ => {},
                    }
                }
                out.push(e);
                assert(events_view(out@) =~= pre.push(event_view(e)));
                pos = p2;
            },
        }
    }
    assert(events_view(out@) + Seq::<EventView>::empty() =~= events_view(out@));
    EspRead::Events(out)
}

/// A non-empty gyroscope block at `i`.
pub open spec fn gyro_block_at(evs: Seq<EventView>, i: int) -> bool {
    0 <= i < evs.len() && (evs[i] matches EventView::Gyro(v) && v.len() > 0)
}

/// Whether the events yield a gyroscope sample: a non-empty gyroscope
/// block followed, later, by a time step that spreads its samples over
/// time. A log is read into samples exactly when this holds; otherwise
/// reading it fails.
pub open spec fn yields_gyro(evs: Seq<EventView>) -> bool {
    exists|i: int, j: int| #[trigger] gyro_block_at(evs, i) && i < j < evs.len() && (#[trigger] evs[j] is DeltaTime)
}

/// Whether the events of a log yield a gyroscope sample (see
/// `yields_gyro`); a log whose events do not fails to read.
pub fn yields_gyro_samples(events: &[EspEvent]) -> (b: bool)
    ensures
        b == yields_gyro(events_view(events@)),
{
    let ghost ev = events_view(events@);
    let mut seen = false;
    let mut k: usize = 0;
    while k < events.len()
        invariant
            k <= events.len(),
            ev == events_view(events@),
            seen == exists|i: int| 0 <= i < k && #[trigger] gyro_block_at(ev, i),
            !exists|i: int, j: int| #[trigger] gyro_block_at(ev, i) && i < j < k && (#[trigger] ev[j] is DeltaTime),
        decreases events.len() - k,
    {
        assert(ev[k as int] == event_view(events@[k as int]));
        match &events[k] {
            EspEvent::DeltaTime(_) => {
                if seen {
                    proof {
                        let i = choose|i: int| 0 <= i < k && #[trigger] gyro_block_at(ev, i);
                        assert(gyro_block_at(ev, i) && i < k as int && ev[k as int] is DeltaTime);
                    }
                    return true;
                }
            },
            EspEvent::Gyro(v) => {
                if v.len() > 0 {
                    assert(gyro_block_at(ev, k as int));
                    seen = true;
                }
            },
            _ => {},
        }
        proof {
            if !(ev[k as int] is DeltaTime) {
                assert forall|i: int, j: int| #[trigger] gyro_block_at(ev, i) && i < j < k + 1 implies !(#[trigger] ev[j] is DeltaTime) by {
                    if j < k {
                    }
                }
            }
        }
        k = k + 1;
    }
    false
}


proof fn lemma_block_moves_on(m: LaplaceCdf, qp: u8, data: Seq<u8>, n: nat, st: [i32; 3], r: u32, pos: int, put: nat, cks: u8)
    ensures
        block_spec(m, qp, data, n, st, r, pos, put, cks) matches Some(o) ==> pos <= o.2,
    decreases data.len() - pos, r,
{
    if put < n && table_ok(m.values()) && pos >= 0 {
        lemma_triple_progress(m, data, r, pos);
        if let Some((s, r2, p2)) = triple_spec(m, data, r, pos) {
            if dequant_fits(st, s, qp) {
                let st2 = dequant_spec(st, s, qp);
                let cks2 = add_checksum(cks, s);
                if saturated(s, 127) {
                    lemma_block_moves_on(m, qp, data, n, st2, r2, p2, put, cks2);
                } else {
                    lemma_block_moves_on(m, qp, data, n, st2, r2, p2, put + 1, cks2);
                }
            }
        }
    }
}

/// A block that decodes reads at least its 6-byte header and its symbols'
/// wrapping sum matches the checksum in the top bits of byte 1; asked for
/// no velocities, a block with checksum 0 decodes to its header alone,
/// leaving the velocity as it was.
pub proof fn lemma_block_header_and_checksum(models: Seq<LaplaceCdf>, data: Seq<u8>, n: nat, st: [i32; 3])
    requires
        data.len() >= 6,
        ((data[1] & 0x1fu8) as int) < models.len(),
    ensures
        decompress_spec(models, data, n, st) matches Some(o) ==> 6 <= o.2 && (o.3 & 7u8) == (data[1] >> 5u8),
        n == 0 && (data[1] >> 5u8) == 0 ==> decompress_spec(models, data, n, st) == Some((Seq::<[i32; 3]>::empty(), st, 6int, 0u8)),
{
    let m = models[(data[1] & 0x1f) as int];
    lemma_block_moves_on(m, data[0], data, n, st, initial_state(data), 6, 0, 0);
    if n == 0 {
        assert((0u8 & 7u8) == 0) by (bit_vector);
    }
}

/// An accelerometer block holds its samples one after the other, 6 bytes
/// each: sample `k` is x, y and z as little-endian `i16` at bytes
/// `p + 6 * k`, `+ 2` and `+ 4`, each negated.
pub proof fn lemma_accel_sample_layout(d: Seq<u8>, p: int, blk: nat, k: int)
    requires
        0 <= p,
        0 <= k < blk,
        p + 6 * k + 6 <= d.len(),
        s16(d, p + 6 * k) != -32768 && s16(d, p + 6 * k + 2) != -32768 && s16(d, p + 6 * k + 4) != -32768,
    ensures
        accel_samples(d, p, blk)[k][0] == -s16(d, p + 6 * k),
        accel_samples(d, p, blk)[k][1] == -s16(d, p + 6 * k + 2),
        accel_samples(d, p, blk)[k][2] == -s16(d, p + 6 * k + 4),
{
    lemma_le_at_2(d, p + 6 * k);
    lemma_le_at_2(d, p + 6 * k + 2);
    lemma_le_at_2(d, p + 6 * k + 4);
}

/// The fixed-size events of a log, byte by byte after their kind byte at
/// `pos`: a gyroscope setup (1) is revision 1 and a little-endian `u16`
/// count, a time step (2) a little-endian `u32`, an accelerometer setup (4)
/// a count and a range exponent below 32, a time offset (6) a
/// little-endian `i32`, an orientation (7) three bytes. Where the event
/// fits, it is the first event read there.
pub proof fn lemma_event_layout(models: Seq<LaplaceCdf>, d: Seq<u8>, pos: int, st: ReadState)
    requires
        0 <= pos < d.len(),
    ensures
        events_from(models, d, pos, st) matches EspOutcome::Events(s) ==> {
            &&& d[pos] == 1 && pos + 4 <= d.len() && d[pos + 1] == 1 ==> s.len() > 0 && s[0] == EventView::GyroSetup(le2(d, pos + 2) as u16)
            &&& d[pos] == 2 && pos + 5 <= d.len() ==> s.len() > 0 && s[0] == EventView::DeltaTime(le4(d, pos + 1) as u32)
            &&& d[pos] == 4 && pos + 3 <= d.len() ==> s.len() > 0 && s[0] == EventView::AccelSetup(d[pos + 1], d[pos + 2])
            &&& d[pos] == 6 && pos + 5 <= d.len() ==> s.len() > 0 && s[0] == EventView::TimeOffset(s32(d, pos + 1) as i32)
            &&& d[pos] == 7 && pos + 4 <= d.len() ==> s.len() > 0 && s[0] == EventView::Orientation(d[pos + 1], d[pos + 2], d[pos + 3])
        },
        d[pos] == 4 && pos + 3 <= d.len() && d[pos + 2] >= 32 ==> events_from(models, d, pos, st) is Malformed,
{
    if pos + 4 <= d.len() {
        lemma_le_at_2(d, pos + 2);
    }
    if pos + 5 <= d.len() {
        lemma_le_at_4(d, pos + 1);
    }
}
} // verus!

