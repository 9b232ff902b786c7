//! KanDao camera logs: a stream read in windows of 17 bytes, in which
//! markers announce a device number, IMU data, gyroscope and accelerometer
//! samples, magnetometer samples and exposure times.

use vstd::prelude::*;
use crate::bytes::{
    first_index, contains_seq, find, le2, le4, le8, le_at, lemma_first_index, lemma_le_at_2, lemma_le_at_4, lemma_le_at_8, read_le, read_u32_le,
    s16, signed,
};
use crate::qoocam::{i16_at, QooImu};
use crate::text::{char_decimal, digit_char, trim_chars, trimmed};

verus! {

/// `NARWAL_DEVICE_ID=`
pub open spec fn device_marker() -> Seq<u8> {
    seq![0x4Eu8, 0x41, 0x52, 0x57, 0x41, 0x4C, 0x5F, 0x44, 0x45, 0x56, 0x49, 0x43, 0x45, 0x5F, 0x49, 0x44, 0x3D]
}

/// `KANDAO_IMU_DATA=`
pub open spec fn imu_marker() -> Seq<u8> {
    seq![0x4Bu8, 0x41, 0x4E, 0x44, 0x41, 0x4F, 0x5F, 0x49, 0x4D, 0x55, 0x5F, 0x44, 0x41, 0x54, 0x41, 0x3D]
}

/// `GYROACC=`
pub open spec fn gyroacc_marker() -> Seq<u8> {
    seq![0x47u8, 0x59, 0x52, 0x4F, 0x41, 0x43, 0x43, 0x3D]
}

/// `MAG=`
pub open spec fn mag_marker() -> Seq<u8> {
    seq![0x4Du8, 0x41, 0x47, 0x3D]
}

/// `EXPO=`
pub open spec fn expo_marker() -> Seq<u8> {
    seq![0x45u8, 0x58, 0x50, 0x4F, 0x3D]
}

/// The device number that two bytes spell: trimmed of white space, digits
/// or `+` and digits.
pub open spec fn device_number(a: u8, b: u8) -> Option<u32> {
    let t = trimmed(seq![a as char, b as char]);
    if t.len() > 0 && forall|i: int| 0 <= i < t.len() ==> digit_char(#[trigger] t[i]) {
        Some(char_decimal(t) as u32)
    } else if t.len() == 2 && t[0] == '+' && digit_char(t[1]) {
        Some(char_decimal(t.drop_first()) as u32)
    } else {
        None
    }
}

/// An event of a KanDao log.
#[derive(Debug, Clone)]
pub enum KanDaoEvent {
    /// A device number: the samples after it belong to that device.
    Device(u32),
    /// Gyroscope and accelerometer samples with their ranges.
    GyroAcc { gyro_range: u32, acc_range: u32, samples: Vec<QooImu> },
    /// Magnetometer samples: a timestamp and three values each.
    Mag(Vec<(u64, (i16, i16, i16))>),
    /// Exposure times with their timestamps.
    Expo(Vec<(u64, u32)>),
}

/// An event with its samples as sequences.
pub enum KanDaoView {
    Device(u32),
    GyroAcc(u32, u32, Seq<QooImu>),
    Mag(Seq<(u64, (i16, i16, i16))>),
    Expo(Seq<(u64, u32)>),
}

/// The view of an event.
pub open spec fn kandao_view(e: KanDaoEvent) -> KanDaoView {
    match e {
        KanDaoEvent::Device(n) => KanDaoView::Device(n),
        KanDaoEvent::GyroAcc { gyro_range, acc_range, samples } => KanDaoView::GyroAcc(gyro_range, acc_range, samples@),
        KanDaoEvent::Mag(v) => KanDaoView::Mag(v@),
        KanDaoEvent::Expo(v) => KanDaoView::Expo(v@),
    }
}

/// `n` gyroscope and accelerometer samples of 20 bytes from `p`.
pub open spec fn gyroacc_samples(d: Seq<u8>, p: int, n: nat) -> Seq<QooImu> {
    Seq::new(n, |k: int| QooImu {
        timestamp: le_at(d, p + 20 * k, 8) as u64,
        gyro: (i16_at(d, p + 20 * k + 8), i16_at(d, p + 20 * k + 10), i16_at(d, p + 20 * k + 12)),
        accel: (i16_at(d, p + 20 * k + 14), i16_at(d, p + 20 * k + 16), i16_at(d, p + 20 * k + 18)),
    })
}

/// `n` magnetometer samples of 14 bytes from `p`.
pub open spec fn mag_samples(d: Seq<u8>, p: int, n: nat) -> Seq<(u64, (i16, i16, i16))> {
    Seq::new(n, |k: int| (le_at(d, p + 14 * k, 8) as u64, (i16_at(d, p + 14 * k + 8), i16_at(d, p + 14 * k + 10), i16_at(d, p + 14 * k + 12))))
}

/// `n` exposure times of 12 bytes from `p`.
pub open spec fn expo_samples(d: Seq<u8>, p: int, n: nat) -> Seq<(u64, u32)> {
    Seq::new(n, |k: int| (le_at(d, p + 12 * k, 8) as u64, le_at(d, p + 12 * k + 8, 4) as u32))
}

/// The device number right after its marker in the window at `w`.
pub open spec fn stage_device(d: Seq<u8>, w: int) -> Option<(Seq<KanDaoView>, int)> {
    let buf = d.subrange(w, w + 17);
    let c0 = w + 17;
    if contains_seq(buf, device_marker()) {
        let c = c0 - 17 + first_index(buf, device_marker()) + 17;
        if c + 2 > d.len() {
            None
        } else {
            match device_number(d[c], d[c + 1]) {
                Some(n) => Some((seq![KanDaoView::Device(n)], c + 2)),
                None => Some((Seq::empty(), c + 2)),
            }
        }
    } else {
        Some((Seq::empty(), c0))
    }
}

/// Fifteen floats of IMU data after their marker, which are skipped.
pub open spec fn stage_imu(d: Seq<u8>, w: int, prev: Option<(Seq<KanDaoView>, int)>) -> Option<(Seq<KanDaoView>, int)> {
    let buf = d.subrange(w, w + 17);
    match prev {
        None => None,
        Some((ev, c)) => if contains_seq(buf, imu_marker()) {
            let c1 = c - 17 + first_index(buf, imu_marker()) + 16;
            if c1 + 60 > d.len() {
                None
            } else {
                Some((ev, c1 + 60))
            }
        } else {
            Some((ev, c))
        },
    }
}

/// Gyroscope and accelerometer samples after their marker: five unknown
/// bytes, the gyroscope range, five unknown bytes, the accelerometer
/// range, a count and the samples.
pub open spec fn stage_gyro(d: Seq<u8>, w: int, prev: Option<(Seq<KanDaoView>, int)>) -> Option<(Seq<KanDaoView>, int)> {
    let buf = d.subrange(w, w + 17);
    match prev {
        None => None,
        Some((ev, c)) => if contains_seq(buf, gyroacc_marker()) {
            let c1 = c - 17 + first_index(buf, gyroacc_marker()) + 8;
            if c1 + 22 > d.len() {
                None
            } else {
                let n = le_at(d, c1 + 18, 4);
                if c1 + 22 + 20 * n > d.len() {
                    None
                } else {
                    Some((
                        ev.push(KanDaoView::GyroAcc(le_at(d, c1 + 5, 4) as u32, le_at(d, c1 + 14, 4) as u32, gyroacc_samples(d, c1 + 22, n))),
                        c1 + 22 + 20 * n,
                    ))
                }
            }
        } else {
            Some((ev, c))
        },
    }
}

/// Magnetometer samples after their marker: nine unknown bytes, a count
/// and the samples.
pub open spec fn stage_mag(d: Seq<u8>, w: int, prev: Option<(Seq<KanDaoView>, int)>) -> Option<(Seq<KanDaoView>, int)> {
    let buf = d.subrange(w, w + 17);
    match prev {
        None => None,
        Some((ev, c)) => if contains_seq(buf, mag_marker()) {
            let c1 = c - 17 + first_index(buf, mag_marker()) + 4;
            if c1 + 13 > d.len() {
                None
            } else {
                let n = le_at(d, c1 + 9, 4);
                if c1 + 13 + 14 * n > d.len() {
                    None
                } else {
                    Some((ev.push(KanDaoView::Mag(mag_samples(d, c1 + 13, n))), c1 + 13 + 14 * n))
                }
            }
        } else {
            Some((ev, c))
        },
    }
}

/// Exposure times after their marker: a count and the samples.
pub open spec fn stage_expo(d: Seq<u8>, w: int, prev: Option<(Seq<KanDaoView>, int)>) -> Option<(Seq<KanDaoView>, int)> {
    let buf = d.subrange(w, w + 17);
    match prev {
        None => None,
        Some((ev, c)) => if contains_seq(buf, expo_marker()) {
            let c1 = c - 17 + first_index(buf, expo_marker()) + 5;
            if c1 + 4 > d.len() {
                None
            } else {
                let n = le_at(d, c1, 4);
                if c1 + 4 + 12 * n > d.len() {
                    None
                } else {
                    Some((ev.push(KanDaoView::Expo(expo_samples(d, c1 + 4, n))), c1 + 4 + 12 * n))
                }
            }
        } else {
            Some((ev, c))
        },
    }
}

/// What the window at `w` gives: its events and the position after them,
/// each marker looked for in the window and read from the position that
/// the previous one left; `None` where a read runs past the end of the
/// data.
pub open spec fn window_at(d: Seq<u8>, w: int) -> Option<(Seq<KanDaoView>, int)> {
    stage_expo(d, w, stage_mag(d, w, stage_gyro(d, w, stage_imu(d, w, stage_device(d, w)))))
}

/// The events of a log from `w`, window by window while 17 bytes are
/// left; `None` where a read runs past the end of the data.
pub open spec fn kandao_from(d: Seq<u8>, w: int) -> Option<Seq<KanDaoView>>
    decreases d.len() - w,
{
    if w < 0 || d.len() - w < 17 {
        Some(Seq::empty())
    } else {
        match window_at(d, w) {
            None => None,
            Some((ev, next)) => if next > w {
                match kandao_from(d, next) {
                    Some(rest) => Some(ev + rest),
                    None => None,
                }
            } else {
                None
            },
        }
    }
}

/// The views of events.
pub open spec fn kandao_views(v: Seq<KanDaoEvent>) -> Seq<KanDaoView> {
    v.map_values(|e: KanDaoEvent| kandao_view(e))
}

/// The view of what a stage gives.
pub open spec fn stage_view(r: Option<(Vec<KanDaoEvent>, usize)>) -> Option<(Seq<KanDaoView>, int)> {
    match r {
        Some((v, c)) => Some((kandao_views(v@), c as int)),
        None => None,
    }
}

fn find_marker(buf: &[u8], m: &[u8]) -> (r: Option<usize>)
    ensures
        match r {
            Some(q) => contains_seq(buf@, m@) && q == first_index(buf@, m@) && q + m@.len() <= buf@.len(),
            None => !contains_seq(buf@, m@),
        },
{
    match find(buf, m) {
        Some(q) => {
            proof {
                lemma_first_index(buf@, m@, q);
            }
            Some(q)
        },
        None => None,
    }
}

fn device_num(a: u8, b: u8) -> (r: Option<u32>)
    ensures
        r == device_number(a, b),
{
    let cs = vec![a as char, b as char];
    assert(cs@ =~= seq![a as char, b as char]);
    let t = trim_chars(cs.as_slice());
    proof {
        crate::text::lemma_trimmed_len(cs@);
    }
    let n = t.len();
    if n > 0 && '0' <= t[0] && t[0] <= '9' && (n == 1 || ('0' <= t[1] && t[1] <= '9')) {
        assert(forall|i: int| 0 <= i < t@.len() ==> digit_char(#[trigger] t@[i]));
        let v0 = (t[0] as u32) - 0x30;
        let ghost tl = t@;
        if n == 1 {
            assert(tl.drop_last().len() == 0);
            assert(char_decimal(tl.drop_last()) == 0);
            assert(char_decimal(tl) == (tl[0] as u32 - 0x30) as nat);
            return Some(v0);
        }
        assert(tl.drop_last().drop_last().len() == 0);
        assert(char_decimal(tl.drop_last().drop_last()) == 0);
        assert(tl.drop_last().last() == tl[0]);
        assert(char_decimal(tl.drop_last()) == (tl[0] as u32 - 0x30) as nat);
        assert(char_decimal(tl) == char_decimal(tl.drop_last()) * 10 + (tl[1] as u32 - 0x30) as nat);
        return Some(v0 * 10 + ((t[1] as u32) - 0x30));
    }
    if n == 2 && t[0] == '+' && '0' <= t[1] && t[1] <= '9' {
        let ghost tl = t@;
        assert(!digit_char(tl[0]));
        assert(tl.drop_first().drop_last().len() == 0);
        assert(char_decimal(tl.drop_first().drop_last()) == 0);
        assert(tl.drop_first().last() == tl[1]);
        assert(char_decimal(tl.drop_first()) == (tl[1] as u32 - 0x30) as nat);
        return Some((t[1] as u32) - 0x30);
    }
    if n > 0 {
        if !('0' <= t[0] && t[0] <= '9') {
            assert(!digit_char(t@[0]));
        } else {
            assert(!digit_char(t@[1]));
        }
    }
    None
}

#[verifier::rlimit(40)]
fn device_stage(d: &[u8], w: usize) -> (r: Option<(Vec<KanDaoEvent>, usize)>)
    requires
        w + 17 <= d.len(),
    ensures
        stage_view(r) == stage_device(d@, w as int),
        r matches Some((_, c)) ==> w + 17 <= c <= d.len(),
{
    let buf = &d[w..w + 17];
    let m: [u8; 17] = [0x4E, 0x41, 0x52, 0x57, 0x41, 0x4C, 0x5F, 0x44, 0x45, 0x56, 0x49, 0x43, 0x45, 0x5F, 0x49, 0x44, 0x3D];
    assert(m@ =~= device_marker());
    let mut v: Vec<KanDaoEvent> = Vec::new();
    match find_marker(buf, m.as_slice()) {
        Some(q) => {
            let c = w + q + 17;
            if d.len() - c < 2 {
                return None;
            }
            match device_num(d[c], d[c + 1]) {
                Some(n) => {
                    v.push(KanDaoEvent::Device(n));
                    assert(kandao_views(v@) =~= seq![KanDaoView::Device(n)]);
                },
                None => {
                    assert(kandao_views(v@) =~= Seq::<KanDaoView>::empty());
                },
            }
            Some((v, c + 2))
        },
        None => {
            assert(kandao_views(v@) =~= Seq::<KanDaoView>::empty());
            Some((v, w + 17))
        },
    }
}

#[verifier::rlimit(40)]
fn imu_stage(d: &[u8], w: usize, v: Vec<KanDaoEvent>, c: usize) -> (r: Option<(Vec<KanDaoEvent>, usize)>)
    requires
        w + 17 <= c <= d.len(),
    ensures
        stage_view(r) == stage_imu(d@, w as int, Some((kandao_views(v@), c as int))),
        r matches Some((_, c2)) ==> w + 17 <= c2 <= d.len(),
{
    let buf = &d[w..w + 17];
    let m: [u8; 16] = [0x4B, 0x41, 0x4E, 0x44, 0x41, 0x4F, 0x5F, 0x49, 0x4D, 0x55, 0x5F, 0x44, 0x41, 0x54, 0x41, 0x3D];
    assert(m@ =~= imu_marker());
    match find_marker(buf, m.as_slice()) {
        Some(q) => {
            let c1 = c - 17 + q + 16;
            if c1 > d.len() || d.len() - c1 < 60 {
                return None;
            }
            Some((v, c1 + 60))
        },
        None => Some((v, c)),
    }
}

#[verifier::rlimit(40)]
fn gyro_stage(d: &[u8], w: usize, v: Vec<KanDaoEvent>, c: usize) -> (r: Option<(Vec<KanDaoEvent>, usize)>)
    requires
        w + 17 <= c <= d.len(),
    ensures
        stage_view(r) == stage_gyro(d@, w as int, Some((kandao_views(v@), c as int))),
        r matches Some((_, c2)) ==> w + 17 <= c2 <= d.len(),
{
    let buf = &d[w..w + 17];
    let m: [u8; 8] = [0x47, 0x59, 0x52, 0x4F, 0x41, 0x43, 0x43, 0x3D];
    assert(m@ =~= gyroacc_marker());
    match find_marker(buf, m.as_slice()) {
        Some(q) => {
            let c1 = c - 17 + q + 8;
            if c1 > d.len() || d.len() - c1 < 22 {
                return None;
            }
            let gr = read_le(d, c1 + 5, 4) as u32;
            let ar = read_le(d, c1 + 14, 4) as u32;
            let n = read_le(d, c1 + 18, 4) as usize;
            proof {
                crate::bytes::lemma_le_fits(d@.subrange(c1 + 5, c1 + 9));
                crate::bytes::lemma_le_fits(d@.subrange(c1 + 14, c1 + 18));
                crate::bytes::lemma_le_fits(d@.subrange(c1 + 18, c1 + 22));
            }
            let p = c1 + 22;
            if (d.len() - p) / 20 < n {
                return None;
            }
            let mut samples: Vec<QooImu> = Vec::new();
            let mut k: usize = 0;
            while k < n
                invariant
                    k <= n,
                    p + 20 * n <= d.len(),
                    samples@.len() == k,
                    forall|j: int| 0 <= j < k ==> samples@[j] == gyroacc_samples(d@, p as int, n as nat)[j],
                decreases n - k,
            {
                let i = p + 20 * k;
                let s = QooImu {
                    timestamp: read_le(d, i, 8),
                    gyro: (crate::qoocam::i16_exec(d, i + 8), crate::qoocam::i16_exec(d, i + 10), crate::qoocam::i16_exec(d, i + 12)),
                    accel: (crate::qoocam::i16_exec(d, i + 14), crate::qoocam::i16_exec(d, i + 16), crate::qoocam::i16_exec(d, i + 18)),
                };
                samples.push(s);
                k = k + 1;
            }
            assert(samples@ =~= gyroacc_samples(d@, p as int, n as nat));
            let mut v = v;
            let ghost pre = kandao_views(v@);
            v.push(KanDaoEvent::GyroAcc { gyro_range: gr, acc_range: ar, samples });
            assert(kandao_views(v@) =~= pre.push(KanDaoView::GyroAcc(gr, ar, gyroacc_samples(d@, p as int, n as nat))));
            Some((v, p + 20 * n))
        },
        None => Some((v, c)),
    }
}

#[verifier::rlimit(40)]
fn mag_stage(d: &[u8], w: usize, v: Vec<KanDaoEvent>, c: usize) -> (r: Option<(Vec<KanDaoEvent>, usize)>)
    requires
        w + 17 <= c <= d.len(),
    ensures
        stage_view(r) == stage_mag(d@, w as int, Some((kandao_views(v@), c as int))),
        r matches Some((_, c2)) ==> w + 17 <= c2 <= d.len(),
{
    let buf = &d[w..w + 17];
    let m: [u8; 4] = [0x4D, 0x41, 0x47, 0x3D];
    assert(m@ =~= mag_marker());
    match find_marker(buf, m.as_slice()) {
        Some(q) => {
            let c1 = c - 17 + q + 4;
            if c1 > d.len() || d.len() - c1 < 13 {
                return None;
            }
            let n = read_le(d, c1 + 9, 4) as usize;
            proof {
                crate::bytes::lemma_le_fits(d@.subrange(c1 + 9, c1 + 13));
            }
            let p = c1 + 13;
            if (d.len() - p) / 14 < n {
                return None;
            }
            let mut samples: Vec<(u64, (i16, i16, i16))> = Vec::new();
            let mut k: usize = 0;
            while k < n
                invariant
                    k <= n,
                    p + 14 * n <= d.len(),
                    samples@.len() == k,
                    forall|j: int| 0 <= j < k ==> samples@[j] == mag_samples(d@, p as int, n as nat)[j],
                decreases n - k,
            {
                let i = p + 14 * k;
                let s = (
                    read_le(d, i, 8),
                    (crate::qoocam::i16_exec(d, i + 8), crate::qoocam::i16_exec(d, i + 10), crate::qoocam::i16_exec(d, i + 12)),
                );
                samples.push(s);
                k = k + 1;
            }
            assert(samples@ =~= mag_samples(d@, p as int, n as nat));
            let mut v = v;
            let ghost pre = kandao_views(v@);
            v.push(KanDaoEvent::Mag(samples));
            assert(kandao_views(v@) =~= pre.push(KanDaoView::Mag(mag_samples(d@, p as int, n as nat))));
            Some((v, p + 14 * n))
        },
        None => Some((v, c)),
    }
}

#[verifier::rlimit(40)]
fn expo_stage(d: &[u8], w: usize, v: Vec<KanDaoEvent>, c: usize) -> (r: Option<(Vec<KanDaoEvent>, usize)>)
    requires
        w + 17 <= c <= d.len(),
    ensures
        stage_view(r) == stage_expo(d@, w as int, Some((kandao_views(v@), c as int))),
        r matches Some((_, c2)) ==> w < c2 <= d.len(),
{
    let buf = &d[w..w + 17];
    let m: [u8; 5] = [0x45, 0x58, 0x50, 0x4F, 0x3D];
    assert(m@ =~= expo_marker());
    match find_marker(buf, m.as_slice()) {
        Some(q) => {
            let c1 = c - 17 + q + 5;
            if c1 > d.len() || d.len() - c1 < 4 {
                return None;
            }
            let n = read_le(d, c1, 4) as usize;
            proof {
                crate::bytes::lemma_le_fits(d@.subrange(c1 as int, c1 + 4));
            }
            let p = c1 + 4;
            if (d.len() - p) / 12 < n {
                return None;
            }
            let mut samples: Vec<(u64, u32)> = Vec::new();
            let mut k: usize = 0;
            while k < n
                invariant
                    k <= n,
                    p + 12 * n <= d.len(),
                    samples@.len() == k,
                    forall|j: int| 0 <= j < k ==> samples@[j] == expo_samples(d@, p as int, n as nat)[j],
                decreases n - k,
            {
                let i = p + 12 * k;
                let e = read_le(d, i + 8, 4);
                proof {
                    crate::bytes::lemma_le_fits(d@.subrange(i + 8, i + 12));
                }
                samples.push((read_le(d, i, 8), e as u32));
                k = k + 1;
            }
            assert(samples@ =~= expo_samples(d@, p as int, n as nat));
            let mut v = v;
            let ghost pre = kandao_views(v@);
            v.push(KanDaoEvent::Expo(samples));
            assert(kandao_views(v@) =~= pre.push(KanDaoView::Expo(expo_samples(d@, p as int, n as nat))));
            Some((v, p + 12 * n))
        },
        None => Some((v, c)),
    }
}

fn window(d: &[u8], w: usize) -> (r: Option<(Vec<KanDaoEvent>, usize)>)
    requires
        w + 17 <= d.len(),
    ensures
        stage_view(r) == window_at(d@, w as int),
        r matches Some((_, c2)) ==> w < c2 <= d.len(),
{
    let a = device_stage(d, w);
    let (v, c) = match a {
        Some(x) => x,
        None => {
            return None;
        },
    };
    let b = imu_stage(d, w, v, c);
    let (v, c) = match b {
        Some(x) => x,
        None => {
            return None;
        },
    };
    let g = gyro_stage(d, w, v, c);
    let (v, c) = match g {
        Some(x) => x,
        None => {
            return None;
        },
    };
    let m = mag_stage(d, w, v, c);
    let (v, c) = match m {
        Some(x) => x,
        None => {
            return None;
        },
    };
    expo_stage(d, w, v, c)
}

/// Reads the events of a KanDao log (see `kandao_from`); `None` where a
/// read runs past the end of the data.
#[verifier::rlimit(60)]
pub fn parse_events(d: &[u8]) -> (r: Option<Vec<KanDaoEvent>>)
    ensures
        match kandao_from(d@, 0) {
            Some(s) => r matches Some(v) && kandao_views(v@) == s,
            None => r is None,
        },
{
    let mut out: Vec<KanDaoEvent> = Vec::new();
    let mut w: usize = 0;
    assert(kandao_from(d@, 0) == match kandao_from(d@, 0) {
        Some(rest) => Some(kandao_views(out@) + rest),
        None => None::<Seq<KanDaoView>>,
    }) by {
        match kandao_from(d@, 0) {
            Some(rest) => {
                assert(kandao_views(out@) + rest =~= rest);
            },
            None => {},
        }
    }
    while d.len() - w >= 17
        invariant
            w <= d.len(),
            kandao_from(d@, 0) == match kandao_from(d@, w as int) {
                Some(rest) => Some(kandao_views(out@) + rest),
                None => None::<Seq<KanDaoView>>,
            },
        decreases d.len() - w,
    {
        let ghost pre = kandao_views(out@);
        match window(d, w) {
            None => {
                return None;
            },
            Some((mut v, next)) => {
                let ghost ev = kandao_views(v@);
                proof {
                    match kandao_from(d@, next as int) {
                        Some(rest) => {
                            assert(pre + (ev + rest) =~= (pre + ev) + rest);
                        },
                        None => {},
                    }
                }
                out.append(&mut v);
                assert(kandao_views(out@) =~= pre + ev);
                w = next;
            },
        }
    }
    assert(kandao_views(out@) + Seq::<KanDaoView>::empty() =~= kandao_views(out@));
    Some(out)
}


/// Each magnetometer sample is 14 bytes at `p + 14 * k`: an 8-byte
/// timestamp, then x, y and z as little-endian `i16` at bytes 8, 10 and 12.
pub proof fn lemma_mag_sample_layout(d: Seq<u8>, p: int, n: nat, k: int)
    requires
        0 <= p,
        0 <= k < n,
        p + 14 * k + 14 <= d.len(),
    ensures
        mag_samples(d, p, n)[k].0 == le8(d, p + 14 * k),
        mag_samples(d, p, n)[k].1.0 == s16(d, p + 14 * k + 8),
        mag_samples(d, p, n)[k].1.1 == s16(d, p + 14 * k + 10),
        mag_samples(d, p, n)[k].1.2 == s16(d, p + 14 * k + 12),
{
    let q = p + 14 * k;
    lemma_le_at_8(d, q);
    lemma_le_at_2(d, q + 8);
    lemma_le_at_2(d, q + 10);
    lemma_le_at_2(d, q + 12);
}

/// Each gyroscope and accelerometer sample is 20 bytes at `p + 20 * k`:
/// an 8-byte timestamp, the gyroscope x, y, z at bytes 8, 10, 12 and the
/// accelerometer x, y, z at bytes 14, 16, 18, little-endian `i16`.
pub proof fn lemma_gyroacc_sample_layout(d: Seq<u8>, p: int, n: nat, k: int)
    requires
        0 <= p,
        0 <= k < n,
        p + 20 * k + 20 <= d.len(),
    ensures
        gyroacc_samples(d, p, n)[k].timestamp == le8(d, p + 20 * k),
        gyroacc_samples(d, p, n)[k].gyro.0 == s16(d, p + 20 * k + 8),
        gyroacc_samples(d, p, n)[k].gyro.1 == s16(d, p + 20 * k + 10),
        gyroacc_samples(d, p, n)[k].gyro.2 == s16(d, p + 20 * k + 12),
        gyroacc_samples(d, p, n)[k].accel.0 == s16(d, p + 20 * k + 14),
        gyroacc_samples(d, p, n)[k].accel.1 == s16(d, p + 20 * k + 16),
        gyroacc_samples(d, p, n)[k].accel.2 == s16(d, p + 20 * k + 18),
{
    let q = p + 20 * k;
    lemma_le_at_8(d, q);
    lemma_le_at_2(d, q + 8);
    lemma_le_at_2(d, q + 10);
    lemma_le_at_2(d, q + 12);
    lemma_le_at_2(d, q + 14);
    lemma_le_at_2(d, q + 16);
    lemma_le_at_2(d, q + 18);
}

/// Each exposure sample is 12 bytes at `p + 12 * k`: an 8-byte timestamp
/// and a 4-byte exposure time, least significant byte first.
pub proof fn lemma_expo_sample_layout(d: Seq<u8>, p: int, n: nat, k: int)
    requires
        0 <= p,
        0 <= k < n,
        p + 12 * k + 12 <= d.len(),
    ensures
        expo_samples(d, p, n)[k].0 == le8(d, p + 12 * k),
        expo_samples(d, p, n)[k].1 == le4(d, p + 12 * k + 8),
{
    lemma_le_at_8(d, p + 12 * k);
    lemma_le_at_4(d, p + 12 * k + 8);
}

/// After the gyroscope and accelerometer marker (whose text ends 8 bytes
/// after where it starts), the data is: five bytes, the gyroscope range
/// (4 bytes), five bytes, the accelerometer range (4 bytes), the sample
/// count (4 bytes), then the samples, least significant byte first; where
/// it all fits, that event is added and reading goes on after the samples.
pub proof fn lemma_gyroacc_stage_layout(d: Seq<u8>, w: int, ev: Seq<KanDaoView>, c: int)
    requires
        0 <= w,
        w + 17 <= c,
        contains_seq(d.subrange(w, w + 17), gyroacc_marker()),
        c - 17 + first_index(d.subrange(w, w + 17), gyroacc_marker()) + 8 + 22 <= d.len(),
    ensures
        ({
            let c1 = c - 17 + first_index(d.subrange(w, w + 17), gyroacc_marker()) + 8;
            let n = le4(d, c1 + 18);
            &&& c1 + 22 + 20 * n <= d.len() ==> stage_gyro(d, w, Some((ev, c))) == Some((
                ev.push(KanDaoView::GyroAcc(le4(d, c1 + 5) as u32, le4(d, c1 + 14) as u32, gyroacc_samples(d, c1 + 22, n as nat))),
                c1 + 22 + 20 * n,
            ))
            &&& c1 + 22 + 20 * n > d.len() ==> stage_gyro(d, w, Some((ev, c))) is None
        }),
{
    let c1 = c - 17 + first_index(d.subrange(w, w + 17), gyroacc_marker()) + 8;
    crate::bytes::lemma_first_index_bounds(d.subrange(w, w + 17), gyroacc_marker());
    lemma_le_at_4(d, c1 + 5);
    lemma_le_at_4(d, c1 + 14);
    lemma_le_at_4(d, c1 + 18);
}

/// After the magnetometer marker: nine bytes, the sample count (4 bytes,
/// least significant first), then the samples; where they fit, that event
/// is added and reading goes on after them.
pub proof fn lemma_mag_stage_layout(d: Seq<u8>, w: int, ev: Seq<KanDaoView>, c: int)
    requires
        0 <= w,
        w + 17 <= c,
        contains_seq(d.subrange(w, w + 17), mag_marker()),
        c - 17 + first_index(d.subrange(w, w + 17), mag_marker()) + 4 + 13 <= d.len(),
    ensures
        ({
            let c1 = c - 17 + first_index(d.subrange(w, w + 17), mag_marker()) + 4;
            let n = le4(d, c1 + 9);
            &&& c1 + 13 + 14 * n <= d.len() ==> stage_mag(d, w, Some((ev, c))) == Some((
                ev.push(KanDaoView::Mag(mag_samples(d, c1 + 13, n as nat))),
                c1 + 13 + 14 * n,
            ))
            &&& c1 + 13 + 14 * n > d.len() ==> stage_mag(d, w, Some((ev, c))) is None
        }),
{
    let c1 = c - 17 + first_index(d.subrange(w, w + 17), mag_marker()) + 4;
    crate::bytes::lemma_first_index_bounds(d.subrange(w, w + 17), mag_marker());
    lemma_le_at_4(d, c1 + 9);
}
} // verus!
