//! The IMU series of an ArduPilot binary log: gyroscope and accelerometer
//! samples and orientation quaternions, picked from its messages.

use vstd::prelude::*;
use crate::ardupilot_bin::{items_view, last_field, last_value, fields_view, FieldValue, FieldView, LogItem};
use crate::text::str_eq;

verus! {

/// A three-axis sample: its time in microseconds and three `f32` values,
/// kept as their bits.
#[derive(Debug, Clone, Copy, PartialEq, Eq)]
pub struct AxisSample {
    pub time_us: u64,
    pub x: u32,
    pub y: u32,
    pub z: u32,
}

/// An orientation quaternion: its time in microseconds and its four `f32`
/// components `Q1..Q4`, kept as their bits.
#[derive(Debug, Clone, Copy, PartialEq, Eq)]
pub struct QuatSample {
    pub time_us: u64,
    pub w: u32,
    pub x: u32,
    pub y: u32,
    pub z: u32,
}

/// The IMU series of a log.
#[derive(Debug, Clone)]
pub struct ImuSeries {
    pub gyro: Vec<AxisSample>,
    pub accel: Vec<AxisSample>,
    pub quats: Vec<QuatSample>,
}

/// The fields of a message, as views.
pub type FieldsView = Seq<(Seq<char>, FieldView, Option<Seq<char>>, Option<char>)>;

/// A message, as a view.
pub type ItemView = (u8, Seq<char>, FieldsView);

/// An unsigned 64-bit value.
pub open spec fn u64_of(v: Option<FieldView>) -> Option<u64> {
    match v {
        Some(FieldView::U64(t)) => Some(t),
        _ => None,
    }
}

/// The bits of an `f32` value.
pub open spec fn f32_of(v: Option<FieldView>) -> Option<u32> {
    match v {
        Some(FieldView::F32Bits(b)) => Some(b),
        _ => None,
    }
}

/// The time of a message: its `SampleUS` field where it has one, else its
/// `TimeUS` field, where that field is an unsigned 64-bit value.
pub open spec fn sample_time(fs: FieldsView) -> Option<u64> {
    match last_value(fs, "SampleUS"@) {
        Some(v) => u64_of(Some(v)),
        None => u64_of(last_value(fs, "TimeUS"@)),
    }
}

/// The three `f32` fields `a`, `b`, `c` of a message at time `t`.
pub open spec fn axes_of(fs: FieldsView, t: u64, a: Seq<char>, b: Seq<char>, c: Seq<char>) -> Option<AxisSample> {
    match (f32_of(last_value(fs, a)), f32_of(last_value(fs, b)), f32_of(last_value(fs, c))) {
        (Some(x), Some(y), Some(z)) => Some(AxisSample { time_us: t, x, y, z }),
        _ => None,
    }
}

/// The quaternion fields `Q1..Q4` of a message at time `t`.
pub open spec fn quat_of(fs: FieldsView, t: u64) -> Option<QuatSample> {
    match (
        f32_of(last_value(fs, "Q1"@)),
        f32_of(last_value(fs, "Q2"@)),
        f32_of(last_value(fs, "Q3"@)),
        f32_of(last_value(fs, "Q4"@)),
    ) {
        (Some(w), Some(x), Some(y), Some(z)) => Some(QuatSample { time_us: t, w, x, y, z }),
        _ => None,
    }
}

/// The gyroscope fields of a message at time `t`.
pub open spec fn gyro_of(fs: FieldsView, t: u64) -> Option<AxisSample> {
    axes_of(fs, t, "GyrX"@, "GyrY"@, "GyrZ"@)
}

/// The accelerometer fields of a message at time `t`.
pub open spec fn accel_of(fs: FieldsView, t: u64) -> Option<AxisSample> {
    axes_of(fs, t, "AccX"@, "AccY"@, "AccZ"@)
}

/// The messages that carry IMU data: `IMU`, `GYR`, `ACC` and `VSTB`.
pub open spec fn imu_message(name: Seq<char>) -> bool {
    name == "IMU"@ || name == "GYR"@ || name == "ACC"@ || name == "VSTB"@
}

/// The gyroscope samples of the messages named `name` that have a time, in
/// order.
pub open spec fn gyro_series(items: Seq<ItemView>, name: Seq<char>) -> Seq<AxisSample>
    decreases items.len(),
{
    if items.len() == 0 {
        Seq::empty()
    } else {
        let prev = gyro_series(items.drop_last(), name);
        let it = items.last();
        match sample_time(it.2) {
            Some(t) => if it.1 == name && gyro_of(it.2, t) is Some {
                prev.push(gyro_of(it.2, t)->Some_0)
            } else {
                prev
            },
            None => prev,
        }
    }
}

/// The accelerometer samples of the messages named `name` that have a
/// time, in order.
pub open spec fn accel_series(items: Seq<ItemView>, name: Seq<char>) -> Seq<AxisSample>
    decreases items.len(),
{
    if items.len() == 0 {
        Seq::empty()
    } else {
        let prev = accel_series(items.drop_last(), name);
        let it = items.last();
        match sample_time(it.2) {
            Some(t) => if it.1 == name && accel_of(it.2, t) is Some {
                prev.push(accel_of(it.2, t)->Some_0)
            } else {
                prev
            },
            None => prev,
        }
    }
}

/// The quaternions of the IMU messages that have a time, in order.
pub open spec fn quat_series(items: Seq<ItemView>) -> Seq<QuatSample>
    decreases items.len(),
{
    if items.len() == 0 {
        Seq::empty()
    } else {
        let prev = quat_series(items.drop_last());
        let it = items.last();
        match sample_time(it.2) {
            Some(t) => if imu_message(it.1) && quat_of(it.2, t) is Some {
                prev.push(quat_of(it.2, t)->Some_0)
            } else {
                prev
            },
            None => prev,
        }
    }
}

/// The first of three series that is not empty, else the empty one.
pub open spec fn first_nonempty(a: Seq<AxisSample>, b: Seq<AxisSample>, c: Seq<AxisSample>) -> Seq<AxisSample> {
    if a.len() > 0 {
        a
    } else if b.len() > 0 {
        b
    } else {
        c
    }
}

/// The gyroscope series a log gives: that of its `VSTB` messages, else of
/// its `IMU` messages, else of its `GYR` messages.
pub open spec fn gyro_pick(items: Seq<ItemView>) -> Seq<AxisSample> {
    first_nonempty(gyro_series(items, "VSTB"@), gyro_series(items, "IMU"@), gyro_series(items, "GYR"@))
}

/// The accelerometer series a log gives: that of its `VSTB` messages, else
/// of its `IMU` messages, else of its `ACC` messages.
pub open spec fn accel_pick(items: Seq<ItemView>) -> Seq<AxisSample> {
    first_nonempty(accel_series(items, "VSTB"@), accel_series(items, "IMU"@), accel_series(items, "ACC"@))
}

/// Whether a message cannot be filed: a `GYR` message with accelerometer
/// fields or an `ACC` message with gyroscope fields, at a time; such a
/// message has no series to go to.
pub open spec fn misfiled(it: ItemView) -> bool {
    match sample_time(it.2) {
        Some(t) => (it.1 == "GYR"@ && accel_of(it.2, t) is Some) || (it.1 == "ACC"@ && gyro_of(it.2, t) is Some),
        None => false,
    }
}

fn time_of(fs: &Vec<crate::ardupilot_bin::LogField>) -> (r: Option<u64>)
    ensures
        r == sample_time(fields_view(fs@)),
{
    match last_field(fs, "SampleUS") {
        Some(v) => match v {
            FieldValue::U64(t) => Some(*t),
            _ => None,
        },
        None => match last_field(fs, "TimeUS") {
            Some(FieldValue::U64(t)) => Some(*t),
            _ => None,
        },
    }
}

fn f32_field(fs: &Vec<crate::ardupilot_bin::LogField>, label: &str) -> (r: Option<u32>)
    ensures
        r == f32_of(last_value(fields_view(fs@), label@)),
{
    match last_field(fs, label) {
        Some(FieldValue::F32Bits(b)) => Some(*b),
        _ => None,
    }
}

fn axes(fs: &Vec<crate::ardupilot_bin::LogField>, t: u64, a: &str, b: &str, c: &str) -> (r: Option<AxisSample>)
    ensures
        r == axes_of(fields_view(fs@), t, a@, b@, c@),
{
    match (f32_field(fs, a), f32_field(fs, b), f32_field(fs, c)) {
        (Some(x), Some(y), Some(z)) => Some(AxisSample { time_us: t, x, y, z }),
        _ => None,
    }
}

fn quat(fs: &Vec<crate::ardupilot_bin::LogField>, t: u64) -> (r: Option<QuatSample>)
    ensures
        r == quat_of(fields_view(fs@), t),
{
    match (f32_field(fs, "Q1"), f32_field(fs, "Q2"), f32_field(fs, "Q3"), f32_field(fs, "Q4")) {
        (Some(w), Some(x), Some(y), Some(z)) => Some(QuatSample { time_us: t, w, x, y, z }),
        _ => None,
    }
}

fn pick(a: Vec<AxisSample>, b: Vec<AxisSample>, c: Vec<AxisSample>) -> (r: Vec<AxisSample>)
    ensures
        r@ == first_nonempty(a@, b@, c@),
{
    if a.len() > 0 {
        a
    } else if b.len() > 0 {
        b
    } else {
        c
    }
}

/// Whether some message of a log cannot be filed (see `misfiled`).
pub fn has_misfiled(items: &Vec<LogItem>) -> (r: bool)
    ensures
        r == exists|k: int| 0 <= k < items@.len() && misfiled(#[trigger] items_view(items@)[k]),
{
    let mut i: usize = 0;
    while i < items.len()
        invariant
            i <= items.len(),
            forall|k: int| 0 <= k < i ==> !misfiled(#[trigger] items_view(items@)[k]),
        decreases items.len() - i,
    {
        proof {
            reveal_strlit("GYR");
            reveal_strlit("ACC");
        }
        let it = &items[i];
        assert(items_view(items@)[i as int] == (it.typ, it.name@, fields_view(it.fields@)));
        match time_of(&it.fields) {
            Some(t) => {
                if str_eq(it.name.as_str(), "GYR") && axes(&it.fields, t, "AccX", "AccY", "AccZ").is_some() {
                    return true;
                }
                if str_eq(it.name.as_str(), "ACC") && axes(&it.fields, t, "GyrX", "GyrY", "GyrZ").is_some() {
                    return true;
                }
            },
            None => {},
        }
        i = i + 1;
    }
    false
}

/// Picks the IMU series of the messages of a log: the gyroscope samples of
/// its `VSTB` messages, else of its `IMU` messages, else of its `GYR`
/// messages; the accelerometer samples of its `VSTB`, else `IMU`, else
/// `ACC` messages; and the quaternions of all its IMU messages. Only
/// messages with a time count.
pub fn imu_series(items: &Vec<LogItem>) -> (r: ImuSeries)
    requires
        forall|k: int| 0 <= k < items@.len() ==> !misfiled(#[trigger] items_view(items@)[k]),
    ensures
        r.gyro@ == gyro_pick(items_view(items@)),
        r.accel@ == accel_pick(items_view(items@)),
        r.quats@ == quat_series(items_view(items@)),
{
    let ghost iv = items_view(items@);
    let mut g_vstb: Vec<AxisSample> = Vec::new();
    let mut g_imu: Vec<AxisSample> = Vec::new();
    let mut g_gyr: Vec<AxisSample> = Vec::new();
    let mut a_vstb: Vec<AxisSample> = Vec::new();
    let mut a_imu: Vec<AxisSample> = Vec::new();
    let mut a_acc: Vec<AxisSample> = Vec::new();
    let mut quats: Vec<QuatSample> = Vec::new();
    let mut i: usize = 0;
    while i < items.len()
        invariant
            i <= items.len(),
            iv == items_view(items@),
            g_vstb@ == gyro_series(iv.subrange(0, i as int), "VSTB"@),
            g_imu@ == gyro_series(iv.subrange(0, i as int), "IMU"@),
            g_gyr@ == gyro_series(iv.subrange(0, i as int), "GYR"@),
            a_vstb@ == accel_series(iv.subrange(0, i as int), "VSTB"@),
            a_imu@ == accel_series(iv.subrange(0, i as int), "IMU"@),
            a_acc@ == accel_series(iv.subrange(0, i as int), "ACC"@),
            quats@ == quat_series(iv.subrange(0, i as int)),
            forall|k: int| 0 <= k < items@.len() ==> !misfiled(#[trigger] items_view(items@)[k]),
        decreases items.len() - i,
    {
        proof {
            reveal_strlit("VSTB");
            reveal_strlit("IMU");
            reveal_strlit("GYR");
            reveal_strlit("ACC");
            assert("VSTB"@.len() == 4 && "IMU"@.len() == 3 && "GYR"@.len() == 3 && "ACC"@.len() == 3);
            assert("IMU"@[0] != "GYR"@[0]);
            assert("IMU"@ != "ACC"@);
            assert("GYR"@[0] != "ACC"@[0]);
        }
        let it = &items[i];
        let ghost pre = iv.subrange(0, i as int);
        let ghost cur = iv.subrange(0, i + 1);
        assert(cur.drop_last() =~= pre);
        assert(cur.last() == iv[i as int]);
        assert(iv[i as int] == (it.typ, it.name@, fields_view(it.fields@)));
        assert(!misfiled(iv[i as int]));
        let n = it.name.as_str();
        let vstb = str_eq(n, "VSTB");
        let imu = str_eq(n, "IMU");
        let gyr = str_eq(n, "GYR");
        let acc = str_eq(n, "ACC");
        if vstb || imu || gyr || acc {
            match time_of(&it.fields) {
                Some(t) => {
                    match axes(&it.fields, t, "AccX", "AccY", "AccZ") {
                        Some(s) => {
                            if vstb {
                                a_vstb.push(s);
                            } else if imu {
                                a_imu.push(s);
                            } else if acc {
                                a_acc.push(s);
                            }
                        },
                        None => {},
                    }
                    match axes(&it.fields, t, "GyrX", "GyrY", "GyrZ") {
                        Some(s) => {
                            if vstb {
                                g_vstb.push(s);
                            } else if imu {
                                g_imu.push(s);
                            } else if gyr {
                                g_gyr.push(s);
                            }
                        },
                        None => {},
                    }
                    match quat(&it.fields, t) {
                        Some(q) => quats.push(q),
                        None => {},
                    }
                },
                None => {},
            }
        }
        i = i + 1;
    }
    assert(iv.subrange(0, items@.len() as int) =~= iv);
    ImuSeries { gyro: pick(g_vstb, g_imu, g_gyr), accel: pick(a_vstb, a_imu, a_acc), quats }
}


/// A message's time is its last `SampleUS` field where it has one (and
/// only where that is an unsigned 64-bit value), else its last `TimeUS`
/// field where that is an unsigned 64-bit value.
pub proof fn lemma_sample_time_fields(fs: FieldsView)
    ensures
        sample_time(fs) matches Some(t) ==> last_value(fs, "SampleUS"@) == Some(FieldView::U64(t))
            || (last_value(fs, "SampleUS"@) is None && last_value(fs, "TimeUS"@) == Some(FieldView::U64(t))),
        last_value(fs, "SampleUS"@) matches Some(FieldView::U64(t)) ==> sample_time(fs) == Some(t),
        last_value(fs, "SampleUS"@) is None ==> (last_value(fs, "TimeUS"@) matches Some(FieldView::U64(t))
            ==> sample_time(fs) == Some(t)),
{
}

/// A quaternion sample is the `f32` fields `Q1`, `Q2`, `Q3` and `Q4` as
/// its `w`, `x`, `y` and `z` at the message's time, and exists exactly when
/// all four are `f32` fields.
pub proof fn lemma_quat_fields(fs: FieldsView, t: u64)
    ensures
        quat_of(fs, t) matches Some(q) ==> q.time_us == t && last_value(fs, "Q1"@) == Some(FieldView::F32Bits(q.w))
            && last_value(fs, "Q2"@) == Some(FieldView::F32Bits(q.x)) && last_value(fs, "Q3"@) == Some(FieldView::F32Bits(q.y))
            && last_value(fs, "Q4"@) == Some(FieldView::F32Bits(q.z)),
        (last_value(fs, "Q1"@) matches Some(FieldView::F32Bits(_))) && (last_value(fs, "Q2"@) matches Some(FieldView::F32Bits(_)))
            && (last_value(fs, "Q3"@) matches Some(FieldView::F32Bits(_))) && (last_value(fs, "Q4"@) matches Some(FieldView::F32Bits(_)))
            <==> quat_of(fs, t) is Some,
{
}

/// A gyroscope sample is the `f32` fields `GyrX`, `GyrY` and `GyrZ` as its
/// `x`, `y` and `z`, and an accelerometer sample the fields `AccX`, `AccY`
/// and `AccZ`, at the message's time; each exists exactly when its three
/// fields are `f32` fields.
pub proof fn lemma_axis_fields(fs: FieldsView, t: u64)
    ensures
        gyro_of(fs, t) matches Some(s) ==> s.time_us == t && last_value(fs, "GyrX"@) == Some(FieldView::F32Bits(s.x))
            && last_value(fs, "GyrY"@) == Some(FieldView::F32Bits(s.y)) && last_value(fs, "GyrZ"@) == Some(FieldView::F32Bits(s.z)),
        accel_of(fs, t) matches Some(s) ==> s.time_us == t && last_value(fs, "AccX"@) == Some(FieldView::F32Bits(s.x))
            && last_value(fs, "AccY"@) == Some(FieldView::F32Bits(s.y)) && last_value(fs, "AccZ"@) == Some(FieldView::F32Bits(s.z)),
        (last_value(fs, "GyrX"@) matches Some(FieldView::F32Bits(_))) && (last_value(fs, "GyrY"@) matches Some(FieldView::F32Bits(_)))
            && (last_value(fs, "GyrZ"@) matches Some(FieldView::F32Bits(_))) <==> gyro_of(fs, t) is Some,
        (last_value(fs, "AccX"@) matches Some(FieldView::F32Bits(_))) && (last_value(fs, "AccY"@) matches Some(FieldView::F32Bits(_)))
            && (last_value(fs, "AccZ"@) matches Some(FieldView::F32Bits(_))) <==> accel_of(fs, t) is Some,
{
}


/// The series are preferred in the order `VSTB`, `IMU`, then `GYR` (for
/// the gyroscope) or `ACC` (for the accelerometer): the first non-empty one
/// is taken whole, and the result is empty only where all three are.
pub proof fn lemma_series_preference(items: Seq<ItemView>)
    ensures
        gyro_series(items, "VSTB"@).len() > 0 ==> gyro_pick(items) == gyro_series(items, "VSTB"@),
        gyro_series(items, "VSTB"@).len() == 0 && gyro_series(items, "IMU"@).len() > 0 ==> gyro_pick(items) == gyro_series(items, "IMU"@),
        gyro_series(items, "VSTB"@).len() == 0 && gyro_series(items, "IMU"@).len() == 0 ==> gyro_pick(items) == gyro_series(items, "GYR"@),
        accel_series(items, "VSTB"@).len() > 0 ==> accel_pick(items) == accel_series(items, "VSTB"@),
        accel_series(items, "VSTB"@).len() == 0 && accel_series(items, "IMU"@).len() > 0 ==> accel_pick(items) == accel_series(items, "IMU"@),
        accel_series(items, "VSTB"@).len() == 0 && accel_series(items, "IMU"@).len() == 0 ==> accel_pick(items) == accel_series(items, "ACC"@),
{
}

/// Message `m` of `items` is named `name`, has a time, and gives the
/// gyroscope (`gyro`) or accelerometer sample `s`.
pub open spec fn sample_from(items: Seq<ItemView>, name: Seq<char>, m: int, s: AxisSample, gyro: bool) -> bool {
    0 <= m < items.len() && items[m].1 == name && match sample_time(items[m].2) {
        Some(t) => if gyro {
            gyro_of(items[m].2, t) == Some(s)
        } else {
            accel_of(items[m].2, t) == Some(s)
        },
        None => false,
    }
}

/// Each element of a gyroscope or accelerometer series of the messages
/// named `name` is the sample of such a message: its time and its three
/// fields come from one message of that name.
pub proof fn lemma_series_from_messages(items: Seq<ItemView>, name: Seq<char>, j: int)
    ensures
        0 <= j < gyro_series(items, name).len() ==> exists|m: int| #[trigger] sample_from(items, name, m, gyro_series(items, name)[j], true),
        0 <= j < accel_series(items, name).len() ==> exists|m: int| #[trigger] sample_from(items, name, m, accel_series(items, name)[j], false),
    decreases items.len(),
{
    if items.len() > 0 {
        let pre = items.drop_last();
        let last = items.len() - 1;
        lemma_series_from_messages(pre, name, j);
        if 0 <= j < gyro_series(pre, name).len() {
            let m = choose|m: int| #[trigger] sample_from(pre, name, m, gyro_series(pre, name)[j], true);
            assert(items[m] == pre[m]);
            assert(sample_from(items, name, m, gyro_series(items, name)[j], true));
        } else if 0 <= j < gyro_series(items, name).len() {
            assert(sample_from(items, name, last, gyro_series(items, name)[j], true));
        }
        if 0 <= j < accel_series(pre, name).len() {
            let m = choose|m: int| #[trigger] sample_from(pre, name, m, accel_series(pre, name)[j], false);
            assert(items[m] == pre[m]);
            assert(sample_from(items, name, m, accel_series(items, name)[j], false));
        } else if 0 <= j < accel_series(items, name).len() {
            assert(sample_from(items, name, last, accel_series(items, name)[j], false));
        }
    }
}
} // verus!
