use telemetry_parser::ardupilot_bin::{FieldValue, LogField, LogItem};
use telemetry_parser::ardupilot_imu::{has_misfiled, imu_series, AxisSample, QuatSample};

fn field(label: &str, value: FieldValue) -> LogField {
    LogField { label: label.to_string(), value, unit: None, multiplier_id: None }
}

fn item(name: &str, fields: Vec<LogField>) -> LogItem {
    LogItem { typ: 100, name: name.to_string(), fields }
}

fn f(v: f32) -> FieldValue {
    FieldValue::F32Bits(v.to_bits())
}

#[test]
fn series_prefer_vstb_then_imu() {
    let items = vec![
        item("IMU", vec![
            field("TimeUS", FieldValue::U64(1000)),
            field("GyrX", f(1.0)), field("GyrY", f(2.0)), field("GyrZ", f(3.0)),
            field("AccX", f(4.0)), field("AccY", f(5.0)), field("AccZ", f(6.0)),
        ]),
        item("GYR", vec![
            field("SampleUS", FieldValue::U64(1500)),
            field("TimeUS", FieldValue::U64(9)),
            field("GyrX", f(7.0)), field("GyrY", f(8.0)), field("GyrZ", f(9.0)),
        ]),
        item("VSTB", vec![
            field("TimeUS", FieldValue::U64(2000)),
            field("AccX", f(-1.0)), field("AccY", f(-2.0)), field("AccZ", f(-3.0)),
            field("Q1", f(1.0)), field("Q2", f(0.0)), field("Q3", f(0.0)), field("Q4", f(0.0)),
        ]),
        // No time of the right type: skipped.
        item("IMU", vec![field("TimeUS", FieldValue::U32(5)), field("GyrX", f(1.0)), field("GyrY", f(1.0)), field("GyrZ", f(1.0))]),
        // Not an IMU message.
        item("ATT", vec![field("TimeUS", FieldValue::U64(3)), field("Q1", f(1.0)), field("Q2", f(0.0)), field("Q3", f(0.0)), field("Q4", f(0.0))]),
    ];
    assert!(!has_misfiled(&items));
    let s = imu_series(&items);
    assert_eq!(s.gyro, vec![AxisSample { time_us: 1000, x: 1.0f32.to_bits(), y: 2.0f32.to_bits(), z: 3.0f32.to_bits() }]);
    assert_eq!(s.accel, vec![AxisSample { time_us: 2000, x: (-1.0f32).to_bits(), y: (-2.0f32).to_bits(), z: (-3.0f32).to_bits() }]);
    assert_eq!(s.quats, vec![QuatSample { time_us: 2000, w: 1.0f32.to_bits(), x: 0, y: 0, z: 0 }]);
}

#[test]
fn gyr_messages_when_nothing_else() {
    let items = vec![item("GYR", vec![
        field("SampleUS", FieldValue::U64(1500)),
        field("GyrX", f(7.0)), field("GyrY", f(8.0)), field("GyrZ", f(9.0)),
    ])];
    let s = imu_series(&items);
    assert_eq!(s.gyro, vec![AxisSample { time_us: 1500, x: 7.0f32.to_bits(), y: 8.0f32.to_bits(), z: 9.0f32.to_bits() }]);
    assert!(s.accel.is_empty());
    assert!(s.quats.is_empty());
}

#[test]
fn misfiled_messages() {
    let items = vec![item("GYR", vec![
        field("TimeUS", FieldValue::U64(1)),
        field("AccX", f(1.0)), field("AccY", f(1.0)), field("AccZ", f(1.0)),
    ])];
    assert!(has_misfiled(&items));
}
