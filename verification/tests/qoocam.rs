use telemetry_parser::qoocam::{exposures, imu_samples, parse_data, QooImu, QooParse, QooValue};
use telemetry_parser::qoocam_info::info_value;

fn record(name: &str, typ: &str, n: u32, values: &[u8]) -> Vec<u8> {
    let mut v = name.as_bytes().to_vec();
    v.resize(32, 0);
    let mut t = typ.as_bytes().to_vec();
    t.resize(8, 0);
    v.extend(t);
    v.extend(n.to_le_bytes());
    v.extend_from_slice(values);
    v
}

#[test]
fn qoocam_metadata_records() {
    let mut d = 4u32.to_le_bytes().to_vec();
    d.extend(record("LENS_INDEX", "U8", 1, &[1]));
    d.extend(record("INFO", "CHAR", 10, b"V_FPS=60\0\0"));
    let mut words = (-1i32).to_le_bytes().to_vec();
    words.extend(5i32.to_le_bytes());
    d.extend(record("GAIN", "S32", 2, &words));
    d.extend(record("ODD", "F16", 7, &[]));
    let QooParse::Records(records) = parse_data(&d) else { panic!("records expected") };
    assert_eq!(records.len(), 4);
    assert_eq!(records[0].name, "LENS_INDEX");
    assert_eq!(records[0].value, QooValue::Bytes(vec![1]));
    assert_eq!(records[1].value, QooValue::Text("V_FPS=60".to_string()));
    assert_eq!(records[2].value, QooValue::I32s(vec![-1, 5]));
    assert_eq!(records[3].value, QooValue::Unknown);
}

#[test]
fn doubles_and_longs() {
    let mut d = 2u32.to_le_bytes().to_vec();
    d.extend(record("SCALE", "DOUBLE", 1, &1.5f64.to_bits().to_le_bytes()));
    d.extend(record("PTS", "U64", 1, &7u64.to_le_bytes()));
    let QooParse::Records(records) = parse_data(&d) else { panic!("records expected") };
    assert_eq!(records[0].value, QooValue::F64Bits(vec![1.5f64.to_bits()]));
    assert_eq!(records[1].value, QooValue::U64s(vec![7]));
}

#[test]
fn records_that_fail() {
    let mut d = 1u32.to_le_bytes().to_vec();
    d.extend(record("BAD", "DOUBLE", 1, &f64::NAN.to_bits().to_le_bytes()));
    assert!(matches!(parse_data(&d), QooParse::Malformed));
    let mut d = 2u32.to_le_bytes().to_vec();
    d.extend(record("ONE", "U32", 1, &9u32.to_le_bytes()));
    assert!(matches!(parse_data(&d), QooParse::Cut));
    let mut d = 1u32.to_le_bytes().to_vec();
    d.extend(record("SHORT", "U32", 3, &9u32.to_le_bytes()));
    assert!(matches!(parse_data(&d), QooParse::Cut));
    assert!(matches!(parse_data(&[1, 0]), QooParse::Cut));
    assert!(matches!(parse_data(&0u32.to_le_bytes()), QooParse::Records(v) if v.is_empty()));
}

#[test]
fn imu_and_exposure_records() {
    let mut b = 1000u64.to_le_bytes().to_vec();
    for x in [1i16, 2, 3, -1, -2, -3] {
        b.extend(x.to_le_bytes());
    }
    let v = imu_samples(&b).expect("samples");
    assert_eq!(v, vec![QooImu { timestamp: 1000, gyro: (1, 2, 3), accel: (-1, -2, -3) }]);
    b.push(0);
    assert!(imu_samples(&b).is_none());
    let mut e = 33u32.to_le_bytes().to_vec();
    e.extend(2500u32.to_le_bytes());
    assert_eq!(exposures(&e), Some(vec![(33, 2500)]));
    e.push(1);
    assert_eq!(exposures(&e), None);
}

#[test]
fn info_text_values() {
    let info = "V_S_PTS=5812115123 V_E_PTS=5966273383 V_F_NUM=9252 V_FPS=60.0 V_MUX_FPS=60.0 V_IMU_F=6 V_G_RANGE=2000 V_A_RANGE=4 V_CROP_SCALE=0,0,0,0,1,1,0 V_VERSION=3";
    assert_eq!(info_value(info, "V_G_RANGE"), Some("2000".to_string()));
    assert_eq!(info_value(info, "V_A_RANGE"), Some("4".to_string()));
    assert_eq!(info_value(info, "V_VERSION"), Some("3".to_string()));
    assert_eq!(info_value(info, "V_MISSING"), None);
    // The last word wins; words with no `=` or two are passed over.
    assert_eq!(info_value("A=1  A=2\tB=x=y A", "A"), Some("2".to_string()));
    assert_eq!(info_value("B=x=y", "B"), None);
    assert_eq!(info_value("K= K", "K"), Some("".to_string()));
    assert_eq!(info_value("", "K"), None);
}
