use telemetry_parser::kandao::{parse_events, KanDaoEvent};
use telemetry_parser::qoocam::QooImu;

fn gyro_block() -> Vec<u8> {
    let mut d = b"GYROACC=".to_vec();
    d.extend([9u8; 5]);
    d.extend(1000u32.to_le_bytes());
    d.extend([9u8; 5]);
    d.extend(4u32.to_le_bytes());
    d.extend(1u32.to_le_bytes());
    d.extend(5000u64.to_le_bytes());
    for x in [1i16, 2, 3, -1, -2, -3] {
        d.extend(x.to_le_bytes());
    }
    d
}

#[test]
fn device_and_gyroscope_samples() {
    let mut d = b"NARWAL_DEVICE_ID= 3".to_vec();
    d.extend(gyro_block());
    d.extend([0u8; 5]);
    let events = parse_events(&d).expect("events");
    assert_eq!(events.len(), 2);
    assert!(matches!(events[0], KanDaoEvent::Device(3)));
    let KanDaoEvent::GyroAcc { gyro_range, acc_range, samples } = &events[1] else { panic!("samples expected") };
    assert_eq!((*gyro_range, *acc_range), (1000, 4));
    assert_eq!(samples, &vec![QooImu { timestamp: 5000, gyro: (1, 2, 3), accel: (-1, -2, -3) }]);
}

#[test]
fn device_number_that_is_no_number() {
    let d = b"NARWAL_DEVICE_ID=x1".to_vec();
    assert_eq!(parse_events(&d).map(|v| v.len()), Some(0));
    let d = b"NARWAL_DEVICE_ID=+7".to_vec();
    let events = parse_events(&d).expect("events");
    assert!(matches!(events[0], KanDaoEvent::Device(7)));
}

#[test]
fn samples_cut_short_fail() {
    let mut d = b"MAG=".to_vec();
    d.extend([0u8; 9]);
    d.extend(100u32.to_le_bytes());
    d.extend([0u8; 10]);
    assert!(parse_events(&d).is_none());
    assert_eq!(parse_events(b"short").map(|v| v.len()), Some(0));
}

#[test]
fn exposure_times() {
    let mut d = b"EXPO=".to_vec();
    d.extend(1u32.to_le_bytes());
    d.extend(77u64.to_le_bytes());
    d.extend(1234u32.to_le_bytes());
    let events = parse_events(&d).expect("events");
    assert!(matches!(&events[0], KanDaoEvent::Expo(v) if v == &vec![(77, 1234)]));
}
