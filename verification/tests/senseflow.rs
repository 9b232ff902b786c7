use telemetry_parser::senseflow::{checksum, decode_frame, decode_frames, frame_length, from_bytes, parse_header};
use telemetry_parser::tags::ParseError;

fn frame(v: u8, item: &[u8], ok: bool) -> Vec<u8> {
    let mut d = vec![0xAA, 0x55, v];
    d.extend_from_slice(item);
    let sum = item.iter().fold(0u8, |a, b| a.wrapping_add(*b));
    d.push(if ok { sum } else { sum.wrapping_add(1) });
    d
}

#[test]
fn little_endian_values() {
    assert_eq!(from_bytes::<u8>(&[7, 1]), 7);
    assert_eq!(from_bytes::<u16>(&[0x34, 0x12]), 0x1234);
    assert_eq!(from_bytes::<u32>(&[1, 0, 0, 0x80]), 0x8000_0001);
    assert_eq!(from_bytes::<i32>(&[0xfe, 0xff, 0xff, 0xff]), -2);
}

#[test]
fn header_settings() {
    let mut b = vec![0u8; 512];
    b[60..64].copy_from_slice(b"XYZ\0");
    b[92..96].copy_from_slice(&1000u32.to_le_bytes());
    b[148..152].copy_from_slice(&(-5i32).to_le_bytes());
    b[164..168].copy_from_slice(&2000u32.to_le_bytes());
    b[176..180].copy_from_slice(&4900u32.to_le_bytes());
    let h = parse_header(&b);
    assert_eq!(&h.imu_orientation, b"XYZ\0");
    assert_eq!(h.log_freq, 1000);
    assert_eq!(h.acc_timeoffset, -5);
    assert_eq!(h.gyro_range, 2000);
    assert_eq!(h.mag_range, 4900);
}

#[test]
fn checksums_and_lengths() {
    assert!(checksum(&[200, 100], 44));
    assert!(!checksum(&[200, 100], 45));
    assert!(checksum(&[], 0));
    assert_eq!(frame_length(0b11), 12);
    assert_eq!(frame_length(0b111111), 40);
    assert_eq!(frame_length(0), 0);
}

#[test]
fn frame_readings() {
    let item = [1, 0, 2, 0, 0xff, 0xff, 5, 0, 6, 0, 7, 0];
    let f = decode_frame(0b11, &item);
    assert_eq!(f.acc, Some([1, 2, -1]));
    assert_eq!(f.gyro, Some([5, 6, 7]));
    assert!(f.mag.is_none() && f.quat.is_none() && f.angle.is_none());
    let f = decode_frame(0b1000, &[1, 0, 2, 0, 3, 0, 4, 0]);
    assert_eq!(f.quat, Some([1, 2, 3, 4]));
}

#[test]
fn frames_of_a_log_body() {
    let mut d = frame(0b11, &[1, 0, 2, 0, 3, 0, 4, 0, 5, 0, 6, 0], true);
    d.extend_from_slice(&[0, 0]);
    d.extend(frame(0b1, &[9, 0, 9, 0, 9, 0], false));
    d.extend(frame(0b1, &[1, 0, 1, 0, 1, 0], true));
    d.extend_from_slice(&[0xAA, 0x55, 0b1, 1, 2]);
    let fs = decode_frames(&d).unwrap();
    assert_eq!(fs.len(), 2);
    assert_eq!(fs[0].gyro, Some([4, 5, 6]));
    assert_eq!(fs[1].acc, Some([1, 1, 1]));
    assert_eq!(decode_frames(&[0xAA, 0x55]).unwrap_err(), ParseError::UnexpectedEof);
    assert!(decode_frames(&[1]).unwrap().is_empty());
}
