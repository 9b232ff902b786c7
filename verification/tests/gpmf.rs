use telemetry_parser::gopro::{detect_metadata, get_last_klv, model_orientation, orientation_signs, parse_metadata, sett_settings};
use telemetry_parser::klv::{read_number, read_values, NumKind, KLV};
use telemetry_parser::tags::{GroupId, ParseError, TagId};

fn record(key: &[u8; 4], ty: u8, size: u8, repeat: u16, payload: &[u8]) -> Vec<u8> {
    let mut v = key.to_vec();
    v.push(ty);
    v.push(size);
    v.extend_from_slice(&repeat.to_be_bytes());
    v.extend_from_slice(payload);
    while v.len() % 4 != 0 {
        v.push(0);
    }
    v
}

fn stream() -> Vec<u8> {
    let mut strm = record(b"STNM", b'c', 4, 1, b"Gyro");
    strm.extend(record(b"SCAL", b's', 2, 1, &[0x01, 0x00]));
    strm.extend(record(b"GYRO", b's', 6, 1, &[0, 1, 0xff, 0xfe, 0, 3]));
    let mut devc = record(b"DVNM", b'c', 3, 1, b"Cam");
    devc.extend(record(b"STRM", 0, 1, strm.len() as u16, &strm));
    record(b"DEVC", 0, 1, devc.len() as u16, &devc)
}

#[test]
fn header_fields_and_lengths() {
    let d = record(b"GYRO", b's', 6, 3, &[0u8; 18]);
    let (k, p) = KLV::parse_header(&d, 0).unwrap();
    assert_eq!(p, 8);
    assert_eq!(&k.key, b"GYRO");
    assert_eq!(k.data_type, b's');
    assert_eq!(k.data_len(), 18);
    assert_eq!(k.aligned_data_len(), 20);
    assert_eq!(k.get_repeat_count(2), (3, 3));
    assert_eq!(k.key_as_string(), "GYRO");
    assert_eq!(k.tag_id(), TagId::Data);
    assert_eq!(KLV::parse_header(&d[..7], 0).unwrap_err(), ParseError::UnexpectedEof);
    assert_eq!(KLV::parse_header(&d[..20], 0).unwrap_err(), ParseError::UnexpectedEof);
    assert_eq!(KLV::parse_header(&d[..26], 0).unwrap().0.repeat, 3);
    assert_eq!(KLV::parse_nested(&d[..20], NumKind::I16).unwrap_err(), ParseError::UnexpectedEof);
}

#[test]
fn groups_and_tags_of_keys() {
    assert_eq!(KLV::group_from_key(b"GYRO"), GroupId::Gyroscope);
    assert_eq!(KLV::group_from_key(b"ACCL"), GroupId::Accelerometer);
    assert_eq!(KLV::group_from_key(b"ISOE"), GroupId::Custom("SensorISO".to_string()));
    assert_eq!(KLV::group_from_key(b"ABCD"), GroupId::Custom("ABCD".to_string()));
    assert_eq!(KLV::group_from_key(b""), GroupId::UnknownGroup(0));
    let k = KLV { key: *b"ORIN", data_type: b'c', size: 1, repeat: 3 };
    assert_eq!(k.tag_id(), TagId::OrientationIn);
    let k = KLV { key: *b"ZZZZ", data_type: b'c', size: 1, repeat: 3 };
    assert_eq!(k.tag_id(), TagId::Unknown(0x5a5a5a5a));
}

#[test]
fn string_and_integer_payloads() {
    let d = record(b"MINF", b'c', 8, 1, b"HERO12\0\0");
    assert_eq!(KLV::parse_string(&d), "HERO12");
    let d = record(b"GYRO", b's', 4, 2, &[0, 1, 0xff, 0xff, 0x7f, 0xff, 0x80, 0x00]);
    let rows = KLV::parse_nested(&d, NumKind::I16).unwrap();
    assert_eq!(rows, vec![vec![1i128, -1], vec![32767, -32768]]);
    assert_eq!(NumKind::from_type(b'L'), Some(NumKind::U32));
    assert_eq!(NumKind::from_type(b'f'), None);
    assert_eq!(NumKind::U64.size(), 8);
    assert_eq!(read_number(&[0xff, 0xff, 0xff, 0xfe], 0, NumKind::I32), -2);
    assert_eq!(read_number(&[0xff, 0xff, 0xff, 0xfe], 0, NumKind::U32), 4294967294);
    assert_eq!(read_values(&[1, 2, 3], 0, 2, NumKind::U8), Some(vec![1, 2]));
    assert_eq!(read_values(&[1, 2, 3], 2, 2, NumKind::U8), None);
}

#[test]
fn stream_records_with_their_groups() {
    let d = stream();
    assert!(detect_metadata(&d));
    let entries = parse_metadata(&d, false).unwrap();
    let keys: Vec<[u8; 4]> = entries.iter().map(|e| e.klv.key).collect();
    assert_eq!(keys, vec![*b"DVNM", *b"STNM", *b"SCAL", *b"GYRO"]);
    assert_eq!(entries[0].container_key, Some(*b"STRM"));
    assert_eq!(entries[3].container_key, Some(*b"GYRO"));
    let g = &entries[3];
    assert_eq!(&d[g.data_start..g.data_end], &[0, 1, 0xff, 0xfe, 0, 3]);
    let forced = parse_metadata(&d, true).unwrap();
    assert!(forced.iter().all(|e| e.container_key.is_none()));
}

#[test]
fn truncated_stream_is_an_error() {
    let d = stream();
    assert_eq!(parse_metadata(&d[..d.len() - 4], false).unwrap_err(), ParseError::UnexpectedEof);
    assert!(!detect_metadata(&d[..8]));
}

#[test]
fn last_record_of_a_container() {
    let mut d = record(b"STNM", b'c', 4, 1, b"Gyro");
    d.extend(record(b"GYRO", b's', 6, 1, &[0; 6]));
    let last = get_last_klv(&d).unwrap();
    assert_eq!(&last[0..4], b"GYRO");
    assert_eq!(last.len(), 16);
    assert_eq!(get_last_klv(&d[..14]).unwrap_err(), ParseError::UnexpectedEof);
    assert_eq!(get_last_klv(&d[..10]).unwrap_err(), ParseError::UnexpectedEof);
    assert_eq!(get_last_klv(&[]).unwrap().len(), 0);
}

#[test]
fn orientation_matrix_signs() {
    assert_eq!(orientation_signs("XYZ", "XYZ"), Some(vec![1, 0, 0, 0, 1, 0, 0, 0, 1]));
    assert_eq!(orientation_signs("ZXY", "yXz"), Some(vec![0, 0, -1, 0, 1, 0, -1, 0, 0]));
    assert_eq!(orientation_signs("", ""), None);
    assert_eq!(orientation_signs("XY", "XYZ"), None);
}

#[test]
fn hero5_settings_bytes() {
    let mut buf = vec![0u8; 9];
    buf[5] = 0x10;
    buf[7] = 0x63;
    assert_eq!(sett_settings(&buf), (Some("Y"), Some("S")));
    buf[5] = 0x02;
    buf[7] = 0x41;
    assert_eq!(sett_settings(&buf), (Some("N"), Some("M")));
    buf[5] = 0x07;
    buf[7] = 0x44;
    assert_eq!(sett_settings(&buf), (None, Some("L")));
    buf[7] = 0x99;
    assert_eq!(sett_settings(&buf), (None, None));
    assert_eq!(sett_settings(&[0u8; 8]), (None, None));
}

#[test]
fn orientation_by_model() {
    assert_eq!(model_orientation("HERO6 Black"), Some("ZyX"));
    assert_eq!(model_orientation("HERO7 Silver"), Some("YXz"));
    assert_eq!(model_orientation("HERO6 HERO7 Silver"), Some("YXz"));
    assert_eq!(model_orientation("HERO9 Black"), None);
}

#[test]
fn header_payload_must_fit() {
    let mut bytes = b"GYRO".to_vec();
    bytes.extend([b's', 6, 0x00, 0x02]);
    bytes.extend([0u8; 12]);
    let (k, p) = KLV::parse_header(&bytes, 0).unwrap();
    assert_eq!((k.key, k.data_type, k.size, k.repeat, p), (*b"GYRO", b's', 6, 2, 8));
    assert_eq!(KLV::parse_header(&bytes[..19], 0).unwrap_err(), ParseError::UnexpectedEof);
    assert_eq!(KLV::parse_header(&bytes[..7], 0).unwrap_err(), ParseError::UnexpectedEof);
    let bad = [0x47u8, 0xff, 0x52, 0x4f];
    let k = KLV { key: bad, data_type: 0, size: 0, repeat: 0 };
    assert_eq!(k.key_as_string(), String::from_utf8_lossy(&bad));
}
