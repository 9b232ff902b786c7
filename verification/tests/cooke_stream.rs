use telemetry_parser::cooke::{parse, parse_outcome, CookeParse, CookeRecord, InfoField};

fn info_stream() -> Vec<u8> {
    let mut d = b"N".to_vec();
    d.extend(b"S SN1234  ");
    d.extend(b"LZ");
    d.extend(b"N035");
    d.extend(b"M+70");
    d.extend(b"UM");
    d.extend(b"T95xx");
    d.extend(b"B1.0 ");
    d.extend([0x0a, 0x0d]);
    d
}

#[test]
fn lens_information_record() {
    let records = parse(&info_stream()).expect("records");
    assert_eq!(records.len(), 1);
    let CookeRecord::LensInfo(fields) = &records[0] else { panic!("lens information expected") };
    assert_eq!(fields.len(), 7);
    assert!(matches!(&fields[0], InfoField::SerialNumber(s) if s == "SN1234"));
    assert!(matches!(fields[1], InfoField::LensType(true)));
    assert!(matches!(fields[2], InfoField::MinFocalLength(35)));
    assert!(matches!(fields[3], InfoField::MaxFocalLength(70)));
    assert!(matches!(fields[4], InfoField::Units(false)));
    assert!(matches!(&fields[5], InfoField::TransmissionFactor(s) if s == "95"));
    assert!(matches!(&fields[6], InfoField::FirmwareVersion(s) if s == "1.0"));
}

#[test]
fn focal_length_of_zeros_is_malformed() {
    assert!(matches!(parse_outcome(b"NN000xx"), CookeParse::Refused));
    assert!(matches!(parse_outcome(b"Nf000"), CookeParse::Malformed));
    assert!(matches!(parse_outcome(b"Nf0a1"), CookeParse::Malformed));
}

#[test]
fn refused_and_short_inputs() {
    assert!(parse(b"Dabc").is_none());
    assert!(parse(b"Nx").is_none());
    assert!(parse(b"K3xx").is_none());
    assert!(parse(b"Pxyz").is_none());
    assert!(parse(&[0, 0, 0]).is_none());
    assert!(matches!(parse_outcome(b"KKx"), CookeParse::Malformed));
    assert!(matches!(parse_outcome(b"K6"), CookeParse::Refused));
    assert!(matches!(parse_outcome(b"K61"), CookeParse::Refused));
}

#[test]
fn short_zeiss_record_is_malformed() {
    let mut d = vec![b'z'];
    d.extend([0u8; 20]);
    assert!(matches!(parse_outcome(&d), CookeParse::Malformed));
}

#[test]
fn zeiss_record_in_a_stream() {
    let mut d = vec![b'z'];
    let mut body = vec![0u8; 34];
    body[0..4].copy_from_slice(&[0x40 | 1, 0x40, 0x40, 0x40 | 2]);
    body[10] = 0xff;
    body[11] = 0xfe;
    d.extend(body);
    d.extend([0x0a, 0x0d]);
    let records = parse(&d).expect("records");
    assert_eq!(records.len(), 1);
    let CookeRecord::Zeiss(z) = &records[0] else { panic!("ZEISS record expected") };
    assert_eq!(z.focus_distance, (1 << 18) | 2);
    assert_eq!(z.shading[0], -2);
}

#[test]
fn packed_record_without_serial_keeps_its_bytes() {
    let mut d = vec![b'd'];
    d.extend([0u8; 36]);
    let records = parse(&d).expect("records");
    assert_eq!(records.len(), 1);
    let CookeRecord::Kd(k) = &records[0] else { panic!("Kd record expected") };
    assert_eq!(k.focus_distance, 0);
    assert_eq!(k.normalized_zoom_position, Some(0));
}

#[test]
fn inertial_record_with_one_gyroscope_packet() {
    let mut d = vec![b'i', 7, 0, 0];
    d.extend([0u8; 38]);
    d.extend([0x01, 0x02]);
    d.extend([0x00, 0x01, 0xff, 0xff, 0x00, 0x03]);
    let mut packet = vec![1u8, 0x00, 0x10];
    for k in 0..8u8 {
        packet.extend([0, k, 0xff, 0xfe, 0, 1]);
    }
    d.extend(packet);
    d.extend([0x0a, 0x0d]);
    assert_eq!(d.len(), 103);
    let records = parse(&d).expect("records");
    assert_eq!(records.len(), 3);
    assert!(matches!(records[0], CookeRecord::Kd(_)));
    assert!(matches!(records[1], CookeRecord::Magnetometer { timestamp: 0x0102, x: 1, y: -1, z: 3 }));
    let CookeRecord::Inertial { gyro, timestamp, samples } = &records[2] else { panic!("inertial record expected") };
    assert!(*gyro);
    assert_eq!(*timestamp, 0x10);
    assert_eq!(samples.len(), 8);
    assert_eq!(samples[5], (5, -2, 1));
}

#[test]
fn inertial_record_with_an_unknown_packet_is_malformed() {
    let mut d = vec![b'i', 7, 0, 0];
    d.extend([0u8; 46]);
    d.extend([9u8; 57]);
    assert!(matches!(parse_outcome(&d), CookeParse::Malformed));
}
