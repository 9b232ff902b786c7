use telemetry_parser::cooke::{b1, b4, b6, b7, parse_kd, parse_zeiss};

fn kd_bytes() -> Vec<u8> {
    let mut d = vec![0u8; 36];
    d[0..4].copy_from_slice(&[0x40 | 1, 0x40 | 2, 0x40 | 3, 0x40 | 4]);
    d[4] = 0x40 | 4;
    d[5] = 0x40 | 0x1c;
    d[6] = 0x80 | 0x11;
    d[7] = 0x40 | 0x05;
    d[8] = 0x02;
    d[9] = 0x32;
    d[22] = 0x0b;
    d[23] = 0x04;
    d[24] = 0x20 | 0x01;
    d[25] = 0x02;
    d
}

#[test]
fn bit_fields() {
    assert_eq!(b1(0xff), 1);
    assert_eq!(b1(0xfe), 0);
    assert_eq!(b4(0xab), 0xb);
    assert_eq!(b6(0xff), 0x3f);
    assert_eq!(b7(0xff), 0x7f);
}

#[test]
fn packed_lens_record_with_zoom() {
    let mut d = kd_bytes();
    d[26] = 0x01;
    d[27] = 0x05;
    let (k, used) = parse_kd(&d).unwrap();
    assert_eq!(k.focus_distance, (1 << 18) | (2 << 12) | (3 << 6) | 4);
    assert_eq!(k.aperture_value, (4 << 6) | 0x1c);
    assert_eq!(k.t_number, (1 << 7) | 0x11);
    assert_eq!(k.tenths, 5);
    assert_eq!(k.focal_length, (2 << 6) | 0x32);
    assert_eq!(k.horizontal_fov, (0x0b << 6) | 0x04);
    assert_eq!(k.entrance_pupil_position, -((1 << 6) | 2));
    assert_eq!(k.normalized_zoom_position, Some((1 << 6) | 5));
    assert_eq!(k.serial_number, None);
    assert_eq!(used, 0);
}

#[test]
fn packed_lens_record_with_serial_number() {
    let mut d = kd_bytes();
    d[26] = b'S';
    d[27..36].copy_from_slice(b" SN123   ");
    d.extend_from_slice(&[0x0a, 0x0d]);
    let (k, used) = parse_kd(&d).unwrap();
    assert_eq!(k.serial_number.as_deref(), Some("SN123"));
    assert_eq!(k.normalized_zoom_position, None);
    assert_eq!(used, 38);
    assert!(parse_kd(&d[..35]).is_none());
}

#[test]
fn zeiss_record() {
    let mut d = vec![0u8; 34];
    d[0..4].copy_from_slice(&[0, 0, 1, 2]);
    d[4] = 0x10;
    d[5] = 0x40 | 0x03;
    d[6] = 0x01;
    d[7] = 0x01;
    d[8] = 0x00;
    d[9] = 0x07;
    d[10..12].copy_from_slice(&(-5i16).to_be_bytes());
    d[32..34].copy_from_slice(&300i16.to_be_bytes());
    let (z, used) = parse_zeiss(&d).unwrap();
    assert_eq!(z.focus_distance, (1 << 6) | 2);
    assert_eq!(z.t_number, (1 << 7) | 0x10);
    assert_eq!(z.tenths, 3);
    assert_eq!(z.horizontal_fov, 65);
    assert_eq!(z.entrance_pupil_position, 7);
    assert_eq!(z.shading, vec![-5, 0, 0, 0, 0, 0]);
    assert_eq!(z.distortion, vec![0, 0, 0, 0, 0, 300]);
    assert_eq!(used, 34);
    d.extend_from_slice(&[0x0a, 0x0d]);
    assert_eq!(parse_zeiss(&d).unwrap().1, 36);
    assert!(parse_zeiss(&d[..33]).is_none());
}
