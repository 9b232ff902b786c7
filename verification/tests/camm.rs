use telemetry_parser::camm::{camm_record, detect_outcome, Camm, CammDetect, CammRecord};

fn sample(typ: u16, values: &[u8]) -> Vec<u8> {
    let mut d = vec![0, 0];
    d.extend(typ.to_le_bytes());
    d.extend_from_slice(values);
    d
}

#[test]
fn camm_samples() {
    let mut v = Vec::new();
    for x in [1.0f32, -2.0, 0.5] {
        v.extend(x.to_bits().to_le_bytes());
    }
    assert_eq!(camm_record(&sample(2, &v)), Some(CammRecord::Gyro(1.0f32.to_bits(), (-2.0f32).to_bits(), 0.5f32.to_bits())));
    assert_eq!(camm_record(&sample(7, &v)), Some(CammRecord::Magnetic(1.0f32.to_bits(), (-2.0f32).to_bits(), 0.5f32.to_bits())));
    let mut e = 100i32.to_le_bytes().to_vec();
    e.extend((-7i32).to_le_bytes());
    assert_eq!(camm_record(&sample(1, &e)), Some(CammRecord::Exposure(100, -7)));
    assert_eq!(camm_record(&sample(2, &v[..8])), None);
    assert_eq!(camm_record(&sample(9, &[])), Some(CammRecord::Unknown(9)));
    assert_eq!(camm_record(&[0, 0, 2]), None);
    let mut g = 1.5f64.to_bits().to_le_bytes().to_vec();
    g.extend(3i32.to_le_bytes());
    g.extend(2.0f64.to_bits().to_le_bytes());
    g.extend(4.0f64.to_bits().to_le_bytes());
    g.extend(8.0f32.to_bits().to_le_bytes());
    g.extend([0u8; 24]);
    assert_eq!(
        camm_record(&sample(6, &g)),
        Some(CammRecord::Gps {
            time: 1.5f64.to_bits(),
            fix_type: 3,
            latitude: 2.0f64.to_bits(),
            longitude: 4.0f64.to_bits(),
            altitude: 8.0f32.to_bits()
        })
    );
    assert_eq!(camm_record(&sample(6, &g[..40])), None);
}

#[test]
fn camm_detection() {
    let mut b = vec![0u8; 64];
    b[4..8].copy_from_slice(b"ftyp");
    b[20..24].copy_from_slice(b"stsd");
    b[36..40].copy_from_slice(b"camm");
    assert_eq!(detect_outcome(&b), CammDetect::Found);
    assert!(Camm::detect(&b).is_some());
    b[20..24].copy_from_slice(b"xxxx");
    assert_eq!(detect_outcome(&b), CammDetect::Absent);
    b[10..14].copy_from_slice(b"camm");
    assert_eq!(detect_outcome(&b), CammDetect::Malformed);
    let mut c = vec![0u8; 64];
    c[36..40].copy_from_slice(b"camm");
    assert_eq!(detect_outcome(&c), CammDetect::Absent);
    assert_eq!(Camm::default().camera_type(), "CAMM");
}
