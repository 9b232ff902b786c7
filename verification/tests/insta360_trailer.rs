use telemetry_parser::insta360::{Insta360, OffsetEntry, RecordSpan};

const MAGIC: &[u8] = b"8db42d694ccc418790edff439fe026bf";

fn footer(extra_size: u32, version: u32) -> Vec<u8> {
    let mut f = vec![0u8; 32];
    f.extend(extra_size.to_le_bytes());
    f.extend(version.to_le_bytes());
    f.extend_from_slice(MAGIC);
    f
}

fn trailer() -> Vec<u8> {
    let mut t = vec![1, 2, 3];
    t.extend([0, 3, 3, 0, 0, 0]);
    t.extend([9, 9]);
    t.extend([1, 5, 2, 0, 0, 0]);
    let n = (t.len() + 72) as u32;
    t.extend(footer(n, 3));
    t
}

#[test]
fn insta360_footer() {
    let t = trailer();
    assert_eq!(Insta360::trailer_footer(&t[t.len() - 72..]), Some((89, 3)));
    let mut bad = t[t.len() - 72..].to_vec();
    bad[71] = b'x';
    assert_eq!(Insta360::trailer_footer(&bad), None);
    assert_eq!(Insta360::trailer_footer(&t[..10]), None);
}

#[test]
fn insta360_walk_records() {
    let t = trailer();
    let spans = Insta360::walk_records(&t);
    assert_eq!(
        spans,
        vec![RecordSpan { format: 1, id: 5, from_end: 80, size: 2 }, RecordSpan { format: 0, id: 3, from_end: 89, size: 3 }]
    );
    let n = t.len() as u64;
    assert_eq!(&t[(n - spans[0].from_end) as usize..][..2], &[9, 9]);
    assert_eq!(&t[(n - spans[1].from_end) as usize..][..3], &[1, 2, 3]);
}

#[test]
fn insta360_offset_records() {
    let t = trailer();
    let es = vec![
        OffsetEntry { id: 3, format: 0, size: 3, offset: 0 },
        OffsetEntry { id: 4, format: 0, size: 1, offset: 0 },
        OffsetEntry { id: 5, format: 1, size: 2, offset: 9 },
    ];
    // An entry whose size and id do not match the record is left out.
    assert_eq!(
        Insta360::record_plan(&t, Some(&es)),
        Some(vec![RecordSpan { format: 0, id: 3, from_end: 89, size: 3 }, RecordSpan { format: 1, id: 5, from_end: 80, size: 2 }])
    );
    let past = vec![OffsetEntry { id: 2, format: 0, size: 500, offset: 0 }];
    assert_eq!(Insta360::record_plan(&t, Some(&past)), None);
    assert_eq!(Insta360::record_plan(&t, Some(&[])), Some(Insta360::walk_records(&t)));
    assert_eq!(Insta360::record_plan(&t, None), Some(Insta360::walk_records(&t)));
}

#[test]
fn insta360_detect_orientation_and_model() {
    let mut b = b"....".to_vec();
    b.extend_from_slice(MAGIC);
    let i = Insta360::detect(&b, "a.insv").unwrap();
    assert!(i.model.is_none());
    assert_eq!(i.camera_type(), "Insta360");
    assert!(Insta360::detect(MAGIC, "a.insv").is_none());
    assert_eq!(Insta360::imu_orientation(Some("Insta360 GO 3S"), true), "yXZ");
    assert_eq!(Insta360::imu_orientation(Some("Insta360 GO 2"), true), "XYZ");
    assert_eq!(Insta360::imu_orientation(Some("Insta360 OneR"), true), "Xyz");
    assert_eq!(Insta360::imu_orientation(None, true), "Xyz");
    assert_eq!(Insta360::imu_orientation(Some("Insta360 Go"), false), "xyZ");
    assert_eq!(Insta360::imu_orientation(Some("Insta360 OneRS"), false), "yxz");
    assert_eq!(Insta360::imu_orientation(Some("Insta360 ONE X2"), false), "xZy");
    assert_eq!(Insta360::imu_orientation(Some("Insta360 GO 2"), false), "yXZ");
    assert_eq!(Insta360::imu_orientation(None, false), "yXZ");
    let i = Insta360 { model: Some("Insta360 GO 3".to_string()), is_raw_gyro: false };
    assert_eq!(i.lens_model_name(), "GO 3");
    let i = Insta360 { model: None, is_raw_gyro: false };
    assert_eq!(i.lens_model_name(), "");
}
