use telemetry_parser::insta360::{
    parse_aaa_record, parse_anchors_record, parse_exposure_record, parse_gps_record, parse_gyro_record, parse_offsets,
    parse_time_map_record, parse_timelapse_record, OffsetEntry,
};
use telemetry_parser::tags::ParseError;

fn offset(id: u8, format: u8, size: u32, off: u32) -> Vec<u8> {
    let mut v = vec![id, format];
    v.extend_from_slice(&size.to_le_bytes());
    v.extend_from_slice(&off.to_le_bytes());
    v
}

#[test]
fn record_offsets() {
    let mut d = offset(3, 0, 100, 200);
    d.extend(offset(0, 0, 1, 1));
    d.extend(offset(7, 1, 53, 400));
    let e = parse_offsets(&d).unwrap();
    assert_eq!(
        e,
        vec![
            OffsetEntry { id: 3, format: 0, size: 100, offset: 200 },
            OffsetEntry { id: 7, format: 1, size: 53, offset: 400 }
        ]
    );
    assert_eq!(parse_offsets(&d[..25]).unwrap_err(), ParseError::UnexpectedEof);
    assert!(parse_offsets(&[]).unwrap().is_empty());
}

#[test]
fn record_offsets_by_id() {
    // One entry per id, the last one where an id repeats, by ascending id.
    let mut d = offset(9, 0, 1, 2);
    d.extend(offset(3, 0, 100, 200));
    d.extend(offset(9, 1, 5, 6));
    let e = parse_offsets(&d).unwrap();
    assert_eq!(
        e,
        vec![
            OffsetEntry { id: 3, format: 0, size: 100, offset: 200 },
            OffsetEntry { id: 9, format: 1, size: 5, offset: 6 }
        ]
    );
}

#[test]
fn raw_and_float_gyro_samples() {
    let mut raw = 1000u64.to_le_bytes().to_vec();
    for v in [1u16, 2, 3, 4, 5, 0xffff] {
        raw.extend_from_slice(&v.to_le_bytes());
    }
    let s = parse_gyro_record(&raw, true).unwrap();
    assert_eq!(s.len(), 1);
    assert_eq!(s[0].timestamp, 1000);
    assert_eq!(s[0].acc, [1, 2, 3]);
    assert_eq!(s[0].gyro, [4, 5, 0xffff]);
    assert_eq!(parse_gyro_record(&raw[..19], true).unwrap_err(), ParseError::UnexpectedEof);

    let mut fl = 5u64.to_le_bytes().to_vec();
    for v in [1.0f64, -2.0, 0.5, 0.25, 0.0, 9.75] {
        fl.extend_from_slice(&v.to_le_bytes());
    }
    let s = parse_gyro_record(&fl, false).unwrap();
    assert_eq!(f64::from_bits(s[0].acc[1]), -2.0);
    assert_eq!(f64::from_bits(s[0].gyro[2]), 9.75);
    assert_eq!(parse_gyro_record(&fl, true).unwrap_err(), ParseError::UnexpectedEof);
}

#[test]
fn exposure_and_timelapse_samples() {
    let mut d = 10u64.to_le_bytes().to_vec();
    d.extend_from_slice(&0.01f64.to_le_bytes());
    let e = parse_exposure_record(&d).unwrap();
    assert_eq!(e[0].timestamp, 10);
    assert_eq!(f64::from_bits(e[0].value_bits), 0.01);
    assert!(parse_exposure_record(&d[..15]).is_err());
    let t = parse_timelapse_record(&d).unwrap();
    assert_eq!(t, vec![10, 0.01f64.to_bits()]);
    assert!(parse_timelapse_record(&d[..9]).is_err());
}

#[test]
fn gps_fixes() {
    let mut d = 1_700_000_000u64.to_le_bytes().to_vec();
    d.extend_from_slice(&250u16.to_le_bytes());
    d.push(b'A');
    d.extend_from_slice(&51.5f64.to_le_bytes());
    d.push(b'N');
    d.extend_from_slice(&0.12f64.to_le_bytes());
    d.push(b'W');
    d.extend_from_slice(&3.0f64.to_le_bytes());
    d.extend_from_slice(&90.0f64.to_le_bytes());
    d.extend_from_slice(&120.5f64.to_le_bytes());
    assert_eq!(d.len(), 53);
    let g = parse_gps_record(&d).unwrap();
    assert_eq!(g[0].seconds, 1_700_000_000);
    assert_eq!(g[0].millis, 250);
    assert_eq!(g[0].fix, b'A');
    assert_eq!(f64::from_bits(g[0].lat_bits), 51.5);
    assert_eq!(g[0].lon_dir, b'W');
    assert_eq!(f64::from_bits(g[0].altitude_bits), 120.5);
    assert!(parse_gps_record(&d[..52]).is_err());
}

#[test]
fn auto_exposure_samples() {
    let luma: u32 = (5 << 19) | (3 << 14) | (9 << 7) | 17;
    let mut d = 77u32.to_le_bytes().to_vec();
    d.extend_from_slice(&1.5f32.to_le_bytes());
    d.extend_from_slice(&0.02f32.to_le_bytes());
    d.extend_from_slice(&4u32.to_le_bytes());
    d.extend_from_slice(&luma.to_le_bytes());
    d.extend_from_slice(&[0u8; 28]);
    let a = parse_aaa_record(&d).unwrap();
    assert_eq!(a[0].timestamp, 77);
    assert_eq!(f32::from_bits(a[0].ev_target_bits), 1.5);
    assert_eq!(a[0].data_stat, 4);
    assert_eq!((a[0].luma_wg_grid, a[0].luma_wg_y, a[0].sum_wg_y, a[0].iso_value), (17, 9, 3, 7));
    let full = 0xffff_ffffu32;
    let mut d2 = d.clone();
    d2[16..20].copy_from_slice(&full.to_le_bytes());
    let a = parse_aaa_record(&d2).unwrap();
    assert_eq!(a[0].iso_value, (100 * 8191) >> 6);
    assert!(parse_aaa_record(&d[..47]).is_err());
}

#[test]
fn highlight_lists() {
    let mut d = vec![1u8];
    d.extend_from_slice(&2u32.to_le_bytes());
    d.extend_from_slice(&10u64.to_le_bytes());
    d.extend_from_slice(&20u64.to_le_bytes());
    d.push(5);
    d.extend_from_slice(&0u32.to_le_bytes());
    d.push(2);
    d.extend_from_slice(&1u32.to_le_bytes());
    d.extend_from_slice(&30u64.to_le_bytes());
    d.extend_from_slice(&40u64.to_le_bytes());
    let a = parse_anchors_record(&d).unwrap();
    assert_eq!(a.len(), 2);
    assert_eq!(a[0].kind, 1);
    assert_eq!(a[0].stamps, vec![vec![10], vec![20]]);
    assert_eq!(a[1].kind, 2);
    assert_eq!(a[1].stamps, vec![vec![30, 40]]);
    assert_eq!(parse_anchors_record(&d[..d.len() - 1]).unwrap_err(), ParseError::UnexpectedEof);
    let mut huge = vec![1u8];
    huge.extend_from_slice(&u32::MAX.to_le_bytes());
    assert!(parse_anchors_record(&huge).is_err());
}

#[test]
fn time_map_pairs() {
    let mut d = Vec::new();
    for w in [0u32, 1, 0, 2] {
        d.extend_from_slice(&w.to_le_bytes());
    }
    d.extend_from_slice(&[0u8; 32]);
    d.extend_from_slice(&0.0f64.to_le_bytes());
    for v in [1.0f64, 2.0, 3.0, 4.0] {
        d.extend_from_slice(&v.to_le_bytes());
    }
    let m = parse_time_map_record(&d).unwrap();
    assert_eq!(m.len(), 2);
    assert_eq!((f64::from_bits(m[1].0), f64::from_bits(m[1].1)), (3.0, 4.0));
    assert!(parse_time_map_record(&d[..d.len() - 3]).is_err());
    assert!(parse_time_map_record(&d[..20]).is_err());
    assert!(parse_time_map_record(&d[..10]).is_err());
}
