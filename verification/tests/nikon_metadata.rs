use telemetry_parser::nikon::{frames_to_timecode, nev_clip_metadata, nev_frame_metadata, nev_imager, FrameMeta, Imager, NevEntry, NevNumber, NevValue};

fn tag(id: u32, ty: u16, count: u16, value: &[u8]) -> Vec<u8> {
    let mut v = id.to_be_bytes().to_vec();
    v.extend_from_slice(&ty.to_be_bytes());
    v.extend_from_slice(&count.to_be_bytes());
    v.extend_from_slice(value);
    v
}

fn nrmt(tag: u32, value: &[u8]) -> Vec<u8> {
    let mut v = ((value.len() + 13) as u32).to_be_bytes().to_vec();
    v.extend_from_slice(b"NRMT");
    v.extend_from_slice(&tag.to_be_bytes());
    v.push(0);
    v.extend_from_slice(value);
    v
}

fn kv(v: Vec<NevEntry>) -> Vec<(String, NevValue)> {
    v.into_iter().map(|e| (e.key, e.value)).collect()
}

#[test]
fn clip_metadata_entries() {
    let mut d = tag(2, 2, 6, b"Z 8\0\0\0");
    d.extend(tag(0x1000, 4, 1, &[0, 0, 0, 90]));
    d.extend(tag(0x17, 5, 1, &[0, 0, 0x5d, 0xc0, 0, 0, 0x03, 0xe9]));
    d.extend(tag(0x16, 5, 1, &[0, 0, 0, 25, 0, 0, 0, 1]));
    d.extend(tag(0x1001, 3, 1, &[0, 50]));
    d.extend(tag(0x22, 3, 1, &[0x0f, 0x00]));
    d.extend(tag(0x02000007, 2, 6, b" AF-C "));
    d.extend(tag(0x1071, 2, 1, b"\0"));
    d.extend(tag(0xabcd, 9, 1, &[0xff, 0xff, 0xff, 0xfe]));
    d.extend(tag(0x0110_9204, 10, 1, &[0xff, 0xff, 0xff, 0xff, 0, 0, 0, 3]));
    let (entries, rate) = nev_clip_metadata(&d);
    assert_eq!(rate, Some((25, 1)));
    assert_eq!(
        kv(entries),
        vec![
            ("camera_model".to_string(), NevValue::Text("Z 8".to_string())),
            ("start_edge_timecode_frames".to_string(), NevValue::U32(90)),
            ("record_framerate".to_string(), NevValue::Ratio(24000, 1001)),
            ("framerate".to_string(), NevValue::Ratio(25, 1)),
            ("start_absolute_timecode".to_string(), NevValue::FramesAtRate(50, 25, 1)),
            ("image_width".to_string(), NevValue::U32(3840)),
            ("focus_mode".to_string(), NevValue::Text("AF-C".to_string())),
            ("tag_0x0000abcd".to_string(), NevValue::I32(-2)),
            ("exposure_compensation".to_string(), NevValue::Number(NevNumber::SignedRatio(-1, 3))),
        ]
    );
    assert!(nev_clip_metadata(&[]).0.is_empty());
    assert_eq!(nev_clip_metadata(&[]).1, None);
}

#[test]
fn frame_metadata_entries() {
    let mut d = nrmt(0x0110_0100, &8256u32.to_be_bytes());
    d.extend(nrmt(0x0110_829a, &(1.0f32 / 50.0).to_bits().to_be_bytes()));
    d.extend(nrmt(0x0190_0010, &5600u16.to_be_bytes()));
    d.extend(nrmt(0x0110_a302, &[0, 1, 1, 2]));
    d.extend(nrmt(0x0123_4567, &2.5f32.to_bits().to_be_bytes()));
    d.extend(nrmt(0x0123_4568, &1e11f32.to_bits().to_be_bytes()));
    d.extend(nrmt(0x0123_4569, &f32::NAN.to_bits().to_be_bytes()));
    match nev_frame_metadata(&d) {
        FrameMeta::Entries(v) => assert_eq!(
            kv(v),
            vec![
                ("image_width".to_string(), NevValue::U32(8256)),
                ("exposure_time".to_string(), NevValue::F32Bits((1.0f32 / 50.0).to_bits())),
                ("white_balance_kelvin".to_string(), NevValue::U32(5600)),
                ("cfa_pattern".to_string(), NevValue::Bytes(vec![0, 1, 1, 2])),
                ("tag_0x01234567".to_string(), NevValue::F32Bits(2.5f32.to_bits())),
            ]
        ),
        _ => panic!("entries expected"),
    }
    assert!(matches!(nev_frame_metadata(&nrmt(0x0110_0101, &[1, 2])), FrameMeta::ShortSize));
    let mut thumb = 12u32.to_be_bytes().to_vec();
    thumb.extend_from_slice(b"NRTI");
    thumb.extend([0u8; 4]);
    assert!(matches!(nev_frame_metadata(&thumb), FrameMeta::Cut));
}

#[test]
fn clip_rate_and_timecode() {
    let d = [0, 0, 0, 0x16, 0, 5, 0, 1, 0, 0, 0, 25, 0, 0, 0, 1, 0, 0, 0x10, 0x01, 0, 4, 0, 1, 0, 0x01, 0x6B, 0xCF];
    let (entries, rate) = nev_clip_metadata(&d);
    assert_eq!(rate, Some((25, 1)));
    assert_eq!(
        kv(entries),
        vec![
            ("framerate".to_string(), NevValue::Ratio(25, 1)),
            ("start_absolute_timecode".to_string(), NevValue::FramesAtRate(93135, 25, 1)),
        ]
    );
    assert_eq!(frames_to_timecode(93135, 25), "01:02:05:10");
    // The record frame rate does not replace a frame rate read before it.
    let mut d2 = d[..16].to_vec();
    d2.extend([0, 0, 0, 0x17, 0, 5, 0, 1, 0, 0, 0, 30, 0, 0, 0, 1]);
    assert_eq!(nev_clip_metadata(&d2).1, Some((25, 1)));
}

#[test]
fn zr_imager_tags() {
    let mut d = nrmt(0x0110_0100, &3840u32.to_be_bytes());
    d.extend(nrmt(0x0110_0101, &2160u32.to_be_bytes()));
    let frame = match nev_frame_metadata(&d) {
        FrameMeta::Entries(v) => v,
        _ => panic!("entries expected"),
    };
    assert_eq!(
        nev_imager(Some("NIKON ZR"), &[], &frame),
        Imager::Tags { sensor_size: (6048, 4032), capture: Some(((3840, 2160), (2208, 1872))), pixel_pitch: (5930, 5930) }
    );
    assert_eq!(nev_imager(Some("NIKON Z 8"), &[], &frame), Imager::NoTable);
    assert_eq!(nev_imager(Some("NIKON ZR"), &[], &[]), Imager::NoTable);
    let wide = match nev_frame_metadata(&nrmt(0x0110_0100, &7000u32.to_be_bytes())) {
        FrameMeta::Entries(v) => v,
        _ => panic!("entries expected"),
    };
    assert_eq!(
        nev_imager(Some("NIKON ZR"), &wide, &[]),
        Imager::Tags { sensor_size: (6048, 4032), capture: None, pixel_pitch: (5930, 5930) }
    );
    let mut big = nrmt(0x0110_0100, &7000u32.to_be_bytes());
    big.extend(nrmt(0x0110_0101, &2160u32.to_be_bytes()));
    let bigf = match nev_frame_metadata(&big) {
        FrameMeta::Entries(v) => v,
        _ => panic!("entries expected"),
    };
    assert_eq!(nev_imager(Some("NIKON ZR"), &[], &bigf), Imager::TooLarge);
}
