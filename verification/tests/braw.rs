use telemetry_parser::braw::{parse_per_frame_meta, BlackmagicBraw, FrameParse, FrameValue, MetaRead, MetaValue};

fn boxed(name: &[u8], data: &[u8]) -> Vec<u8> {
    let mut b = ((data.len() + 8) as u32).to_be_bytes().to_vec();
    b.extend_from_slice(name);
    b.extend_from_slice(data);
    b
}

fn frame(boxes: &[Vec<u8>]) -> Vec<u8> {
    let inner: Vec<u8> = boxes.concat();
    boxed(b"bmdf", &inner)
}

fn entries(r: FrameParse) -> Vec<(String, FrameValue)> {
    match r {
        FrameParse::Entries(v) => v,
        FrameParse::Failed => panic!("failed"),
        FrameParse::Malformed => panic!("malformed"),
    }
}

#[test]
fn braw_frame_values() {
    let mut rate = 24000u32.to_be_bytes().to_vec();
    rate.extend(1001u32.to_be_bytes());
    let data = frame(&[
        boxed(b"srte", &rate),
        boxed(b"isoe", &800u32.to_be_bytes()),
        boxed(b"wtin", &10u16.to_be_bytes()),
        boxed(b"expo", &0.5f32.to_bits().to_be_bytes()),
        boxed(b"zzzz", &[1, 2, 3, 4]),
        boxed(b"shtv", b"1/50\0\0"),
    ]);
    let e = entries(parse_per_frame_meta(&data));
    assert_eq!(
        e,
        vec![
            ("sensor_rate".to_string(), FrameValue::Pair(24000, 1001)),
            ("iso".to_string(), FrameValue::U32(800)),
            ("white_balance_tint".to_string(), FrameValue::U16(10)),
            ("exposure".to_string(), FrameValue::F32Bits(0.5f32.to_bits())),
            ("shutter_value".to_string(), FrameValue::Text("1/50".to_string())),
        ]
    );
}

#[test]
fn braw_frame_refusals() {
    // Not a bmdf box.
    assert!(matches!(parse_per_frame_meta(&boxed(b"xxxx", &[0; 8])), FrameParse::Failed));
    // A value cut short.
    let short = frame(&[boxed(b"isoe", &[0, 1])]);
    assert!(matches!(parse_per_frame_meta(&short), FrameParse::Failed));
    // Text that is not UTF-8.
    let bad = frame(&[boxed(b"aptr", &[0xff, 0xfe])]);
    assert!(matches!(parse_per_frame_meta(&bad), FrameParse::Failed));
    // An inner box whose size is below 8.
    let mut small = frame(&[boxed(b"isoe", &800u32.to_be_bytes())]);
    small[8..12].copy_from_slice(&4u32.to_be_bytes());
    assert!(matches!(parse_per_frame_meta(&small), FrameParse::Malformed));
    // An outer size past the data.
    let mut long = frame(&[boxed(b"isoe", &800u32.to_be_bytes())]);
    long[0..4].copy_from_slice(&100u32.to_be_bytes());
    assert!(matches!(parse_per_frame_meta(&long), FrameParse::Malformed));
}

fn meta_file(keys: &[&str], items: &[(u32, u32, Vec<u8>)]) -> Vec<u8> {
    let hdlr = boxed(b"hdlr", &[0; 4]);
    let mut kd = vec![0u8; 8];
    for k in keys {
        kd.extend(boxed(b"mdta", k.as_bytes()));
    }
    let keys_box = boxed(b"keys", &kd);
    let mut il = Vec::new();
    for (index, typ, value) in items {
        let mut dd = typ.to_be_bytes().to_vec();
        dd.extend([0u8; 4]);
        dd.extend_from_slice(value);
        let data = boxed(b"data", &dd);
        il.extend(boxed(&index.to_be_bytes(), &data));
    }
    let ilst = boxed(b"ilst", &il);
    let content = [hdlr, keys_box, ilst].concat();
    let mut all = b"junkjunk".to_vec();
    all.extend(boxed(b"meta", &content));
    all.extend(b"tail");
    all
}

#[test]
fn braw_file_meta() {
    let all = meta_file(
        &["camera_type", "sensor_line_time", "sensor_area_captured", "iso_list"],
        &[
            (1, 1, b"Blackmagic Pocket Cinema Camera 6K".to_vec()),
            (2, 23, 7.5f32.to_bits().to_be_bytes().to_vec()),
            (3, 71, [6144.0f32.to_bits().to_be_bytes(), 3456.0f32.to_bits().to_be_bytes()].concat()),
            (4, 77, 1600u32.to_be_bytes().to_vec()),
            (9, 77, 5u32.to_be_bytes().to_vec()),
            (4, 99, vec![1, 2, 3]),
        ],
    );
    match BlackmagicBraw::parse_meta(&all) {
        MetaRead::Entries(v) => assert_eq!(
            v,
            vec![
                ("camera_type".to_string(), MetaValue::Text("Blackmagic Pocket Cinema Camera 6K".to_string())),
                ("sensor_line_time".to_string(), MetaValue::F32Bits(7.5f32.to_bits())),
                (
                    "sensor_area_captured".to_string(),
                    MetaValue::F32PairBits(6144.0f32.to_bits(), 3456.0f32.to_bits())
                ),
                ("iso_list".to_string(), MetaValue::U32(1600)),
            ]
        ),
        MetaRead::Failed => panic!("failed"),
        MetaRead::Malformed => panic!("malformed"),
    }
}

#[test]
fn braw_file_meta_refusals() {
    assert!(matches!(BlackmagicBraw::parse_meta(b"no metadata here at all"), MetaRead::Failed));
    // A value too short for its type.
    let short = meta_file(&["a"], &[(1, 24, vec![0, 0, 0])]);
    assert!(matches!(BlackmagicBraw::parse_meta(&short), MetaRead::Failed));
    // An index of zero.
    let zero = meta_file(&["a"], &[(0, 77, vec![0, 0, 0, 1])]);
    assert!(matches!(BlackmagicBraw::parse_meta(&zero), MetaRead::Malformed));
    // `meta` too close to the start for its size.
    assert!(matches!(BlackmagicBraw::parse_meta(b"metaxxxxhdlrxxxxxx"), MetaRead::Malformed));
}

#[test]
fn braw_signed_values() {
    let all = meta_file(
        &["a", "b", "c"],
        &[(1, 65, vec![0xfe]), (2, 66, (-300i16).to_be_bytes().to_vec()), (3, 74, (-5i64).to_be_bytes().to_vec())],
    );
    match BlackmagicBraw::parse_meta(&all) {
        MetaRead::Entries(v) => assert_eq!(
            v,
            vec![
                ("a".to_string(), MetaValue::I8(-2)),
                ("b".to_string(), MetaValue::I16(-300)),
                ("c".to_string(), MetaValue::I64(-5)),
            ]
        ),
        _ => panic!("not read"),
    }
}

#[test]
fn braw_detect_and_model() {
    let b = b"....Blackmagic Design....braw_codec_bitrate....";
    let d = BlackmagicBraw::detect(b, "clip.braw").unwrap();
    assert_eq!(d.model, None);
    assert_eq!(d.camera_type(), "Blackmagic RAW");
    assert!(BlackmagicBraw::detect(b"Blackmagic Design only", "clip.braw").is_none());
    assert_eq!(BlackmagicBraw::model_from_camera_type("Blackmagic Pocket Cinema Camera 6K"), "Pocket Cinema Camera 6K");
    assert_eq!(BlackmagicBraw::model_from_camera_type("Blackmagic Blackmagic URSA"), "URSA");
    assert_eq!(BlackmagicBraw::model_from_camera_type("URSA Mini"), "URSA Mini");
}
