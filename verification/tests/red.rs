use telemetry_parser::red::{
    aligned_box_size, detect_all_parts, last_value_of, parts_sortable, meta_key, parse_rmd, read_imu, read_meta, red2_meta, rdi_meta,
    rmd_frame_rate, box_content, box_step, BoxAction, BoxContent, BoxKind, BoxStep, ImuRecord, MetaItem, MetaParse, MetaSpan, MetaValue, RedR3d,
};
use telemetry_parser::text::parse_u32;
use telemetry_parser::filesystem::human_safe_texts;
use telemetry_parser::tags::InputOptions;

fn record(typ: u8, id: u8, value: &[u8]) -> Vec<u8> {
    let size = (value.len() + 4) as u16;
    let mut v = size.to_be_bytes().to_vec();
    v.push(typ);
    v.push(id);
    v.extend_from_slice(value);
    v
}

#[test]
fn metadata_keys() {
    assert_eq!(meta_key(0xA0), "camera_model");
    assert_eq!(meta_key(0x66), "record_framerate");
    assert_eq!(meta_key(0x05), "0x5");
    assert_eq!(meta_key(0xFE), "0xfe");
}

#[test]
fn metadata_records() {
    let mut d = record(0x30, 0x3b, &[200]);
    d.extend(record(0x10, 0xA0, b"KOMODO 6K"));
    d.extend(record(0x40, 0x7F, &[0, 1, 0xff, 0xff, 0, 3]));
    d.extend(record(0x20, 0x6B, &[0x42, 0x48, 0, 0]));
    d.extend([0, 0]);
    let MetaParse::Read(entries, complete) = read_meta(&d) else { panic!("records expected") };
    assert!(complete);
    assert_eq!(entries.len(), 4);
    assert_eq!(entries[0].id, 0x3b);
    assert!(matches!(&entries[0].item, MetaItem::Values(v) if v == &vec![MetaValue::U8(200)]));
    assert!(matches!(&entries[1].item, MetaItem::Values(v) if v == &vec![MetaValue::Text("KOMODO 6K".to_string())]));
    assert!(
        matches!(&entries[2].item, MetaItem::Values(v) if v == &vec![MetaValue::I16(1), MetaValue::I16(-1), MetaValue::I16(3)])
    );
    assert!(matches!(&entries[3].item, MetaItem::Values(v) if v == &vec![MetaValue::F32Bits(0x4248_0000)]));
    assert_eq!(last_value_of(&entries, 0xA0), Some(MetaValue::Text("KOMODO 6K".to_string())));
    assert_eq!(last_value_of(&entries, 0x66), None);
}

#[test]
fn metadata_cut_short() {
    let mut d = record(0x30, 0x3b, &[7]);
    d.extend([0x00, 0x20, 0x30]);
    let MetaParse::Read(entries, complete) = read_meta(&d) else { panic!("records expected") };
    assert!(!complete);
    assert_eq!(entries.len(), 1);
    let d = record(0x60, 0x08, &[1, 2]);
    let MetaParse::Read(entries, complete) = read_meta(&d) else { panic!("records expected") };
    assert!(!complete);
    assert_eq!(entries.len(), 0);
}

#[test]
fn metadata_record_without_id_is_malformed() {
    assert!(matches!(read_meta(&[0x00, 0x03, 0x10]), MetaParse::Malformed));
}

#[test]
fn unknown_value_type_holds_no_values() {
    let d = record(0x77, 0x99, &[1, 2, 3]);
    let MetaParse::Read(entries, complete) = read_meta(&d) else { panic!("records expected") };
    assert!(complete);
    assert!(matches!(&entries[0].item, MetaItem::Values(v) if v.is_empty()));
}

#[test]
fn imu_records() {
    let mut d = 1000u64.to_be_bytes().to_vec();
    d.extend([0, 1, 0, 2, 0, 3, 0xff, 0xff, 0, 5, 0, 6]);
    d.extend(2000u64.to_be_bytes());
    d.extend([0, 9]);
    let v = read_imu(&d);
    assert_eq!(v.len(), 2);
    assert_eq!(v[0], ImuRecord { timestamp: 1000, accel: Some((1, 2, 3)), gyro: Some((-1, 5, 6)) });
    assert_eq!(v[1], ImuRecord { timestamp: 2000, accel: None, gyro: None });
    assert_eq!(read_imu(&[1, 2, 3]).len(), 0);
}

#[test]
fn box_sizes_round_up() {
    assert_eq!(aligned_box_size(0), 0);
    assert_eq!(aligned_box_size(1), 4096);
    assert_eq!(aligned_box_size(4096), 4096);
    assert_eq!(aligned_box_size(4097), 8192);
}

#[test]
fn red2_metadata_span() {
    let mut d = vec![0u8; 200];
    d[10..26].copy_from_slice(b"rdx\x02\x00\x00\x00\x00\x00\x00\x00\x01RED ");
    d[26] = 0;
    d[27] = 4;
    assert_eq!(red2_meta(&d), MetaSpan::At(28, 32));
    d[26] = 1;
    assert_eq!(red2_meta(&d), MetaSpan::OutOfBounds);
    assert_eq!(red2_meta(&d[..100]), MetaSpan::Absent);
    let mut block = vec![0u8; 4096];
    block[87] = 10;
    assert_eq!(rdi_meta(&block), MetaSpan::At(88, 98));
}

fn folder() -> Vec<(String, String)> {
    vec![
        ("CLIP_002.R3D".to_string(), "/a/CLIP_002.R3D".to_string()),
        ("CLIP_001.R3D".to_string(), "/a/CLIP_001.R3D".to_string()),
        ("clip.rmd".to_string(), "/a/clip.rmd".to_string()),
        ("OTHER_001.R3D".to_string(), "/a/OTHER_001.R3D".to_string()),
        ("CLIP_001.mov".to_string(), "/a/CLIP_001.mov".to_string()),
    ]
}

#[test]
fn clip_parts_in_human_order() {
    let parts = detect_all_parts("/a/CLIP_001.R3D", &folder());
    assert_eq!(parts, vec!["/a/CLIP_001.R3D", "/a/CLIP_002.R3D", "/a/clip.rmd"]);
    assert_eq!(detect_all_parts("/b/single.r3d", &[]), vec!["/b/single.r3d"]);
    assert!(detect_all_parts("/b/single.mov", &[]).is_empty());
}

#[test]
fn human_safe_names() {
    let t = |v: &[&str]| human_safe_texts(&v.iter().map(|s| s.to_string()).collect::<Vec<_>>());
    assert!(t(&["A001_C002_001.R3D", "A001_C002_002.R3D", "A001_C002_010.R3D"]));
    // Digit runs of unequal length where the texts differ.
    assert!(!t(&["1a5", "01b3"]));
    assert!(!t(&["file9", "file10"]));
    // Ten-digit runs.
    assert!(!t(&["x1234567890", "x2234567890"]));
    assert!(t(&["x1234567890", "x1234567891"]));
    assert!(t(&["b", "a", "ab"]));
    assert!(!t(&["é", "ü"]));
}

#[test]
fn detect_red_clips() {
    let options = InputOptions::default();
    let mut buffer = vec![0u8; 16];
    buffer[4..8].copy_from_slice(b"RED2");
    let red = RedR3d::detect(&buffer, "/a/CLIP_001.R3D", &options, &folder(), None, None).expect("RED clip");
    assert_eq!(red.all_parts.len(), 3);
    assert_eq!(red.camera_type(), "RED RAW");
    assert!(RedR3d::detect(&[0u8; 16], "/a/CLIP_001.R3D", &options, &folder(), None, None).is_none());
    let side =
        RedR3d::detect(&[], "/a/CLIP_001.mov", &options, &folder(), Some("/a/CLIP_001.R3D".to_string()), None).expect("sidecar");
    assert_eq!(side.all_parts.len(), 3);
    assert!(RedR3d::detect(&[], "/a/CLIP_001.mov", &options, &[], None, Some("/a/CLIP_001".to_string())).is_none());
    assert!(parts_sortable("/a/CLIP_001.R3D", &folder()));
}

#[test]
fn clip_metadata_file() {
    let rmd = br#"<rmd><lens type="string" value="Zeiss &quot;CP.3&quot; &amp; co"/>
<take type="string" value=""/><scene type="string" value="12A"/>
<poster_frame type="int" value="42"/>
<frame_rate_override num="24000" den="1001"/></rmd>"#;
    let fields = parse_rmd(rmd);
    assert_eq!(
        fields,
        vec![
            ("lens".to_string(), "Zeiss \"CP.3\" & co".to_string()),
            ("scene".to_string(), "12A".to_string()),
            ("poster_frame".to_string(), "42".to_string()),
        ]
    );
    assert_eq!(rmd_frame_rate(rmd), Some((24000, 1001)));
    assert_eq!(rmd_frame_rate(br#"<frame_rate_override num="0" den="1"/>"#), None);
    assert_eq!(rmd_frame_rate(br#"<frame_rate_override num="x" den="1"/>"#), None);
    assert!(parse_rmd(b"nothing here").is_empty());
}

#[test]
fn unsigned_numbers() {
    assert_eq!(parse_u32("+17"), Some(17));
    assert_eq!(parse_u32("4294967295"), Some(u32::MAX));
    assert_eq!(parse_u32("4294967296"), None);
    assert_eq!(parse_u32(""), None);
    assert_eq!(parse_u32("+"), None);
    assert_eq!(parse_u32("1a"), None);
}

#[test]
fn unsortable_parts_keep_the_folder_order() {
    let folder = vec![
        ("CLIP_10.R3D".to_string(), "/a/CLIP_10.R3D".to_string()),
        ("CLIP_9.R3D".to_string(), "/a/CLIP_9.R3D".to_string()),
    ];
    assert!(!parts_sortable("/a/CLIP_9.R3D", &folder));
    assert_eq!(detect_all_parts("/a/CLIP_9.R3D", &folder), vec!["/a/CLIP_10.R3D", "/a/CLIP_9.R3D"]);
}

#[test]
fn box_decisions() {
    assert_eq!(box_step(5000, *b"RDX\x01", false), BoxStep { kind: BoxKind::Csv, action: BoxAction::ReadBox(8192), last: false });
    assert_eq!(box_step(4096, *b"RDX\x02", true), BoxStep { kind: BoxKind::Imu, action: BoxAction::ReadBox(4096), last: true });
    assert_eq!(box_step(300, *b"RED2", false), BoxStep { kind: BoxKind::Clip, action: BoxAction::ReadBox(4096), last: false });
    assert_eq!(box_step(9000, *b"RDI\x01", false), BoxStep { kind: BoxKind::Frame, action: BoxAction::ReadBlock(12288 - 8 - 4096), last: false });
    assert_eq!(box_step(0, *b"RDI\x01", true), BoxStep { kind: BoxKind::Frame, action: BoxAction::Skip(-8), last: true });
    assert_eq!(box_step(100, *b"RDVO", true), BoxStep { kind: BoxKind::Other, action: BoxAction::Skip(4088), last: false });
}

#[test]
fn box_contents() {
    let mut csv = vec![0u8; 8192];
    csv[4096..4099].copy_from_slice(b"a,b");
    assert!(matches!(box_content(BoxKind::Csv, 4099, &csv), BoxContent::Csv(Some(t)) if t == "a,b"));
    csv[4097] = 0xFF;
    assert!(matches!(box_content(BoxKind::Csv, 4099, &csv), BoxContent::Csv(None)));
    assert!(matches!(box_content(BoxKind::Csv, 100, &[0u8; 4096]), BoxContent::Nothing));
    let mut imu = vec![0u8; 8192];
    imu[4096..4104].copy_from_slice(&5u64.to_be_bytes());
    imu[4104..4106].copy_from_slice(&(-3i16).to_be_bytes());
    match box_content(BoxKind::Imu, 4096 + 20, &imu) {
        BoxContent::Imu(v) => {
            assert_eq!(v.len(), 1);
            assert_eq!(v[0].timestamp, 5);
            assert_eq!(v[0].accel, Some((-3, 0, 0)));
            assert_eq!(v[0].gyro, Some((0, 0, 0)));
        }
        _ => panic!("IMU records expected"),
    }
    let mut frame = vec![0u8; 4096];
    frame[86..88].copy_from_slice(&[0, 4]);
    assert!(matches!(box_content(BoxKind::Frame, 4096, &frame), BoxContent::Meta(MetaSpan::At(88, 92))));
    assert!(matches!(box_content(BoxKind::Clip, 4096, &frame), BoxContent::Meta(MetaSpan::Absent)));
    assert!(matches!(box_content(BoxKind::Other, 4096, &frame), BoxContent::Nothing));
}
