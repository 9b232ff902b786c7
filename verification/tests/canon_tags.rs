use telemetry_parser::canon::{parse_metadata, PackError};
use telemetry_parser::canon_tags::{describe_tag, describe_uuid, get_tag, CanonValue, TagOutcome};
use telemetry_parser::tags::ParseError;

fn value(tag: u16, data: &[u8]) -> CanonValue {
    match get_tag(tag, data) {
        TagOutcome::Value(v) => v,
        _ => panic!("value expected"),
    }
}

fn stamp(year: u16, month: u8, day: u8, h: u8, m: u8, s: u8, ms: u16) -> Vec<u8> {
    let mut d = vec![0, 0, 0, 0];
    d.extend(year.to_be_bytes());
    d.extend([month, day, h, m, s]);
    d.extend(ms.to_be_bytes());
    d
}

#[test]
fn aperture_mode_and_text() {
    assert_eq!(value(0xe100, &[1]), CanonValue::Text("FNumber".to_string()));
    assert_eq!(value(0xe100, &[5]), CanonValue::Text("Unknown".to_string()));
    assert!(matches!(get_tag(0xe100, &[]), TagOutcome::Failed(ParseError::UnexpectedEof)));
    assert_eq!(value(0xe108, b"AB123\0xx"), CanonValue::Text("AB123".to_string()));
    assert!(matches!(get_tag(0xe228, &[0xff, 0]), TagOutcome::Failed(ParseError::InvalidData)));
}

#[test]
fn numbers_and_pairs() {
    assert_eq!(value(0xe10d, &[0, 0, 0x27, 0x10]), CanonValue::U32(10000));
    assert_eq!(value(0xe11e, &[0x42, 0x48, 0, 0]), CanonValue::F32Bits(0x4248_0000));
    assert_eq!(value(0xe231, &[0, 0, 0, 1, 0, 0, 0, 50]), CanonValue::Pair(50, 1));
    assert_eq!(value(0xe206, &[0, 16, 0, 9]), CanonValue::Pair(16, 9));
    assert_eq!(value(0xe21b, &[0]), CanonValue::Flag(true));
    assert_eq!(value(0xe222, &[0]), CanonValue::Flag(false));
    assert_eq!(value(0xe21a, &[1, 0, 1, 1, 9]), CanonValue::Bytes(vec![1, 0, 1, 1]));
    assert!(matches!(get_tag(0xe209, &[1, 2, 3]), TagOutcome::Failed(ParseError::UnexpectedEof)));
    assert_eq!(value(0x1234, &[7, 8]), CanonValue::Raw(vec![7, 8]));
}

#[test]
fn motion_triples_skip_zeros() {
    let d = [0, 0, 0, 0, 0, 0, 0x3c, 0, 0, 0, 0x40, 0];
    assert_eq!(value(0xe21f, &d), CanonValue::HalfTriples(vec![(0x3c00, 0, 0x4000)]));
    assert!(matches!(get_tag(0xe220, &d[..7]), TagOutcome::Failed(ParseError::UnexpectedEof)));
}

#[test]
fn frame_timestamps() {
    assert_eq!(value(0xe227, &stamp(2021, 3, 4, 5, 6, 7, 89)), CanonValue::TimestampMs(1614834367089));
    assert_eq!(value(0xe227, &stamp(2000, 2, 29, 23, 59, 59, 0xffff)), CanonValue::TimestampMs(951868799000));
    assert!(matches!(get_tag(0xe227, &stamp(2001, 2, 29, 0, 0, 0, 0)), TagOutcome::Malformed));
    assert!(matches!(get_tag(0xe227, &stamp(2001, 1, 1, 0, 0, 10, 1500)), TagOutcome::Malformed));
    assert!(matches!(get_tag(0xe227, &stamp(2001, 1, 1, 0, 0, 10, 1)[..12]), TagOutcome::Failed(_)));
}

#[test]
fn lists_and_uuids() {
    let mut d = Vec::new();
    for x in 1u32..=8 {
        d.extend(x.to_be_bytes());
    }
    assert_eq!(value(0xe121, &d), CanonValue::F32BitsList((1..=8).collect()));
    assert_eq!(value(0xe11d, &d), CanonValue::F32BitsList(vec![1, 2]));
    assert_eq!(value(0xe211, &d[..16]), CanonValue::Uuid(1, 2, 3, 4));
    assert_eq!(describe_uuid(0xe211, 0, 0, 0x0e150001, 0x01000000), "Canon Log");
    assert_eq!(describe_uuid(0xe212, 0, 0, 0x04010101, 0x03040000), "BT.2020");
    assert_eq!(describe_uuid(0xe212, 1, 0xa, 0xbeef, 0x12345678), "{00000001-0000000a-0000beef-12345678}");
}

#[test]
fn tag_descriptions() {
    let (g, n, d) = describe_tag(0xe22b);
    assert_eq!((g.as_str(), n.as_str(), d.as_str()), ("Default", "AnamorphicSqueezeRatio", "Anamorphic Squeeze Ratio"));
    assert_eq!(describe_tag(0x1).0, "Unknown");
}

const LENS_UNIT: [u8; 16] = [0x06, 0x0E, 0x2B, 0x34, 0x02, 0x53, 0x01, 0x01, 0x0C, 0x02, 0x01, 0x01, 0x01, 0x01, 0x00, 0x00];

#[test]
fn metadata_sets_of_a_pack() {
    let mut d = LENS_UNIT.to_vec();
    d.push(5);
    d.extend([0xe1, 0x00, 0x00, 0x01, 0x01]);
    let mut other = LENS_UNIT;
    other[12] = 0x55;
    d.extend(other);
    d.extend([0x82, 0x00, 0x02, 9, 9]);
    d.extend([0x11; 16]);
    d.extend(LENS_UNIT);
    d.push(6);
    d.extend([0xe2, 0x24, 0x00, 0x02, 0x07, 0x08]);
    let tags = parse_metadata(&d).expect("tags");
    assert_eq!(tags.len(), 2);
    assert_eq!((tags[0].tag, tags[0].start, tags[0].end), (0xe100, 21, 22));
    assert_eq!(tags[1].tag, 0xe224);
    assert_eq!(&d[tags[1].start..tags[1].end], &[7, 8]);
    assert_eq!(value(tags[0].tag, &d[tags[0].start..tags[0].end]), CanonValue::Text("FNumber".to_string()));
}

#[test]
fn packs_that_fail() {
    let mut d = LENS_UNIT.to_vec();
    d.push(0x89);
    d.extend([0u8; 9]);
    assert_eq!(parse_metadata(&d).err(), Some(PackError::Malformed));
    let mut d = LENS_UNIT.to_vec();
    d.push(10);
    d.extend([0xe1, 0x00]);
    assert_eq!(parse_metadata(&d).err(), Some(PackError::Cut));
    let mut d = vec![1, 2, 3, 4];
    d.extend([0u8; 12]);
    d.extend([0x06, 0x0e]);
    assert_eq!(parse_metadata(&d).err(), Some(PackError::Cut));
    assert_eq!(parse_metadata(&[0u8; 20]).map(|v| v.len()), Ok(0));
}
