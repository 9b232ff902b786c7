use telemetry_parser::canon::{parse_tags, read_ber, read_utf8, CanonTag};
use telemetry_parser::tags::ParseError;

#[test]
fn ber_lengths() {
    assert_eq!(read_ber(&[0x05], 0), Ok((5, 1)));
    assert_eq!(read_ber(&[0xff, 0x82, 0x01, 0x00], 1), Ok((256, 4)));
    assert_eq!(read_ber(&[0x82, 0x01], 0), Err(ParseError::UnexpectedEof));
    assert_eq!(read_ber(&[0x80], 0), Ok((0, 1)));
    assert_eq!(read_ber(&[], 0), Err(ParseError::UnexpectedEof));
}

#[test]
fn canon_text_values() {
    assert_eq!(read_utf8(b"EOS R5\0junk"), Ok("EOS R5".to_string()));
    assert_eq!(read_utf8(b"plain"), Ok("plain".to_string()));
    assert_eq!(read_utf8(&[0xff, 0]), Err(ParseError::InvalidData));
}

fn spans(v: &[CanonTag]) -> Vec<(u16, usize, usize)> {
    v.iter().map(|t| (t.tag, t.start, t.end)).collect()
}

#[test]
fn tags_of_a_pack() {
    let mut d = vec![0x81, 0x01, 0x00, 0x02, b'a', b'b'];
    d.extend_from_slice(&[0x83, 0x00, 0x00, 0x06, 0xe1, 0x08, 0x00, 0x02, b'x', b'y']);
    d.extend_from_slice(&[0x00, 0x00, 0x12, 0x34]);
    let mut out = Vec::new();
    parse_tags(&d, 0, d.len(), &mut out).unwrap();
    assert_eq!(spans(&out), vec![(0x8101, 4, 6), (0xe108, 14, 16)]);
}

#[test]
fn key_skip_and_cut_off_tags() {
    let mut d = vec![0x06, 0x0e];
    d.extend_from_slice(&[0u8; 14]);
    d.extend_from_slice(&[0xe1, 0x00, 0x00, 0x01, 0x01]);
    let mut out = Vec::new();
    parse_tags(&d, 0, d.len(), &mut out).unwrap();
    assert_eq!(spans(&out), vec![(0xe100, 20, 21)]);
    let mut out = Vec::new();
    assert_eq!(parse_tags(&[0xe1, 0x00, 0x00], 0, 3, &mut out), Err(ParseError::UnexpectedEof));
    let mut out = Vec::new();
    parse_tags(&[0xe1, 0x00, 0x00, 0x09, 1], 0, 5, &mut out).unwrap();
    assert!(out.is_empty());
}
