use telemetry_parser::nikon::{
    frames_to_timecode, nev_clip_tags, nev_frame_atoms, nev_i32, nev_number, nev_rational, nev_string, nev_u32, NevNumber,
};
use telemetry_parser::tags::ParseError;

fn tag(id: u32, ty: u16, count: u16, value: &[u8]) -> Vec<u8> {
    let mut v = id.to_be_bytes().to_vec();
    v.extend_from_slice(&ty.to_be_bytes());
    v.extend_from_slice(&count.to_be_bytes());
    v.extend_from_slice(value);
    v
}

fn atom(name: &[u8; 4], body: &[u8]) -> Vec<u8> {
    let mut v = ((body.len() + 8) as u32).to_be_bytes().to_vec();
    v.extend_from_slice(name);
    v.extend_from_slice(body);
    v
}

#[test]
fn clip_header_entries() {
    let mut d = tag(2, 2, 6, b"Z 8\0\0\0");
    d.extend(tag(0x16, 5, 1, &[0, 0, 0, 25, 0, 0, 0, 1]));
    d.extend(tag(0x22, 3, 1, &[0x0f, 0x00]));
    d.extend(tag(0x99, 4, 2, &[0, 0, 0, 1]));
    let t = nev_clip_tags(&d);
    assert_eq!(t.len(), 3);
    assert_eq!((t[0].tag_id, t[0].type_id), (2, 2));
    assert_eq!(nev_string(&t[0].value), "Z 8");
    assert_eq!(nev_rational(&t[1].value), Some((25, 1)));
    assert_eq!(nev_u32(t[2].type_id, &t[2].value), Some(3840));
}

#[test]
fn clip_header_unknown_type_counts_bytes() {
    let d = tag(7, 99, 3, b"abc");
    let t = nev_clip_tags(&d);
    assert_eq!(t.len(), 1);
    assert_eq!(t[0].value, b"abc".to_vec());
    assert!(nev_clip_tags(&d[..7]).is_empty());
}

#[test]
fn frame_atoms_in_containers() {
    let mut nrmt = 0x0110_8832u32.to_be_bytes().to_vec();
    nrmt.push(0);
    nrmt.extend_from_slice(&800u32.to_be_bytes());
    let inner = atom(b"NRMT", &nrmt);
    let mut d = vec![0xff, 0xff];
    d.extend(atom(b"NRFH", &inner));
    d.extend(atom(b"XXXX", &[1, 2, 3, 4]));
    let a = nev_frame_atoms(&d).unwrap();
    assert_eq!(a.len(), 1);
    assert_eq!(a[0].tag_id, 0x0110_8832);
    assert_eq!(nev_u32(4, &a[0].value), Some(800));
}

#[test]
fn thumbnail_atoms_are_skipped_or_fail() {
    let mut body = vec![0, 0, 0, 0];
    body.extend_from_slice(&8u32.to_be_bytes());
    body.extend_from_slice(&[9; 8]);
    let mut d = atom(b"NRTI", &body);
    let mut nrmt = 5u32.to_be_bytes().to_vec();
    nrmt.push(0);
    nrmt.push(42);
    d.extend(atom(b"NRMT", &nrmt));
    let a = nev_frame_atoms(&d).unwrap();
    assert_eq!(a.len(), 1);
    assert_eq!(a[0].value, vec![42]);
    let cut = atom(b"NRTI", &[0, 0, 0, 0]);
    assert_eq!(nev_frame_atoms(&cut).unwrap_err(), ParseError::UnexpectedEof);
}

#[test]
fn integer_values() {
    assert_eq!(nev_u32(3, &[0x12, 0x34]), Some(0x1234));
    assert_eq!(nev_u32(9, &[0xff, 0xff, 0xff, 0xff]), Some(0xffff_ffff));
    assert_eq!(nev_u32(4, &[0x12, 0x34]), None);
    assert_eq!(nev_u32(2, &[0x12, 0x34]), None);
    assert_eq!(nev_i32(8, &[0xff, 0xfe]), Some(-2));
    assert_eq!(nev_i32(9, &[0x80, 0, 0, 0]), Some(i32::MIN));
    assert_eq!(nev_i32(6, &[0x80]), Some(-128));
    assert_eq!(nev_i32(3, &[0x80, 0]), None);
}

#[test]
fn rational_and_numeric_values() {
    assert_eq!(nev_rational(&[0, 0, 0, 1, 0, 0, 0, 0]), None);
    assert_eq!(nev_number(10, &[0xff, 0xff, 0xff, 0xfd, 0, 0, 0, 3]), Some(NevNumber::SignedRatio(-3, 3)));
    assert_eq!(nev_number(5, &[0, 0, 0, 1, 0, 0, 0, 0]), None);
    assert_eq!(nev_number(11, &1.5f32.to_be_bytes()), Some(NevNumber::Float32Bits(1.5f32.to_bits())));
    assert_eq!(nev_number(12, &2.25f64.to_be_bytes()), Some(NevNumber::Float64Bits(2.25f64.to_bits())));
    assert_eq!(nev_number(7, &[200]), Some(NevNumber::Unsigned(200)));
    assert_eq!(nev_number(8, &[0x80, 0x00]), Some(NevNumber::Signed(-32768)));
    assert_eq!(nev_number(2, b"12"), None);
}

#[test]
fn nev_text_values() {
    assert_eq!(nev_string(b"NIKON\0junk"), "NIKON");
    assert_eq!(nev_string(b""), "");
    assert_eq!(nev_string(b"\xffA"), "\u{fffd}A");
}

#[test]
fn timecodes() {
    assert_eq!(frames_to_timecode(0, 25), "00:00:00:00");
    assert_eq!(frames_to_timecode(3661 * 25 + 7, 25), "01:01:01:07");
    assert_eq!(frames_to_timecode(125, 120), "00:00:01:05");
    assert_eq!(frames_to_timecode(250, 250), "00:00:01:00");
    assert_eq!(frames_to_timecode(249, 250), "00:00:00:249");
}
