use telemetry_parser::canon::{Canon, SamplePacks};

const LENS_UNIT: [u8; 16] = [0x06, 0x0E, 0x2B, 0x34, 0x02, 0x53, 0x01, 0x01, 0x0C, 0x02, 0x01, 0x01, 0x01, 0x01, 0x00, 0x00];

fn pack() -> Vec<u8> {
    let mut d = LENS_UNIT.to_vec();
    d.push(5);
    d.extend([0xe1, 0x00, 0x00, 0x01, 0x01]);
    d
}

fn packs(r: SamplePacks) -> Vec<(usize, Vec<(u16, usize, usize)>)> {
    match r {
        SamplePacks::Packs(v) => v
            .into_iter()
            .map(|(s, t)| (s, t.into_iter().map(|x| (x.tag, x.start, x.end)).collect()))
            .collect(),
        SamplePacks::Malformed => panic!("malformed"),
    }
}

#[test]
fn cndm_sample_packs() {
    let p = pack();
    let mut d = Vec::new();
    // A timecode block.
    d.extend(1u32.to_le_bytes());
    d.extend(12u32.to_le_bytes());
    d.extend([0u8; 12]);
    // An acquisition metadata block.
    d.extend(2u32.to_le_bytes());
    d.extend((p.len() as u32).to_le_bytes());
    d.extend(&p);
    // An unknown block, then one that runs past the data.
    d.extend(7u32.to_le_bytes());
    d.extend(2u32.to_le_bytes());
    d.extend([9, 9]);
    d.extend(2u32.to_le_bytes());
    d.extend(100u32.to_le_bytes());
    d.extend(&p);
    let got = packs(Canon::sample_packs(&d, false));
    assert_eq!(got, vec![(28, vec![(0xe100, 21, 22)])]);
}

#[test]
fn crm_sample_packs() {
    let p = pack();
    let mut d = Vec::new();
    d.extend(((p.len() + 12) as u32).to_le_bytes());
    d.extend(13u32.to_le_bytes());
    d.extend([1, 0, 0, 0]);
    d.extend(&p);
    d.extend(((p.len() + 12) as u32).to_le_bytes());
    d.extend(13u32.to_le_bytes());
    d.extend([1, 0, 0, 0]);
    d.extend(&p);
    let got = packs(Canon::sample_packs(&d, true));
    assert_eq!(got, vec![(12, vec![(0xe100, 21, 22)]), (12 + p.len() + 12, vec![(0xe100, 21, 22)])]);
    // A length below 8.
    let mut bad = d.clone();
    bad.extend(4u32.to_le_bytes());
    assert!(matches!(Canon::sample_packs(&bad, true), SamplePacks::Malformed));
    // Too short to hold anything.
    assert_eq!(packs(Canon::sample_packs(&[1, 2, 3, 4, 5, 6, 7, 8], true)), vec![]);
}

#[test]
fn canon_detect_and_model() {
    let c = Canon::detect(b"....ftypcrx....Canon EOS R5C", "a.crm").unwrap();
    assert!(c.is_crm);
    assert!(c.model.is_none());
    let c = Canon::detect(b"Canon EOS C70", "a.mp4").unwrap();
    assert!(!c.is_crm);
    assert!(Canon::detect(b"Sony", "a.mp4").is_none());
    assert_eq!(Canon::model_from_name("Canon EOS R5 C"), "EOS R5 C");
    assert_eq!(Canon::model_from_name("EOS C300"), "EOS C300");
    assert_eq!(c.camera_type(), "Canon");
    assert_eq!(Canon::possible_extensions(), vec!["mp4", "mov", "mxf", "crm"]);
}
