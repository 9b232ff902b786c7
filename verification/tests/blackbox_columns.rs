use telemetry_parser::blackbox::{BlackBox, ColumnKind, HeaderColumn};

#[test]
fn columns_grouped_by_vector() {
    let hs: Vec<String> = ["time", "gyroADC[0]", "gyroADC[1]", "gyroADC[2]", "motor[0]", "motor[1]", "GPS_coord[0]"]
        .iter()
        .map(|s| s.to_string())
        .collect();
    let c = BlackBox::prepare_vectors_from_headers(&hs);
    let d: Vec<(String, ColumnKind)> = c.descriptions.iter().map(|d| (d.name.clone(), d.kind)).collect();
    assert_eq!(
        d,
        vec![
            ("time".to_string(), ColumnKind::Single),
            ("gyroADC".to_string(), ColumnKind::Vector3),
            ("motor".to_string(), ColumnKind::Vector8),
            ("GPS_coord".to_string(), ColumnKind::Vector2),
        ]
    );
    assert_eq!(
        c.columns,
        vec![
            HeaderColumn { index: 0, desc: 0 },
            HeaderColumn { index: 0, desc: 1 },
            HeaderColumn { index: 1, desc: 1 },
            HeaderColumn { index: 2, desc: 1 },
            HeaderColumn { index: 0, desc: 2 },
            HeaderColumn { index: 1, desc: 2 },
            HeaderColumn { index: 0, desc: 3 },
        ]
    );
    let empty = BlackBox::prepare_vectors_from_headers(&[]);
    assert!(empty.descriptions.is_empty() && empty.columns.is_empty());
}

#[test]
fn blackbox_firmware_model() {
    let b = BlackBox::detect(b"H Product:Blackbox\nH Firmware revision:Betaflight 4.4\n", "a.bbl").unwrap();
    assert_eq!(b.model.as_deref(), Some("Betaflight 4.4"));
    let b = BlackBox::detect(b"\"Firmware revision\",\"INAV \xff7\"\n\"loopIteration\",\"time\"", "a.csv").unwrap();
    assert_eq!(b.model.as_deref(), Some("INAV \u{fffd}7"));
}
