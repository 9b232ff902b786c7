use telemetry_parser::cooke_yaml::{
    sample_ends, yaml_chunks, yaml_events, yaml_file_plan, yaml_plan, yaml_record, YamlClock, YamlEvent, YamlRecord, YamlStep,
};

#[test]
fn yaml_records_between_blank_lines() {
    let s = "RecordType: a\nX: 1\n\nRecordType: b\n\n  \n\n\nRecordType: c\n";
    assert_eq!(yaml_chunks(s), vec!["RecordType: a\nX: 1", "RecordType: b", "\nRecordType: c\n"]);
    assert_eq!(yaml_chunks(""), Vec::<String>::new());
    assert_eq!(yaml_chunks("\n\n\n\n"), Vec::<String>::new());
    assert_eq!(yaml_chunks("one"), vec!["one"]);
}

#[test]
fn yaml_record_kinds() {
    assert_eq!(yaml_record("rt.header.lens.info"), Some(YamlRecord::LensInfo));
    assert_eq!(yaml_record("rt.temporal.lens.gyro.raw"), Some(YamlRecord::Gyro));
    assert_eq!(yaml_record("rt.header.lens.cal.magnetometer"), Some(YamlRecord::CalMagnetometer));
    assert_eq!(yaml_record("rt.header.recorder.info"), Some(YamlRecord::RecorderInfo));
    assert_eq!(yaml_record("rt.something.else"), None);
}

#[test]
fn yaml_clock_wraps_and_groups() {
    let mut c = YamlClock::new();
    let tc1 = Some((1, 2, 3, 4));
    let s = c.step(Some("rt.temporal.lens.gyro.raw"), Some(100), tc1).unwrap();
    assert_eq!(s, YamlStep { record: YamlRecord::Gyro, window: Some((0, 100)), new_sample: true });
    let s = c.step(Some("rt.temporal.lens.gyro.raw"), Some(300), tc1).unwrap();
    assert_eq!(s, YamlStep { record: YamlRecord::Gyro, window: Some((100, 300)), new_sample: false });
    // The raw timestamp wraps around.
    let s = c.step(Some("rt.temporal.lens.gyro.raw"), Some(50), Some((1, 2, 3, 5))).unwrap();
    assert_eq!(s.window, Some((300, 300 + 50 + 65535 - 300)));
    assert!(s.new_sample);
    assert_eq!(c.timestamp[1], 65585);
    // Another slot keeps its own clock.
    let s = c.step(Some("rt.temporal.lens.accelerometer.raw"), Some(10), Some((1, 2, 3, 5))).unwrap();
    assert_eq!(s.window, Some((0, 10)));
    // A header record without a timestamp.
    let s = c.step(Some("rt.header.lens.info"), None, None).unwrap();
    assert_eq!(s, YamlStep { record: YamlRecord::LensInfo, window: None, new_sample: true });
}

#[test]
fn yaml_clock_refusals() {
    let mut c = YamlClock::new();
    assert_eq!(c.step(Some("rt.unknown"), None, None), None);
    assert_eq!(c.step(None, None, None), None);
    // A timestamp on a header record.
    assert_eq!(c.step(Some("rt.header.lens.info"), Some(5), None), None);
    // A running timestamp that leaves `i64`.
    assert!(c.step(Some("rt.temporal.lens.general"), Some(i64::MAX), None).is_some());
    assert_eq!(c.step(Some("rt.temporal.lens.general"), Some(i64::MAX), None).map(|s| s.window), Some(Some((i64::MAX, i64::MAX))));
    // A wrapped raw timestamp whose wrap leaves `i64`: refused, the clock unchanged.
    assert_eq!(c.step(Some("rt.temporal.lens.general"), Some(i64::MAX - 1), None), None);
    assert_eq!(c.timestamp[3], i64::MAX);
    assert_eq!(c.prev_timestamp[3], i64::MAX);
}

fn ev(rtype: &str, ts: Option<i64>, tc: Option<(i64, i64, i64, i64)>) -> Option<YamlEvent> {
    Some(YamlEvent { rtype: Some(rtype.to_string()), ts, tc })
}

#[test]
fn yaml_plan_groups_and_stops() {
    let tc1 = Some((0, 0, 1, 0));
    let tc2 = Some((0, 0, 1, 1));
    let events = vec![
        ev("rt.header.lens.info", None, None),
        ev("rt.temporal.lens.gyro.raw", Some(10), tc1),
        ev("rt.temporal.lens.general", Some(3), tc1),
        ev("rt.temporal.lens.gyro.raw", Some(20), tc2),
        None,
        ev("rt.bogus", None, None),
    ];
    let steps = yaml_plan(&events).unwrap();
    assert_eq!(steps.len(), 4);
    assert_eq!(steps.iter().map(|s| s.new_sample).collect::<Vec<_>>(), vec![false, true, false, true]);
    assert_eq!(steps[3].window, Some((10, 20)));
    assert_eq!(yaml_plan(&[ev("rt.bogus", None, None)]), None);
    assert_eq!(yaml_plan(&[]), Some(vec![]));
}

#[test]
fn yaml_text_events_and_plan() {
    let text = "RecordType: rt.header.lens.info\n\nRecordType: rt.temporal.lens.gyro.raw\nTimestamp: 7\nTimecode:\n  hh: 1\n  mm: 2\n  ss: 3\n  ff: 4\n\n: : [\n\nRecordType: rt.bogus\n";
    let evs = yaml_events(text);
    assert_eq!(evs.len(), 3);
    let e0 = evs[0].as_ref().unwrap();
    assert_eq!(e0.rtype.as_deref(), Some("rt.header.lens.info"));
    assert_eq!((e0.ts, e0.tc), (None, None));
    let e1 = evs[1].as_ref().unwrap();
    assert_eq!((e1.ts, e1.tc), (Some(7), Some((1, 2, 3, 4))));
    assert!(evs[2].is_none());
    let steps = yaml_file_plan(text).unwrap();
    assert_eq!(steps.len(), 2);
    assert_eq!(steps.iter().map(|s| s.new_sample).collect::<Vec<_>>(), vec![false, true]);
    assert_eq!(sample_ends(&steps), vec![1]);
    assert_eq!(yaml_file_plan("RecordType: rt.bogus\n"), None);
}
