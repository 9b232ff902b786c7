use telemetry_parser::ardupilot_bin::{parse_log, read_field, FieldValue, LogField, LogItem};
use telemetry_parser::tags::ParseError;

fn padded(text: &str, n: usize) -> Vec<u8> {
    let mut v = text.as_bytes().to_vec();
    v.resize(n, 0);
    v
}

fn format_message(typ: u8, name: &str, format: &str, labels: &str) -> Vec<u8> {
    let mut v = vec![0xA3, 0x95, 0x80, typ, 0];
    v.extend(padded(name, 4));
    v.extend(padded(format, 16));
    v.extend(padded(labels, 64));
    v
}

fn field<'a>(item: &'a LogItem, label: &str) -> &'a LogField {
    item.fields.iter().find(|f| f.label == label).expect("field present")
}

#[test]
fn reads_a_message_described_by_a_format() {
    let mut log = format_message(0x81, "TEST", "BHn", "A,B,C");
    log.extend([0xA3, 0x95, 0x81, 5, 0x01, 0x02, b'a', b'b', 0, 0]);
    let items = parse_log(&log).expect("complete log");
    assert_eq!(items.len(), 1);
    let item = &items[0];
    assert_eq!(item.typ, 0x81);
    assert_eq!(item.name, "TEST");
    assert_eq!(item.fields.len(), 3);
    assert_eq!(item.fields[0].label, "A");
    assert_eq!(item.fields[0].value, FieldValue::U8(5));
    assert_eq!(item.fields[1].label, "B");
    assert_eq!(item.fields[1].value, FieldValue::U16(0x0201));
    assert_eq!(item.fields[2].label, "C");
    assert_eq!(item.fields[2].value, FieldValue::Text("ab".to_string()));
    assert_eq!(item.fields[0].unit, None);
    assert_eq!(item.fields[0].multiplier_id, None);
}

#[test]
fn skips_bytes_between_messages_and_unknown_types() {
    let mut log = vec![0, 0];
    log.extend(format_message(0x81, "TEST", "b", "X"));
    log.extend([0xA3, 0x95, 0x99]);
    log.extend([0xA3, 0x95, 0x81, 0xFE]);
    let items = parse_log(&log).expect("complete log");
    assert_eq!(items.len(), 1);
    assert_eq!(items[0].fields[0].value, FieldValue::I8(-2));
}

#[test]
fn cut_format_message_is_an_error() {
    let mut log = format_message(0x81, "TEST", "B", "A");
    log.truncate(40);
    assert_eq!(parse_log(&log).err(), Some(ParseError::UnexpectedEof));
}

#[test]
fn empty_log_has_no_messages() {
    assert_eq!(parse_log(&[]).map(|v| v.len()), Ok(0));
    assert_eq!(parse_log(&[0xA3, 0x95]).map(|v| v.len()), Ok(0));
}

#[test]
fn unit_and_fmtu_messages_name_units_and_multipliers() {
    let mut log = format_message(0x82, "UNIT", "bZ", "Id,Label");
    log.extend(format_message(0x83, "FMTU", "BNN", "FmtType,UnitIds,MultIds"));
    log.extend(format_message(0x81, "TEST", "BBB", "A,B,C"));
    log.extend([0xA3, 0x95, 0x82, b'x']);
    log.extend(padded("widgets", 64));
    log.extend([0xA3, 0x95, 0x83, 0x81]);
    log.extend(padded("xmj", 16));
    log.extend(padded("0?2", 16));
    log.extend([0xA3, 0x95, 0x81, 1, 2, 3]);
    let items = parse_log(&log).expect("complete log");
    assert_eq!(items.len(), 3);
    assert_eq!(items[0].name, "UNIT");
    assert_eq!(field(&items[0], "Label").value, FieldValue::Text("widgets".to_string()));
    assert_eq!(items[1].name, "FMTU");
    let test = &items[2];
    assert_eq!(test.name, "TEST");
    assert_eq!(field(test, "A").unit, Some("widgets".to_string()));
    assert_eq!(field(test, "A").multiplier_id, Some('0'));
    assert_eq!(field(test, "B").unit, Some("m".to_string()));
    assert_eq!(field(test, "B").multiplier_id, Some('?'));
    assert_eq!(field(test, "C").unit, Some("j".to_string()));
    assert_eq!(field(test, "C").multiplier_id, Some('2'));
    assert_eq!(field(test, "C").value, FieldValue::U8(3));
}

#[test]
fn format_with_fewer_labels_than_fields_is_not_read() {
    let mut log = format_message(0x81, "TEST", "BB", "A");
    log.extend([0xA3, 0x95, 0x81, 1, 2]);
    assert_eq!(parse_log(&log).map(|v| v.len()), Ok(0));
}

#[test]
fn read_field_values() {
    assert_eq!(read_field(&[0xFF], 0, 'b'), (Some(FieldValue::I8(-1)), 1));
    assert_eq!(read_field(&[0xFF, 0xFF], 0, 'h'), (Some(FieldValue::I16(-1)), 2));
    assert_eq!(read_field(&[1, 0, 0, 0, 0, 0, 0, 0x80], 0, 'q'), (Some(FieldValue::I64(i64::MIN + 1)), 8));
    assert_eq!(read_field(&[0, 0, 0x80, 0x3F], 0, 'f'), (Some(FieldValue::F32Bits(0x3F80_0000)), 4));
    assert_eq!(read_field(&[1, 2, 3, 4], 1, 'I'), (None, 4));
    assert_eq!(read_field(&[1, 2, 3], 1, 'x'), (None, 1));
    assert_eq!(read_field(&[1, 0, 0xFF, 0xFF, 7], 0, 'a'), (Some(FieldValue::I16s(vec![1, -1])), 5));
    assert_eq!(read_field(&[b'h', b'i', 0, 0], 0, 'n'), (Some(FieldValue::Text("hi".to_string())), 4));
}
