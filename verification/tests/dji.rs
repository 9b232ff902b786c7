use telemetry_parser::dji::{detect_protobuf, gps_alt_type_str, gps_status_str, normalize_model_name, parse_gps_datetime, u64_to_decimal, DeviceProtobuf};

#[test]
fn model_name_without_prefix_and_extra_space() {
    assert_eq!(normalize_model_name("DJI  Mini 4 Pro\n"), "Mini 4 Pro");
    assert_eq!(normalize_model_name("DJI Osmo\r\nAction  4"), "Osmo Action 4");
    assert_eq!(normalize_model_name("   "), "");
    assert_eq!(normalize_model_name("Avata"), "Avata");
}

#[test]
fn gps_status_names() {
    assert_eq!(gps_status_str(0), "GPS_NORMAL");
    assert_eq!(gps_status_str(1), "GPS_INVALID");
    assert_eq!(gps_status_str(2), "GPS_RTK");
    assert_eq!(gps_status_str(5), "GPS_UNKNOWN(5)");
    assert_eq!(gps_status_str(1234567), "GPS_UNKNOWN(1234567)");
}

#[test]
fn gps_altitude_type_names() {
    assert_eq!(gps_alt_type_str(0), "PRESSURE_ALTITUDE");
    assert_eq!(gps_alt_type_str(1), "GPS_FUSION_ALTITUDE");
    assert_eq!(gps_alt_type_str(2), "RTK_ALTITUDE");
    assert_eq!(gps_alt_type_str(12), "ALTITUDE_UNKNOWN(12)");
}

#[test]
fn decimal_digits() {
    let s: String = u64_to_decimal(0).into_iter().collect();
    assert_eq!(s, "0");
    let s: String = u64_to_decimal(18446744073709551615).into_iter().collect();
    assert_eq!(s, "18446744073709551615");
}

#[test]
fn metadata_schema_by_product_code() {
    assert_eq!(detect_protobuf(b"....ac204...."), DeviceProtobuf::Ac204);
    assert_eq!(detect_protobuf(b"ac204 ac203"), DeviceProtobuf::Ac203);
    assert_eq!(detect_protobuf(b"xxOW001"), DeviceProtobuf::Ow001);
    assert_eq!(detect_protobuf(b"xxow001"), DeviceProtobuf::Ow001);
    assert_eq!(detect_protobuf(b"wa530"), DeviceProtobuf::Wa530);
    assert_eq!(detect_protobuf(b"wm169 data"), DeviceProtobuf::Wm169);
    let mut late = vec![0u8; 130];
    late.extend_from_slice(b"ac203");
    assert_eq!(detect_protobuf(&late), DeviceProtobuf::Wm169);
}

#[test]
fn gps_datetime_formats() {
    assert_eq!(parse_gps_datetime("2024-01-02 03:04:05"), Some(1704164645));
    assert_eq!(parse_gps_datetime("  2024-01-02 03-04-05 \n"), Some(1704164645));
    assert_eq!(parse_gps_datetime("2024:01:02 03:04:05"), Some(1704164645));
    assert_eq!(parse_gps_datetime("2024:01:02 03-04-05"), Some(1704164645));
    assert_eq!(parse_gps_datetime("1970-01-01 00:00:00"), Some(0));
    assert_eq!(parse_gps_datetime("2024/01/02 03:04:05"), None);
    assert_eq!(parse_gps_datetime(""), None);
}
