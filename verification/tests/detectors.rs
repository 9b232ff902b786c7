use telemetry_parser::ardupilot::ArduPilot;
use telemetry_parser::blackbox::{BlackBox, FieldType};
use telemetry_parser::formats::{Cooke, EspLog, Freefly, KanDao, QoocamEgo, SenseFlow};
use telemetry_parser::tags::{GroupId, TagId};

#[test]
fn ardupilot_logs() {
    let mut bin = vec![0xA3, 0x95, 0x80, 0x80];
    bin.extend_from_slice(b"..BBnNZ..Type,Length,Name,Format,Columns");
    bin.resize(300, 0);
    assert_eq!(ArduPilot::detect(&bin, "a.bin").unwrap().model.as_deref(), Some(".bin"));
    let text = b"FMT, 1\nPARM, x\nVSTB, y\n";
    assert_eq!(ArduPilot::detect(text, "a.log").unwrap().model.as_deref(), Some(".log"));
    assert!(ArduPilot::detect(b"FMT,PARM,", "x").is_none());
    let a = ArduPilot { model: None };
    assert_eq!(a.camera_type(), "ArduPilot");
    assert_eq!(ArduPilot::possible_extensions(), vec!["bin", "log"]);
}

#[test]
fn blackbox_logs() {
    let b = BlackBox::detect(b"H Product:Blackbox\nH Firmware revision:Betaflight 4.5\n", "x").unwrap();
    assert!(!b.is_csv());
    assert_eq!(b.model.as_deref(), Some("Betaflight 4.5"));
    let c = BlackBox::detect(b"\"Firmware revision\",\"INAV 7\"\n\"loopIteration\",\"time\"", "x").unwrap();
    assert!(c.is_csv());
    assert_eq!(c.model.as_deref(), Some("INAV 7"));
    assert!(BlackBox::detect(b"loopIteration;time", "x").is_none());
    assert_eq!(BlackBox::normalize_imu_orientation("XYZ".to_string()), "ZYx");
    assert_eq!(BlackBox::possible_extensions(), vec!["bfl", "bbl", "csv", "txt"]);
}

#[test]
fn blackbox_columns() {
    assert!(matches!(BlackBox::parse_field_name("gyroADC[1]"), FieldType::Vector3(n, 1) if n == "gyroADC"));
    assert!(matches!(BlackBox::parse_field_name("motor[3]"), FieldType::Vector8(n, 3) if n == "motor"));
    assert!(matches!(BlackBox::parse_field_name("GPS_coord[0]"), FieldType::Vector2(n, 0) if n == "GPS_coord"));
    assert!(matches!(BlackBox::parse_field_name("rcCommand[2]"), FieldType::Vector4(n, 2) if n == "rcCommand"));
    assert!(matches!(BlackBox::parse_field_name("time"), FieldType::Single(n) if n == "time"));
    assert_eq!(BlackBox::tag_id("gyroADC"), TagId::Data);
    assert_eq!(BlackBox::tag_id("vbat"), TagId::Custom("vbat".to_string()));
    assert_eq!(BlackBox::group_from_key("accSmooth"), GroupId::Accelerometer);
    assert_eq!(BlackBox::group_from_key("vbat"), GroupId::Custom("vbat".to_string()));
}

#[test]
fn lens_and_logger_formats() {
    assert_eq!(
        Cooke::detect(b"RecordType: rt.header.lens.info\n", "x").unwrap().model.as_deref(),
        Some("YAML metadata")
    );
    assert!(Cooke::detect(b"RecordType: rt.temporal", "x").is_none());
    assert!(EspLog::detect(b"EspLog0\x01", "x").is_some());
    assert!(EspLog::detect(b"EspLog0", "x").is_none());
    assert!(KanDao::detect(b"KANDAO_IMU_DATA..GYROACC", "x").is_some());
    assert!(KanDao::detect(b"KANDAO_IMU_DATA", "x").is_none());
    assert_eq!(QoocamEgo::detect(b"xx QooCam 3 Ultra", "x").unwrap().model.as_deref(), Some("QooCam 3 Ultra"));
    assert_eq!(QoocamEgo::detect(b"QooCam 3 Ultra QooCam EGO", "x").unwrap().model.as_deref(), Some("QooCam EGO"));
    assert!(SenseFlow::detect(b"xxSenseFlow.....", "x").is_some());
    assert!(SenseFlow::detect(b"xxxxSenseFlow....", "x").is_none());
    assert_eq!(Cooke { model: None }.camera_type(), "Cooke /i");
    assert_eq!(KanDao { model: None }.camera_type(), "KanDao");
    assert_eq!(EspLog::possible_extensions(), vec!["bin"]);
}

#[test]
fn freefly_detection() {
    let f = Freefly::detect(b"....com.freeflysystems.frame-metadata....", "clip.mov").unwrap();
    assert!(f.model.is_none());
    assert_eq!(f.camera_type(), "Freefly");
    assert!(f.has_accurate_timestamps());
    assert_eq!(Freefly::possible_extensions(), vec!["mov", "mp4"]);
    assert!(Freefly::detect(b"com.freeflysystems", "clip.mov").is_none());
}
