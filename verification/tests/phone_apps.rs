use telemetry_parser::phone_apps::{csv_companions, is_numbers_only, video_companion, PhoneApps};

fn model_of(buf: &[u8], logger: bool, record: bool, opencamera: bool) -> Option<String> {
    PhoneApps::detect(buf, "/p/log.csv", logger, record, opencamera).map(|a| a.model.unwrap())
}

#[test]
fn fixed_properties() {
    let app = PhoneApps { model: None, path: String::new() };
    assert_eq!(app.camera_type(), "Mobile app");
    assert!(!app.has_accurate_timestamps());
    assert!(PhoneApps::possible_extensions().is_empty());
    assert_eq!(PhoneApps::normalize_imu_orientation("xZy".to_string()), "xZy");
}

#[test]
fn apps_by_header() {
    assert_eq!(model_of(b"Time,Xg,Yg,Zg,Pitch,Roll,Yaw\n1,2,3", false, false, false), Some("GF Recorder".to_string()));
    assert_eq!(
        model_of(b"Time, Rotation Rate (X), Rotation Rate (Y), Rotation Rate (Z)\n", false, false, false),
        Some("Gyro".to_string())
    );
    assert_eq!(model_of(b"time,seconds_elapsed,z,y,x\n", false, false, false), Some("Sensor Logger Android".to_string()));
    assert_eq!(model_of(b"....mettapplication/gyro....", false, false, false), Some("Film it".to_string()));
    assert_eq!(model_of(b"nothing here", false, false, false), None);
}

#[test]
fn app_order_and_outside_findings() {
    assert_eq!(model_of(b"Time,Xg,Yg,Zg,Pitch,Roll,Yaw\n", true, false, false), Some("Sensor Logger".to_string()));
    assert_eq!(model_of(b"1,2,3", false, true, true), Some("Sensor Record".to_string()));
    assert_eq!(model_of(b"mettapplication/gyro", false, false, true), Some("OpenCamera Sensors".to_string()));
    let a = PhoneApps::detect(b"time,seconds_elapsed,z,y,x", "/p/Gyroscope.csv", false, false, false).unwrap();
    assert_eq!(a.path, "/p/Gyroscope.csv");
}

#[test]
fn gf_recorder_header_ignores_the_last_byte() {
    assert_eq!(model_of(b"Time Xg Yg Zg Pitch Roll Yaw", false, false, false), None);
    assert_eq!(model_of(b"Time Xg Yg Zg Pitch Roll Yaw ", false, false, false), Some("GF Recorder".to_string()));
}

#[test]
fn numeric_csv_check() {
    assert!(is_numbers_only(b"1.5e-3,2,3\n4,5,6\r\n"));
    assert!(!is_numbers_only(b"1,2,3"));
    assert!(!is_numbers_only(b"time,1,2,3,4,5"));
}

#[test]
fn companion_csv_names() {
    let v = csv_companions("20240101_120000gyro.csv").unwrap();
    assert_eq!(
        v,
        vec![
            "20240101_120000gyro.csv".to_string(),
            "20240101_120000accel.csv".to_string(),
            "20240101_120000magnetic.csv".to_string()
        ]
    );
    let v = csv_companions("rec_imu_timestamps.csv").unwrap();
    assert_eq!(v[1], "recaccel.csv");
    assert_eq!(csv_companions("video.mp4"), None);
}

#[test]
fn companion_of_a_video() {
    assert_eq!(
        video_companion("VID_20240101_120000.mp4"),
        Some(("20240101_120000".to_string(), "VID_20240101_120000gyro.csv".to_string()))
    );
    assert_eq!(video_companion("clip.mov"), None);
}
