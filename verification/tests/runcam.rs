use telemetry_parser::runcam::Runcam;

fn files() -> Vec<(String, String)> {
    vec![
        ("RC_GyroData0042.csv".to_string(), "/f/RC_GyroData0042.csv".to_string()),
        ("gyroData0007.csv".to_string(), "/f/gyroData0007.csv".to_string()),
        ("Thumb_0001.csv".to_string(), "/f/Thumb_0001.csv".to_string()),
    ]
}

#[test]
fn brand_by_model() {
    let r = Runcam { model: Some("iFlight GOCam GR".to_string()), gyro_buf: vec![] };
    assert_eq!(r.camera_type(), "iFlight");
    let r = Runcam { model: Some("Mobius Maxi 4K".to_string()), gyro_buf: vec![] };
    assert_eq!(r.camera_type(), "Mobius");
    let r = Runcam { model: None, gyro_buf: vec![] };
    assert_eq!(r.camera_type(), "Runcam");
    assert!(!r.has_accurate_timestamps());
    assert!(Runcam::possible_extensions().is_empty());
    assert_eq!(Runcam::normalize_imu_orientation("XYZ".to_string()), "XYZ");
}

#[test]
fn logs_by_header_and_name() {
    let r = Runcam::detect(b"time,rx,ry,rz,ax,ay,az,temp\n0,1,2,3".to_vec(), "/f/RC_0042.MP4").unwrap();
    assert_eq!(r.model.as_deref(), Some("Mobius Maxi 4K"));
    let r = Runcam::detect(b"time,x,y,z,ax,ay,az\n".to_vec(), "/f/RC_0042.MP4").unwrap();
    assert_eq!(r.model.as_deref(), Some("Runcam 5 Orange"));
    assert_eq!(r.gyro_buf, b"time,x,y,z,ax,ay,az\n".to_vec());
    let r = Runcam::detect(b"time(ms),x,y,z\n".to_vec(), "C:\\f\\IF-RC_0007.mp4").unwrap();
    assert_eq!(r.model.as_deref(), Some("iFlight GOCam GR"));
    let r = Runcam::detect(b"time,x,y,z".to_vec(), "/f/Thumb_0001.mp4").unwrap();
    assert_eq!(r.model.as_deref(), Some("Thumb"));
    let r = Runcam::detect(b"time,x,y,z".to_vec(), "/f/other.csv").unwrap();
    assert_eq!(r.model, None);
    assert!(Runcam::detect(b"time,x,y".to_vec(), "/f/RC_1.mp4").is_none());
}

#[test]
fn companion_logs_of_videos() {
    let f = files();
    assert_eq!(Runcam::detect_gyro_path("RC_0042_x.MP4", &f), Some("/f/RC_GyroData0042.csv".to_string()));
    assert_eq!(Runcam::detect_gyro_path("IF-RC_0007.MP4", &f), Some("/f/gyroData0007.csv".to_string()));
    assert_eq!(Runcam::detect_gyro_path("Thumb_0001.mp4", &f), Some("/f/Thumb_0001.csv".to_string()));
    assert_eq!(Runcam::detect_gyro_path("RC_0001.MP4", &f), None);
    assert_eq!(Runcam::detect_gyro_path("GX0001.MP4", &f), None);
}

#[test]
fn companion_only_beside_videos() {
    let f = files();
    assert_eq!(Runcam::gyro_log_path("/f/RC_0042_x.Mp4", &f), Some("/f/RC_GyroData0042.csv".to_string()));
    assert_eq!(Runcam::gyro_log_path("/f/RC_0042_x.mov", &f), None);
}
