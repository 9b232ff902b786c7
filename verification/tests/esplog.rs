use telemetry_parser::esplog::{decompress_block, read_events, yields_gyro_samples, Cdf, EspEvent, EspRead, LaplaceCdf, State, MODEL_LEN, SCALE};

fn table() -> Vec<u32> {
    (0..MODEL_LEN as u32).map(|i| 100 * i).collect()
}

fn model() -> LaplaceCdf {
    LaplaceCdf::from_table(table(), SCALE).unwrap()
}

#[test]
fn dequantisation_adds_shifted_updates() {
    let mut s = State::new();
    assert_eq!(s.dequant_one(&[1, -2, 3], 1), Some([2, -4, 6]));
    assert_eq!(s.v, [2, -4, 6]);
    assert_eq!(s.dequant_one(&[127, 0, 0], 0), None);
    assert_eq!(s.v, [129, -4, 6]);
    assert_eq!(s.dequant_one(&[-128, 0, -127], 0), None);
    let mut t = State::default();
    assert_eq!(t.dequant_one(&[-128, 5, 0], 0), Some([-128, 5, 0]));
}

#[test]
fn model_tables_must_increase() {
    assert!(LaplaceCdf::from_table(table(), SCALE).is_some());
    assert!(LaplaceCdf::from_table(table(), 14).is_none());
    let mut t = table();
    t[10] = t[9];
    assert!(LaplaceCdf::from_table(t, SCALE).is_none());
    let mut t = table();
    t[256] = 32768;
    assert!(LaplaceCdf::from_table(t, SCALE).is_none());
    assert!(LaplaceCdf::from_table(vec![0, 1, 2], SCALE).is_none());
}

#[test]
fn cumulative_frequencies_and_their_inverse() {
    let m = model();
    assert_eq!(m.cdf(-200), 0);
    assert_eq!(m.cdf(-127), 100);
    assert_eq!(m.cdf(0), 12800);
    assert_eq!(m.cdf(128), 25600);
    assert_eq!(m.cdf(129), 32768);
    assert_eq!(m.icdf(12850), 0);
    assert_eq!(m.icdf(99), -128);
    assert_eq!(m.icdf(30000), 128);
    assert_eq!(m.icdf(40000), 129);
    assert_eq!(m.scale(), 15);
}

#[test]
fn one_velocity_from_a_block() {
    let models = vec![model()];
    let data = [2u8, 32, 150, 50, 128, 1, 85, 102, 119, 136, 17, 34, 51, 68];
    let state = State { v: [10, 20, 30] };
    let mut quats = vec![[0i32; 3]; 1];
    let r = decompress_block(&state, &data, &mut quats, &models).unwrap();
    assert_eq!(r.new_state.v, [14, 20, 62]);
    assert_eq!(r.bytes_eaten, 9);
    assert_eq!(r.quats_put, 1);
    assert_eq!(quats[0], [14, 20, 62]);
}

#[test]
fn blocks_that_fail() {
    let models = vec![model()];
    let state = State { v: [10, 20, 30] };
    let mut quats = vec![[0i32; 3]; 1];
    let bad_checksum = [2u8, 0, 150, 50, 128, 1, 85, 102, 119, 136];
    assert!(decompress_block(&state, &bad_checksum, &mut quats, &models).is_none());
    let short = [2u8, 32, 150, 50, 128, 1];
    assert!(decompress_block(&state, &short, &mut quats, &models).is_none());
    let mut none = Vec::new();
    let r = decompress_block(&state, &[0u8, 0, 0, 0, 0, 0], &mut none, &models).unwrap();
    assert_eq!((r.bytes_eaten, r.quats_put), (6, 0));
    assert_eq!(r.new_state.v, [10, 20, 30]);
    assert!(decompress_block(&state, &[0u8, 0x20, 0, 0, 0, 0], &mut none, &models).is_none());
}

fn log_with(events: &[u8]) -> Vec<u8> {
    let mut d = b"EspLog0".to_vec();
    d.extend_from_slice(events);
    d
}

#[test]
fn events_of_a_log() {
    let models = vec![model()];
    let mut ev = vec![0x01, 0x01, 0x01, 0x00];
    ev.extend([0x03, 2, 32, 150, 50, 128, 1, 85, 102, 119]);
    ev.extend([0x02, 0xE8, 0x03, 0x00, 0x00]);
    ev.extend([0x04, 2, 3]);
    ev.extend([0x05, 1, 0, 2, 0, 3, 0, 0xFC, 0xFF, 0xFB, 0xFF, 0xFA, 0xFF]);
    ev.extend([0x06, 0xFB, 0xFF, 0xFF, 0xFF]);
    ev.extend([0x07, b'z', b'y', b'x']);
    ev.extend([0xFF, 0x02]);
    let EspRead::Events(events) = read_events(&log_with(&ev), &models) else { panic!("events expected") };
    assert_eq!(events.len(), 7);
    assert!(matches!(events[0], EspEvent::GyroSetup(1)));
    assert!(matches!(&events[1], EspEvent::Gyro(v) if v == &vec![[4, 0, 32]]));
    assert!(matches!(events[2], EspEvent::DeltaTime(1000)));
    assert!(matches!(events[3], EspEvent::AccelSetup(2, 3)));
    assert!(matches!(&events[4], EspEvent::Accel(v) if v == &vec![[-1, -2, -3], [4, 5, 6]]));
    assert!(matches!(events[5], EspEvent::TimeOffset(-5)));
    assert!(matches!(events[6], EspEvent::Orientation(b'z', b'y', b'x')));
}

#[test]
fn logs_that_end_early() {
    let models = vec![model()];
    assert!(matches!(read_events(b"EspLog0", &models), EspRead::Events(v) if v.is_empty()));
    assert!(matches!(read_events(b"Esp", &models), EspRead::Events(v) if v.is_empty()));
    assert!(matches!(read_events(&log_with(&[0x01, 0x02, 0x01, 0x00, 0x02, 1, 0, 0, 0]), &models), EspRead::Events(v) if v.is_empty()));
    assert!(matches!(read_events(&log_with(&[0x02, 1, 0]), &models), EspRead::Events(v) if v.is_empty()));
    let short_accel = log_with(&[0x04, 2, 0, 0x05, 1, 0, 2, 0]);
    assert!(matches!(read_events(&short_accel, &models), EspRead::Events(v) if v.len() == 1));
}

#[test]
fn malformed_logs() {
    let models = vec![model()];
    assert!(matches!(read_events(&log_with(&[0x03, 2, 5, 0, 0, 0, 0]), &models), EspRead::Malformed));
    assert!(matches!(read_events(&log_with(&[0x04, 1, 40]), &models), EspRead::Malformed));
    assert!(matches!(read_events(&log_with(&[0x04, 1, 0, 0x05, 0x00, 0x80, 0, 0, 0, 0]), &models), EspRead::Malformed));
}

#[test]
fn gyro_samples_need_a_block_and_a_later_time_step() {
    let gyro = EspEvent::Gyro(vec![[1, 2, 3]]);
    let empty = EspEvent::Gyro(vec![]);
    assert!(!yields_gyro_samples(&[]));
    assert!(!yields_gyro_samples(&[gyro.clone()]));
    assert!(!yields_gyro_samples(&[EspEvent::DeltaTime(10), gyro.clone()]));
    assert!(!yields_gyro_samples(&[empty, EspEvent::DeltaTime(10)]));
    assert!(yields_gyro_samples(&[gyro.clone(), EspEvent::TimeOffset(5), EspEvent::DeltaTime(10)]));
    assert!(yields_gyro_samples(&[EspEvent::GyroSetup(1), gyro, EspEvent::DeltaTime(0)]));
}
