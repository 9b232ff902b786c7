use telemetry_parser::dvtm_wm169::{GpsAltType, GpsStatus, MetaEncryptionType};
use telemetry_parser::extra_info::{ExtraType, GpsSource, LogoType, VideoMediaDataRotateAngle};
use telemetry_parser::proto_enum::{decode_value, known_values, Decoded, ProtoEnum};

#[test]
fn codes_of_values() {
    assert_eq!(ExtraType::TimeMap.to_i32(), 128);
    assert_eq!(VideoMediaDataRotateAngle::MediaDataRotateAngle270.to_i32(), 8);
    assert_eq!(GpsStatus::GpsRtk.to_i32(), 2);
    assert_eq!(MetaEncryptionType::NoEncryption.to_i32(), 0);
}

#[test]
fn values_of_codes() {
    assert_eq!(LogoType::from_i32(2), Some(LogoType::InstaLogo));
    assert_eq!(LogoType::from_i32(3), None);
    assert_eq!(VideoMediaDataRotateAngle::from_i32(6), Some(VideoMediaDataRotateAngle::MediaDataRotateAngle90));
    assert_eq!(VideoMediaDataRotateAngle::from_i32(2), None);
    assert_eq!(GpsAltType::from_i32(1), Some(GpsAltType::GpsFusionAltitude));
    assert_eq!(ExtraType::from_i32(19), None);
}

#[test]
fn round_trip_of_every_extra_type() {
    for code in [0, 1, 2, 3, 4, 5, 6, 7, 8, 9, 10, 11, 12, 13, 14, 15, 16, 17, 18, 128] {
        let e = ExtraType::from_i32(code).unwrap();
        assert_eq!(e.to_i32(), code);
        assert_eq!(ExtraType::from_i32(e.to_i32()), Some(e));
    }
}

#[test]
fn reported_fields() {
    assert_eq!(decode_value::<GpsSource>(1), Decoded::Known(GpsSource::Dashboard));
    assert_eq!(decode_value::<GpsSource>(9), Decoded::Raw(9));
    assert_eq!(known_values::<GpsSource>(&[2, 7, 0, -1]), vec![GpsSource::Remote, GpsSource::Gsv]);
    assert_eq!(known_values::<GpsSource>(&[]), Vec::<GpsSource>::new());
}
