//! Verified decoders and detectors for camera and flight-controller telemetry.

pub mod bytes;
pub mod esplog;
pub mod tags;
pub mod text;
pub mod klv;
pub mod util;
pub mod ardupilot;
pub mod ardupilot_bin;
pub mod ardupilot_imu;
pub mod blackbox;
pub mod formats;
pub mod senseflow;
pub mod canon;
pub mod canon_tags;
pub mod filesystem;
pub mod dji;
pub mod lens_profile;
pub mod phone_apps;
pub mod runcam;
pub mod proto_enum;
pub mod extra_info;
pub mod dvtm_wm169;
pub mod nikon;
pub mod gopro;
pub mod cooke;
pub mod cooke_yaml;
pub mod red;
pub mod qoocam;
pub mod qoocam_info;
pub mod kandao;
pub mod camm;
pub mod braw;
pub mod insta360;
