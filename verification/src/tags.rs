//! Identifiers of tag groups and tags, and the options that select them.

use vstd::prelude::*;

verus! {

/// The group a tag belongs to.
#[derive(Debug, Clone, PartialEq, Eq, PartialOrd, Ord, Hash)]
pub enum GroupId {
    Default,
    Lens,
    Camera,
    Imager,
    Gyroscope,
    Accelerometer,
    Magnetometer,
    Quaternion,
    GPS,
    Exposure,
    Colors,
    GravityVector,
    CameraOrientation,
    ImageOrientation,
    IBIS,
    LensOSS,
    Position3D,
    UnknownGroup(u32),
    Custom(String),
}

/// The identity of a tag within its group.
#[derive(Debug, Clone, PartialEq, Eq, PartialOrd, Ord, Hash)]
pub enum TagId {
    Data,
    Data2,
    Unit,
    Scale,
    Matrix,
    Orientation,
    OrientationIn,
    OrientationOut,
    TimestampUs,
    TimestampMs,
    TimeOffset,
    FirstFrameTimestamp,
    Name,
    DisplayName,
    SerialNumber,
    Temperature,
    Count,
    Frequency,
    Metadata,
    Shading,
    Distortion,
    DistortionModel,
    DistortionCoefficients,
    FocalLength,
    PixelFocalLength,
    FocusDistance,
    PrincipalPoint,
    PixelPitch,
    SensorSizePixels,
    CaptureAreaOrigin,
    CaptureAreaSize,
    CaptureGammaEquation,
    FrameRate,
    FrameReadoutTime,
    ExposureTime,
    ShutterSpeed,
    ShutterAngle,
    ISOValue,
    IrisFStop,
    WhiteBalance,
    Enabled,
    Unknown(u32),
    Custom(String),
}

/// Selects tags by group, by tag, or by both.
#[derive(Debug, Clone, PartialEq, Eq, PartialOrd, Ord, Hash)]
pub enum TagFilter {
    EntireGroup(GroupId),
    EntireTag(TagId),
    SpecificTag(GroupId, TagId),
}

/// Options that steer parsing.
#[derive(Debug, Clone)]
pub struct InputOptions {
    /// When parsing Betaflight Blackbox, ignore all tags which are not gyro or accelerometer
    pub blackbox_gyro_only: bool,
    /// Parse only until the first metadata frame and first gyro sample, to determine if the file has useful data
    pub probe_only: bool,
    /// Only parse tags on this list
    pub tag_whitelist: Vec<TagFilter>,
    /// Skip tags on this list
    pub tag_blacklist: Vec<TagFilter>,
    /// If the main file doesn't contain any data, don't look for sidecar files
    pub dont_look_for_sidecar_files: bool,
}

impl Default for InputOptions {
    fn default() -> (o: InputOptions)
        ensures
            !o.blackbox_gyro_only,
            !o.probe_only,
            o.tag_whitelist@.len() == 0,
            o.tag_blacklist@.len() == 0,
            !o.dont_look_for_sidecar_files,
    {
        InputOptions {
            blackbox_gyro_only: false,
            probe_only: false,
            tag_whitelist: Vec::new(),
            tag_blacklist: Vec::new(),
            dont_look_for_sidecar_files: false,
        }
    }
}

/// Errors of the decoders.
#[derive(Debug, Clone, Copy, PartialEq, Eq)]
pub enum ParseError {
    /// The data ends before the structure it announces.
    UnexpectedEof,
    /// The data does not follow the format.
    InvalidData,
}

} // verus!
