//! Types of the Insta360 extra metadata record, and the reading of its
//! enumerated fields, which the record stores as plain integers.

use vstd::prelude::*;
use crate::proto_enum::ProtoEnum;

verus! {

/// A two-dimensional integer vector.
#[derive(Clone, Copy, Debug, PartialEq, Eq)]
pub struct Vector2 {
    pub x: i32,
    pub y: i32,
}

/// A gyroscope sample index with its timestamp.
#[derive(Clone, Copy, Debug, PartialEq, Eq)]
pub struct GyroIndex {
    pub index: i32,
    pub timestamp: i64,
}

/// The crop from the sensor frame to the recorded window.
#[derive(Clone, Copy, Debug, PartialEq, Eq)]
pub struct WindowCropInfo {
    pub src_width: u32,
    pub src_height: u32,
    pub dst_width: u32,
    pub dst_height: u32,
}

/// The measuring ranges of the accelerometer and gyroscope.
#[derive(Clone, Copy, Debug, PartialEq, Eq)]
pub struct GyroConfigInfo {
    pub acc_range: u32,
    pub gyro_range: u32,
}

/// The logo burnt into an exported video.
#[derive(Clone, Copy, Debug, PartialEq, Eq, Hash, PartialOrd, Ord)]
pub enum LogoType {
    UnknownLogoType,
    NoLogo,
    InstaLogo,
}

impl ProtoEnum for LogoType {
    open spec fn code(self) -> i32 {
        match self {
            LogoType::UnknownLogoType => 0,
            LogoType::NoLogo => 1,
            LogoType::InstaLogo => 2,
        }
    }

    open spec fn decode(v: i32) -> Option<Self> {
        if v == 0 {
            Some(LogoType::UnknownLogoType)
        } else if v == 1 {
            Some(LogoType::NoLogo)
        } else if v == 2 {
            Some(LogoType::InstaLogo)
        } else {
            None
        }
    }

    fn to_i32(&self) -> (v: i32) {
        match self {
            LogoType::UnknownLogoType => 0,
            LogoType::NoLogo => 1,
            LogoType::InstaLogo => 2,
        }
    }

    fn from_i32(v: i32) -> (r: Option<Self>) {
        match v {
            0 => Some(LogoType::UnknownLogoType),
            1 => Some(LogoType::NoLogo),
            2 => Some(LogoType::InstaLogo),
            _ => None,
        }
    }

    proof fn lemma_code_round_trip(e: Self, v: i32) {
    }
}

/// A state of the lens-offset conversion.
#[derive(Clone, Copy, Debug, PartialEq, Eq, Hash, PartialOrd, Ord)]
pub enum OffsetConvertState {
    WaterProof,
    DivingWater,
    DivingAir,
    StitchOptimization,
    Protect,
    SphereProtect,
    FpvProtect,
}

impl ProtoEnum for OffsetConvertState {
    open spec fn code(self) -> i32 {
        match self {
            OffsetConvertState::WaterProof => 0,
            OffsetConvertState::DivingWater => 1,
            OffsetConvertState::DivingAir => 2,
            OffsetConvertState::StitchOptimization => 3,
            OffsetConvertState::Protect => 4,
            OffsetConvertState::SphereProtect => 5,
            OffsetConvertState::FpvProtect => 6,
        }
    }

    open spec fn decode(v: i32) -> Option<Self> {
        if v == 0 {
            Some(OffsetConvertState::WaterProof)
        } else if v == 1 {
            Some(OffsetConvertState::DivingWater)
        } else if v == 2 {
            Some(OffsetConvertState::DivingAir)
        } else if v == 3 {
            Some(OffsetConvertState::StitchOptimization)
        } else if v == 4 {
            Some(OffsetConvertState::Protect)
        } else if v == 5 {
            Some(OffsetConvertState::SphereProtect)
        } else if v == 6 {
            Some(OffsetConvertState::FpvProtect)
        } else {
            None
        }
    }

    fn to_i32(&self) -> (v: i32) {
        match self {
            OffsetConvertState::WaterProof => 0,
            OffsetConvertState::DivingWater => 1,
            OffsetConvertState::DivingAir => 2,
            OffsetConvertState::StitchOptimization => 3,
            OffsetConvertState::Protect => 4,
            OffsetConvertState::SphereProtect => 5,
            OffsetConvertState::FpvProtect => 6,
        }
    }

    fn from_i32(v: i32) -> (r: Option<Self>) {
        match v {
            0 => Some(OffsetConvertState::WaterProof),
            1 => Some(OffsetConvertState::DivingWater),
            2 => Some(OffsetConvertState::DivingAir),
            3 => Some(OffsetConvertState::StitchOptimization),
            4 => Some(OffsetConvertState::Protect),
            5 => Some(OffsetConvertState::SphereProtect),
            6 => Some(OffsetConvertState::FpvProtect),
            _ => None,
        }
    }

    proof fn lemma_code_round_trip(e: Self, v: i32) {
    }
}

/// The HDR processing state of a recording.
#[derive(Clone, Copy, Debug, PartialEq, Eq, Hash, PartialOrd, Ord)]
pub enum HdrState {
    NotHdr,
    WaitingProcess,
    Processed,
}

impl ProtoEnum for HdrState {
    open spec fn code(self) -> i32 {
        match self {
            HdrState::NotHdr => 0,
            HdrState::WaitingProcess => 1,
            HdrState::Processed => 2,
        }
    }

    open spec fn decode(v: i32) -> Option<Self> {
        if v == 0 {
            Some(HdrState::NotHdr)
        } else if v == 1 {
            Some(HdrState::WaitingProcess)
        } else if v == 2 {
            Some(HdrState::Processed)
        } else {
            None
        }
    }

    fn to_i32(&self) -> (v: i32) {
        match self {
            HdrState::NotHdr => 0,
            HdrState::WaitingProcess => 1,
            HdrState::Processed => 2,
        }
    }

    fn from_i32(v: i32) -> (r: Option<Self>) {
        match v {
            0 => Some(HdrState::NotHdr),
            1 => Some(HdrState::WaitingProcess),
            2 => Some(HdrState::Processed),
            _ => None,
        }
    }

    proof fn lemma_code_round_trip(e: Self, v: i32) {
    }
}

/// What started a recording.
#[derive(Clone, Copy, Debug, PartialEq, Eq, Hash, PartialOrd, Ord)]
pub enum TriggerSource {
    Unknown,
    CameraButton,
    RemoteControl,
    Usb,
    BtRemote,
}

impl ProtoEnum for TriggerSource {
    open spec fn code(self) -> i32 {
        match self {
            TriggerSource::Unknown => 0,
            TriggerSource::CameraButton => 1,
            TriggerSource::RemoteControl => 2,
            TriggerSource::Usb => 3,
            TriggerSource::BtRemote => 4,
        }
    }

    open spec fn decode(v: i32) -> Option<Self> {
        if v == 0 {
            Some(TriggerSource::Unknown)
        } else if v == 1 {
            Some(TriggerSource::CameraButton)
        } else if v == 2 {
            Some(TriggerSource::RemoteControl)
        } else if v == 3 {
            Some(TriggerSource::Usb)
        } else if v == 4 {
            Some(TriggerSource::BtRemote)
        } else {
            None
        }
    }

    fn to_i32(&self) -> (v: i32) {
        match self {
            TriggerSource::Unknown => 0,
            TriggerSource::CameraButton => 1,
            TriggerSource::RemoteControl => 2,
            TriggerSource::Usb => 3,
            TriggerSource::BtRemote => 4,
        }
    }

    fn from_i32(v: i32) -> (r: Option<Self>) {
        match v {
            0 => Some(TriggerSource::Unknown),
            1 => Some(TriggerSource::CameraButton),
            2 => Some(TriggerSource::RemoteControl),
            3 => Some(TriggerSource::Usb),
            4 => Some(TriggerSource::BtRemote),
            _ => None,
        }
    }

    proof fn lemma_code_round_trip(e: Self, v: i32) {
    }
}

/// The lens mode of a foldable dual-lens camera.
#[derive(Clone, Copy, Debug, PartialEq, Eq, Hash, PartialOrd, Ord)]
pub enum EvoStatusMode {
    UnknownStatusMode,
    Degree180,
    Degree360,
}

impl ProtoEnum for EvoStatusMode {
    open spec fn code(self) -> i32 {
        match self {
            EvoStatusMode::UnknownStatusMode => 0,
            EvoStatusMode::Degree180 => 1,
            EvoStatusMode::Degree360 => 2,
        }
    }

    open spec fn decode(v: i32) -> Option<Self> {
        if v == 0 {
            Some(EvoStatusMode::UnknownStatusMode)
        } else if v == 1 {
            Some(EvoStatusMode::Degree180)
        } else if v == 2 {
            Some(EvoStatusMode::Degree360)
        } else {
            None
        }
    }

    fn to_i32(&self) -> (v: i32) {
        match self {
            EvoStatusMode::UnknownStatusMode => 0,
            EvoStatusMode::Degree180 => 1,
            EvoStatusMode::Degree360 => 2,
        }
    }

    fn from_i32(v: i32) -> (r: Option<Self>) {
        match v {
            0 => Some(EvoStatusMode::UnknownStatusMode),
            1 => Some(EvoStatusMode::Degree180),
            2 => Some(EvoStatusMode::Degree360),
            _ => None,
        }
    }

    proof fn lemma_code_round_trip(e: Self, v: i32) {
    }
}

/// Where GPS data came from.
#[derive(Clone, Copy, Debug, PartialEq, Eq, Hash, PartialOrd, Ord)]
pub enum GpsSource {
    Gsv,
    Dashboard,
    Remote,
}

impl ProtoEnum for GpsSource {
    open spec fn code(self) -> i32 {
        match self {
            GpsSource::Gsv => 0,
            GpsSource::Dashboard => 1,
            GpsSource::Remote => 2,
        }
    }

    open spec fn decode(v: i32) -> Option<Self> {
        if v == 0 {
            Some(GpsSource::Gsv)
        } else if v == 1 {
            Some(GpsSource::Dashboard)
        } else if v == 2 {
            Some(GpsSource::Remote)
        } else {
            None
        }
    }

    fn to_i32(&self) -> (v: i32) {
        match self {
            GpsSource::Gsv => 0,
            GpsSource::Dashboard => 1,
            GpsSource::Remote => 2,
        }
    }

    fn from_i32(v: i32) -> (r: Option<Self>) {
        match v {
            0 => Some(GpsSource::Gsv),
            1 => Some(GpsSource::Dashboard),
            2 => Some(GpsSource::Remote),
            _ => None,
        }
    }

    proof fn lemma_code_round_trip(e: Self, v: i32) {
    }
}

/// The battery fitted to the camera.
#[derive(Clone, Copy, Debug, PartialEq, Eq, Hash, PartialOrd, Ord)]
pub enum BatteryType {
    Thick,
    Thin,
    Vertical,
}

impl ProtoEnum for BatteryType {
    open spec fn code(self) -> i32 {
        match self {
            BatteryType::Thick => 0,
            BatteryType::Thin => 1,
            BatteryType::Vertical => 2,
        }
    }

    open spec fn decode(v: i32) -> Option<Self> {
        if v == 0 {
            Some(BatteryType::Thick)
        } else if v == 1 {
            Some(BatteryType::Thin)
        } else if v == 2 {
            Some(BatteryType::Vertical)
        } else {
            None
        }
    }

    fn to_i32(&self) -> (v: i32) {
        match self {
            BatteryType::Thick => 0,
            BatteryType::Thin => 1,
            BatteryType::Vertical => 2,
        }
    }

    fn from_i32(v: i32) -> (r: Option<Self>) {
        match v {
            0 => Some(BatteryType::Thick),
            1 => Some(BatteryType::Thin),
            2 => Some(BatteryType::Vertical),
            _ => None,
        }
    }

    proof fn lemma_code_round_trip(e: Self, v: i32) {
    }
}

/// The rotation at which the camera was held.
#[derive(Clone, Copy, Debug, PartialEq, Eq, Hash, PartialOrd, Ord)]
pub enum CameraPosture {
    CameraRotate0,
    CameraRotate90,
    CameraRotate180,
    CameraRotate270,
}

impl ProtoEnum for CameraPosture {
    open spec fn code(self) -> i32 {
        match self {
            CameraPosture::CameraRotate0 => 0,
            CameraPosture::CameraRotate90 => 1,
            CameraPosture::CameraRotate180 => 2,
            CameraPosture::CameraRotate270 => 3,
        }
    }

    open spec fn decode(v: i32) -> Option<Self> {
        if v == 0 {
            Some(CameraPosture::CameraRotate0)
        } else if v == 1 {
            Some(CameraPosture::CameraRotate90)
        } else if v == 2 {
            Some(CameraPosture::CameraRotate180)
        } else if v == 3 {
            Some(CameraPosture::CameraRotate270)
        } else {
            None
        }
    }

    fn to_i32(&self) -> (v: i32) {
        match self {
            CameraPosture::CameraRotate0 => 0,
            CameraPosture::CameraRotate90 => 1,
            CameraPosture::CameraRotate180 => 2,
            CameraPosture::CameraRotate270 => 3,
        }
    }

    fn from_i32(v: i32) -> (r: Option<Self>) {
        match v {
            0 => Some(CameraPosture::CameraRotate0),
            1 => Some(CameraPosture::CameraRotate90),
            2 => Some(CameraPosture::CameraRotate180),
            3 => Some(CameraPosture::CameraRotate270),
            _ => None,
        }
    }

    proof fn lemma_code_round_trip(e: Self, v: i32) {
    }
}

/// The field-of-view mode of a recording.
#[derive(Clone, Copy, Debug, PartialEq, Eq, Hash, PartialOrd, Ord)]
pub enum ImageFovType {
    FovTypeUnknown,
    FovTypeWide,
    FovTypeLinear,
    FovTypeUltrawide,
    FovTypeNarrow,
    FovTypePov,
    FovTypeLinearPlus,
    FovTypeLinearHorizon,
    FovTypeFpv,
    FovTypeSuper,
    FovTypeTinyPlanet,
    FovTypeInfinityWide,
    FovType360LinearHorizon,
    FovTypeMaxView,
    FovTypeDewarp,
    FovTypeMega,
    FovTypeBulletTime,
    FovTypeNum,
}

impl ProtoEnum for ImageFovType {
    open spec fn code(self) -> i32 {
        match self {
            ImageFovType::FovTypeUnknown => 0,
            ImageFovType::FovTypeWide => 1,
            ImageFovType::FovTypeLinear => 2,
            ImageFovType::FovTypeUltrawide => 3,
            ImageFovType::FovTypeNarrow => 4,
            ImageFovType::FovTypePov => 5,
            ImageFovType::FovTypeLinearPlus => 6,
            ImageFovType::FovTypeLinearHorizon => 7,
            ImageFovType::FovTypeFpv => 8,
            ImageFovType::FovTypeSuper => 9,
            ImageFovType::FovTypeTinyPlanet => 10,
            ImageFovType::FovTypeInfinityWide => 11,
            ImageFovType::FovType360LinearHorizon => 12,
            ImageFovType::FovTypeMaxView => 13,
            ImageFovType::FovTypeDewarp => 14,
            ImageFovType::FovTypeMega => 15,
            ImageFovType::FovTypeBulletTime => 16,
            ImageFovType::FovTypeNum => 17,
        }
    }

    open spec fn decode(v: i32) -> Option<Self> {
        if v == 0 {
            Some(ImageFovType::FovTypeUnknown)
        } else if v == 1 {
            Some(ImageFovType::FovTypeWide)
        } else if v == 2 {
            Some(ImageFovType::FovTypeLinear)
        } else if v == 3 {
            Some(ImageFovType::FovTypeUltrawide)
        } else if v == 4 {
            Some(ImageFovType::FovTypeNarrow)
        } else if v == 5 {
            Some(ImageFovType::FovTypePov)
        } else if v == 6 {
            Some(ImageFovType::FovTypeLinearPlus)
        } else if v == 7 {
            Some(ImageFovType::FovTypeLinearHorizon)
        } else if v == 8 {
            Some(ImageFovType::FovTypeFpv)
        } else if v == 9 {
            Some(ImageFovType::FovTypeSuper)
        } else if v == 10 {
            Some(ImageFovType::FovTypeTinyPlanet)
        } else if v == 11 {
            Some(ImageFovType::FovTypeInfinityWide)
        } else if v == 12 {
            Some(ImageFovType::FovType360LinearHorizon)
        } else if v == 13 {
            Some(ImageFovType::FovTypeMaxView)
        } else if v == 14 {
            Some(ImageFovType::FovTypeDewarp)
        } else if v == 15 {
            Some(ImageFovType::FovTypeMega)
        } else if v == 16 {
            Some(ImageFovType::FovTypeBulletTime)
        } else if v == 17 {
            Some(ImageFovType::FovTypeNum)
        } else {
            None
        }
    }

    fn to_i32(&self) -> (v: i32) {
        match self {
            ImageFovType::FovTypeUnknown => 0,
            ImageFovType::FovTypeWide => 1,
            ImageFovType::FovTypeLinear => 2,
            ImageFovType::FovTypeUltrawide => 3,
            ImageFovType::FovTypeNarrow => 4,
            ImageFovType::FovTypePov => 5,
            ImageFovType::FovTypeLinearPlus => 6,
            ImageFovType::FovTypeLinearHorizon => 7,
            ImageFovType::FovTypeFpv => 8,
            ImageFovType::FovTypeSuper => 9,
            ImageFovType::FovTypeTinyPlanet => 10,
            ImageFovType::FovTypeInfinityWide => 11,
            ImageFovType::FovType360LinearHorizon => 12,
            ImageFovType::FovTypeMaxView => 13,
            ImageFovType::FovTypeDewarp => 14,
            ImageFovType::FovTypeMega => 15,
            ImageFovType::FovTypeBulletTime => 16,
            ImageFovType::FovTypeNum => 17,
        }
    }

    fn from_i32(v: i32) -> (r: Option<Self>) {
        match v {
            0 => Some(ImageFovType::FovTypeUnknown),
            1 => Some(ImageFovType::FovTypeWide),
            2 => Some(ImageFovType::FovTypeLinear),
            3 => Some(ImageFovType::FovTypeUltrawide),
            4 => Some(ImageFovType::FovTypeNarrow),
            5 => Some(ImageFovType::FovTypePov),
            6 => Some(ImageFovType::FovTypeLinearPlus),
            7 => Some(ImageFovType::FovTypeLinearHorizon),
            8 => Some(ImageFovType::FovTypeFpv),
            9 => Some(ImageFovType::FovTypeSuper),
            10 => Some(ImageFovType::FovTypeTinyPlanet),
            11 => Some(ImageFovType::FovTypeInfinityWide),
            12 => Some(ImageFovType::FovType360LinearHorizon),
            13 => Some(ImageFovType::FovTypeMaxView),
            14 => Some(ImageFovType::FovTypeDewarp),
            15 => Some(ImageFovType::FovTypeMega),
            16 => Some(ImageFovType::FovTypeBulletTime),
            17 => Some(ImageFovType::FovTypeNum),
            _ => None,
        }
    }

    proof fn lemma_code_round_trip(e: Self, v: i32) {
    }
}

/// The filter applied to the gyroscope data.
#[derive(Clone, Copy, Debug, PartialEq, Eq, Hash, PartialOrd, Ord)]
pub enum GyroFilterType {
    Unknown,
    Brute,
    Akf,
}

impl ProtoEnum for GyroFilterType {
    open spec fn code(self) -> i32 {
        match self {
            GyroFilterType::Unknown => 0,
            GyroFilterType::Brute => 1,
            GyroFilterType::Akf => 2,
        }
    }

    open spec fn decode(v: i32) -> Option<Self> {
        if v == 0 {
            Some(GyroFilterType::Unknown)
        } else if v == 1 {
            Some(GyroFilterType::Brute)
        } else if v == 2 {
            Some(GyroFilterType::Akf)
        } else {
            None
        }
    }

    fn to_i32(&self) -> (v: i32) {
        match self {
            GyroFilterType::Unknown => 0,
            GyroFilterType::Brute => 1,
            GyroFilterType::Akf => 2,
        }
    }

    fn from_i32(v: i32) -> (r: Option<Self>) {
        match v {
            0 => Some(GyroFilterType::Unknown),
            1 => Some(GyroFilterType::Brute),
            2 => Some(GyroFilterType::Akf),
            _ => None,
        }
    }

    proof fn lemma_code_round_trip(e: Self, v: i32) {
    }
}

/// The inertial sensor model.
#[derive(Clone, Copy, Debug, PartialEq, Eq, Hash, PartialOrd, Ord)]
pub enum GyroType {
    InsdevImuType20948,
    InsdevImuType40609,
}

impl ProtoEnum for GyroType {
    open spec fn code(self) -> i32 {
        match self {
            GyroType::InsdevImuType20948 => 0,
            GyroType::InsdevImuType40609 => 1,
        }
    }

    open spec fn decode(v: i32) -> Option<Self> {
        if v == 0 {
            Some(GyroType::InsdevImuType20948)
        } else if v == 1 {
            Some(GyroType::InsdevImuType40609)
        } else {
            None
        }
    }

    fn to_i32(&self) -> (v: i32) {
        match self {
            GyroType::InsdevImuType20948 => 0,
            GyroType::InsdevImuType40609 => 1,
        }
    }

    fn from_i32(v: i32) -> (r: Option<Self>) {
        match v {
            0 => Some(GyroType::InsdevImuType20948),
            1 => Some(GyroType::InsdevImuType40609),
            _ => None,
        }
    }

    proof fn lemma_code_round_trip(e: Self, v: i32) {
    }
}

/// The rotation stored with the video.
#[derive(Clone, Copy, Debug, PartialEq, Eq, Hash, PartialOrd, Ord)]
pub enum VideoMediaDataRotateAngle {
    MediaDataRotateUnknown,
    MediaDataRotateAngle0,
    MediaDataRotateAngle180,
    MediaDataRotateAngle90,
    MediaDataRotateAngle270,
}

impl ProtoEnum for VideoMediaDataRotateAngle {
    open spec fn code(self) -> i32 {
        match self {
            VideoMediaDataRotateAngle::MediaDataRotateUnknown => 0,
            VideoMediaDataRotateAngle::MediaDataRotateAngle0 => 1,
            VideoMediaDataRotateAngle::MediaDataRotateAngle180 => 3,
            VideoMediaDataRotateAngle::MediaDataRotateAngle90 => 6,
            VideoMediaDataRotateAngle::MediaDataRotateAngle270 => 8,
        }
    }

    open spec fn decode(v: i32) -> Option<Self> {
        if v == 0 {
            Some(VideoMediaDataRotateAngle::MediaDataRotateUnknown)
        } else if v == 1 {
            Some(VideoMediaDataRotateAngle::MediaDataRotateAngle0)
        } else if v == 3 {
            Some(VideoMediaDataRotateAngle::MediaDataRotateAngle180)
        } else if v == 6 {
            Some(VideoMediaDataRotateAngle::MediaDataRotateAngle90)
        } else if v == 8 {
            Some(VideoMediaDataRotateAngle::MediaDataRotateAngle270)
        } else {
            None
        }
    }

    fn to_i32(&self) -> (v: i32) {
        match self {
            VideoMediaDataRotateAngle::MediaDataRotateUnknown => 0,
            VideoMediaDataRotateAngle::MediaDataRotateAngle0 => 1,
            VideoMediaDataRotateAngle::MediaDataRotateAngle180 => 3,
            VideoMediaDataRotateAngle::MediaDataRotateAngle90 => 6,
            VideoMediaDataRotateAngle::MediaDataRotateAngle270 => 8,
        }
    }

    fn from_i32(v: i32) -> (r: Option<Self>) {
        match v {
            0 => Some(VideoMediaDataRotateAngle::MediaDataRotateUnknown),
            1 => Some(VideoMediaDataRotateAngle::MediaDataRotateAngle0),
            3 => Some(VideoMediaDataRotateAngle::MediaDataRotateAngle180),
            6 => Some(VideoMediaDataRotateAngle::MediaDataRotateAngle90),
            8 => Some(VideoMediaDataRotateAngle::MediaDataRotateAngle270),
            _ => None,
        }
    }

    proof fn lemma_code_round_trip(e: Self, v: i32) {
    }
}

/// Which image sensors recorded.
#[derive(Clone, Copy, Debug, PartialEq, Eq, Hash, PartialOrd, Ord)]
pub enum SensorDevice {
    Unknown,
    Front,
    Rear,
    All,
}

impl ProtoEnum for SensorDevice {
    open spec fn code(self) -> i32 {
        match self {
            SensorDevice::Unknown => 0,
            SensorDevice::Front => 1,
            SensorDevice::Rear => 2,
            SensorDevice::All => 3,
        }
    }

    open spec fn decode(v: i32) -> Option<Self> {
        if v == 0 {
            Some(SensorDevice::Unknown)
        } else if v == 1 {
            Some(SensorDevice::Front)
        } else if v == 2 {
            Some(SensorDevice::Rear)
        } else if v == 3 {
            Some(SensorDevice::All)
        } else {
            None
        }
    }

    fn to_i32(&self) -> (v: i32) {
        match self {
            SensorDevice::Unknown => 0,
            SensorDevice::Front => 1,
            SensorDevice::Rear => 2,
            SensorDevice::All => 3,
        }
    }

    fn from_i32(v: i32) -> (r: Option<Self>) {
        match v {
            0 => Some(SensorDevice::Unknown),
            1 => Some(SensorDevice::Front),
            2 => Some(SensorDevice::Rear),
            3 => Some(SensorDevice::All),
            _ => None,
        }
    }

    proof fn lemma_code_round_trip(e: Self, v: i32) {
    }
}

/// The kind of output the recording is meant for.
#[derive(Clone, Copy, Debug, PartialEq, Eq, Hash, PartialOrd, Ord)]
pub enum ExpectOutputType {
    Default,
    InstaPano,
    MultiCamera,
    OneTake,
}

impl ProtoEnum for ExpectOutputType {
    open spec fn code(self) -> i32 {
        match self {
            ExpectOutputType::Default => 0,
            ExpectOutputType::InstaPano => 1,
            ExpectOutputType::MultiCamera => 2,
            ExpectOutputType::OneTake => 3,
        }
    }

    open spec fn decode(v: i32) -> Option<Self> {
        if v == 0 {
            Some(ExpectOutputType::Default)
        } else if v == 1 {
            Some(ExpectOutputType::InstaPano)
        } else if v == 2 {
            Some(ExpectOutputType::MultiCamera)
        } else if v == 3 {
            Some(ExpectOutputType::OneTake)
        } else {
            None
        }
    }

    fn to_i32(&self) -> (v: i32) {
        match self {
            ExpectOutputType::Default => 0,
            ExpectOutputType::InstaPano => 1,
            ExpectOutputType::MultiCamera => 2,
            ExpectOutputType::OneTake => 3,
        }
    }

    fn from_i32(v: i32) -> (r: Option<Self>) {
        match v {
            0 => Some(ExpectOutputType::Default),
            1 => Some(ExpectOutputType::InstaPano),
            2 => Some(ExpectOutputType::MultiCamera),
            3 => Some(ExpectOutputType::OneTake),
            _ => None,
        }
    }

    proof fn lemma_code_round_trip(e: Self, v: i32) {
    }
}

/// The audio recording mode.
#[derive(Clone, Copy, Debug, PartialEq, Eq, Hash, PartialOrd, Ord)]
pub enum AudioModeType {
    AudioModeUnknown,
    AudioModeFocus,
    AudioModeStereo,
    AudioMode360,
    RsStereo,
    Reserve1,
    Reserve2,
}

impl ProtoEnum for AudioModeType {
    open spec fn code(self) -> i32 {
        match self {
            AudioModeType::AudioModeUnknown => 0,
            AudioModeType::AudioModeFocus => 1,
            AudioModeType::AudioModeStereo => 2,
            AudioModeType::AudioMode360 => 3,
            AudioModeType::RsStereo => 4,
            AudioModeType::Reserve1 => 5,
            AudioModeType::Reserve2 => 6,
        }
    }

    open spec fn decode(v: i32) -> Option<Self> {
        if v == 0 {
            Some(AudioModeType::AudioModeUnknown)
        } else if v == 1 {
            Some(AudioModeType::AudioModeFocus)
        } else if v == 2 {
            Some(AudioModeType::AudioModeStereo)
        } else if v == 3 {
            Some(AudioModeType::AudioMode360)
        } else if v == 4 {
            Some(AudioModeType::RsStereo)
        } else if v == 5 {
            Some(AudioModeType::Reserve1)
        } else if v == 6 {
            Some(AudioModeType::Reserve2)
        } else {
            None
        }
    }

    fn to_i32(&self) -> (v: i32) {
        match self {
            AudioModeType::AudioModeUnknown => 0,
            AudioModeType::AudioModeFocus => 1,
            AudioModeType::AudioModeStereo => 2,
            AudioModeType::AudioMode360 => 3,
            AudioModeType::RsStereo => 4,
            AudioModeType::Reserve1 => 5,
            AudioModeType::Reserve2 => 6,
        }
    }

    fn from_i32(v: i32) -> (r: Option<Self>) {
        match v {
            0 => Some(AudioModeType::AudioModeUnknown),
            1 => Some(AudioModeType::AudioModeFocus),
            2 => Some(AudioModeType::AudioModeStereo),
            3 => Some(AudioModeType::AudioMode360),
            4 => Some(AudioModeType::RsStereo),
            5 => Some(AudioModeType::Reserve1),
            6 => Some(AudioModeType::Reserve2),
            _ => None,
        }
    }

    proof fn lemma_code_round_trip(e: Self, v: i32) {
    }
}

/// The kind of photo or video.
#[derive(Clone, Copy, Debug, PartialEq, Eq, Hash, PartialOrd, Ord)]
pub enum SubMediaType {
    VideoNormal,
    VideoBullettime,
    VideoTimelapse,
    PhotoNormal,
    PhotoHdr,
    PhotoIntervalshooting,
    VideoHdr,
    PhotoBurst,
    VideoStaticTimelapse,
    VideoTimeshift,
    PhotoAebNightMode,
    VideoSuperNormal,
    VideoLooprecording,
    PhotoStarlapse,
    PhotoPanoMode,
    VideoFpv,
    VideoMovie,
    VideoSlowmotion,
}

impl ProtoEnum for SubMediaType {
    open spec fn code(self) -> i32 {
        match self {
            SubMediaType::VideoNormal => 0,
            SubMediaType::VideoBullettime => 1,
            SubMediaType::VideoTimelapse => 2,
            SubMediaType::PhotoNormal => 3,
            SubMediaType::PhotoHdr => 4,
            SubMediaType::PhotoIntervalshooting => 5,
            SubMediaType::VideoHdr => 6,
            SubMediaType::PhotoBurst => 7,
            SubMediaType::VideoStaticTimelapse => 8,
            SubMediaType::VideoTimeshift => 9,
            SubMediaType::PhotoAebNightMode => 10,
            SubMediaType::VideoSuperNormal => 11,
            SubMediaType::VideoLooprecording => 12,
            SubMediaType::PhotoStarlapse => 13,
            SubMediaType::PhotoPanoMode => 14,
            SubMediaType::VideoFpv => 15,
            SubMediaType::VideoMovie => 16,
            SubMediaType::VideoSlowmotion => 17,
        }
    }

    open spec fn decode(v: i32) -> Option<Self> {
        if v == 0 {
            Some(SubMediaType::VideoNormal)
        } else if v == 1 {
            Some(SubMediaType::VideoBullettime)
        } else if v == 2 {
            Some(SubMediaType::VideoTimelapse)
        } else if v == 3 {
            Some(SubMediaType::PhotoNormal)
        } else if v == 4 {
            Some(SubMediaType::PhotoHdr)
        } else if v == 5 {
            Some(SubMediaType::PhotoIntervalshooting)
        } else if v == 6 {
            Some(SubMediaType::VideoHdr)
        } else if v == 7 {
            Some(SubMediaType::PhotoBurst)
        } else if v == 8 {
            Some(SubMediaType::VideoStaticTimelapse)
        } else if v == 9 {
            Some(SubMediaType::VideoTimeshift)
        } else if v == 10 {
            Some(SubMediaType::PhotoAebNightMode)
        } else if v == 11 {
            Some(SubMediaType::VideoSuperNormal)
        } else if v == 12 {
            Some(SubMediaType::VideoLooprecording)
        } else if v == 13 {
            Some(SubMediaType::PhotoStarlapse)
        } else if v == 14 {
            Some(SubMediaType::PhotoPanoMode)
        } else if v == 15 {
            Some(SubMediaType::VideoFpv)
        } else if v == 16 {
            Some(SubMediaType::VideoMovie)
        } else if v == 17 {
            Some(SubMediaType::VideoSlowmotion)
        } else {
            None
        }
    }

    fn to_i32(&self) -> (v: i32) {
        match self {
            SubMediaType::VideoNormal => 0,
            SubMediaType::VideoBullettime => 1,
            SubMediaType::VideoTimelapse => 2,
            SubMediaType::PhotoNormal => 3,
            SubMediaType::PhotoHdr => 4,
            SubMediaType::PhotoIntervalshooting => 5,
            SubMediaType::VideoHdr => 6,
            SubMediaType::PhotoBurst => 7,
            SubMediaType::VideoStaticTimelapse => 8,
            SubMediaType::VideoTimeshift => 9,
            SubMediaType::PhotoAebNightMode => 10,
            SubMediaType::VideoSuperNormal => 11,
            SubMediaType::VideoLooprecording => 12,
            SubMediaType::PhotoStarlapse => 13,
            SubMediaType::PhotoPanoMode => 14,
            SubMediaType::VideoFpv => 15,
            SubMediaType::VideoMovie => 16,
            SubMediaType::VideoSlowmotion => 17,
        }
    }

    fn from_i32(v: i32) -> (r: Option<Self>) {
        match v {
            0 => Some(SubMediaType::VideoNormal),
            1 => Some(SubMediaType::VideoBullettime),
            2 => Some(SubMediaType::VideoTimelapse),
            3 => Some(SubMediaType::PhotoNormal),
            4 => Some(SubMediaType::PhotoHdr),
            5 => Some(SubMediaType::PhotoIntervalshooting),
            6 => Some(SubMediaType::VideoHdr),
            7 => Some(SubMediaType::PhotoBurst),
            8 => Some(SubMediaType::VideoStaticTimelapse),
            9 => Some(SubMediaType::VideoTimeshift),
            10 => Some(SubMediaType::PhotoAebNightMode),
            11 => Some(SubMediaType::VideoSuperNormal),
            12 => Some(SubMediaType::VideoLooprecording),
            13 => Some(SubMediaType::PhotoStarlapse),
            14 => Some(SubMediaType::PhotoPanoMode),
            15 => Some(SubMediaType::VideoFpv),
            16 => Some(SubMediaType::VideoMovie),
            17 => Some(SubMediaType::VideoSlowmotion),
            _ => None,
        }
    }

    proof fn lemma_code_round_trip(e: Self, v: i32) {
    }
}

/// The raw format captured alongside the image.
#[derive(Clone, Copy, Debug, PartialEq, Eq, Hash, PartialOrd, Ord)]
pub enum RawCaptureType {
    RawCaptureTypeOff,
    RawCaptureTypeDng,
    RawCaptureTypeRaw,
    RawCaptureTypePureshot,
}

impl ProtoEnum for RawCaptureType {
    open spec fn code(self) -> i32 {
        match self {
            RawCaptureType::RawCaptureTypeOff => 0,
            RawCaptureType::RawCaptureTypeDng => 1,
            RawCaptureType::RawCaptureTypeRaw => 2,
            RawCaptureType::RawCaptureTypePureshot => 3,
        }
    }

    open spec fn decode(v: i32) -> Option<Self> {
        if v == 0 {
            Some(RawCaptureType::RawCaptureTypeOff)
        } else if v == 1 {
            Some(RawCaptureType::RawCaptureTypeDng)
        } else if v == 2 {
            Some(RawCaptureType::RawCaptureTypeRaw)
        } else if v == 3 {
            Some(RawCaptureType::RawCaptureTypePureshot)
        } else {
            None
        }
    }

    fn to_i32(&self) -> (v: i32) {
        match self {
            RawCaptureType::RawCaptureTypeOff => 0,
            RawCaptureType::RawCaptureTypeDng => 1,
            RawCaptureType::RawCaptureTypeRaw => 2,
            RawCaptureType::RawCaptureTypePureshot => 3,
        }
    }

    fn from_i32(v: i32) -> (r: Option<Self>) {
        match v {
            0 => Some(RawCaptureType::RawCaptureTypeOff),
            1 => Some(RawCaptureType::RawCaptureTypeDng),
            2 => Some(RawCaptureType::RawCaptureTypeRaw),
            3 => Some(RawCaptureType::RawCaptureTypePureshot),
            _ => None,
        }
    }

    proof fn lemma_code_round_trip(e: Self, v: i32) {
    }
}

/// Where the frame timestamps come from.
#[derive(Clone, Copy, Debug, PartialEq, Eq, Hash, PartialOrd, Ord)]
pub enum VideoPtsType {
    VideoPtsUnknown,
    VideoPtsMp4,
    VideoPtsEexposureFile,
}

impl ProtoEnum for VideoPtsType {
    open spec fn code(self) -> i32 {
        match self {
            VideoPtsType::VideoPtsUnknown => 0,
            VideoPtsType::VideoPtsMp4 => 1,
            VideoPtsType::VideoPtsEexposureFile => 2,
        }
    }

    open spec fn decode(v: i32) -> Option<Self> {
        if v == 0 {
            Some(VideoPtsType::VideoPtsUnknown)
        } else if v == 1 {
            Some(VideoPtsType::VideoPtsMp4)
        } else if v == 2 {
            Some(VideoPtsType::VideoPtsEexposureFile)
        } else {
            None
        }
    }

    fn to_i32(&self) -> (v: i32) {
        match self {
            VideoPtsType::VideoPtsUnknown => 0,
            VideoPtsType::VideoPtsMp4 => 1,
            VideoPtsType::VideoPtsEexposureFile => 2,
        }
    }

    fn from_i32(v: i32) -> (r: Option<Self>) {
        match v {
            0 => Some(VideoPtsType::VideoPtsUnknown),
            1 => Some(VideoPtsType::VideoPtsMp4),
            2 => Some(VideoPtsType::VideoPtsEexposureFile),
            _ => None,
        }
    }

    proof fn lemma_code_round_trip(e: Self, v: i32) {
    }
}

/// The kind of an extra-data record in the file trailer.
#[derive(Clone, Copy, Debug, PartialEq, Eq, Hash, PartialOrd, Ord)]
pub enum ExtraType {
    All,
    Metadata,
    Thumbnail,
    Gyro,
    Exposure,
    ExtThumbnail,
    FramePts,
    Gps,
    StarNum,
    AaaData,
    Highlight,
    AaaSim,
    ExposureSecondary,
    Magnetic,
    Euler,
    SecGyro,
    Speed,
    TBox,
    Quaternions,
    TimeMap,
}

impl ProtoEnum for ExtraType {
    open spec fn code(self) -> i32 {
        match self {
            ExtraType::All => 0,
            ExtraType::Metadata => 1,
            ExtraType::Thumbnail => 2,
            ExtraType::Gyro => 3,
            ExtraType::Exposure => 4,
            ExtraType::ExtThumbnail => 5,
            ExtraType::FramePts => 6,
            ExtraType::Gps => 7,
            ExtraType::StarNum => 8,
            ExtraType::AaaData => 9,
            ExtraType::Highlight => 10,
            ExtraType::AaaSim => 11,
            ExtraType::ExposureSecondary => 12,
            ExtraType::Magnetic => 13,
            ExtraType::Euler => 14,
            ExtraType::SecGyro => 15,
            ExtraType::Speed => 16,
            ExtraType::TBox => 17,
            ExtraType::Quaternions => 18,
            ExtraType::TimeMap => 128,
        }
    }

    open spec fn decode(v: i32) -> Option<Self> {
        if v == 0 {
            Some(ExtraType::All)
        } else if v == 1 {
            Some(ExtraType::Metadata)
        } else if v == 2 {
            Some(ExtraType::Thumbnail)
        } else if v == 3 {
            Some(ExtraType::Gyro)
        } else if v == 4 {
            Some(ExtraType::Exposure)
        } else if v == 5 {
            Some(ExtraType::ExtThumbnail)
        } else if v == 6 {
            Some(ExtraType::FramePts)
        } else if v == 7 {
            Some(ExtraType::Gps)
        } else if v == 8 {
            Some(ExtraType::StarNum)
        } else if v == 9 {
            Some(ExtraType::AaaData)
        } else if v == 10 {
            Some(ExtraType::Highlight)
        } else if v == 11 {
            Some(ExtraType::AaaSim)
        } else if v == 12 {
            Some(ExtraType::ExposureSecondary)
        } else if v == 13 {
            Some(ExtraType::Magnetic)
        } else if v == 14 {
            Some(ExtraType::Euler)
        } else if v == 15 {
            Some(ExtraType::SecGyro)
        } else if v == 16 {
            Some(ExtraType::Speed)
        } else if v == 17 {
            Some(ExtraType::TBox)
        } else if v == 18 {
            Some(ExtraType::Quaternions)
        } else if v == 128 {
            Some(ExtraType::TimeMap)
        } else {
            None
        }
    }

    fn to_i32(&self) -> (v: i32) {
        match self {
            ExtraType::All => 0,
            ExtraType::Metadata => 1,
            ExtraType::Thumbnail => 2,
            ExtraType::Gyro => 3,
            ExtraType::Exposure => 4,
            ExtraType::ExtThumbnail => 5,
            ExtraType::FramePts => 6,
            ExtraType::Gps => 7,
            ExtraType::StarNum => 8,
            ExtraType::AaaData => 9,
            ExtraType::Highlight => 10,
            ExtraType::AaaSim => 11,
            ExtraType::ExposureSecondary => 12,
            ExtraType::Magnetic => 13,
            ExtraType::Euler => 14,
            ExtraType::SecGyro => 15,
            ExtraType::Speed => 16,
            ExtraType::TBox => 17,
            ExtraType::Quaternions => 18,
            ExtraType::TimeMap => 128,
        }
    }

    fn from_i32(v: i32) -> (r: Option<Self>) {
        match v {
            0 => Some(ExtraType::All),
            1 => Some(ExtraType::Metadata),
            2 => Some(ExtraType::Thumbnail),
            3 => Some(ExtraType::Gyro),
            4 => Some(ExtraType::Exposure),
            5 => Some(ExtraType::ExtThumbnail),
            6 => Some(ExtraType::FramePts),
            7 => Some(ExtraType::Gps),
            8 => Some(ExtraType::StarNum),
            9 => Some(ExtraType::AaaData),
            10 => Some(ExtraType::Highlight),
            11 => Some(ExtraType::AaaSim),
            12 => Some(ExtraType::ExposureSecondary),
            13 => Some(ExtraType::Magnetic),
            14 => Some(ExtraType::Euler),
            15 => Some(ExtraType::SecGyro),
            16 => Some(ExtraType::Speed),
            17 => Some(ExtraType::TBox),
            18 => Some(ExtraType::Quaternions),
            128 => Some(ExtraType::TimeMap),
            _ => None,
        }
    }

    proof fn lemma_code_round_trip(e: Self, v: i32) {
    }
}

} // verus!
