//! The enumerated fields of the DJI camera metadata (`dvtm_wm169`), which
//! the metadata stores as integer codes.

use vstd::prelude::*;
use crate::proto_enum::ProtoEnum;

verus! {

/// The codes of an enumerated field of the `ClipMetaHeader` message.
#[derive(Clone, Copy, Debug, PartialEq, Eq, Hash, PartialOrd, Ord)]
pub enum MetaEncryptionType {
    NoEncryption,
}

impl ProtoEnum for MetaEncryptionType {
    open spec fn code(self) -> i32 {
        match self {
            MetaEncryptionType::NoEncryption => 0,
        }
    }

    open spec fn decode(v: i32) -> Option<Self> {
        if v == 0 {
            Some(MetaEncryptionType::NoEncryption)
        } else {
            None
        }
    }

    fn to_i32(&self) -> (v: i32) {
        match self {
            MetaEncryptionType::NoEncryption => 0,
        }
    }

    fn from_i32(v: i32) -> (r: Option<Self>) {
        match v {
            0 => Some(MetaEncryptionType::NoEncryption),
            _ => None,
        }
    }

    proof fn lemma_code_round_trip(e: Self, v: i32) {
    }
}

/// The codes of an enumerated field of the `ClipMetaHeader` message.
#[derive(Clone, Copy, Debug, PartialEq, Eq, Hash, PartialOrd, Ord)]
pub enum MetaCompressionType {
    NoCompression,
}

impl ProtoEnum for MetaCompressionType {
    open spec fn code(self) -> i32 {
        match self {
            MetaCompressionType::NoCompression => 0,
        }
    }

    open spec fn decode(v: i32) -> Option<Self> {
        if v == 0 {
            Some(MetaCompressionType::NoCompression)
        } else {
            None
        }
    }

    fn to_i32(&self) -> (v: i32) {
        match self {
            MetaCompressionType::NoCompression => 0,
        }
    }

    fn from_i32(v: i32) -> (r: Option<Self>) {
        match v {
            0 => Some(MetaCompressionType::NoCompression),
            _ => None,
        }
    }

    proof fn lemma_code_round_trip(e: Self, v: i32) {
    }
}

/// The codes of an enumerated field of the `StreamMetaHeader` message.
#[derive(Clone, Copy, Debug, PartialEq, Eq, Hash, PartialOrd, Ord)]
pub enum StreamType {
    Video,
    Audio,
}

impl ProtoEnum for StreamType {
    open spec fn code(self) -> i32 {
        match self {
            StreamType::Video => 0,
            StreamType::Audio => 1,
        }
    }

    open spec fn decode(v: i32) -> Option<Self> {
        if v == 0 {
            Some(StreamType::Video)
        } else if v == 1 {
            Some(StreamType::Audio)
        } else {
            None
        }
    }

    fn to_i32(&self) -> (v: i32) {
        match self {
            StreamType::Video => 0,
            StreamType::Audio => 1,
        }
    }

    fn from_i32(v: i32) -> (r: Option<Self>) {
        match v {
            0 => Some(StreamType::Video),
            1 => Some(StreamType::Audio),
            _ => None,
        }
    }

    proof fn lemma_code_round_trip(e: Self, v: i32) {
    }
}

/// The codes of an enumerated field of the `FrameMetaHeader` message.
#[derive(Clone, Copy, Debug, PartialEq, Eq, Hash, PartialOrd, Ord)]
pub enum CheckCodeType {
    NoCheckCode,
    Crc32,
}

impl ProtoEnum for CheckCodeType {
    open spec fn code(self) -> i32 {
        match self {
            CheckCodeType::NoCheckCode => 0,
            CheckCodeType::Crc32 => 1,
        }
    }

    open spec fn decode(v: i32) -> Option<Self> {
        if v == 0 {
            Some(CheckCodeType::NoCheckCode)
        } else if v == 1 {
            Some(CheckCodeType::Crc32)
        } else {
            None
        }
    }

    fn to_i32(&self) -> (v: i32) {
        match self {
            CheckCodeType::NoCheckCode => 0,
            CheckCodeType::Crc32 => 1,
        }
    }

    fn from_i32(v: i32) -> (r: Option<Self>) {
        match v {
            0 => Some(CheckCodeType::NoCheckCode),
            1 => Some(CheckCodeType::Crc32),
            _ => None,
        }
    }

    proof fn lemma_code_round_trip(e: Self, v: i32) {
    }
}

/// The codes of an enumerated field of the `MetaHeaderOfDevice` message.
#[derive(Clone, Copy, Debug, PartialEq, Eq, Hash, PartialOrd, Ord)]
pub enum DeviceType {
    Undefined,
    Physical,
    Virtual,
}

impl ProtoEnum for DeviceType {
    open spec fn code(self) -> i32 {
        match self {
            DeviceType::Undefined => 0,
            DeviceType::Physical => 1,
            DeviceType::Virtual => 2,
        }
    }

    open spec fn decode(v: i32) -> Option<Self> {
        if v == 0 {
            Some(DeviceType::Undefined)
        } else if v == 1 {
            Some(DeviceType::Physical)
        } else if v == 2 {
            Some(DeviceType::Virtual)
        } else {
            None
        }
    }

    fn to_i32(&self) -> (v: i32) {
        match self {
            DeviceType::Undefined => 0,
            DeviceType::Physical => 1,
            DeviceType::Virtual => 2,
        }
    }

    fn from_i32(v: i32) -> (r: Option<Self>) {
        match v {
            0 => Some(DeviceType::Undefined),
            1 => Some(DeviceType::Physical),
            2 => Some(DeviceType::Virtual),
            _ => None,
        }
    }

    proof fn lemma_code_round_trip(e: Self, v: i32) {
    }
}

/// The codes of an enumerated field of the `MetaHeaderOfDevice` message.
#[derive(Clone, Copy, Debug, PartialEq, Eq, Hash, PartialOrd, Ord)]
pub enum DeviceSubType {
    Undefined,
    CameraBody,
    Drone,
    Gimbal,
    GimbalZaxis,
    Recorder,
    LaserRanging,
}

impl ProtoEnum for DeviceSubType {
    open spec fn code(self) -> i32 {
        match self {
            DeviceSubType::Undefined => 0,
            DeviceSubType::CameraBody => 1,
            DeviceSubType::Drone => 2,
            DeviceSubType::Gimbal => 3,
            DeviceSubType::GimbalZaxis => 4,
            DeviceSubType::Recorder => 5,
            DeviceSubType::LaserRanging => 6,
        }
    }

    open spec fn decode(v: i32) -> Option<Self> {
        if v == 0 {
            Some(DeviceSubType::Undefined)
        } else if v == 1 {
            Some(DeviceSubType::CameraBody)
        } else if v == 2 {
            Some(DeviceSubType::Drone)
        } else if v == 3 {
            Some(DeviceSubType::Gimbal)
        } else if v == 4 {
            Some(DeviceSubType::GimbalZaxis)
        } else if v == 5 {
            Some(DeviceSubType::Recorder)
        } else if v == 6 {
            Some(DeviceSubType::LaserRanging)
        } else {
            None
        }
    }

    fn to_i32(&self) -> (v: i32) {
        match self {
            DeviceSubType::Undefined => 0,
            DeviceSubType::CameraBody => 1,
            DeviceSubType::Drone => 2,
            DeviceSubType::Gimbal => 3,
            DeviceSubType::GimbalZaxis => 4,
            DeviceSubType::Recorder => 5,
            DeviceSubType::LaserRanging => 6,
        }
    }

    fn from_i32(v: i32) -> (r: Option<Self>) {
        match v {
            0 => Some(DeviceSubType::Undefined),
            1 => Some(DeviceSubType::CameraBody),
            2 => Some(DeviceSubType::Drone),
            3 => Some(DeviceSubType::Gimbal),
            4 => Some(DeviceSubType::GimbalZaxis),
            5 => Some(DeviceSubType::Recorder),
            6 => Some(DeviceSubType::LaserRanging),
            _ => None,
        }
    }

    proof fn lemma_code_round_trip(e: Self, v: i32) {
    }
}

/// The codes of an enumerated field of the `MetaHeaderOfSubDevice` message.
#[derive(Clone, Copy, Debug, PartialEq, Eq, Hash, PartialOrd, Ord)]
pub enum SubDeviceType {
    Undefined,
    Physical,
    Virtual,
}

impl ProtoEnum for SubDeviceType {
    open spec fn code(self) -> i32 {
        match self {
            SubDeviceType::Undefined => 0,
            SubDeviceType::Physical => 1,
            SubDeviceType::Virtual => 2,
        }
    }

    open spec fn decode(v: i32) -> Option<Self> {
        if v == 0 {
            Some(SubDeviceType::Undefined)
        } else if v == 1 {
            Some(SubDeviceType::Physical)
        } else if v == 2 {
            Some(SubDeviceType::Virtual)
        } else {
            None
        }
    }

    fn to_i32(&self) -> (v: i32) {
        match self {
            SubDeviceType::Undefined => 0,
            SubDeviceType::Physical => 1,
            SubDeviceType::Virtual => 2,
        }
    }

    fn from_i32(v: i32) -> (r: Option<Self>) {
        match v {
            0 => Some(SubDeviceType::Undefined),
            1 => Some(SubDeviceType::Physical),
            2 => Some(SubDeviceType::Virtual),
            _ => None,
        }
    }

    proof fn lemma_code_round_trip(e: Self, v: i32) {
    }
}

/// The codes of an enumerated field of the `MetaHeaderOfSubDevice` message.
#[derive(Clone, Copy, Debug, PartialEq, Eq, Hash, PartialOrd, Ord)]
pub enum SubDeviceSubType {
    Undefined,
    Lens,
}

impl ProtoEnum for SubDeviceSubType {
    open spec fn code(self) -> i32 {
        match self {
            SubDeviceSubType::Undefined => 0,
            SubDeviceSubType::Lens => 1,
        }
    }

    open spec fn decode(v: i32) -> Option<Self> {
        if v == 0 {
            Some(SubDeviceSubType::Undefined)
        } else if v == 1 {
            Some(SubDeviceSubType::Lens)
        } else {
            None
        }
    }

    fn to_i32(&self) -> (v: i32) {
        match self {
            SubDeviceSubType::Undefined => 0,
            SubDeviceSubType::Lens => 1,
        }
    }

    fn from_i32(v: i32) -> (r: Option<Self>) {
        match v {
            0 => Some(SubDeviceSubType::Undefined),
            1 => Some(SubDeviceSubType::Lens),
            _ => None,
        }
    }

    proof fn lemma_code_round_trip(e: Self, v: i32) {
    }
}

/// The codes of an enumerated field of the `VideoStreamMeta` message.
#[derive(Clone, Copy, Debug, PartialEq, Eq, Hash, PartialOrd, Ord)]
pub enum BitFormatType {
    Unknown,
    Raw,
    Rgb,
    Rgba,
    Yuv420,
    Yuv422,
    Yuv444,
}

impl ProtoEnum for BitFormatType {
    open spec fn code(self) -> i32 {
        match self {
            BitFormatType::Unknown => 0,
            BitFormatType::Raw => 1,
            BitFormatType::Rgb => 2,
            BitFormatType::Rgba => 3,
            BitFormatType::Yuv420 => 4,
            BitFormatType::Yuv422 => 5,
            BitFormatType::Yuv444 => 6,
        }
    }

    open spec fn decode(v: i32) -> Option<Self> {
        if v == 0 {
            Some(BitFormatType::Unknown)
        } else if v == 1 {
            Some(BitFormatType::Raw)
        } else if v == 2 {
            Some(BitFormatType::Rgb)
        } else if v == 3 {
            Some(BitFormatType::Rgba)
        } else if v == 4 {
            Some(BitFormatType::Yuv420)
        } else if v == 5 {
            Some(BitFormatType::Yuv422)
        } else if v == 6 {
            Some(BitFormatType::Yuv444)
        } else {
            None
        }
    }

    fn to_i32(&self) -> (v: i32) {
        match self {
            BitFormatType::Unknown => 0,
            BitFormatType::Raw => 1,
            BitFormatType::Rgb => 2,
            BitFormatType::Rgba => 3,
            BitFormatType::Yuv420 => 4,
            BitFormatType::Yuv422 => 5,
            BitFormatType::Yuv444 => 6,
        }
    }

    fn from_i32(v: i32) -> (r: Option<Self>) {
        match v {
            0 => Some(BitFormatType::Unknown),
            1 => Some(BitFormatType::Raw),
            2 => Some(BitFormatType::Rgb),
            3 => Some(BitFormatType::Rgba),
            4 => Some(BitFormatType::Yuv420),
            5 => Some(BitFormatType::Yuv422),
            6 => Some(BitFormatType::Yuv444),
            _ => None,
        }
    }

    proof fn lemma_code_round_trip(e: Self, v: i32) {
    }
}

/// The codes of an enumerated field of the `VideoStreamMeta` message.
#[derive(Clone, Copy, Debug, PartialEq, Eq, Hash, PartialOrd, Ord)]
pub enum VideoStreamType {
    Normal,
    Delay,
    SlowMotion,
    QuickMovie,
    Timelapse,
    Motionlapse,
    Hyperlapse,
    Hdr,
    LoopRecord,
}

impl ProtoEnum for VideoStreamType {
    open spec fn code(self) -> i32 {
        match self {
            VideoStreamType::Normal => 0,
            VideoStreamType::Delay => 1,
            VideoStreamType::SlowMotion => 2,
            VideoStreamType::QuickMovie => 3,
            VideoStreamType::Timelapse => 4,
            VideoStreamType::Motionlapse => 5,
            VideoStreamType::Hyperlapse => 6,
            VideoStreamType::Hdr => 7,
            VideoStreamType::LoopRecord => 8,
        }
    }

    open spec fn decode(v: i32) -> Option<Self> {
        if v == 0 {
            Some(VideoStreamType::Normal)
        } else if v == 1 {
            Some(VideoStreamType::Delay)
        } else if v == 2 {
            Some(VideoStreamType::SlowMotion)
        } else if v == 3 {
            Some(VideoStreamType::QuickMovie)
        } else if v == 4 {
            Some(VideoStreamType::Timelapse)
        } else if v == 5 {
            Some(VideoStreamType::Motionlapse)
        } else if v == 6 {
            Some(VideoStreamType::Hyperlapse)
        } else if v == 7 {
            Some(VideoStreamType::Hdr)
        } else if v == 8 {
            Some(VideoStreamType::LoopRecord)
        } else {
            None
        }
    }

    fn to_i32(&self) -> (v: i32) {
        match self {
            VideoStreamType::Normal => 0,
            VideoStreamType::Delay => 1,
            VideoStreamType::SlowMotion => 2,
            VideoStreamType::QuickMovie => 3,
            VideoStreamType::Timelapse => 4,
            VideoStreamType::Motionlapse => 5,
            VideoStreamType::Hyperlapse => 6,
            VideoStreamType::Hdr => 7,
            VideoStreamType::LoopRecord => 8,
        }
    }

    fn from_i32(v: i32) -> (r: Option<Self>) {
        match v {
            0 => Some(VideoStreamType::Normal),
            1 => Some(VideoStreamType::Delay),
            2 => Some(VideoStreamType::SlowMotion),
            3 => Some(VideoStreamType::QuickMovie),
            4 => Some(VideoStreamType::Timelapse),
            5 => Some(VideoStreamType::Motionlapse),
            6 => Some(VideoStreamType::Hyperlapse),
            7 => Some(VideoStreamType::Hdr),
            8 => Some(VideoStreamType::LoopRecord),
            _ => None,
        }
    }

    proof fn lemma_code_round_trip(e: Self, v: i32) {
    }
}

/// The codes of an enumerated field of the `VideoStreamMeta` message.
#[derive(Clone, Copy, Debug, PartialEq, Eq, Hash, PartialOrd, Ord)]
pub enum VideoCodecType {
    H264,
    H265,
    Prores,
    Proresraw,
    Jpeg,
    Jpeg2000,
    JpegLossless,
}

impl ProtoEnum for VideoCodecType {
    open spec fn code(self) -> i32 {
        match self {
            VideoCodecType::H264 => 0,
            VideoCodecType::H265 => 1,
            VideoCodecType::Prores => 2,
            VideoCodecType::Proresraw => 3,
            VideoCodecType::Jpeg => 4,
            VideoCodecType::Jpeg2000 => 5,
            VideoCodecType::JpegLossless => 6,
        }
    }

    open spec fn decode(v: i32) -> Option<Self> {
        if v == 0 {
            Some(VideoCodecType::H264)
        } else if v == 1 {
            Some(VideoCodecType::H265)
        } else if v == 2 {
            Some(VideoCodecType::Prores)
        } else if v == 3 {
            Some(VideoCodecType::Proresraw)
        } else if v == 4 {
            Some(VideoCodecType::Jpeg)
        } else if v == 5 {
            Some(VideoCodecType::Jpeg2000)
        } else if v == 6 {
            Some(VideoCodecType::JpegLossless)
        } else {
            None
        }
    }

    fn to_i32(&self) -> (v: i32) {
        match self {
            VideoCodecType::H264 => 0,
            VideoCodecType::H265 => 1,
            VideoCodecType::Prores => 2,
            VideoCodecType::Proresraw => 3,
            VideoCodecType::Jpeg => 4,
            VideoCodecType::Jpeg2000 => 5,
            VideoCodecType::JpegLossless => 6,
        }
    }

    fn from_i32(v: i32) -> (r: Option<Self>) {
        match v {
            0 => Some(VideoCodecType::H264),
            1 => Some(VideoCodecType::H265),
            2 => Some(VideoCodecType::Prores),
            3 => Some(VideoCodecType::Proresraw),
            4 => Some(VideoCodecType::Jpeg),
            5 => Some(VideoCodecType::Jpeg2000),
            6 => Some(VideoCodecType::JpegLossless),
            _ => None,
        }
    }

    proof fn lemma_code_round_trip(e: Self, v: i32) {
    }
}

/// The codes of an enumerated field of the `ImageProcessingQuality` message.
#[derive(Clone, Copy, Debug, PartialEq, Eq, Hash, PartialOrd, Ord)]
pub enum ImageProcessingQualityType {
    Normal,
    High,
}

impl ProtoEnum for ImageProcessingQualityType {
    open spec fn code(self) -> i32 {
        match self {
            ImageProcessingQualityType::Normal => 0,
            ImageProcessingQualityType::High => 1,
        }
    }

    open spec fn decode(v: i32) -> Option<Self> {
        if v == 0 {
            Some(ImageProcessingQualityType::Normal)
        } else if v == 1 {
            Some(ImageProcessingQualityType::High)
        } else {
            None
        }
    }

    fn to_i32(&self) -> (v: i32) {
        match self {
            ImageProcessingQualityType::Normal => 0,
            ImageProcessingQualityType::High => 1,
        }
    }

    fn from_i32(v: i32) -> (r: Option<Self>) {
        match v {
            0 => Some(ImageProcessingQualityType::Normal),
            1 => Some(ImageProcessingQualityType::High),
            _ => None,
        }
    }

    proof fn lemma_code_round_trip(e: Self, v: i32) {
    }
}

/// The codes of an enumerated field of the `ProresCodecQuality` message.
#[derive(Clone, Copy, Debug, PartialEq, Eq, Hash, PartialOrd, Ord)]
pub enum ProresCodecQualityType {
    Undefined,
    Proxy,
    Lt,
    Sd,
    Hq,
    Xq,
}

impl ProtoEnum for ProresCodecQualityType {
    open spec fn code(self) -> i32 {
        match self {
            ProresCodecQualityType::Undefined => 0,
            ProresCodecQualityType::Proxy => 1,
            ProresCodecQualityType::Lt => 2,
            ProresCodecQualityType::Sd => 3,
            ProresCodecQualityType::Hq => 4,
            ProresCodecQualityType::Xq => 5,
        }
    }

    open spec fn decode(v: i32) -> Option<Self> {
        if v == 0 {
            Some(ProresCodecQualityType::Undefined)
        } else if v == 1 {
            Some(ProresCodecQualityType::Proxy)
        } else if v == 2 {
            Some(ProresCodecQualityType::Lt)
        } else if v == 3 {
            Some(ProresCodecQualityType::Sd)
        } else if v == 4 {
            Some(ProresCodecQualityType::Hq)
        } else if v == 5 {
            Some(ProresCodecQualityType::Xq)
        } else {
            None
        }
    }

    fn to_i32(&self) -> (v: i32) {
        match self {
            ProresCodecQualityType::Undefined => 0,
            ProresCodecQualityType::Proxy => 1,
            ProresCodecQualityType::Lt => 2,
            ProresCodecQualityType::Sd => 3,
            ProresCodecQualityType::Hq => 4,
            ProresCodecQualityType::Xq => 5,
        }
    }

    fn from_i32(v: i32) -> (r: Option<Self>) {
        match v {
            0 => Some(ProresCodecQualityType::Undefined),
            1 => Some(ProresCodecQualityType::Proxy),
            2 => Some(ProresCodecQualityType::Lt),
            3 => Some(ProresCodecQualityType::Sd),
            4 => Some(ProresCodecQualityType::Hq),
            5 => Some(ProresCodecQualityType::Xq),
            _ => None,
        }
    }

    proof fn lemma_code_round_trip(e: Self, v: i32) {
    }
}

/// The codes of an enumerated field of the `ImageSizeType` message.
#[derive(Clone, Copy, Debug, PartialEq, Eq, Hash, PartialOrd, Ord)]
pub enum ImageSizeType {
    Default,
    OpenGate,
    FullFrame,
    S35,
    ImageSizeType43,
}

impl ProtoEnum for ImageSizeType {
    open spec fn code(self) -> i32 {
        match self {
            ImageSizeType::Default => 0,
            ImageSizeType::OpenGate => 1,
            ImageSizeType::FullFrame => 2,
            ImageSizeType::S35 => 3,
            ImageSizeType::ImageSizeType43 => 4,
        }
    }

    open spec fn decode(v: i32) -> Option<Self> {
        if v == 0 {
            Some(ImageSizeType::Default)
        } else if v == 1 {
            Some(ImageSizeType::OpenGate)
        } else if v == 2 {
            Some(ImageSizeType::FullFrame)
        } else if v == 3 {
            Some(ImageSizeType::S35)
        } else if v == 4 {
            Some(ImageSizeType::ImageSizeType43)
        } else {
            None
        }
    }

    fn to_i32(&self) -> (v: i32) {
        match self {
            ImageSizeType::Default => 0,
            ImageSizeType::OpenGate => 1,
            ImageSizeType::FullFrame => 2,
            ImageSizeType::S35 => 3,
            ImageSizeType::ImageSizeType43 => 4,
        }
    }

    fn from_i32(v: i32) -> (r: Option<Self>) {
        match v {
            0 => Some(ImageSizeType::Default),
            1 => Some(ImageSizeType::OpenGate),
            2 => Some(ImageSizeType::FullFrame),
            3 => Some(ImageSizeType::S35),
            4 => Some(ImageSizeType::ImageSizeType43),
            _ => None,
        }
    }

    proof fn lemma_code_round_trip(e: Self, v: i32) {
    }
}

/// The codes of an enumerated field of the `FovType` message.
#[derive(Clone, Copy, Debug, PartialEq, Eq, Hash, PartialOrd, Ord)]
pub enum FovType {
    Default,
    Normal,
    Narrow,
    Wide,
    Snarrow,
}

impl ProtoEnum for FovType {
    open spec fn code(self) -> i32 {
        match self {
            FovType::Default => 0,
            FovType::Normal => 1,
            FovType::Narrow => 2,
            FovType::Wide => 3,
            FovType::Snarrow => 4,
        }
    }

    open spec fn decode(v: i32) -> Option<Self> {
        if v == 0 {
            Some(FovType::Default)
        } else if v == 1 {
            Some(FovType::Normal)
        } else if v == 2 {
            Some(FovType::Narrow)
        } else if v == 3 {
            Some(FovType::Wide)
        } else if v == 4 {
            Some(FovType::Snarrow)
        } else {
            None
        }
    }

    fn to_i32(&self) -> (v: i32) {
        match self {
            FovType::Default => 0,
            FovType::Normal => 1,
            FovType::Narrow => 2,
            FovType::Wide => 3,
            FovType::Snarrow => 4,
        }
    }

    fn from_i32(v: i32) -> (r: Option<Self>) {
        match v {
            0 => Some(FovType::Default),
            1 => Some(FovType::Normal),
            2 => Some(FovType::Narrow),
            3 => Some(FovType::Wide),
            4 => Some(FovType::Snarrow),
            _ => None,
        }
    }

    proof fn lemma_code_round_trip(e: Self, v: i32) {
    }
}

/// The codes of an enumerated field of the `CfaPattern` message.
#[derive(Clone, Copy, Debug, PartialEq, Eq, Hash, PartialOrd, Ord)]
pub enum CfaPatternType {
    Rggb,
    Grbg,
    Bggr,
    Gbrg,
}

impl ProtoEnum for CfaPatternType {
    open spec fn code(self) -> i32 {
        match self {
            CfaPatternType::Rggb => 0,
            CfaPatternType::Grbg => 1,
            CfaPatternType::Bggr => 2,
            CfaPatternType::Gbrg => 3,
        }
    }

    open spec fn decode(v: i32) -> Option<Self> {
        if v == 0 {
            Some(CfaPatternType::Rggb)
        } else if v == 1 {
            Some(CfaPatternType::Grbg)
        } else if v == 2 {
            Some(CfaPatternType::Bggr)
        } else if v == 3 {
            Some(CfaPatternType::Gbrg)
        } else {
            None
        }
    }

    fn to_i32(&self) -> (v: i32) {
        match self {
            CfaPatternType::Rggb => 0,
            CfaPatternType::Grbg => 1,
            CfaPatternType::Bggr => 2,
            CfaPatternType::Gbrg => 3,
        }
    }

    fn from_i32(v: i32) -> (r: Option<Self>) {
        match v {
            0 => Some(CfaPatternType::Rggb),
            1 => Some(CfaPatternType::Grbg),
            2 => Some(CfaPatternType::Bggr),
            3 => Some(CfaPatternType::Gbrg),
            _ => None,
        }
    }

    proof fn lemma_code_round_trip(e: Self, v: i32) {
    }
}

/// The codes of an enumerated field of the `ColorSpace` message.
#[derive(Clone, Copy, Debug, PartialEq, Eq, Hash, PartialOrd, Ord)]
pub enum ColorSpaceType {
    Default,
    Dgamut,
    Rec709,
    Bt2020,
    Bt2100,
}

impl ProtoEnum for ColorSpaceType {
    open spec fn code(self) -> i32 {
        match self {
            ColorSpaceType::Default => 0,
            ColorSpaceType::Dgamut => 1,
            ColorSpaceType::Rec709 => 2,
            ColorSpaceType::Bt2020 => 3,
            ColorSpaceType::Bt2100 => 4,
        }
    }

    open spec fn decode(v: i32) -> Option<Self> {
        if v == 0 {
            Some(ColorSpaceType::Default)
        } else if v == 1 {
            Some(ColorSpaceType::Dgamut)
        } else if v == 2 {
            Some(ColorSpaceType::Rec709)
        } else if v == 3 {
            Some(ColorSpaceType::Bt2020)
        } else if v == 4 {
            Some(ColorSpaceType::Bt2100)
        } else {
            None
        }
    }

    fn to_i32(&self) -> (v: i32) {
        match self {
            ColorSpaceType::Default => 0,
            ColorSpaceType::Dgamut => 1,
            ColorSpaceType::Rec709 => 2,
            ColorSpaceType::Bt2020 => 3,
            ColorSpaceType::Bt2100 => 4,
        }
    }

    fn from_i32(v: i32) -> (r: Option<Self>) {
        match v {
            0 => Some(ColorSpaceType::Default),
            1 => Some(ColorSpaceType::Dgamut),
            2 => Some(ColorSpaceType::Rec709),
            3 => Some(ColorSpaceType::Bt2020),
            4 => Some(ColorSpaceType::Bt2100),
            _ => None,
        }
    }

    proof fn lemma_code_round_trip(e: Self, v: i32) {
    }
}

/// The codes of an enumerated field of the `OpBox` message.
#[derive(Clone, Copy, Debug, PartialEq, Eq, Hash, PartialOrd, Ord)]
pub enum OpType {
    WarpRectilinear,
    WarpFisheye,
    FixVignetteRadial,
    TrimBounds,
    MapTable,
    MapPolynomial,
    GainMap,
    DeltaPerRow,
    DeltaPerColumn,
    ScalePerRow,
    ScalePerColumn,
}

impl ProtoEnum for OpType {
    open spec fn code(self) -> i32 {
        match self {
            OpType::WarpRectilinear => 0,
            OpType::WarpFisheye => 1,
            OpType::FixVignetteRadial => 2,
            OpType::TrimBounds => 3,
            OpType::MapTable => 4,
            OpType::MapPolynomial => 5,
            OpType::GainMap => 6,
            OpType::DeltaPerRow => 7,
            OpType::DeltaPerColumn => 8,
            OpType::ScalePerRow => 9,
            OpType::ScalePerColumn => 10,
        }
    }

    open spec fn decode(v: i32) -> Option<Self> {
        if v == 0 {
            Some(OpType::WarpRectilinear)
        } else if v == 1 {
            Some(OpType::WarpFisheye)
        } else if v == 2 {
            Some(OpType::FixVignetteRadial)
        } else if v == 3 {
            Some(OpType::TrimBounds)
        } else if v == 4 {
            Some(OpType::MapTable)
        } else if v == 5 {
            Some(OpType::MapPolynomial)
        } else if v == 6 {
            Some(OpType::GainMap)
        } else if v == 7 {
            Some(OpType::DeltaPerRow)
        } else if v == 8 {
            Some(OpType::DeltaPerColumn)
        } else if v == 9 {
            Some(OpType::ScalePerRow)
        } else if v == 10 {
            Some(OpType::ScalePerColumn)
        } else {
            None
        }
    }

    fn to_i32(&self) -> (v: i32) {
        match self {
            OpType::WarpRectilinear => 0,
            OpType::WarpFisheye => 1,
            OpType::FixVignetteRadial => 2,
            OpType::TrimBounds => 3,
            OpType::MapTable => 4,
            OpType::MapPolynomial => 5,
            OpType::GainMap => 6,
            OpType::DeltaPerRow => 7,
            OpType::DeltaPerColumn => 8,
            OpType::ScalePerRow => 9,
            OpType::ScalePerColumn => 10,
        }
    }

    fn from_i32(v: i32) -> (r: Option<Self>) {
        match v {
            0 => Some(OpType::WarpRectilinear),
            1 => Some(OpType::WarpFisheye),
            2 => Some(OpType::FixVignetteRadial),
            3 => Some(OpType::TrimBounds),
            4 => Some(OpType::MapTable),
            5 => Some(OpType::MapPolynomial),
            6 => Some(OpType::GainMap),
            7 => Some(OpType::DeltaPerRow),
            8 => Some(OpType::DeltaPerColumn),
            9 => Some(OpType::ScalePerRow),
            10 => Some(OpType::ScalePerColumn),
            _ => None,
        }
    }

    proof fn lemma_code_round_trip(e: Self, v: i32) {
    }
}

/// The codes of an enumerated field of the `FocusDistance` message.
#[derive(Clone, Copy, Debug, PartialEq, Eq, Hash, PartialOrd, Ord)]
pub enum FocusUnit {
    FocusUnit1000Inch,
    Millimetre,
}

impl ProtoEnum for FocusUnit {
    open spec fn code(self) -> i32 {
        match self {
            FocusUnit::FocusUnit1000Inch => 0,
            FocusUnit::Millimetre => 1,
        }
    }

    open spec fn decode(v: i32) -> Option<Self> {
        if v == 0 {
            Some(FocusUnit::FocusUnit1000Inch)
        } else if v == 1 {
            Some(FocusUnit::Millimetre)
        } else {
            None
        }
    }

    fn to_i32(&self) -> (v: i32) {
        match self {
            FocusUnit::FocusUnit1000Inch => 0,
            FocusUnit::Millimetre => 1,
        }
    }

    fn from_i32(v: i32) -> (r: Option<Self>) {
        match v {
            0 => Some(FocusUnit::FocusUnit1000Inch),
            1 => Some(FocusUnit::Millimetre),
            _ => None,
        }
    }

    proof fn lemma_code_round_trip(e: Self, v: i32) {
    }
}

/// The codes of an enumerated field of the `TimeCode` message.
#[derive(Clone, Copy, Debug, PartialEq, Eq, Hash, PartialOrd, Ord)]
pub enum TimecodeRunMode {
    Free,
    Record,
}

impl ProtoEnum for TimecodeRunMode {
    open spec fn code(self) -> i32 {
        match self {
            TimecodeRunMode::Free => 0,
            TimecodeRunMode::Record => 1,
        }
    }

    open spec fn decode(v: i32) -> Option<Self> {
        if v == 0 {
            Some(TimecodeRunMode::Free)
        } else if v == 1 {
            Some(TimecodeRunMode::Record)
        } else {
            None
        }
    }

    fn to_i32(&self) -> (v: i32) {
        match self {
            TimecodeRunMode::Free => 0,
            TimecodeRunMode::Record => 1,
        }
    }

    fn from_i32(v: i32) -> (r: Option<Self>) {
        match v {
            0 => Some(TimecodeRunMode::Free),
            1 => Some(TimecodeRunMode::Record),
            _ => None,
        }
    }

    proof fn lemma_code_round_trip(e: Self, v: i32) {
    }
}

/// The codes of an enumerated field of the `Orientation` message.
#[derive(Clone, Copy, Debug, PartialEq, Eq, Hash, PartialOrd, Ord)]
pub enum OrientationType {
    OrientationNoReverse,
    OrientationHReverse,
    OrientationVReverse,
    OrientationHvReverse,
}

impl ProtoEnum for OrientationType {
    open spec fn code(self) -> i32 {
        match self {
            OrientationType::OrientationNoReverse => 0,
            OrientationType::OrientationHReverse => 1,
            OrientationType::OrientationVReverse => 2,
            OrientationType::OrientationHvReverse => 3,
        }
    }

    open spec fn decode(v: i32) -> Option<Self> {
        if v == 0 {
            Some(OrientationType::OrientationNoReverse)
        } else if v == 1 {
            Some(OrientationType::OrientationHReverse)
        } else if v == 2 {
            Some(OrientationType::OrientationVReverse)
        } else if v == 3 {
            Some(OrientationType::OrientationHvReverse)
        } else {
            None
        }
    }

    fn to_i32(&self) -> (v: i32) {
        match self {
            OrientationType::OrientationNoReverse => 0,
            OrientationType::OrientationHReverse => 1,
            OrientationType::OrientationVReverse => 2,
            OrientationType::OrientationHvReverse => 3,
        }
    }

    fn from_i32(v: i32) -> (r: Option<Self>) {
        match v {
            0 => Some(OrientationType::OrientationNoReverse),
            1 => Some(OrientationType::OrientationHReverse),
            2 => Some(OrientationType::OrientationVReverse),
            3 => Some(OrientationType::OrientationHvReverse),
            _ => None,
        }
    }

    proof fn lemma_code_round_trip(e: Self, v: i32) {
    }
}

/// The codes of an enumerated field of the `ColorMode` message.
#[derive(Clone, Copy, Debug, PartialEq, Eq, Hash, PartialOrd, Ord)]
pub enum ColorModeType {
    ColorModeDefault,
    ColorModeDCinelike,
    ColorModeDLog,
    ColorModeFilmA,
    ColorModeFilmB,
    ColorModeFilmC,
    ColorModeFilmD,
    ColorModeFilmE,
    ColorModeFilmF,
    ColorModeHlg,
    ColorModeArt,
    ColorModeBw,
    ColorModeVivid,
    ColorModeBeach,
    ColorModeDream,
    ColorModeSrgb,
    ColorModeAdobergb,
    ColorModeIrCut,
    ColorModeRacing,
}

impl ProtoEnum for ColorModeType {
    open spec fn code(self) -> i32 {
        match self {
            ColorModeType::ColorModeDefault => 0,
            ColorModeType::ColorModeDCinelike => 1,
            ColorModeType::ColorModeDLog => 2,
            ColorModeType::ColorModeFilmA => 3,
            ColorModeType::ColorModeFilmB => 4,
            ColorModeType::ColorModeFilmC => 5,
            ColorModeType::ColorModeFilmD => 6,
            ColorModeType::ColorModeFilmE => 7,
            ColorModeType::ColorModeFilmF => 8,
            ColorModeType::ColorModeHlg => 9,
            ColorModeType::ColorModeArt => 10,
            ColorModeType::ColorModeBw => 11,
            ColorModeType::ColorModeVivid => 12,
            ColorModeType::ColorModeBeach => 13,
            ColorModeType::ColorModeDream => 14,
            ColorModeType::ColorModeSrgb => 15,
            ColorModeType::ColorModeAdobergb => 16,
            ColorModeType::ColorModeIrCut => 17,
            ColorModeType::ColorModeRacing => 18,
        }
    }

    open spec fn decode(v: i32) -> Option<Self> {
        if v == 0 {
            Some(ColorModeType::ColorModeDefault)
        } else if v == 1 {
            Some(ColorModeType::ColorModeDCinelike)
        } else if v == 2 {
            Some(ColorModeType::ColorModeDLog)
        } else if v == 3 {
            Some(ColorModeType::ColorModeFilmA)
        } else if v == 4 {
            Some(ColorModeType::ColorModeFilmB)
        } else if v == 5 {
            Some(ColorModeType::ColorModeFilmC)
        } else if v == 6 {
            Some(ColorModeType::ColorModeFilmD)
        } else if v == 7 {
            Some(ColorModeType::ColorModeFilmE)
        } else if v == 8 {
            Some(ColorModeType::ColorModeFilmF)
        } else if v == 9 {
            Some(ColorModeType::ColorModeHlg)
        } else if v == 10 {
            Some(ColorModeType::ColorModeArt)
        } else if v == 11 {
            Some(ColorModeType::ColorModeBw)
        } else if v == 12 {
            Some(ColorModeType::ColorModeVivid)
        } else if v == 13 {
            Some(ColorModeType::ColorModeBeach)
        } else if v == 14 {
            Some(ColorModeType::ColorModeDream)
        } else if v == 15 {
            Some(ColorModeType::ColorModeSrgb)
        } else if v == 16 {
            Some(ColorModeType::ColorModeAdobergb)
        } else if v == 17 {
            Some(ColorModeType::ColorModeIrCut)
        } else if v == 18 {
            Some(ColorModeType::ColorModeRacing)
        } else {
            None
        }
    }

    fn to_i32(&self) -> (v: i32) {
        match self {
            ColorModeType::ColorModeDefault => 0,
            ColorModeType::ColorModeDCinelike => 1,
            ColorModeType::ColorModeDLog => 2,
            ColorModeType::ColorModeFilmA => 3,
            ColorModeType::ColorModeFilmB => 4,
            ColorModeType::ColorModeFilmC => 5,
            ColorModeType::ColorModeFilmD => 6,
            ColorModeType::ColorModeFilmE => 7,
            ColorModeType::ColorModeFilmF => 8,
            ColorModeType::ColorModeHlg => 9,
            ColorModeType::ColorModeArt => 10,
            ColorModeType::ColorModeBw => 11,
            ColorModeType::ColorModeVivid => 12,
            ColorModeType::ColorModeBeach => 13,
            ColorModeType::ColorModeDream => 14,
            ColorModeType::ColorModeSrgb => 15,
            ColorModeType::ColorModeAdobergb => 16,
            ColorModeType::ColorModeIrCut => 17,
            ColorModeType::ColorModeRacing => 18,
        }
    }

    fn from_i32(v: i32) -> (r: Option<Self>) {
        match v {
            0 => Some(ColorModeType::ColorModeDefault),
            1 => Some(ColorModeType::ColorModeDCinelike),
            2 => Some(ColorModeType::ColorModeDLog),
            3 => Some(ColorModeType::ColorModeFilmA),
            4 => Some(ColorModeType::ColorModeFilmB),
            5 => Some(ColorModeType::ColorModeFilmC),
            6 => Some(ColorModeType::ColorModeFilmD),
            7 => Some(ColorModeType::ColorModeFilmE),
            8 => Some(ColorModeType::ColorModeFilmF),
            9 => Some(ColorModeType::ColorModeHlg),
            10 => Some(ColorModeType::ColorModeArt),
            11 => Some(ColorModeType::ColorModeBw),
            12 => Some(ColorModeType::ColorModeVivid),
            13 => Some(ColorModeType::ColorModeBeach),
            14 => Some(ColorModeType::ColorModeDream),
            15 => Some(ColorModeType::ColorModeSrgb),
            16 => Some(ColorModeType::ColorModeAdobergb),
            17 => Some(ColorModeType::ColorModeIrCut),
            18 => Some(ColorModeType::ColorModeRacing),
            _ => None,
        }
    }

    proof fn lemma_code_round_trip(e: Self, v: i32) {
    }
}

/// The codes of an enumerated field of the `ExposureIndexMode` message.
#[derive(Clone, Copy, Debug, PartialEq, Eq, Hash, PartialOrd, Ord)]
pub enum ExposureIndexModeType {
    EiModeOff,
    EiModeOn,
}

impl ProtoEnum for ExposureIndexModeType {
    open spec fn code(self) -> i32 {
        match self {
            ExposureIndexModeType::EiModeOff => 0,
            ExposureIndexModeType::EiModeOn => 1,
        }
    }

    open spec fn decode(v: i32) -> Option<Self> {
        if v == 0 {
            Some(ExposureIndexModeType::EiModeOff)
        } else if v == 1 {
            Some(ExposureIndexModeType::EiModeOn)
        } else {
            None
        }
    }

    fn to_i32(&self) -> (v: i32) {
        match self {
            ExposureIndexModeType::EiModeOff => 0,
            ExposureIndexModeType::EiModeOn => 1,
        }
    }

    fn from_i32(v: i32) -> (r: Option<Self>) {
        match v {
            0 => Some(ExposureIndexModeType::EiModeOff),
            1 => Some(ExposureIndexModeType::EiModeOn),
            _ => None,
        }
    }

    proof fn lemma_code_round_trip(e: Self, v: i32) {
    }
}

/// The codes of an enumerated field of the `GainMode` message.
#[derive(Clone, Copy, Debug, PartialEq, Eq, Hash, PartialOrd, Ord)]
pub enum GainModeType {
    Auto,
    LowGain,
    HighGain,
}

impl ProtoEnum for GainModeType {
    open spec fn code(self) -> i32 {
        match self {
            GainModeType::Auto => 0,
            GainModeType::LowGain => 1,
            GainModeType::HighGain => 2,
        }
    }

    open spec fn decode(v: i32) -> Option<Self> {
        if v == 0 {
            Some(GainModeType::Auto)
        } else if v == 1 {
            Some(GainModeType::LowGain)
        } else if v == 2 {
            Some(GainModeType::HighGain)
        } else {
            None
        }
    }

    fn to_i32(&self) -> (v: i32) {
        match self {
            GainModeType::Auto => 0,
            GainModeType::LowGain => 1,
            GainModeType::HighGain => 2,
        }
    }

    fn from_i32(v: i32) -> (r: Option<Self>) {
        match v {
            0 => Some(GainModeType::Auto),
            1 => Some(GainModeType::LowGain),
            2 => Some(GainModeType::HighGain),
            _ => None,
        }
    }

    proof fn lemma_code_round_trip(e: Self, v: i32) {
    }
}

/// The codes of an enumerated field of the `GimbalInstallPosition` message.
#[derive(Clone, Copy, Debug, PartialEq, Eq, Hash, PartialOrd, Ord)]
pub enum GimbalInstallPositionType {
    Normal,
    Reverse,
}

impl ProtoEnum for GimbalInstallPositionType {
    open spec fn code(self) -> i32 {
        match self {
            GimbalInstallPositionType::Normal => 0,
            GimbalInstallPositionType::Reverse => 1,
        }
    }

    open spec fn decode(v: i32) -> Option<Self> {
        if v == 0 {
            Some(GimbalInstallPositionType::Normal)
        } else if v == 1 {
            Some(GimbalInstallPositionType::Reverse)
        } else {
            None
        }
    }

    fn to_i32(&self) -> (v: i32) {
        match self {
            GimbalInstallPositionType::Normal => 0,
            GimbalInstallPositionType::Reverse => 1,
        }
    }

    fn from_i32(v: i32) -> (r: Option<Self>) {
        match v {
            0 => Some(GimbalInstallPositionType::Normal),
            1 => Some(GimbalInstallPositionType::Reverse),
            _ => None,
        }
    }

    proof fn lemma_code_round_trip(e: Self, v: i32) {
    }
}

/// The codes of an enumerated field of the `GimbalMode` message.
#[derive(Clone, Copy, Debug, PartialEq, Eq, Hash, PartialOrd, Ord)]
pub enum GimbalModeType {
    GimbalModeOff,
    GimbalModeLock,
    GimbalModeFollow,
}

impl ProtoEnum for GimbalModeType {
    open spec fn code(self) -> i32 {
        match self {
            GimbalModeType::GimbalModeOff => 0,
            GimbalModeType::GimbalModeLock => 1,
            GimbalModeType::GimbalModeFollow => 2,
        }
    }

    open spec fn decode(v: i32) -> Option<Self> {
        if v == 0 {
            Some(GimbalModeType::GimbalModeOff)
        } else if v == 1 {
            Some(GimbalModeType::GimbalModeLock)
        } else if v == 2 {
            Some(GimbalModeType::GimbalModeFollow)
        } else {
            None
        }
    }

    fn to_i32(&self) -> (v: i32) {
        match self {
            GimbalModeType::GimbalModeOff => 0,
            GimbalModeType::GimbalModeLock => 1,
            GimbalModeType::GimbalModeFollow => 2,
        }
    }

    fn from_i32(v: i32) -> (r: Option<Self>) {
        match v {
            0 => Some(GimbalModeType::GimbalModeOff),
            1 => Some(GimbalModeType::GimbalModeLock),
            2 => Some(GimbalModeType::GimbalModeFollow),
            _ => None,
        }
    }

    proof fn lemma_code_round_trip(e: Self, v: i32) {
    }
}

/// The codes of an enumerated field of the `PositionCoord` message.
#[derive(Clone, Copy, Debug, PartialEq, Eq, Hash, PartialOrd, Ord)]
pub enum PositionCoordUnit {
    UnitRad,
    UnitDeg,
}

impl ProtoEnum for PositionCoordUnit {
    open spec fn code(self) -> i32 {
        match self {
            PositionCoordUnit::UnitRad => 0,
            PositionCoordUnit::UnitDeg => 1,
        }
    }

    open spec fn decode(v: i32) -> Option<Self> {
        if v == 0 {
            Some(PositionCoordUnit::UnitRad)
        } else if v == 1 {
            Some(PositionCoordUnit::UnitDeg)
        } else {
            None
        }
    }

    fn to_i32(&self) -> (v: i32) {
        match self {
            PositionCoordUnit::UnitRad => 0,
            PositionCoordUnit::UnitDeg => 1,
        }
    }

    fn from_i32(v: i32) -> (r: Option<Self>) {
        match v {
            0 => Some(PositionCoordUnit::UnitRad),
            1 => Some(PositionCoordUnit::UnitDeg),
            _ => None,
        }
    }

    proof fn lemma_code_round_trip(e: Self, v: i32) {
    }
}

/// The codes of an enumerated field of the `GpsBasic` message.
#[derive(Clone, Copy, Debug, PartialEq, Eq, Hash, PartialOrd, Ord)]
pub enum GpsStatus {
    GpsNormal,
    GpsInvalid,
    GpsRtk,
}

impl ProtoEnum for GpsStatus {
    open spec fn code(self) -> i32 {
        match self {
            GpsStatus::GpsNormal => 0,
            GpsStatus::GpsInvalid => 1,
            GpsStatus::GpsRtk => 2,
        }
    }

    open spec fn decode(v: i32) -> Option<Self> {
        if v == 0 {
            Some(GpsStatus::GpsNormal)
        } else if v == 1 {
            Some(GpsStatus::GpsInvalid)
        } else if v == 2 {
            Some(GpsStatus::GpsRtk)
        } else {
            None
        }
    }

    fn to_i32(&self) -> (v: i32) {
        match self {
            GpsStatus::GpsNormal => 0,
            GpsStatus::GpsInvalid => 1,
            GpsStatus::GpsRtk => 2,
        }
    }

    fn from_i32(v: i32) -> (r: Option<Self>) {
        match v {
            0 => Some(GpsStatus::GpsNormal),
            1 => Some(GpsStatus::GpsInvalid),
            2 => Some(GpsStatus::GpsRtk),
            _ => None,
        }
    }

    proof fn lemma_code_round_trip(e: Self, v: i32) {
    }
}

/// The codes of an enumerated field of the `GpsBasic` message.
#[derive(Clone, Copy, Debug, PartialEq, Eq, Hash, PartialOrd, Ord)]
pub enum GpsAltType {
    PressureAltitude,
    GpsFusionAltitude,
    RtkAltitude,
}

impl ProtoEnum for GpsAltType {
    open spec fn code(self) -> i32 {
        match self {
            GpsAltType::PressureAltitude => 0,
            GpsAltType::GpsFusionAltitude => 1,
            GpsAltType::RtkAltitude => 2,
        }
    }

    open spec fn decode(v: i32) -> Option<Self> {
        if v == 0 {
            Some(GpsAltType::PressureAltitude)
        } else if v == 1 {
            Some(GpsAltType::GpsFusionAltitude)
        } else if v == 2 {
            Some(GpsAltType::RtkAltitude)
        } else {
            None
        }
    }

    fn to_i32(&self) -> (v: i32) {
        match self {
            GpsAltType::PressureAltitude => 0,
            GpsAltType::GpsFusionAltitude => 1,
            GpsAltType::RtkAltitude => 2,
        }
    }

    fn from_i32(v: i32) -> (r: Option<Self>) {
        match v {
            0 => Some(GpsAltType::PressureAltitude),
            1 => Some(GpsAltType::GpsFusionAltitude),
            2 => Some(GpsAltType::RtkAltitude),
            _ => None,
        }
    }

    proof fn lemma_code_round_trip(e: Self, v: i32) {
    }
}

/// The codes of an enumerated field of the `LaserStatus` message.
#[derive(Clone, Copy, Debug, PartialEq, Eq, Hash, PartialOrd, Ord)]
pub enum LaserStatusType {
    LaserNormal,
    LaserTooClose,
    LaserTooFar,
    LaserClosed,
}

impl ProtoEnum for LaserStatusType {
    open spec fn code(self) -> i32 {
        match self {
            LaserStatusType::LaserNormal => 0,
            LaserStatusType::LaserTooClose => 1,
            LaserStatusType::LaserTooFar => 2,
            LaserStatusType::LaserClosed => 3,
        }
    }

    open spec fn decode(v: i32) -> Option<Self> {
        if v == 0 {
            Some(LaserStatusType::LaserNormal)
        } else if v == 1 {
            Some(LaserStatusType::LaserTooClose)
        } else if v == 2 {
            Some(LaserStatusType::LaserTooFar)
        } else if v == 3 {
            Some(LaserStatusType::LaserClosed)
        } else {
            None
        }
    }

    fn to_i32(&self) -> (v: i32) {
        match self {
            LaserStatusType::LaserNormal => 0,
            LaserStatusType::LaserTooClose => 1,
            LaserStatusType::LaserTooFar => 2,
            LaserStatusType::LaserClosed => 3,
        }
    }

    fn from_i32(v: i32) -> (r: Option<Self>) {
        match v {
            0 => Some(LaserStatusType::LaserNormal),
            1 => Some(LaserStatusType::LaserTooClose),
            2 => Some(LaserStatusType::LaserTooFar),
            3 => Some(LaserStatusType::LaserClosed),
            _ => None,
        }
    }

    proof fn lemma_code_round_trip(e: Self, v: i32) {
    }
}

/// The codes of an enumerated field of the `RangingStatus` message.
#[derive(Clone, Copy, Debug, PartialEq, Eq, Hash, PartialOrd, Ord)]
pub enum RangingStatusType {
    RangingOff,
    RangingOn,
}

impl ProtoEnum for RangingStatusType {
    open spec fn code(self) -> i32 {
        match self {
            RangingStatusType::RangingOff => 0,
            RangingStatusType::RangingOn => 1,
        }
    }

    open spec fn decode(v: i32) -> Option<Self> {
        if v == 0 {
            Some(RangingStatusType::RangingOff)
        } else if v == 1 {
            Some(RangingStatusType::RangingOn)
        } else {
            None
        }
    }

    fn to_i32(&self) -> (v: i32) {
        match self {
            RangingStatusType::RangingOff => 0,
            RangingStatusType::RangingOn => 1,
        }
    }

    fn from_i32(v: i32) -> (r: Option<Self>) {
        match v {
            0 => Some(RangingStatusType::RangingOff),
            1 => Some(RangingStatusType::RangingOn),
            _ => None,
        }
    }

    proof fn lemma_code_round_trip(e: Self, v: i32) {
    }
}

/// The codes of an enumerated field of the `InfraredSceneMode` message.
#[derive(Clone, Copy, Debug, PartialEq, Eq, Hash, PartialOrd, Ord)]
pub enum InfraredSceneModeType {
    SceneModeManual,
    SceneModeCommon,
    SceneModeInspection,
}

impl ProtoEnum for InfraredSceneModeType {
    open spec fn code(self) -> i32 {
        match self {
            InfraredSceneModeType::SceneModeManual => 0,
            InfraredSceneModeType::SceneModeCommon => 1,
            InfraredSceneModeType::SceneModeInspection => 2,
        }
    }

    open spec fn decode(v: i32) -> Option<Self> {
        if v == 0 {
            Some(InfraredSceneModeType::SceneModeManual)
        } else if v == 1 {
            Some(InfraredSceneModeType::SceneModeCommon)
        } else if v == 2 {
            Some(InfraredSceneModeType::SceneModeInspection)
        } else {
            None
        }
    }

    fn to_i32(&self) -> (v: i32) {
        match self {
            InfraredSceneModeType::SceneModeManual => 0,
            InfraredSceneModeType::SceneModeCommon => 1,
            InfraredSceneModeType::SceneModeInspection => 2,
        }
    }

    fn from_i32(v: i32) -> (r: Option<Self>) {
        match v {
            0 => Some(InfraredSceneModeType::SceneModeManual),
            1 => Some(InfraredSceneModeType::SceneModeCommon),
            2 => Some(InfraredSceneModeType::SceneModeInspection),
            _ => None,
        }
    }

    proof fn lemma_code_round_trip(e: Self, v: i32) {
    }
}

/// The codes of an enumerated field of the `InfraredPseudoColor` message.
#[derive(Clone, Copy, Debug, PartialEq, Eq, Hash, PartialOrd, Ord)]
pub enum InfraredPseudoColorType {
    InfraredPseudoColorWhitehot,
    InfraredPseudoColorLava,
    InfraredPseudoColorIronRed,
    InfraredPseudoColorHotiron,
    InfraredPseudoColorMedicine,
    InfraredPseudoColorNorthpole,
    InfraredPseudoColorRainbow1,
    InfraredPseudoColorRainbow2,
    InfraredPseudoColorTracered,
    InfraredPseudoColorBlackhot,
}

impl ProtoEnum for InfraredPseudoColorType {
    open spec fn code(self) -> i32 {
        match self {
            InfraredPseudoColorType::InfraredPseudoColorWhitehot => 0,
            InfraredPseudoColorType::InfraredPseudoColorLava => 1,
            InfraredPseudoColorType::InfraredPseudoColorIronRed => 2,
            InfraredPseudoColorType::InfraredPseudoColorHotiron => 3,
            InfraredPseudoColorType::InfraredPseudoColorMedicine => 4,
            InfraredPseudoColorType::InfraredPseudoColorNorthpole => 5,
            InfraredPseudoColorType::InfraredPseudoColorRainbow1 => 6,
            InfraredPseudoColorType::InfraredPseudoColorRainbow2 => 7,
            InfraredPseudoColorType::InfraredPseudoColorTracered => 8,
            InfraredPseudoColorType::InfraredPseudoColorBlackhot => 9,
        }
    }

    open spec fn decode(v: i32) -> Option<Self> {
        if v == 0 {
            Some(InfraredPseudoColorType::InfraredPseudoColorWhitehot)
        } else if v == 1 {
            Some(InfraredPseudoColorType::InfraredPseudoColorLava)
        } else if v == 2 {
            Some(InfraredPseudoColorType::InfraredPseudoColorIronRed)
        } else if v == 3 {
            Some(InfraredPseudoColorType::InfraredPseudoColorHotiron)
        } else if v == 4 {
            Some(InfraredPseudoColorType::InfraredPseudoColorMedicine)
        } else if v == 5 {
            Some(InfraredPseudoColorType::InfraredPseudoColorNorthpole)
        } else if v == 6 {
            Some(InfraredPseudoColorType::InfraredPseudoColorRainbow1)
        } else if v == 7 {
            Some(InfraredPseudoColorType::InfraredPseudoColorRainbow2)
        } else if v == 8 {
            Some(InfraredPseudoColorType::InfraredPseudoColorTracered)
        } else if v == 9 {
            Some(InfraredPseudoColorType::InfraredPseudoColorBlackhot)
        } else {
            None
        }
    }

    fn to_i32(&self) -> (v: i32) {
        match self {
            InfraredPseudoColorType::InfraredPseudoColorWhitehot => 0,
            InfraredPseudoColorType::InfraredPseudoColorLava => 1,
            InfraredPseudoColorType::InfraredPseudoColorIronRed => 2,
            InfraredPseudoColorType::InfraredPseudoColorHotiron => 3,
            InfraredPseudoColorType::InfraredPseudoColorMedicine => 4,
            InfraredPseudoColorType::InfraredPseudoColorNorthpole => 5,
            InfraredPseudoColorType::InfraredPseudoColorRainbow1 => 6,
            InfraredPseudoColorType::InfraredPseudoColorRainbow2 => 7,
            InfraredPseudoColorType::InfraredPseudoColorTracered => 8,
            InfraredPseudoColorType::InfraredPseudoColorBlackhot => 9,
        }
    }

    fn from_i32(v: i32) -> (r: Option<Self>) {
        match v {
            0 => Some(InfraredPseudoColorType::InfraredPseudoColorWhitehot),
            1 => Some(InfraredPseudoColorType::InfraredPseudoColorLava),
            2 => Some(InfraredPseudoColorType::InfraredPseudoColorIronRed),
            3 => Some(InfraredPseudoColorType::InfraredPseudoColorHotiron),
            4 => Some(InfraredPseudoColorType::InfraredPseudoColorMedicine),
            5 => Some(InfraredPseudoColorType::InfraredPseudoColorNorthpole),
            6 => Some(InfraredPseudoColorType::InfraredPseudoColorRainbow1),
            7 => Some(InfraredPseudoColorType::InfraredPseudoColorRainbow2),
            8 => Some(InfraredPseudoColorType::InfraredPseudoColorTracered),
            9 => Some(InfraredPseudoColorType::InfraredPseudoColorBlackhot),
            _ => None,
        }
    }

    proof fn lemma_code_round_trip(e: Self, v: i32) {
    }
}

/// The codes of an enumerated field of the `InfraredIsotherm` message.
#[derive(Clone, Copy, Debug, PartialEq, Eq, Hash, PartialOrd, Ord)]
pub enum InfraredIsothermModeType {
    InfraredIsothermModeOff,
    InfraredIsothermModeOn,
}

impl ProtoEnum for InfraredIsothermModeType {
    open spec fn code(self) -> i32 {
        match self {
            InfraredIsothermModeType::InfraredIsothermModeOff => 0,
            InfraredIsothermModeType::InfraredIsothermModeOn => 1,
        }
    }

    open spec fn decode(v: i32) -> Option<Self> {
        if v == 0 {
            Some(InfraredIsothermModeType::InfraredIsothermModeOff)
        } else if v == 1 {
            Some(InfraredIsothermModeType::InfraredIsothermModeOn)
        } else {
            None
        }
    }

    fn to_i32(&self) -> (v: i32) {
        match self {
            InfraredIsothermModeType::InfraredIsothermModeOff => 0,
            InfraredIsothermModeType::InfraredIsothermModeOn => 1,
        }
    }

    fn from_i32(v: i32) -> (r: Option<Self>) {
        match v {
            0 => Some(InfraredIsothermModeType::InfraredIsothermModeOff),
            1 => Some(InfraredIsothermModeType::InfraredIsothermModeOn),
            _ => None,
        }
    }

    proof fn lemma_code_round_trip(e: Self, v: i32) {
    }
}

/// The codes of an enumerated field of the `InfraredGainMode` message.
#[derive(Clone, Copy, Debug, PartialEq, Eq, Hash, PartialOrd, Ord)]
pub enum InfraredGainModeType {
    InfraredGainModeHigh,
    InfraredGainModeLow,
}

impl ProtoEnum for InfraredGainModeType {
    open spec fn code(self) -> i32 {
        match self {
            InfraredGainModeType::InfraredGainModeHigh => 0,
            InfraredGainModeType::InfraredGainModeLow => 1,
        }
    }

    open spec fn decode(v: i32) -> Option<Self> {
        if v == 0 {
            Some(InfraredGainModeType::InfraredGainModeHigh)
        } else if v == 1 {
            Some(InfraredGainModeType::InfraredGainModeLow)
        } else {
            None
        }
    }

    fn to_i32(&self) -> (v: i32) {
        match self {
            InfraredGainModeType::InfraredGainModeHigh => 0,
            InfraredGainModeType::InfraredGainModeLow => 1,
        }
    }

    fn from_i32(v: i32) -> (r: Option<Self>) {
        match v {
            0 => Some(InfraredGainModeType::InfraredGainModeHigh),
            1 => Some(InfraredGainModeType::InfraredGainModeLow),
            _ => None,
        }
    }

    proof fn lemma_code_round_trip(e: Self, v: i32) {
    }
}

/// The codes of an enumerated field of the `SensorReadDirection` message.
#[derive(Clone, Copy, Debug, PartialEq, Eq, Hash, PartialOrd, Ord)]
pub enum SenorReadDirectionType {
    TopLeft,
    TopRight,
    BottomRight,
    BottomLeft,
    LeftTop,
    RightTop,
    RightBottom,
    LeftBottom,
}

impl ProtoEnum for SenorReadDirectionType {
    open spec fn code(self) -> i32 {
        match self {
            SenorReadDirectionType::TopLeft => 0,
            SenorReadDirectionType::TopRight => 1,
            SenorReadDirectionType::BottomRight => 2,
            SenorReadDirectionType::BottomLeft => 3,
            SenorReadDirectionType::LeftTop => 4,
            SenorReadDirectionType::RightTop => 5,
            SenorReadDirectionType::RightBottom => 6,
            SenorReadDirectionType::LeftBottom => 7,
        }
    }

    open spec fn decode(v: i32) -> Option<Self> {
        if v == 0 {
            Some(SenorReadDirectionType::TopLeft)
        } else if v == 1 {
            Some(SenorReadDirectionType::TopRight)
        } else if v == 2 {
            Some(SenorReadDirectionType::BottomRight)
        } else if v == 3 {
            Some(SenorReadDirectionType::BottomLeft)
        } else if v == 4 {
            Some(SenorReadDirectionType::LeftTop)
        } else if v == 5 {
            Some(SenorReadDirectionType::RightTop)
        } else if v == 6 {
            Some(SenorReadDirectionType::RightBottom)
        } else if v == 7 {
            Some(SenorReadDirectionType::LeftBottom)
        } else {
            None
        }
    }

    fn to_i32(&self) -> (v: i32) {
        match self {
            SenorReadDirectionType::TopLeft => 0,
            SenorReadDirectionType::TopRight => 1,
            SenorReadDirectionType::BottomRight => 2,
            SenorReadDirectionType::BottomLeft => 3,
            SenorReadDirectionType::LeftTop => 4,
            SenorReadDirectionType::RightTop => 5,
            SenorReadDirectionType::RightBottom => 6,
            SenorReadDirectionType::LeftBottom => 7,
        }
    }

    fn from_i32(v: i32) -> (r: Option<Self>) {
        match v {
            0 => Some(SenorReadDirectionType::TopLeft),
            1 => Some(SenorReadDirectionType::TopRight),
            2 => Some(SenorReadDirectionType::BottomRight),
            3 => Some(SenorReadDirectionType::BottomLeft),
            4 => Some(SenorReadDirectionType::LeftTop),
            5 => Some(SenorReadDirectionType::RightTop),
            6 => Some(SenorReadDirectionType::RightBottom),
            7 => Some(SenorReadDirectionType::LeftBottom),
            _ => None,
        }
    }

    proof fn lemma_code_round_trip(e: Self, v: i32) {
    }
}

/// The codes of an enumerated field of the `EisStatus` message.
#[derive(Clone, Copy, Debug, PartialEq, Eq, Hash, PartialOrd, Ord)]
pub enum EisStatusType {
    EisOff,
    EisRockSteady,
    EisHorizonSteady,
}

impl ProtoEnum for EisStatusType {
    open spec fn code(self) -> i32 {
        match self {
            EisStatusType::EisOff => 0,
            EisStatusType::EisRockSteady => 1,
            EisStatusType::EisHorizonSteady => 2,
        }
    }

    open spec fn decode(v: i32) -> Option<Self> {
        if v == 0 {
            Some(EisStatusType::EisOff)
        } else if v == 1 {
            Some(EisStatusType::EisRockSteady)
        } else if v == 2 {
            Some(EisStatusType::EisHorizonSteady)
        } else {
            None
        }
    }

    fn to_i32(&self) -> (v: i32) {
        match self {
            EisStatusType::EisOff => 0,
            EisStatusType::EisRockSteady => 1,
            EisStatusType::EisHorizonSteady => 2,
        }
    }

    fn from_i32(v: i32) -> (r: Option<Self>) {
        match v {
            0 => Some(EisStatusType::EisOff),
            1 => Some(EisStatusType::EisRockSteady),
            2 => Some(EisStatusType::EisHorizonSteady),
            _ => None,
        }
    }

    proof fn lemma_code_round_trip(e: Self, v: i32) {
    }
}

} // verus!
