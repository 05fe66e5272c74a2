//! The settings of the tool.
use vstd::prelude::*;
use vstd::string::*;

use crate::imaging::ImageFormat;

verus! {

/// The video codecs.
#[derive(Debug, Clone, Copy, PartialEq, Eq, Structural)]
pub enum VideoPreset {
    Hevc,
    Av1,
    H264,
}

impl VideoPreset {
    pub open spec fn name(self) -> Seq<char> {
        match self {
            VideoPreset::Hevc => "hevc"@,
            VideoPreset::Av1 => "av1"@,
            VideoPreset::H264 => "h264"@,
        }
    }

    pub fn as_str(self) -> (r: &'static str)
        ensures
            r@ == self.name(),
    {
        match self {
            VideoPreset::Hevc => "hevc",
            VideoPreset::Av1 => "av1",
            VideoPreset::H264 => "h264",
        }
    }
}

/// What a recording takes its sound from.
#[derive(Debug, Clone, Copy, PartialEq, Eq, Structural)]
pub enum AudioSource {
    Mic,
    System,
    Both,
}

impl AudioSource {
    pub open spec fn name(self) -> Seq<char> {
        match self {
            AudioSource::Mic => "mic"@,
            AudioSource::System => "system"@,
            AudioSource::Both => "both"@,
        }
    }

    pub fn as_str(self) -> (r: &'static str)
        ensures
            r@ == self.name(),
    {
        match self {
            AudioSource::Mic => "mic",
            AudioSource::System => "system",
            AudioSource::Both => "both",
        }
    }
}

/// The settings file, with its defaults filled in.
#[derive(Debug)]
pub struct CaptureConfig {
    /// Where captures are saved, if not in the usual folder.
    pub save_dir: Option<String>,
    pub image_format: ImageFormat,
    /// From 1 to 100.
    pub webp_quality: u8,
    /// Whether a PNG is saved beside each capture.
    pub png_also: bool,
    pub video_preset: VideoPreset,
    pub vaapi_device: Option<String>,
    pub audio: Option<AudioSource>,
    pub audio_mic_source: Option<String>,
    pub audio_system_source: Option<String>,
    /// How much later the sound is put, in milliseconds.
    pub audio_offset: i32,
    /// Whether captures show the pointer.
    pub cursor: bool,
    /// The seconds to wait before a capture.
    pub delay: u32,
    pub toasts: bool,
    /// Whether captures go to the clipboard.
    pub copy: bool,
}

impl Default for CaptureConfig {
    fn default() -> (r: Self)
        ensures
            r == CaptureConfig::spec_default(),
    {
        CaptureConfig {
            save_dir: None,
            image_format: ImageFormat::Webp,
            webp_quality: 90,
            png_also: false,
            video_preset: VideoPreset::Hevc,
            vaapi_device: None,
            audio: None,
            audio_mic_source: None,
            audio_system_source: None,
            audio_offset: 130,
            cursor: true,
            delay: 0,
            toasts: true,
            copy: true,
        }
    }
}

impl CaptureConfig {
    pub open spec fn spec_default() -> CaptureConfig {
        CaptureConfig {
            save_dir: None,
            image_format: ImageFormat::Webp,
            webp_quality: 90,
            png_also: false,
            video_preset: VideoPreset::Hevc,
            vaapi_device: None,
            audio: None,
            audio_mic_source: None,
            audio_system_source: None,
            audio_offset: 130,
            cursor: true,
            delay: 0,
            toasts: true,
            copy: true,
        }
    }
}

} // verus!
