//! Media configuration, frame and device descriptions, pipeline commands and
//! counters shared by the voice, camera and screen-share pipelines.

use vstd::prelude::*;

verus! {

/// Stream carrying voice audio.
pub const VOICE_STREAM_ID: u8 = 0;

/// Stream carrying camera video.
pub const VIDEO_STREAM_ID: u8 = 1;

/// Stream carrying screen-share video.
pub const SCREEN_STREAM_ID: u8 = 2;

/// Stream carrying application audio shared with the screen.
pub const APP_AUDIO_STREAM_ID: u8 = 3;

/// Largest fragment payload, chosen to fit comfortably in a QUIC datagram.
pub const MAX_FRAGMENT_PAYLOAD: usize = 1200;

/// Audio sample rate (48 kHz).
pub const SAMPLE_RATE: u32 = 48_000;

/// Audio frame duration in milliseconds.
pub const FRAME_DURATION_MS: u32 = 20;

/// Samples in one mono frame: 48 kHz for 20 ms.
pub const SAMPLES_PER_FRAME: usize = 960;

/// RTP-style video clock rate.
pub const VIDEO_CLOCK_RATE: u32 = 90_000;

/// Pixel format of a raw frame.
#[derive(Debug, Clone, Copy, PartialEq, Eq)]
pub enum PixelFormat {
    /// RGBA 8-bit per channel (4 bytes per pixel).
    Rgba,
    /// NV12 (YUV 4:2:0 semi-planar).
    Nv12,
    /// I420 / YUV420P (YUV 4:2:0 planar: Y, U, V separate planes).
    I420,
}

/// A raw video frame.
#[derive(Debug, Clone)]
pub struct RawFrame {
    /// Pixel data.
    pub data: Vec<u8>,
    /// Frame width in pixels.
    pub width: u32,
    /// Frame height in pixels.
    pub height: u32,
    /// Pixel format.
    pub format: PixelFormat,
}

/// Configuration for camera capture.
#[derive(Debug, Clone, Copy, PartialEq, Eq)]
pub struct CameraConfig {
    pub width: u32,
    pub height: u32,
    pub frame_rate: u32,
    pub pixel_format: PixelFormat,
}

impl Default for CameraConfig {
    /// 640x480 RGBA at 30 frames per second.
    fn default() -> (c: Self)
        ensures
            c == (CameraConfig { width: 640, height: 480, frame_rate: 30, pixel_format: PixelFormat::Rgba }),
    {
        CameraConfig { width: 640, height: 480, frame_rate: 30, pixel_format: PixelFormat::Rgba }
    }
}

/// A camera the system offers.
#[derive(Debug, Clone)]
pub struct CameraInfo {
    pub name: String,
    pub index: u32,
    pub description: String,
}

/// Audio device configuration.
#[derive(Debug, Clone, Copy, PartialEq, Eq)]
pub struct AudioConfig {
    pub sample_rate: u32,
    pub channels: u16,
    /// Device buffer size in frames; 0 lets the device choose.
    pub buffer_size: u32,
}

impl Default for AudioConfig {
    /// 48 kHz mono with the device's own buffer size.
    fn default() -> (c: Self)
        ensures
            c == (AudioConfig { sample_rate: SAMPLE_RATE, channels: 1, buffer_size: 0 }),
    {
        AudioConfig { sample_rate: SAMPLE_RATE, channels: 1, buffer_size: 0 }
    }
}

/// An audio device the system offers.
#[derive(Debug, Clone)]
pub struct AudioDeviceInfo {
    pub name: String,
}

/// A display that can be captured.
#[derive(Debug, Clone)]
pub struct DisplayInfo {
    pub name: String,
    pub id: u32,
    pub width: u32,
    pub height: u32,
}

/// A window that can be captured.
#[derive(Debug, Clone)]
pub struct WindowInfo {
    pub title: String,
    pub app_name: String,
    pub id: u32,
}

/// An application whose audio can be captured.
#[derive(Debug, Clone)]
pub struct AppAudioSource {
    pub name: String,
    pub id: u64,
}

/// Configuration of a camera video pipeline.
#[derive(Debug, Clone, Copy, PartialEq, Eq)]
pub struct VideoConfig {
    pub width: u32,
    pub height: u32,
    pub framerate: u32,
    pub bitrate_bps: u32,
    pub max_bitrate_bps: u32,
    pub min_bitrate_bps: u32,
}

impl Default for VideoConfig {
    /// 640x480 at 30 frames per second and 500 kbit/s, adapting between
    /// 32 kbit/s and 2 Mbit/s.
    fn default() -> (c: Self)
        ensures
            c == (VideoConfig {
                width: 640,
                height: 480,
                framerate: 30,
                bitrate_bps: 500_000,
                max_bitrate_bps: 2_000_000,
                min_bitrate_bps: 32_000,
            }),
    {
        VideoConfig {
            width: 640,
            height: 480,
            framerate: 30,
            bitrate_bps: 500_000,
            max_bitrate_bps: 2_000_000,
            min_bitrate_bps: 32_000,
        }
    }
}

/// Bitrate configuration of a voice pipeline.
#[derive(Debug, Clone, Copy, PartialEq, Eq)]
pub struct VoiceConfig {
    pub initial_bitrate_bps: u32,
    pub max_bitrate_bps: u32,
    pub min_bitrate_bps: u32,
}

/// Configuration of a screen-share pipeline.
#[derive(Debug, Clone, Copy, PartialEq, Eq)]
pub struct ShareConfig {
    pub width: u32,
    pub height: u32,
    pub framerate: u32,
    pub bitrate_bps: u32,
    pub include_app_audio: bool,
}

impl Default for ShareConfig {
    /// 1920x1080 at 15 frames per second and 1 Mbit/s, without app audio.
    fn default() -> (c: Self)
        ensures
            c == (ShareConfig {
                width: 1920,
                height: 1080,
                framerate: 15,
                bitrate_bps: 1_000_000,
                include_app_audio: false,
            }),
    {
        ShareConfig { width: 1920, height: 1080, framerate: 15, bitrate_bps: 1_000_000, include_app_audio: false }
    }
}

/// Commands that can be sent to the video send loop.
#[derive(Debug, Clone, Copy, PartialEq, Eq)]
pub enum VideoCommand {
    /// Force the encoder to produce a keyframe.
    ForceKeyframe,
    /// Change the encoder's target bitrate (bps).
    SetBitrate(u32),
}

/// Commands that can be sent to the voice send loop.
#[derive(Debug, Clone, Copy, PartialEq, Eq)]
pub enum VoiceCommand {
    /// Change the encoder's target bitrate (bps).
    SetBitrate(u32),
}

/// Counters of a voice pipeline. Each wraps at 2^64.
#[derive(Debug, Clone, Copy, PartialEq, Eq)]
pub struct PipelineMetrics {
    pub frames_encoded: u64,
    pub frames_decoded: u64,
    pub packets_sent: u64,
    pub packets_received: u64,
}

impl PipelineMetrics {
    /// All counters at zero.
    pub fn new() -> (m: Self)
        ensures
            m == (PipelineMetrics { frames_encoded: 0, frames_decoded: 0, packets_sent: 0, packets_received: 0 }),
    {
        PipelineMetrics { frames_encoded: 0, frames_decoded: 0, packets_sent: 0, packets_received: 0 }
    }
}

/// Counters of a camera video pipeline. Each wraps at 2^64.
#[derive(Debug, Clone, Copy, PartialEq, Eq)]
pub struct VideoPipelineMetrics {
    pub frames_captured: u64,
    pub frames_encoded: u64,
    pub fragments_sent: u64,
    pub fragments_received: u64,
    pub frames_reassembled: u64,
    pub frames_decoded: u64,
    pub keyframes_forced: u64,
}

impl VideoPipelineMetrics {
    /// All counters at zero.
    pub fn new() -> (m: Self)
        ensures
            m == (VideoPipelineMetrics {
                frames_captured: 0,
                frames_encoded: 0,
                fragments_sent: 0,
                fragments_received: 0,
                frames_reassembled: 0,
                frames_decoded: 0,
                keyframes_forced: 0,
            }),
    {
        VideoPipelineMetrics {
            frames_captured: 0,
            frames_encoded: 0,
            fragments_sent: 0,
            fragments_received: 0,
            frames_reassembled: 0,
            frames_decoded: 0,
            keyframes_forced: 0,
        }
    }
}

/// Counters of a screen-share pipeline. Each wraps at 2^64.
#[derive(Debug, Clone, Copy, PartialEq, Eq)]
pub struct SharePipelineMetrics {
    pub frames_captured: u64,
    pub frames_encoded: u64,
    pub fragments_sent: u64,
    pub fragments_received: u64,
    pub frames_reassembled: u64,
    pub frames_decoded: u64,
    pub audio_packets_sent: u64,
}

impl SharePipelineMetrics {
    /// All counters at zero.
    pub fn new() -> (m: Self)
        ensures
            m == (SharePipelineMetrics {
                frames_captured: 0,
                frames_encoded: 0,
                fragments_sent: 0,
                fragments_received: 0,
                frames_reassembled: 0,
                frames_decoded: 0,
                audio_packets_sent: 0,
            }),
    {
        SharePipelineMetrics {
            frames_captured: 0,
            frames_encoded: 0,
            fragments_sent: 0,
            fragments_received: 0,
            frames_reassembled: 0,
            frames_decoded: 0,
            audio_packets_sent: 0,
        }
    }
}

} // verus!
