//! The rules the audio and video codecs apply to their inputs and settings.
//!
//! The Opus and H.264 codecs run in the caller; these functions decide what
//! they are handed and what comes back.

use vstd::prelude::*;

use crate::media::{PixelFormat, SAMPLES_PER_FRAME};

verus! {

/// Opus channel layouts.
#[derive(Debug, Clone, Copy, PartialEq, Eq)]
pub enum OpusChannels {
    Mono,
    Stereo,
}

/// Why a codec refuses its input.
#[derive(Debug, Clone, Copy, PartialEq, Eq)]
pub enum CodecError {
    /// Only mono and stereo are supported.
    UnsupportedChannels(u16),
    /// An audio frame must hold exactly one frame of samples per channel.
    WrongSampleCount { expected: usize, got: usize },
    /// The frame's size differs from the encoder's.
    DimensionMismatch { frame_width: u32, frame_height: u32, width: u32, height: u32 },
    /// NV12 frames must be converted to RGBA or I420 first.
    Nv12Unsupported,
}

/// The Opus layout for `channels` channels.
pub fn opus_channels(channels: u16) -> (r: Result<OpusChannels, CodecError>)
    ensures
        channels == 1 ==> r == Ok::<OpusChannels, CodecError>(OpusChannels::Mono),
        channels == 2 ==> r == Ok::<OpusChannels, CodecError>(OpusChannels::Stereo),
        channels != 1 && channels != 2 ==> r == Err::<OpusChannels, CodecError>(CodecError::UnsupportedChannels(channels)),
{
    match channels {
        1 => Ok(OpusChannels::Mono),
        2 => Ok(OpusChannels::Stereo),
        _ => Err(CodecError::UnsupportedChannels(channels)),
    }
}

/// Samples one encoded frame holds for `channels` interleaved channels.
pub fn expected_samples(channels: u16) -> (n: usize)
    requires
        SAMPLES_PER_FRAME * channels <= usize::MAX,
    ensures
        n == SAMPLES_PER_FRAME * channels,
{
    960 * channels as usize
}

/// An encoder input of `len` samples for `channels` channels is accepted
/// exactly when it is one frame long.
pub fn check_frame_samples(len: usize, channels: u16) -> (r: Result<(), CodecError>)
    requires
        SAMPLES_PER_FRAME * channels <= usize::MAX,
    ensures
        len == SAMPLES_PER_FRAME * channels ==> r == Ok::<(), CodecError>(()),
        len != SAMPLES_PER_FRAME * channels ==> r == Err::<(), CodecError>(
            CodecError::WrongSampleCount { expected: (SAMPLES_PER_FRAME * channels) as usize, got: len },
        ),
{
    let expected = expected_samples(channels);
    if len == expected {
        Ok(())
    } else {
        Err(CodecError::WrongSampleCount { expected, got: len })
    }
}

/// Samples a decoder produced: `per_channel` decoded samples for each of
/// `channels` channels.
pub fn decoded_samples(per_channel: usize, channels: u16) -> (n: usize)
    requires
        per_channel * channels <= usize::MAX,
    ensures
        n == per_channel * channels,
{
    per_channel * channels as usize
}

/// An Opus bitrate setting as the encoder reports it.
#[derive(Debug, Clone, Copy, PartialEq, Eq)]
pub enum BitrateSetting {
    Bits(i32),
    Max,
    Auto,
}

/// The bitrate in bits per second a setting stands for: the maximum is
/// 510 kbit/s and automatic is reported as -1.
pub fn bitrate_value(b: BitrateSetting) -> (r: i32)
    ensures
        r == match b {
            BitrateSetting::Bits(bps) => bps,
            BitrateSetting::Max => 510_000i32,
            BitrateSetting::Auto => -1i32,
        },
{
    match b {
        BitrateSetting::Bits(bps) => bps,
        BitrateSetting::Max => 510_000,
        BitrateSetting::Auto => -1,
    }
}

/// How an accepted frame reaches the encoder.
#[derive(Debug, Clone, Copy, PartialEq, Eq)]
pub enum EncodeInput {
    /// Convert the RGBA pixels to I420 first.
    ConvertRgba,
    /// The data already is I420.
    UseI420,
}

/// Decide how a frame of `frame_width` x `frame_height` in `format` is fed to
/// an encoder of `width` x `height`.
pub fn plan_encode(frame_width: u32, frame_height: u32, format: PixelFormat, width: u32, height: u32) -> (r: Result<
    EncodeInput,
    CodecError,
>)
    ensures
        (frame_width != width || frame_height != height) ==> r == Err::<EncodeInput, CodecError>(
            CodecError::DimensionMismatch { frame_width, frame_height, width, height },
        ),
        (frame_width == width && frame_height == height) ==> r == match format {
            PixelFormat::Rgba => Ok::<EncodeInput, CodecError>(EncodeInput::ConvertRgba),
            PixelFormat::I420 => Ok(EncodeInput::UseI420),
            PixelFormat::Nv12 => Err(CodecError::Nv12Unsupported),
        },
{
    if frame_width != width || frame_height != height {
        return Err(CodecError::DimensionMismatch { frame_width, frame_height, width, height });
    }
    match format {
        PixelFormat::Rgba => Ok(EncodeInput::ConvertRgba),
        PixelFormat::I420 => Ok(EncodeInput::UseI420),
        PixelFormat::Nv12 => Err(CodecError::Nv12Unsupported),
    }
}

/// Byte offsets of the I420 planes of a `width` x `height` frame: the luma
/// plane's length and each chroma plane's length.
pub fn i420_plane_sizes(width: u32, height: u32) -> (r: (usize, usize))
    requires
        width * height + 2 * ((width / 2) * (height / 2)) <= usize::MAX,
    ensures
        r.0 == width * height,
        r.1 == (width / 2) * (height / 2),
{
    let w = width as usize;
    let h = height as usize;
    assert((w / 2) * (h / 2) <= w * h) by (nonlinear_arith)
        requires
            w >= 0,
            h >= 0,
    ;
    (w * h, (w / 2) * (h / 2))
}

} // verus!
