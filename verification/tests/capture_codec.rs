use bisc::capture::{
    find_target, frame_samples, frame_to_raw, list_displays, list_windows, rgb_to_rgba, rgba_buffer_len, CaptureTarget,
    CapturedFrame, FrameAccumulator, PlaybackBuffer,
};
use bisc::codec::{
    bitrate_value, check_frame_samples, decoded_samples, expected_samples, i420_plane_sizes, opus_channels, plan_encode,
    BitrateSetting, CodecError, EncodeInput, OpusChannels,
};
use bisc::media::PixelFormat;

#[test]
fn rgb_gains_opaque_alpha_and_drops_partial_pixel() {
    assert_eq!(rgb_to_rgba(&[1, 2, 3, 4, 5, 6, 7]), vec![1, 2, 3, 255, 4, 5, 6, 255]);
}

#[test]
fn frame_conversion_by_layout() {
    let raw = frame_to_raw(CapturedFrame::Bgra { width: 2, height: 1, data: vec![1, 2, 3, 4, 5, 6, 7, 8] }).unwrap();
    assert_eq!(raw.data, vec![3, 2, 1, 4, 7, 6, 5, 8]);
    assert_eq!((raw.width, raw.height, raw.format), (2, 1, PixelFormat::Rgba));

    let raw = frame_to_raw(CapturedFrame::Rgb { width: 1, height: 1, data: vec![9, 8, 7] }).unwrap();
    assert_eq!(raw.data, vec![9, 8, 7, 255]);

    let raw = frame_to_raw(CapturedFrame::Bgrx { width: 1, height: 1, data: vec![1, 2, 3, 4] }).unwrap();
    assert_eq!(raw.data, vec![3, 2, 1, 4]);

    let raw = frame_to_raw(CapturedFrame::Rgbx { width: 1, height: 1, data: vec![1, 2, 3, 4] }).unwrap();
    assert_eq!(raw.data, vec![1, 2, 3, 4]);

    assert!(frame_to_raw(CapturedFrame::Unsupported).is_none());
}

#[test]
fn accumulator_emits_whole_frames_only() {
    let mut acc: FrameAccumulator<f32> = FrameAccumulator::new(4);
    assert!(acc.push(&[0.1, 0.2, 0.3]).is_empty());
    let frames = acc.push(&[0.4, 0.5, 0.6, 0.7, 0.8, 0.9, 1.0]);
    assert_eq!(frames, vec![vec![0.1, 0.2, 0.3, 0.4], vec![0.5, 0.6, 0.7, 0.8]]);
    assert!(acc.push(&[1.1]).is_empty());
    let frames = acc.push(&[1.2]);
    assert_eq!(frames, vec![vec![0.9, 1.0, 1.1, 1.2]]);
}

#[test]
fn frame_sizes() {
    assert_eq!(frame_samples(48_000, 1), 960);
    assert_eq!(frame_samples(48_000, 2), 1920);
    assert_eq!(rgba_buffer_len(640, 480), 640 * 480 * 4);
}

#[test]
fn opus_channel_rules() {
    assert_eq!(opus_channels(1), Ok(OpusChannels::Mono));
    assert_eq!(opus_channels(2), Ok(OpusChannels::Stereo));
    assert_eq!(opus_channels(3), Err(CodecError::UnsupportedChannels(3)));
    assert_eq!(expected_samples(2), 1920);
    assert_eq!(decoded_samples(960, 2), 1920);
}

#[test]
fn wrong_sample_count_is_refused() {
    assert_eq!(check_frame_samples(960, 1), Ok(()));
    assert_eq!(check_frame_samples(100, 1), Err(CodecError::WrongSampleCount { expected: 960, got: 100 }));
    assert_eq!(check_frame_samples(1060, 1), Err(CodecError::WrongSampleCount { expected: 960, got: 1060 }));
}

#[test]
fn bitrate_settings() {
    assert_eq!(bitrate_value(BitrateSetting::Bits(32_000)), 32_000);
    assert_eq!(bitrate_value(BitrateSetting::Max), 510_000);
    assert_eq!(bitrate_value(BitrateSetting::Auto), -1);
}

#[test]
fn encoder_input_rules() {
    assert_eq!(plan_encode(640, 480, PixelFormat::Rgba, 640, 480), Ok(EncodeInput::ConvertRgba));
    assert_eq!(plan_encode(640, 480, PixelFormat::I420, 640, 480), Ok(EncodeInput::UseI420));
    assert_eq!(plan_encode(640, 480, PixelFormat::Nv12, 640, 480), Err(CodecError::Nv12Unsupported));
    assert_eq!(
        plan_encode(320, 240, PixelFormat::Rgba, 640, 480),
        Err(CodecError::DimensionMismatch { frame_width: 320, frame_height: 240, width: 640, height: 480 })
    );
    assert_eq!(i420_plane_sizes(640, 480), (307_200, 76_800));
    assert_eq!(i420_plane_sizes(3, 3), (9, 1));
}

#[test]
fn playback_fills_with_silence_when_starved() {
    let mut b: PlaybackBuffer<f32> = PlaybackBuffer::new();
    assert!(b.needs_more(4));
    b.append(&[0.5, 0.25, 0.125]);
    assert!(!b.needs_more(2));
    assert_eq!(b.take(2, 0.0), vec![0.5, 0.25]);
    assert_eq!(b.take(3, 0.0), vec![0.125, 0.0, 0.0]);
    assert!(b.needs_more(1));
}

#[test]
fn capture_targets_split_into_displays_and_windows() {
    let targets = vec![
        CaptureTarget::Display { id: 1, title: "Main".to_string() },
        CaptureTarget::Window { id: 7, title: "Editor".to_string() },
        CaptureTarget::Display { id: 2, title: "Side".to_string() },
    ];
    let displays = list_displays(&targets);
    assert_eq!(displays.len(), 2);
    assert_eq!((displays[1].id, displays[1].name.as_str(), displays[1].width), (2, "Side", 0));
    let windows = list_windows(&targets);
    assert_eq!(windows.len(), 1);
    assert_eq!((windows[0].id, windows[0].title.as_str(), windows[0].app_name.as_str()), (7, "Editor", ""));
    assert_eq!(find_target(&targets, 2, false), Some(2));
    assert_eq!(find_target(&targets, 7, true), Some(1));
    assert_eq!(find_target(&targets, 7, false), None);
}
