use bisc::capture::bgra_to_rgba;
use bisc::media::{
    AudioConfig, CameraConfig, PipelineMetrics, PixelFormat, RawFrame, ShareConfig, SharePipelineMetrics, VideoConfig,
    VideoPipelineMetrics, APP_AUDIO_STREAM_ID, SAMPLES_PER_FRAME, SCREEN_STREAM_ID,
};
use bisc::pipeline::{contains_idr_nal, share_state_message, timestamp_increment};
use bisc::protocol::{ChannelMessage, EndpointId};

#[test]
fn audio_config_default_is_48k_mono() {
    let config = AudioConfig::default();
    assert_eq!(config.sample_rate, 48_000);
    assert_eq!(config.channels, 1);
    assert_eq!(config.buffer_size, 0);
}

#[test]
fn samples_per_frame_is_960() {
    assert_eq!(SAMPLES_PER_FRAME, 960);
}

#[test]
fn camera_config_default() {
    let config = CameraConfig::default();
    assert_eq!(config.width, 640);
    assert_eq!(config.height, 480);
    assert_eq!(config.frame_rate, 30);
    assert_eq!(config.pixel_format, PixelFormat::Rgba);
}

#[test]
fn raw_frame_fields() {
    let frame = RawFrame { data: vec![0u8; 640 * 480 * 4], width: 640, height: 480, format: PixelFormat::Rgba };
    assert_eq!(frame.width, 640);
    assert_eq!(frame.height, 480);
    assert_eq!(frame.format, PixelFormat::Rgba);
    assert_eq!(frame.data.len(), 640 * 480 * 4);
}

#[test]
fn bgra_to_rgba_conversion() {
    let mut bgra = vec![
        0, 0, 255, 255, // Blue in BGRA -> Red in RGBA
        0, 255, 0, 255, // Green stays green
        255, 0, 0, 255, // Red in BGRA -> Blue in RGBA
    ];

    bgra_to_rgba(&mut bgra);

    assert_eq!(bgra[0], 255); // R
    assert_eq!(bgra[1], 0); // G
    assert_eq!(bgra[2], 0); // B
    assert_eq!(bgra[3], 255); // A

    assert_eq!(bgra[4], 0);
    assert_eq!(bgra[5], 255);
    assert_eq!(bgra[6], 0);

    assert_eq!(bgra[8], 0);
    assert_eq!(bgra[9], 0);
    assert_eq!(bgra[10], 255);
}

#[test]
fn share_pipeline_default_config() {
    let config = ShareConfig::default();
    assert_eq!(config.width, 1920);
    assert_eq!(config.height, 1080);
    assert_eq!(config.framerate, 15);
    assert!(!config.include_app_audio);
}

#[test]
fn stream_ids_distinct() {
    assert_ne!(SCREEN_STREAM_ID, 0); // not voice
    assert_ne!(SCREEN_STREAM_ID, 1); // not camera
    assert_ne!(APP_AUDIO_STREAM_ID, 0);
    assert_ne!(APP_AUDIO_STREAM_ID, 1);
    assert_ne!(SCREEN_STREAM_ID, APP_AUDIO_STREAM_ID);
}

#[test]
fn share_pipeline_metrics_increment() {
    let mut m = SharePipelineMetrics::new();
    m.frames_captured = m.frames_captured.wrapping_add(1);
    m.fragments_sent = m.fragments_sent.wrapping_add(5);
    m.audio_packets_sent = m.audio_packets_sent.wrapping_add(3);

    assert_eq!(m.frames_captured, 1);
    assert_eq!(m.fragments_sent, 5);
    assert_eq!(m.audio_packets_sent, 3);
}

#[test]
fn media_state_update_message() {
    let msg = ChannelMessage::MediaStateUpdate {
        endpoint_id: EndpointId([0; 32]),
        audio_muted: false,
        video_enabled: true,
        screen_sharing: true,
        app_audio_sharing: false,
    };

    match msg {
        ChannelMessage::MediaStateUpdate { screen_sharing, app_audio_sharing, .. } => {
            assert!(screen_sharing);
            assert!(!app_audio_sharing);
        }
        _ => panic!("wrong message type"),
    }
}

#[test]
fn share_state_message_reports_app_audio_only_while_sharing() {
    let id = EndpointId([7; 32]);
    let start = share_state_message(id, true, true);
    assert_eq!(
        start,
        ChannelMessage::MediaStateUpdate {
            endpoint_id: id,
            audio_muted: false,
            video_enabled: true,
            screen_sharing: true,
            app_audio_sharing: true,
        }
    );
    let stop = share_state_message(id, false, true);
    match stop {
        ChannelMessage::MediaStateUpdate { screen_sharing, app_audio_sharing, .. } => {
            assert!(!screen_sharing);
            assert!(!app_audio_sharing);
        }
        _ => panic!("wrong message type"),
    }
}

#[test]
fn video_pipeline_default_config() {
    let config = VideoConfig::default();
    assert_eq!(config.width, 640);
    assert_eq!(config.height, 480);
    assert_eq!(config.framerate, 30);
    assert_eq!(config.bitrate_bps, 500_000);
}

#[test]
fn video_pipeline_metrics_increment() {
    let mut m = VideoPipelineMetrics::new();
    m.frames_captured = m.frames_captured.wrapping_add(1);
    m.frames_encoded = m.frames_encoded.wrapping_add(2);
    m.fragments_sent = m.fragments_sent.wrapping_add(10);
    m.fragments_received = m.fragments_received.wrapping_add(9);
    m.frames_reassembled = m.frames_reassembled.wrapping_add(2);
    m.frames_decoded = m.frames_decoded.wrapping_add(2);
    m.keyframes_forced = m.keyframes_forced.wrapping_add(1);

    assert_eq!(m.frames_captured, 1);
    assert_eq!(m.frames_encoded, 2);
    assert_eq!(m.fragments_sent, 10);
    assert_eq!(m.fragments_received, 9);
    assert_eq!(m.frames_reassembled, 2);
    assert_eq!(m.frames_decoded, 2);
    assert_eq!(m.keyframes_forced, 1);
}

#[test]
fn timestamp_increment_90khz() {
    let config = VideoConfig { framerate: 30, ..VideoConfig::default() };
    let ts_inc = timestamp_increment(config.framerate);
    assert_eq!(ts_inc, 3000);

    let ts_inc_15 = timestamp_increment(15);
    assert_eq!(ts_inc_15, 6000);
}

#[test]
fn contains_idr_nal_detects_keyframe() {
    // Annex B start code + NAL type 5 (IDR)
    let data = vec![0x00, 0x00, 0x00, 0x01, 0x65, 0xFF, 0xFF];
    assert!(contains_idr_nal(&data));

    // NAL type 1 (non-IDR slice)
    let data = vec![0x00, 0x00, 0x00, 0x01, 0x41, 0xFF, 0xFF];
    assert!(!contains_idr_nal(&data));

    // 3-byte start code + IDR
    let data = vec![0x00, 0x00, 0x01, 0x65, 0xFF];
    assert!(contains_idr_nal(&data));

    // Empty
    assert!(!contains_idr_nal(&[]));
}

#[test]
fn idr_after_four_byte_start_code_at_end_is_not_seen() {
    // The NAL header would follow the last byte: nothing to inspect.
    assert!(!contains_idr_nal(&[0x00, 0x00, 0x00, 0x01]));
    // An IDR unit later in the stream is found.
    assert!(contains_idr_nal(&[0x41, 0x00, 0x00, 0x01, 0x41, 0x00, 0x00, 0x01, 0x25]));
}

#[test]
fn pipeline_metrics_increment() {
    let mut m = PipelineMetrics::new();
    m.frames_encoded = m.frames_encoded.wrapping_add(1);
    m.frames_decoded = m.frames_decoded.wrapping_add(2);
    m.packets_sent = m.packets_sent.wrapping_add(3);
    m.packets_received = m.packets_received.wrapping_add(4);
    assert_eq!(m.frames_encoded, 1);
    assert_eq!(m.frames_decoded, 2);
    assert_eq!(m.packets_sent, 3);
    assert_eq!(m.packets_received, 4);
}
