use bisc::congestion::{CongestionController, LossLevel};
use bisc::control::{control_type_name, frame_message, length_prefix, read_length_prefix, FrameError, ReceiverReportGenerator};
use bisc::jitter_buffer::JitterStats;
use bisc::media_transport::TransportMetrics;
use bisc::negotiation::{default_offer, select_answer};
use bisc::protocol::{CodecInfo, MediaControl, MediaOffer};

fn codec(name: &str, sample_rate: u32, channels: u8) -> CodecInfo {
    CodecInfo { name: name.to_string(), sample_rate, channels }
}

#[test]
fn select_answer_picks_lower_resolution() {
    let remote = MediaOffer {
        audio_codecs: vec![codec("opus", 48_000, 1)],
        video_codecs: vec![codec("h264", 90_000, 0)],
        max_resolution: (1920, 1080),
        max_framerate: 30,
    };

    let local = MediaOffer {
        audio_codecs: vec![codec("opus", 48_000, 1)],
        video_codecs: vec![codec("h264", 90_000, 0)],
        max_resolution: (1280, 720),
        max_framerate: 24,
    };

    let answer = select_answer(&remote, &local).unwrap();
    assert_eq!(answer.negotiated_resolution, (1280, 720));
    assert_eq!(answer.negotiated_framerate, 24);
}

#[test]
fn select_answer_no_common_codec_returns_error() {
    let remote = MediaOffer {
        audio_codecs: vec![codec("aac", 44_100, 2)],
        video_codecs: vec![codec("h264", 90_000, 0)],
        max_resolution: (1920, 1080),
        max_framerate: 30,
    };

    let local = MediaOffer {
        audio_codecs: vec![codec("opus", 48_000, 1)],
        video_codecs: vec![codec("h264", 90_000, 0)],
        max_resolution: (1920, 1080),
        max_framerate: 30,
    };

    let result = select_answer(&remote, &local);
    assert!(result.is_err(), "should fail when no common audio codec");
}

#[test]
fn codec_priority_prefers_h264_over_vp8() {
    let remote = MediaOffer {
        audio_codecs: vec![codec("opus", 48_000, 1)],
        video_codecs: vec![codec("vp8", 90_000, 0), codec("h264", 90_000, 0)],
        max_resolution: (1920, 1080),
        max_framerate: 30,
    };

    let local = MediaOffer {
        audio_codecs: vec![codec("opus", 48_000, 1)],
        video_codecs: vec![codec("h264", 90_000, 0), codec("vp8", 90_000, 0)],
        max_resolution: (1920, 1080),
        max_framerate: 30,
    };

    let answer = select_answer(&remote, &local).unwrap();
    assert_eq!(answer.selected_video_codec.name, "h264");
}

#[test]
fn default_offer_lists_opus_first() {
    let offer = default_offer();
    assert_eq!(offer.audio_codecs[0].name, "opus");
    assert_eq!(offer.max_framerate, 30);
    let answer = select_answer(&offer, &offer).unwrap();
    assert_eq!(answer.selected_audio_codec.name, "opus");
    assert_eq!(answer.selected_video_codec.name, "h264");
}

#[test]
fn length_prefix_is_big_endian_and_roundtrips() {
    assert_eq!(length_prefix(0x0102_0304), [1, 2, 3, 4]);
    let framed = frame_message(&[9, 8, 7]);
    assert_eq!(framed, vec![0, 0, 0, 3, 9, 8, 7]);
    assert_eq!(read_length_prefix([0, 0, 0, 3]), Ok(3));
    assert_eq!(read_length_prefix([0, 1, 0, 1]), Err(FrameError::TooLarge { len: 65537 }));
}

#[test]
fn receiver_report_reflects_packet_counts() {
    let mut gen = ReceiverReportGenerator::new(0);
    let mut transport = TransportMetrics::new();
    transport.packets_received = 500;
    let mut jitter = JitterStats::new();
    jitter.packets_lost = 3;

    let report = gen.generate_report(&transport, &jitter, 12.5_f64 as u32);

    match report {
        MediaControl::ReceiverReport { stream_id, packets_received, packets_lost, jitter, rtt_estimate_ms } => {
            assert_eq!(stream_id, 0);
            assert_eq!(packets_received, 500);
            assert_eq!(packets_lost, 3);
            assert_eq!(jitter, 12);
            assert_eq!(rtt_estimate_ms, 0); // No RTT measurement yet
        }
        _ => panic!("expected ReceiverReport"),
    }
}

#[test]
fn rtt_estimate_updates_on_response() {
    let mut gen = ReceiverReportGenerator::new(0);
    let transport = TransportMetrics::new();
    let jitter = JitterStats::new();

    // A report sent at 10 ms, answered at 15 ms.
    let _ = gen.generate_report_at(&transport, &jitter, 0, 10_000_000);
    gen.update_rtt_at(15_000_000);
    let rtt = gen.rtt_estimate_ms();
    assert!(rtt >= 3, "RTT should be at least ~5ms, got {rtt}ms");
    assert!(rtt < 100, "RTT should be < 100ms, got {rtt}ms");
}

#[test]
fn rtt_smoothing_applies_ema() {
    // EMA: 100 * 7/8 + 10 * 1/8 = 88.75
    let rtt = ReceiverReportGenerator::smooth(100, 10);
    assert!(rtt > 50 && rtt < 100, "RTT should be smoothed between old(100) and new(~10), got {rtt}");
}

#[test]
fn rtt_without_report_is_unchanged() {
    let mut gen = ReceiverReportGenerator::new(4);
    gen.update_rtt_at(1_000_000);
    assert_eq!(gen.rtt_estimate_ms(), 0);
    assert_eq!(gen.stream_id(), 4);
}

#[test]
fn control_type_name_returns_correct_names() {
    assert_eq!(control_type_name(&MediaControl::RequestKeyframe { stream_id: 0 }), "RequestKeyframe");
    assert_eq!(
        control_type_name(&MediaControl::ReceiverReport {
            stream_id: 0,
            packets_received: 0,
            packets_lost: 0,
            jitter: 0,
            rtt_estimate_ms: 0,
        }),
        "ReceiverReport"
    );
    assert_eq!(
        control_type_name(&MediaControl::QualityChange {
            stream_id: 0,
            bitrate_bps: 0,
            resolution: (0, 0),
            framerate: 0,
        }),
        "QualityChange"
    );
}

#[test]
fn high_loss_cuts_bitrate_to_the_reduced_value() {
    let mut c = CongestionController::new(500_000, 32_000, 2_000_000, 10_000_000_000);
    let rec = c.on_report_at(0, 0, 0, LossLevel::High { reduced_bps: 400_000 });
    assert_eq!(rec.map(|r| r.target_bitrate_bps), Some(400_000));
    assert_eq!(c.current_bitrate_bps(), 400_000);
}

#[test]
fn reduced_bitrate_is_clamped_to_min() {
    let mut c = CongestionController::new(40_000, 32_000, 2_000_000, 0);
    let rec = c.on_report_at(0, 0, 0, LossLevel::High { reduced_bps: 1_000 });
    assert_eq!(rec.map(|r| r.target_bitrate_bps), Some(32_000));
    // Already at the minimum: no further recommendation.
    assert!(c.on_report_at(0, 0, 1, LossLevel::High { reduced_bps: 1_000 }).is_none());
}

#[test]
fn sustained_low_loss_raises_bitrate_after_the_delay() {
    let mut c = CongestionController::new(500_000, 32_000, 2_000_000, 10_000_000_000);
    // First low-loss report only starts the timer.
    assert!(c.on_report_at(0, 0, 0, LossLevel::Low { increased_bps: 550_000 }).is_none());
    // Too early.
    assert!(c.on_report_at(0, 0, 5_000_000_000, LossLevel::Low { increased_bps: 550_000 }).is_none());
    // After the delay: raised, clamped to the maximum.
    let rec = c.on_report_at(0, 0, 10_000_000_000, LossLevel::Low { increased_bps: 3_000_000 });
    assert_eq!(rec.map(|r| r.target_bitrate_bps), Some(2_000_000));
}

#[test]
fn moderate_loss_resets_increase_timer() {
    let mut c = CongestionController::new(500_000, 32_000, 2_000_000, 10_000_000_000);
    assert!(c.on_report_at(0, 0, 0, LossLevel::Low { increased_bps: 550_000 }).is_none());
    assert!(c.on_report_at(0, 0, 9_000_000_000, LossLevel::Moderate).is_none());
    // The timer restarts with this report.
    assert!(c.on_report_at(0, 0, 10_000_000_000, LossLevel::Low { increased_bps: 550_000 }).is_none());
    assert_eq!(c.current_bitrate_bps(), 500_000);
    assert_eq!(c.reports_received(), 3);
}

#[test]
fn rtt_and_jitter_are_recorded() {
    let mut c = CongestionController::new(500_000, 32_000, 2_000_000, 0);
    let _ = c.on_report_at(15, 42, 0, LossLevel::Moderate);
    assert_eq!(c.rtt_ms(), 42);
    assert_eq!(c.jitter_ms(), 15);
}

#[test]
fn inverted_bounds_only_matter_when_clamping() {
    // min above max: a moderate report never clamps, so it is accepted.
    let mut c = CongestionController::new(500_000, 2_000_000, 32_000, 0);
    assert!(!c.clamps_on(0, LossLevel::Moderate));
    assert_eq!(c.on_report_at(3, 7, 0, LossLevel::Moderate), None);
    assert_eq!(c.reports_received(), 1);
    assert!(c.clamps_on(0, LossLevel::High { reduced_bps: 1 }));
    // the first low-loss report only starts the timer
    assert!(!c.clamps_on(5, LossLevel::Low { increased_bps: 1 }));
    assert_eq!(c.on_report_at(3, 7, 5, LossLevel::Low { increased_bps: 1 }), None);
    assert!(c.clamps_on(5, LossLevel::Low { increased_bps: 1 }));
}
