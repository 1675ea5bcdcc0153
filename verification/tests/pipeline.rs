use bisc::fragmentation::Fragmenter;
use bisc::media::{VideoCommand, APP_AUDIO_STREAM_ID, SCREEN_STREAM_ID, VIDEO_STREAM_ID, VOICE_STREAM_ID};
use bisc::pipeline::{AudioSendState, FrameReceiver, ReceiveStep, VideoSendState};
use bisc::net::TransportMetrics;
use bisc::sim::{route_datagram, route_decision, RouteDecision, SimPeerId, SimPeerIds};
use bisc::timing::TestTimer;

#[test]
fn video_sender_stamps_slots_and_flags_keyframes() {
    let mut s = VideoSendState::new(VIDEO_STREAM_ID, 30);
    let idr = vec![0x00, 0x00, 0x00, 0x01, 0x65, 0x11];
    let p = s.on_encoded(&idr);
    assert_eq!(p.len(), 1);
    assert!(p[0].is_keyframe);
    assert_eq!(p[0].timestamp, 0);
    assert_eq!(p[0].stream_id, VIDEO_STREAM_ID);

    s.skip_frame();
    let big = vec![0x41u8; 2500];
    let p = s.on_encoded(&big);
    assert_eq!(p.len(), 3);
    assert!(!p[0].is_keyframe);
    assert_eq!(p[0].timestamp, 6000);
    assert_eq!(p[0].sequence, 1);
    assert_eq!(p[2].sequence, 3);
}

#[test]
fn audio_sender_packets() {
    let mut s = AudioSendState::new(APP_AUDIO_STREAM_ID);
    let p = s.on_encoded(vec![1, 2, 3]);
    assert_eq!((p.stream_id, p.timestamp, p.fragment_count, p.payload.clone()), (APP_AUDIO_STREAM_ID, 0, 1, vec![1, 2, 3]));
    s.skip_frame();
    let p = s.on_encoded(vec![4]);
    assert_eq!(p.timestamp, 1920);
    let mut v = AudioSendState::new(VOICE_STREAM_ID);
    assert_eq!(v.on_encoded(vec![]).stream_id, 0);
}

#[test]
fn receiver_filters_other_streams_and_reassembles() {
    let mut frag = Fragmenter::new();
    let packets = frag.fragment(SCREEN_STREAM_ID, 90, true, &[5u8; 250], 100);
    let mut r = FrameReceiver::new(SCREEN_STREAM_ID);

    let mut other = packets[0].clone();
    other.stream_id = VIDEO_STREAM_ID;
    assert!(matches!(r.on_packet_at(other, 0), ReceiveStep::Ignored));

    assert!(matches!(r.on_packet_at(packets[0].clone(), 0), ReceiveStep::Pending));
    assert!(matches!(r.on_packet_at(packets[1].clone(), 0), ReceiveStep::Pending));
    match r.on_packet_at(packets[2].clone(), 0) {
        ReceiveStep::Frame(f) => {
            assert_eq!(f.data, vec![5u8; 250]);
            assert!(f.is_keyframe);
        }
        other => panic!("expected a frame, got {:?}", other),
    }
}

#[test]
fn sim_routing() {
    let mut ids = SimPeerIds::new();
    assert_eq!(ids.create_peer(), SimPeerId(0));
    assert_eq!(ids.create_peer(), SimPeerId(1));
    assert_eq!(route_decision(true, false, false, 10, 5), RouteDecision::Drop);
    assert_eq!(route_decision(false, false, true, 10, 5), RouteDecision::Drop);
    assert_eq!(route_decision(false, false, false, 10, 5), RouteDecision::Deliver { delay_nanos: 15 });
}

#[test]
fn test_timer_records_phases() {
    let mut t = TestTimer::new("t");
    t.phase_at("setup", 5);
    t.phase_at("run", 12);
    t.phase("teardown");
    assert_eq!(t.phase_count(), 3);
}

#[test]
fn camera_off_frames_are_counted_but_not_encoded() {
    let mut s = VideoSendState::new(VIDEO_STREAM_ID, 30);
    for _ in 0..3 {
        s.skip_frame();
    }
    let c = s.counters();
    assert_eq!((c.frames_captured, c.frames_encoded, c.fragments_sent), (3, 0, 0));
    let p = s.on_encoded(&[0x41u8; 1500]);
    assert_eq!(p[0].timestamp, 9000);
    for _ in &p {
        s.on_fragment_sent();
    }
    let c = s.counters();
    assert_eq!((c.frames_captured, c.frames_encoded, c.fragments_sent), (4, 1, 2));
}

#[test]
fn audio_sender_counts_encoded_and_sent() {
    let mut s = AudioSendState::new(VOICE_STREAM_ID);
    s.skip_frame();
    let _ = s.on_encoded(vec![1]);
    s.on_packet_sent();
    let c = s.counters();
    assert_eq!((c.frames_encoded, c.packets_sent), (1, 1));
}

#[test]
fn routing_counts_on_the_sender() {
    let mut m = TransportMetrics::new();
    for _ in 0..5 {
        route_datagram(&mut m, false, false, false, 0, 0, 100);
    }
    for _ in 0..10 {
        assert_eq!(route_datagram(&mut m, true, false, false, 0, 0, 100), RouteDecision::Drop);
    }
    for _ in 0..3 {
        route_datagram(&mut m, false, false, false, 0, 0, 100);
    }
    assert_eq!(m.datagrams_sent, 8);
    assert_eq!(m.datagrams_dropped, 10);
    assert_eq!(m.bytes_sent, 800);
}

#[test]
fn keyframe_requests_are_counted() {
    let mut s = VideoSendState::new(VIDEO_STREAM_ID, 30);
    s.on_command(VideoCommand::ForceKeyframe);
    s.on_command(VideoCommand::SetBitrate(300_000));
    s.on_command(VideoCommand::ForceKeyframe);
    let c = s.counters();
    assert_eq!(c.keyframes_forced, 2);
    assert_eq!((c.frames_captured, c.frames_encoded, c.fragments_sent), (0, 0, 0));
}

#[test]
fn delivery_delay_only_matters_when_delivered() {
    assert_eq!(route_decision(false, true, false, u64::MAX, u64::MAX), RouteDecision::Drop);
}
