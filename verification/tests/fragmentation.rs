use bisc::fragmentation::{Fragmenter, Reassembler};
use bisc::protocol::MediaPacket;

#[test]
fn small_frame_single_fragment() {
    let mut frag = Fragmenter::new();
    let data = vec![1, 2, 3, 4, 5];
    let packets = frag.fragment(1, 1000, false, &data, 100);

    assert_eq!(packets.len(), 1);
    assert_eq!(packets[0].fragment_index, 0);
    assert_eq!(packets[0].fragment_count, 1);
    assert_eq!(packets[0].payload, data);
    assert_eq!(packets[0].stream_id, 1);
    assert_eq!(packets[0].timestamp, 1000);
    assert!(!packets[0].is_keyframe);
}

#[test]
fn large_frame_correct_fragment_count() {
    let mut frag = Fragmenter::new();
    let data = vec![0u8; 1000];
    let packets = frag.fragment(1, 2000, true, &data, 300);

    // ceil(1000 / 300) = 4
    assert_eq!(packets.len(), 4);
    assert_eq!(packets[0].fragment_count, 4);
    assert_eq!(packets[0].payload.len(), 300);
    assert_eq!(packets[1].payload.len(), 300);
    assert_eq!(packets[2].payload.len(), 300);
    assert_eq!(packets[3].payload.len(), 100);

    for (i, pkt) in packets.iter().enumerate() {
        assert_eq!(pkt.fragment_index, i as u8);
        assert_eq!(pkt.timestamp, 2000);
        assert!(pkt.is_keyframe);
    }
}

#[test]
fn fragments_reassemble_to_original() {
    let mut frag = Fragmenter::new();
    let data: Vec<u8> = (0..=255).cycle().take(500).collect();
    let packets = frag.fragment(1, 3000, false, &data, 100);

    let mut reasm = Reassembler::new();
    let mut result = None;
    for pkt in packets {
        if let Some(frame) = reasm.push(pkt) {
            result = Some(frame);
        }
    }

    let frame = result.expect("should reassemble");
    assert_eq!(frame.data, data);
    assert_eq!(frame.timestamp, 3000);
    assert_eq!(frame.stream_id, 1);
    assert!(!frame.is_keyframe);
}

#[test]
fn out_of_order_fragments_reassemble() {
    let mut frag = Fragmenter::new();
    let data = vec![42u8; 500];
    let mut packets = frag.fragment(1, 4000, true, &data, 100);

    // Reverse fragment order
    packets.reverse();

    let mut reasm = Reassembler::new();
    let mut result = None;
    for pkt in packets {
        if let Some(frame) = reasm.push(pkt) {
            result = Some(frame);
        }
    }

    let frame = result.expect("should reassemble even out of order");
    assert_eq!(frame.data, data);
    assert_eq!(frame.timestamp, 4000);
    assert!(frame.is_keyframe);
}

#[test]
fn incomplete_frame_discarded_after_timeout() {
    let mut frag = Fragmenter::new();
    let data = vec![1u8; 500];
    let packets = frag.fragment(1, 5000, false, &data, 100);

    // Only push first 3 of 5 fragments, at time 0
    let mut reasm = Reassembler::with_timeout_nanos(100_000_000);
    for pkt in &packets[..3] {
        let result = reasm.push_at(pkt.clone(), 0);
        assert!(result.is_none());
    }
    assert_eq!(reasm.pending_count(), 1);

    // 150 ms later, another packet triggers cleanup
    let probe = MediaPacket {
        stream_id: 1,
        sequence: 999,
        timestamp: 6000,
        fragment_index: 0,
        fragment_count: 1,
        is_keyframe: false,
        payload: vec![0],
    };
    let _ = reasm.push_at(probe, 150_000_000);

    // The old incomplete frame should have been discarded
    assert_eq!(reasm.pending_count(), 0);
}

#[test]
fn incomplete_frame_kept_within_timeout() {
    let mut frag = Fragmenter::new();
    let packets = frag.fragment(1, 5000, false, &[9u8; 300], 100);
    let mut reasm = Reassembler::with_timeout_nanos(100_000_000);
    assert!(reasm.push_at(packets[0].clone(), 0).is_none());
    assert!(reasm.push_at(packets[1].clone(), 100_000_000).is_none());
    let frame = reasm.push_at(packets[2].clone(), 100_000_000).expect("not yet expired");
    assert_eq!(frame.data, vec![9u8; 300]);
    assert_eq!(reasm.pending_count(), 0);
}

#[test]
fn duplicate_fragments_dont_corrupt() {
    let mut frag = Fragmenter::new();
    let data = vec![7u8; 300];
    let packets = frag.fragment(1, 7000, false, &data, 100);

    assert_eq!(packets.len(), 3);

    let mut reasm = Reassembler::new();

    // Push fragment 0 twice
    assert!(reasm.push(packets[0].clone()).is_none());
    assert!(reasm.push(packets[0].clone()).is_none()); // duplicate ignored

    // Push remaining fragments
    assert!(reasm.push(packets[1].clone()).is_none());
    let frame = reasm.push(packets[2].clone()).expect("should complete");

    assert_eq!(frame.data, data);
    assert_eq!(frame.timestamp, 7000);
}

#[test]
fn fragmentation_sequence_numbers_increment() {
    let mut frag = Fragmenter::new();

    let p1 = frag.fragment(1, 1000, false, &[1, 2, 3], 100);
    assert_eq!(p1[0].sequence, 0);

    let p2 = frag.fragment(1, 2000, false, &[4, 5, 6], 100);
    assert_eq!(p2[0].sequence, 1);

    // Multiple fragments get sequential sequence numbers
    let p3 = frag.fragment(1, 3000, false, &[0u8; 300], 100);
    assert_eq!(p3[0].sequence, 2);
    assert_eq!(p3[1].sequence, 3);
    assert_eq!(p3[2].sequence, 4);
}

#[test]
fn exact_payload_boundary() {
    let mut frag = Fragmenter::new();

    // Data exactly at boundary: should produce 1 fragment, not 2
    let data = vec![0u8; 100];
    let packets = frag.fragment(1, 1000, false, &data, 100);
    assert_eq!(packets.len(), 1);
    assert_eq!(packets[0].payload.len(), 100);

    // Data one byte over: should produce 2 fragments
    let data = vec![0u8; 101];
    let packets = frag.fragment(1, 2000, false, &data, 100);
    assert_eq!(packets.len(), 2);
    assert_eq!(packets[0].payload.len(), 100);
    assert_eq!(packets[1].payload.len(), 1);
}

#[test]
fn empty_frame_is_one_empty_fragment() {
    let mut frag = Fragmenter::new();
    let packets = frag.fragment(2, 10, false, &[], 100);
    assert_eq!(packets.len(), 1);
    assert_eq!(packets[0].fragment_count, 1);
    assert!(packets[0].payload.is_empty());
}

#[test]
fn defaults_start_fresh() {
    let mut f = Fragmenter::default();
    assert_eq!(f.fragment(0, 0, false, &[1], 10)[0].sequence, 0);
    let r = Reassembler::default();
    assert_eq!(r.pending_count(), 0);
}

#[test]
fn custom_timeout_from_duration() {
    let mut frag = Fragmenter::new();
    let packets = frag.fragment(1, 5000, false, &[1u8; 300], 100);
    let mut reasm = Reassembler::with_timeout(std::time::Duration::from_millis(50));
    assert!(reasm.push_at(packets[0].clone(), 0).is_none());
    assert_eq!(reasm.pending_count(), 1);
    // 80 ms later: past the 50 ms timeout (though within the default 100 ms).
    assert!(reasm.push_at(packets[1].clone(), 80_000_000).is_none());
    assert_eq!(reasm.pending_count(), 1);
    // The first fragment was dropped with the expired frame: the frame is not complete.
    assert!(reasm.push_at(packets[2].clone(), 80_000_000).is_none());
}

#[test]
fn reassembly_across_times_within_timeout() {
    let mut frag = Fragmenter::new();
    let data: Vec<u8> = (0..=255).cycle().take(300).collect();
    let packets = frag.fragment(1, 42, false, &data, 100);
    let mut reasm = Reassembler::new();
    assert!(reasm.push_at(packets[2].clone(), 1_000).is_none());
    assert!(reasm.push_at(packets[0].clone(), 40_000_000).is_none());
    let frame = reasm.push_at(packets[1].clone(), 100_001_000).expect("all within the timeout");
    assert_eq!(frame.data, data);
    assert_eq!(reasm.pending_count(), 0);
}
