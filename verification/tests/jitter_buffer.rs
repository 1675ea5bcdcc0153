use bisc::jitter_buffer::JitterBuffer;
use bisc::protocol::MediaPacket;

fn make_packet(stream_id: u8, seq: u32, timestamp: u32) -> MediaPacket {
    MediaPacket {
        stream_id,
        sequence: seq,
        timestamp,
        fragment_index: 0,
        fragment_count: 1,
        is_keyframe: false,
        payload: vec![0xAA; 10],
    }
}

#[test]
fn in_order_packets_returned_in_order() {
    let mut jb = JitterBuffer::new(0, 960, 20);
    // Push enough to prime (80ms / 20ms = 4 packets)
    for i in 0..4 {
        jb.push(make_packet(0, i, i * 960));
    }
    assert!(jb.is_primed());

    // Pop should return in order
    for i in 0..4 {
        let pkt = jb.pop().unwrap();
        assert_eq!(pkt.sequence, i);
    }
}

#[test]
fn out_of_order_packets_reordered() {
    let mut jb = JitterBuffer::new(0, 960, 20);

    // Push packets out of order
    jb.push(make_packet(0, 2, 2 * 960));
    jb.push(make_packet(0, 0, 0));
    jb.push(make_packet(0, 3, 3 * 960));
    jb.push(make_packet(0, 1, 1 * 960));

    assert!(jb.is_primed());

    // Should come out in order
    assert_eq!(jb.pop().unwrap().sequence, 0);
    assert_eq!(jb.pop().unwrap().sequence, 1);
    assert_eq!(jb.pop().unwrap().sequence, 2);
    assert_eq!(jb.pop().unwrap().sequence, 3);
}

#[test]
fn duplicate_packets_dropped() {
    let mut jb = JitterBuffer::new(0, 960, 20);

    for i in 0..4 {
        jb.push(make_packet(0, i, i * 960));
    }

    // Push duplicates
    jb.push(make_packet(0, 0, 0));
    jb.push(make_packet(0, 2, 2 * 960));

    assert_eq!(jb.stats().packets_dropped_duplicate, 2);
    assert_eq!(jb.len(), 4); // Still only 4 unique packets
}

#[test]
fn gap_in_sequence_produces_none_and_counts_loss() {
    let mut jb = JitterBuffer::new(0, 960, 20);

    // Push packets 0, 1, 2, 4 (missing 3)
    jb.push(make_packet(0, 0, 0));
    jb.push(make_packet(0, 1, 960));
    jb.push(make_packet(0, 2, 2 * 960));
    jb.push(make_packet(0, 4, 4 * 960)); // skip 3

    assert!(jb.is_primed());

    // Pop 0, 1, 2 normally
    assert_eq!(jb.pop().unwrap().sequence, 0);
    assert_eq!(jb.pop().unwrap().sequence, 1);
    assert_eq!(jb.pop().unwrap().sequence, 2);

    // Pop 3 — missing, should return None (gap) and advance
    let result = jb.pop();
    assert!(result.is_none(), "gap should produce None");
    assert_eq!(jb.stats().packets_lost, 1);

    // Pop 4 — should now be available
    assert_eq!(jb.pop().unwrap().sequence, 4);
}

#[test]
fn statistics_tracked_correctly() {
    let mut jb = JitterBuffer::new(0, 960, 20);

    // Push 5 packets
    for i in 0..5 {
        jb.push(make_packet(0, i, i * 960));
    }
    assert_eq!(jb.stats().packets_received, 5);

    // Pop 4 (the initial fill primes at 4)
    let mut played = 0;
    while jb.pop().is_some() {
        played += 1;
    }
    assert_eq!(played, 5);
    assert_eq!(jb.stats().packets_played, 5);

    // Push duplicate
    jb.push(make_packet(0, 0, 0));
    assert_eq!(jb.stats().packets_dropped_duplicate, 1);
}

#[test]
fn different_stream_id_ignored() {
    let mut jb = JitterBuffer::new(0, 960, 20);

    // Push packets for stream 1 — should be ignored
    for i in 0..4 {
        jb.push(make_packet(1, i, i * 960));
    }
    assert_eq!(jb.len(), 0);
    assert!(!jb.is_primed());
}

#[test]
fn seq_comparison_handles_wrapping() {
    // u32::MAX - 1 should be before u32::MAX
    assert!(JitterBuffer::seq_before(u32::MAX - 1, u32::MAX));
    // u32::MAX should be before 0 (wrapping)
    assert!(JitterBuffer::seq_before(u32::MAX, 0));
    // 0 should be after u32::MAX (wrapping)
    assert!(JitterBuffer::seq_after(0, u32::MAX));
}

#[test]
fn pop_before_primed_returns_none() {
    let mut jb = JitterBuffer::new(0, 960, 20);
    jb.push(make_packet(0, 0, 0));
    assert!(!jb.is_primed());
    assert!(jb.pop().is_none());
    assert_eq!(jb.len(), 1);
}

#[test]
fn initial_fill_from_depth() {
    assert_eq!(JitterBuffer::fill_for(80, 20), 4);
    assert_eq!(JitterBuffer::fill_for(50, 20), 3);
}

#[test]
fn stores_tells_which_packets_would_be_kept() {
    let mut jb = JitterBuffer::new(0, 960, 20);
    assert!(!jb.stores(&make_packet(1, 0, 0)));
    assert!(jb.stores(&make_packet(0, 5, 0)));
    jb.push(make_packet(0, 5, 0));
    assert!(!jb.stores(&make_packet(0, 5, 0)));
    assert!(jb.stores(&make_packet(0, 6, 960)));
}
