use bisc::media_transport::{SendSequences, SequenceEvent, RecvSequences};
use bisc::net::{
    connection_state, ChannelEvent, ConnectionState, GossipEvent, PeerAction, PeerTable, TransportMetrics, PEER_TIMEOUT_NANOS,
};
use bisc::protocol::{ChannelMessage, EndpointId, MediaCapabilities};

#[test]
fn transport_sequence_numbers_increment() {
    let mut sequences = SendSequences::new();

    for i in 0..5 {
        assert_eq!(sequences.next_sequence(0), i);
    }

    // Different stream_id has independent sequence
    for i in 0..3 {
        assert_eq!(sequences.next_sequence(1), i);
    }

    assert_eq!(sequences.next_sequence(0), 5);
    assert_eq!(sequences.next_sequence(1), 3);
}

#[test]
fn receive_sequences_detect_gaps() {
    let mut r = RecvSequences::new();
    assert_eq!(r.observe(0, 10), SequenceEvent::Unchanged);
    assert_eq!(r.observe(0, 11), SequenceEvent::InOrder);
    assert_eq!(r.observe(0, 14), SequenceEvent::Gap { expected: 12, got: 14, gap: 3 });
    assert_eq!(r.observe(1, 0), SequenceEvent::Unchanged);
}

#[test]
fn metrics_default_is_zeroed() {
    let m = TransportMetrics::new();
    assert_eq!(m.datagrams_sent, 0);
    assert_eq!(m.datagrams_received, 0);
    assert_eq!(m.datagrams_dropped, 0);
    assert_eq!(m.streams_opened, 0);
    assert_eq!(m.bytes_sent, 0);
    assert_eq!(m.bytes_received, 0);
}

#[test]
fn metrics_record_helpers() {
    let mut m = TransportMetrics::new();

    m.record_datagram_sent(100);
    m.record_datagram_sent(200);
    assert_eq!(m.datagrams_sent, 2);
    assert_eq!(m.bytes_sent, 300);

    m.record_datagram_received(50);
    assert_eq!(m.datagrams_received, 1);
    assert_eq!(m.bytes_received, 50);

    m.record_datagram_dropped();
    m.record_datagram_dropped();
    assert_eq!(m.datagrams_dropped, 2);

    m.record_stream_opened();
    assert_eq!(m.streams_opened, 1);
}

#[test]
fn closed_connection_reports_disconnected() {
    assert_eq!(connection_state(true), ConnectionState::Disconnected);
    assert_eq!(connection_state(false), ConnectionState::Connected);
}

fn caps() -> MediaCapabilities {
    MediaCapabilities { audio: true, video: true, screen_share: true }
}

fn announce(id: EndpointId, name: &str) -> ChannelMessage {
    ChannelMessage::PeerAnnounce { endpoint_id: id, display_name: name.to_string(), capabilities: caps() }
}

#[test]
fn greater_identity_opens_the_connection() {
    let a = EndpointId([2; 32]);
    let b = EndpointId([1; 32]);
    let mut ta = PeerTable::new(a);
    let mut tb = PeerTable::new(b);

    let acts_a = ta.on_message(announce(b, "bob"), 0);
    let acts_b = tb.on_message(announce(a, "alice"), 0);

    assert!(acts_a.contains(&PeerAction::Connect(b)));
    assert!(!acts_b.iter().any(|x| matches!(x, PeerAction::Connect(_))));
    assert!(matches!(&acts_a[0], PeerAction::Emit(ChannelEvent::PeerJoined(p)) if p.display_name == "bob"));
    assert_eq!(ta.peer_count(), 1);
    assert_eq!(tb.peer_count(), 1);
}

#[test]
fn own_messages_are_ignored() {
    let me = EndpointId([5; 32]);
    let mut t = PeerTable::new(me);
    assert!(t.on_message(announce(me, "me"), 0).is_empty());
    assert!(t.on_message(ChannelMessage::PeerLeave { endpoint_id: me }, 0).is_empty());
    assert_eq!(t.peer_count(), 0);
}

#[test]
fn leave_closes_connection_and_reports() {
    let me = EndpointId([9; 32]);
    let other = EndpointId([1; 32]);
    let mut t = PeerTable::new(me);
    let _ = t.on_message(announce(other, "o"), 0);
    let _ = t.on_connection_established(other);
    assert!(t.is_connected(&other));

    let acts = t.on_message(ChannelMessage::PeerLeave { endpoint_id: other }, 1);
    assert_eq!(acts, vec![PeerAction::CloseConnection(other), PeerAction::Emit(ChannelEvent::PeerLeft(other))]);
    assert!(!t.contains_peer(&other));
    assert!(!t.is_connected(&other));
}

#[test]
fn heartbeat_timeout_removes_peer() {
    let me = EndpointId([9; 32]);
    let quiet = EndpointId([1; 32]);
    let chatty = EndpointId([2; 32]);
    let mut t = PeerTable::new(me);
    let _ = t.on_message(announce(quiet, "q"), 0);
    let _ = t.on_message(announce(chatty, "c"), 0);
    let _ = t.on_message(ChannelMessage::Heartbeat { endpoint_id: chatty, timestamp: 10 }, 10_000_000_000);

    let acts = t.expire_peers(16_000_000_000, PEER_TIMEOUT_NANOS);
    assert_eq!(acts, vec![PeerAction::Emit(ChannelEvent::PeerLeft(quiet))]);
    assert!(!t.contains_peer(&quiet));
    assert!(t.contains_peer(&chatty));
}

#[test]
fn unknown_incoming_connection_is_rejected() {
    let mut t = PeerTable::new(EndpointId([9; 32]));
    let stranger = EndpointId([3; 32]);
    assert_eq!(t.on_incoming_connection(stranger), vec![PeerAction::RejectIncoming(stranger)]);
    assert!(!t.is_connected(&stranger));
}

#[test]
fn leaving_closes_all_then_announces() {
    let me = EndpointId([9; 32]);
    let other = EndpointId([1; 32]);
    let mut t = PeerTable::new(me);
    let _ = t.on_message(announce(other, "o"), 0);
    let _ = t.on_incoming_connection(other);
    assert_eq!(t.leave(), vec![PeerAction::CloseConnection(other), PeerAction::AnnounceLeave]);
    assert_eq!(t.on_neighbor_up(), vec![PeerAction::Announce]);
}

#[test]
fn endpoint_hex_is_lowercase() {
    let id = EndpointId([0xAB; 32]);
    assert_eq!(id.to_hex(), "ab".repeat(32));
}

#[test]
fn gossip_events_dispatch() {
    let me = EndpointId([9; 32]);
    let other = EndpointId([1; 32]);
    let mut t = PeerTable::new(me);
    let acts = t.on_gossip_event(GossipEvent::Message { from: other, message: announce(other, "o") }, 0);
    assert_eq!(acts.len(), 2); // joined, and we have the greater identity: connect
    assert_eq!(acts[1], PeerAction::Connect(other));
    assert_eq!(t.on_gossip_event(GossipEvent::NeighborUp(other), 0), vec![PeerAction::Announce]);
    assert!(t.on_gossip_event(GossipEvent::InvalidMessage { from: other, error: "bad".to_string() }, 0).is_empty());
    assert!(t.on_gossip_event(GossipEvent::NeighborDown(other), 0).is_empty());
    assert!(t.on_gossip_event(GossipEvent::Lagged, 0).is_empty());
    assert_eq!(t.peer_count(), 1);
}
