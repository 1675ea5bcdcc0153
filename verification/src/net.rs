//! Channel membership: the table of known peers and direct connections, and
//! the decisions the channel event loop takes on gossip messages,
//! connection events and heartbeat timeouts.
//!
//! The gossip subscription, QUIC connections and timers are driven by the
//! caller, which feeds events in and performs the returned actions.

use vstd::prelude::*;

use crate::media_transport::add_wrapping;
use crate::protocol::{bytes_greater, id_greater, ChannelMessage, EndpointId, MediaCapabilities};

verus! {

/// How often to send heartbeats, in nanoseconds.
pub const HEARTBEAT_INTERVAL_NANOS: u128 = 5_000_000_000;

/// How long before a silent peer is considered gone, in nanoseconds.
pub const PEER_TIMEOUT_NANOS: u128 = 15_000_000_000;

/// Metrics tracked by a transport implementation.
#[derive(Debug, Clone, Copy, PartialEq, Eq)]
pub struct TransportMetrics {
    pub datagrams_sent: u64,
    pub datagrams_received: u64,
    pub datagrams_dropped: u64,
    pub streams_opened: u64,
    pub bytes_sent: u64,
    pub bytes_received: u64,
}

impl TransportMetrics {
    /// Create new zeroed metrics.
    pub fn new() -> (m: Self)
        ensures
            m == (TransportMetrics {
                datagrams_sent: 0,
                datagrams_received: 0,
                datagrams_dropped: 0,
                streams_opened: 0,
                bytes_sent: 0,
                bytes_received: 0,
            }),
    {
        TransportMetrics {
            datagrams_sent: 0,
            datagrams_received: 0,
            datagrams_dropped: 0,
            streams_opened: 0,
            bytes_sent: 0,
            bytes_received: 0,
        }
    }

    /// Record a sent datagram.
    pub fn record_datagram_sent(&mut self, bytes: usize)
        ensures
            *final(self) == (TransportMetrics {
                datagrams_sent: add_wrapping(old(self).datagrams_sent, 1),
                bytes_sent: add_wrapping(old(self).bytes_sent, bytes as u64),
                ..*old(self)
            }),
    {
        self.datagrams_sent = self.datagrams_sent.wrapping_add(1);
        self.bytes_sent = self.bytes_sent.wrapping_add(bytes as u64);
    }

    /// Record a received datagram.
    pub fn record_datagram_received(&mut self, bytes: usize)
        ensures
            *final(self) == (TransportMetrics {
                datagrams_received: add_wrapping(old(self).datagrams_received, 1),
                bytes_received: add_wrapping(old(self).bytes_received, bytes as u64),
                ..*old(self)
            }),
    {
        self.datagrams_received = self.datagrams_received.wrapping_add(1);
        self.bytes_received = self.bytes_received.wrapping_add(bytes as u64);
    }

    /// Record a dropped datagram.
    pub fn record_datagram_dropped(&mut self)
        ensures
            *final(self) == (TransportMetrics { datagrams_dropped: add_wrapping(old(self).datagrams_dropped, 1), ..*old(self) }),
    {
        self.datagrams_dropped = self.datagrams_dropped.wrapping_add(1);
    }

    /// Record an opened stream.
    pub fn record_stream_opened(&mut self)
        ensures
            *final(self) == (TransportMetrics { streams_opened: add_wrapping(old(self).streams_opened, 1), ..*old(self) }),
    {
        self.streams_opened = self.streams_opened.wrapping_add(1);
    }
}

/// State of a peer connection.
#[derive(Debug, Clone, Copy, PartialEq, Eq)]
pub enum ConnectionState {
    /// Connection is being established.
    Connecting,
    /// Connection is active and ready for data.
    Connected,
    /// Connection has been closed.
    Disconnected,
}

/// The state of a connection whose close reason is known or not.
pub fn connection_state(closed: bool) -> (s: ConnectionState)
    ensures
        s == if closed { ConnectionState::Disconnected } else { ConnectionState::Connected },
{
    if closed {
        ConnectionState::Disconnected
    } else {
        ConnectionState::Connected
    }
}

/// Information about a known peer in the channel.
#[derive(Debug, Clone, PartialEq, Eq)]
pub struct PeerInfo {
    pub endpoint_id: EndpointId,
    pub display_name: String,
    pub capabilities: MediaCapabilities,
    /// Time of the last announce or heartbeat, in nanoseconds of the caller's clock.
    pub last_heartbeat: u128,
}

pub struct PeerView {
    pub endpoint_id: EndpointId,
    pub display_name: Seq<char>,
    pub capabilities: MediaCapabilities,
    pub last_heartbeat: u128,
}

impl View for PeerInfo {
    type V = PeerView;

    open spec fn view(&self) -> PeerView {
        PeerView {
            endpoint_id: self.endpoint_id,
            display_name: self.display_name@,
            capabilities: self.capabilities,
            last_heartbeat: self.last_heartbeat,
        }
    }
}

/// Events emitted by the channel to the application layer.
#[derive(Debug, Clone, PartialEq, Eq)]
pub enum ChannelEvent {
    /// A new peer has joined the channel.
    PeerJoined(PeerInfo),
    /// A direct QUIC connection has been established to a peer.
    PeerConnected(EndpointId),
    /// A peer has left the channel (explicit leave or timeout).
    PeerLeft(EndpointId),
    /// A peer's media state has changed.
    MediaStateChanged {
        endpoint_id: EndpointId,
        audio_muted: bool,
        video_enabled: bool,
        screen_sharing: bool,
        app_audio_sharing: bool,
    },
    /// A file has been announced by a peer.
    FileAnnounced { endpoint_id: EndpointId, file_hash: [u8; 32], file_name: String, file_size: u64 },
}

/// What the caller must do after the table took a decision.
#[derive(Debug, Clone, PartialEq, Eq)]
pub enum PeerAction {
    /// Deliver an event to the application.
    Emit(ChannelEvent),
    /// Open a direct connection to this peer (in the background).
    Connect(EndpointId),
    /// Close the direct connection to this peer.
    CloseConnection(EndpointId),
    /// Close an incoming connection from a peer the channel does not know.
    RejectIncoming(EndpointId),
    /// Broadcast our own `PeerAnnounce` again.
    Announce,
    /// Broadcast a `PeerLeave` for ourselves.
    AnnounceLeave,
}

pub enum EventView {
    PeerJoined(PeerView),
    PeerConnected(EndpointId),
    PeerLeft(EndpointId),
    MediaStateChanged {
        endpoint_id: EndpointId,
        audio_muted: bool,
        video_enabled: bool,
        screen_sharing: bool,
        app_audio_sharing: bool,
    },
    FileAnnounced { endpoint_id: EndpointId, file_hash: [u8; 32], file_name: Seq<char>, file_size: u64 },
}

pub enum ActionView {
    Emit(EventView),
    Connect(EndpointId),
    CloseConnection(EndpointId),
    RejectIncoming(EndpointId),
    Announce,
    AnnounceLeave,
}

pub open spec fn event_view(e: ChannelEvent) -> EventView {
    match e {
        ChannelEvent::PeerJoined(p) => EventView::PeerJoined(p@),
        ChannelEvent::PeerConnected(id) => EventView::PeerConnected(id),
        ChannelEvent::PeerLeft(id) => EventView::PeerLeft(id),
        ChannelEvent::MediaStateChanged { endpoint_id, audio_muted, video_enabled, screen_sharing, app_audio_sharing } =>
            EventView::MediaStateChanged { endpoint_id, audio_muted, video_enabled, screen_sharing, app_audio_sharing },
        ChannelEvent::FileAnnounced { endpoint_id, file_hash, file_name, file_size } =>
            EventView::FileAnnounced { endpoint_id, file_hash, file_name: file_name@, file_size },
    }
}

pub open spec fn action_view(a: PeerAction) -> ActionView {
    match a {
        PeerAction::Emit(e) => ActionView::Emit(event_view(e)),
        PeerAction::Connect(id) => ActionView::Connect(id),
        PeerAction::CloseConnection(id) => ActionView::CloseConnection(id),
        PeerAction::RejectIncoming(id) => ActionView::RejectIncoming(id),
        PeerAction::Announce => ActionView::Announce,
        PeerAction::AnnounceLeave => ActionView::AnnounceLeave,
    }
}

pub open spec fn action_views(v: Seq<PeerAction>) -> Seq<ActionView> {
    v.map_values(|a: PeerAction| action_view(a))
}

pub open spec fn peer_views(s: Seq<PeerInfo>) -> Seq<PeerView> {
    s.map_values(|p: PeerInfo| p@)
}

/// Index of the peer with this identity, or -1.
pub open spec fn peer_index(s: Seq<PeerView>, id: EndpointId) -> int {
    if exists|i: int| 0 <= i < s.len() && (#[trigger] s[i]).endpoint_id == id {
        choose|i: int| 0 <= i < s.len() && (#[trigger] s[i]).endpoint_id == id
    } else {
        -1
    }
}

/// Index of the connection to this peer, or -1.
pub open spec fn conn_index(s: Seq<EndpointId>, id: EndpointId) -> int {
    if exists|i: int| 0 <= i < s.len() && #[trigger] s[i] == id {
        choose|i: int| 0 <= i < s.len() && #[trigger] s[i] == id
    } else {
        -1
    }
}

pub open spec fn has_peer(s: Seq<PeerView>, id: EndpointId) -> bool {
    exists|i: int| 0 <= i < s.len() && (#[trigger] s[i]).endpoint_id == id
}

pub open spec fn has_conn(s: Seq<EndpointId>, id: EndpointId) -> bool {
    exists|i: int| 0 <= i < s.len() && #[trigger] s[i] == id
}

/// No identity occurs twice.
pub open spec fn distinct_peers(s: Seq<PeerView>) -> bool {
    forall|i: int, j: int| 0 <= i < j < s.len() ==> (#[trigger] s[i]).endpoint_id != (#[trigger] s[j]).endpoint_id
}

pub open spec fn distinct_conns(s: Seq<EndpointId>) -> bool {
    forall|i: int, j: int| 0 <= i < j < s.len() ==> #[trigger] s[i] != #[trigger] s[j]
}

/// Insert or replace the entry of `p`'s identity.
pub open spec fn upsert(s: Seq<PeerView>, p: PeerView) -> Seq<PeerView> {
    let i = peer_index(s, p.endpoint_id);
    if i == -1 {
        s.push(p)
    } else {
        s.update(i, p)
    }
}

/// Remove the entry of this identity, if any.
pub open spec fn remove_peer_spec(s: Seq<PeerView>, id: EndpointId) -> Seq<PeerView> {
    let i = peer_index(s, id);
    if i == -1 {
        s
    } else {
        s.remove(i)
    }
}

pub open spec fn remove_conn_spec(s: Seq<EndpointId>, id: EndpointId) -> Seq<EndpointId> {
    let i = conn_index(s, id);
    if i == -1 {
        s
    } else {
        s.remove(i)
    }
}

/// Mathematical state of a [`PeerTable`].
pub struct TableView {
    pub our_id: EndpointId,
    pub peers: Seq<PeerView>,
    pub connections: Seq<EndpointId>,
}

/// The table after one gossip message and the actions it asks for.
pub open spec fn on_message_spec(t: TableView, msg: ChannelMessage, now: u128) -> (TableView, Seq<ActionView>) {
    match msg {
        ChannelMessage::PeerAnnounce { endpoint_id, display_name, capabilities } => {
            if endpoint_id == t.our_id {
                (t, Seq::empty())
            } else {
                let info = PeerView { endpoint_id, display_name: display_name@, capabilities, last_heartbeat: now };
                let is_new = !has_peer(t.peers, endpoint_id);
                let joined = seq![ActionView::Emit(EventView::PeerJoined(info))];
                (
                    TableView { peers: upsert(t.peers, info), ..t },
                    if is_new && !has_conn(t.connections, endpoint_id) && bytes_greater(t.our_id.0@, endpoint_id.0@) {
                        joined.push(ActionView::Connect(endpoint_id))
                    } else {
                        joined
                    },
                )
            }
        },
        ChannelMessage::PeerLeave { endpoint_id } => {
            if endpoint_id == t.our_id {
                (t, Seq::empty())
            } else {
                let left = seq![ActionView::Emit(EventView::PeerLeft(endpoint_id))];
                (
                    TableView {
                        peers: remove_peer_spec(t.peers, endpoint_id),
                        connections: remove_conn_spec(t.connections, endpoint_id),
                        ..t
                    },
                    if has_conn(t.connections, endpoint_id) {
                        seq![ActionView::CloseConnection(endpoint_id)] + left
                    } else {
                        left
                    },
                )
            }
        },
        ChannelMessage::Heartbeat { endpoint_id, timestamp } => {
            if endpoint_id == t.our_id || !has_peer(t.peers, endpoint_id) {
                (t, Seq::empty())
            } else {
                let i = peer_index(t.peers, endpoint_id);
                (
                    TableView { peers: t.peers.update(i, PeerView { last_heartbeat: now, ..t.peers[i] }), ..t },
                    Seq::empty(),
                )
            }
        },
        ChannelMessage::MediaStateUpdate { endpoint_id, audio_muted, video_enabled, screen_sharing, app_audio_sharing } => {
            if endpoint_id == t.our_id {
                (t, Seq::empty())
            } else {
                (
                    t,
                    seq![
                        ActionView::Emit(
                            EventView::MediaStateChanged {
                                endpoint_id,
                                audio_muted,
                                video_enabled,
                                screen_sharing,
                                app_audio_sharing,
                            },
                        ),
                    ],
                )
            }
        },
        ChannelMessage::FileAnnounce { endpoint_id, file_hash, file_name, file_size } => {
            if endpoint_id == t.our_id {
                (t, Seq::empty())
            } else {
                (
                    t,
                    seq![
                        ActionView::Emit(
                            EventView::FileAnnounced { endpoint_id, file_hash, file_name: file_name@, file_size },
                        ),
                    ],
                )
            }
        },
        ChannelMessage::TicketRefresh { .. } => (t, Seq::empty()),
    }
}

/// The peers known to a channel and the peers it holds a direct connection to.
pub struct PeerTable {
    our_id: EndpointId,
    peers: Vec<PeerInfo>,
    connections: Vec<EndpointId>,
}

impl PeerTable {
    pub closed spec fn view(&self) -> TableView {
        TableView {
            our_id: self.our_id,
            peers: peer_views(self.peers@),
            connections: self.connections@,
        }
    }

    /// No peer and no connection is listed twice.
    pub open spec fn wf(&self) -> bool {
        &&& distinct_peers(self.view().peers)
        &&& distinct_conns(self.view().connections)
    }

    /// An empty table for the channel member `our_id`.
    pub fn new(our_id: EndpointId) -> (t: Self)
        ensures
            t.wf(),
            t.view() == (TableView { our_id, peers: Seq::empty(), connections: Seq::empty() }),
    {
        let t = PeerTable { our_id, peers: Vec::new(), connections: Vec::new() };
        assert(t.view().peers =~= Seq::<PeerView>::empty());
        t
    }

    /// Our own identity.
    pub fn our_endpoint_id(&self) -> (id: EndpointId)
        ensures
            id == self.view().our_id,
    {
        self.our_id
    }

    fn find_peer(&self, id: &EndpointId) -> (r: Option<usize>)
        requires
            self.wf(),
        ensures
            match r {
                Some(i) => i == peer_index(self.view().peers, *id) && 0 <= i < self.view().peers.len(),
                None => peer_index(self.view().peers, *id) == -1 && !has_peer(self.view().peers, *id),
            },
    {
        let ghost s = self.view().peers;
        let mut i: usize = 0;
        while i < self.peers.len()
            invariant
                0 <= i <= self.peers@.len(),
                s == self.view().peers,
                s.len() == self.peers@.len(),
                distinct_peers(s),
                forall|k: int| 0 <= k < i ==> (#[trigger] s[k]).endpoint_id != *id,
            decreases self.peers@.len() - i,
        {
            assert(s[i as int] == self.peers@[i as int]@);
            if self.peers[i].endpoint_id == *id {
                proof {
                    let c = choose|c: int| 0 <= c < s.len() && (#[trigger] s[c]).endpoint_id == *id;
                    if c != i {
                        if c < i {
                        } else {
                            assert(s[i as int].endpoint_id != s[c].endpoint_id);
                        }
                    }
                }
                return Some(i);
            }
            i = i + 1;
        }
        None
    }

    fn find_conn(&self, id: &EndpointId) -> (r: Option<usize>)
        requires
            self.wf(),
        ensures
            match r {
                Some(i) => i == conn_index(self.view().connections, *id) && 0 <= i < self.view().connections.len(),
                None => conn_index(self.view().connections, *id) == -1 && !has_conn(self.view().connections, *id),
            },
    {
        let ghost s = self.view().connections;
        let mut i: usize = 0;
        while i < self.connections.len()
            invariant
                0 <= i <= self.connections@.len(),
                s == self.view().connections,
                distinct_conns(s),
                forall|k: int| 0 <= k < i ==> #[trigger] s[k] != *id,
            decreases self.connections@.len() - i,
        {
            if self.connections[i] == *id {
                proof {
                    let c = choose|c: int| 0 <= c < s.len() && #[trigger] s[c] == *id;
                    if c != i {
                        if c > i {
                            assert(s[i as int] != s[c]);
                        }
                    }
                }
                return Some(i);
            }
            i = i + 1;
        }
        None
    }

    /// Whether the peer is known.
    pub fn contains_peer(&self, id: &EndpointId) -> (r: bool)
        requires
            self.wf(),
        ensures
            r == has_peer(self.view().peers, *id),
    {
        self.find_peer(id).is_some()
    }

    /// Whether a direct connection to the peer is held.
    pub fn is_connected(&self, id: &EndpointId) -> (r: bool)
        requires
            self.wf(),
        ensures
            r == has_conn(self.view().connections, *id),
    {
        self.find_conn(id).is_some()
    }

    /// Number of known peers.
    pub fn peer_count(&self) -> (n: usize)
        ensures
            n == self.view().peers.len(),
    {
        self.peers.len()
    }

    /// A copy of the known peers.
    pub fn peers(&self) -> (v: Vec<PeerInfo>)
        ensures
            peer_views(v@) == self.view().peers,
    {
        let mut v: Vec<PeerInfo> = Vec::new();
        let mut i: usize = 0;
        while i < self.peers.len()
            invariant
                0 <= i <= self.peers@.len(),
                peer_views(v@) =~= peer_views(self.peers@.take(i as int)),
            decreases self.peers@.len() - i,
        {
            let p = copy_peer(&self.peers[i]);
            let ghost vb = v@;
            v.push(p);
            assert(self.peers@.take(i + 1) =~= self.peers@.take(i as int).push(self.peers@[i as int]));
            assert(v@ =~= vb.push(p));
            assert(peer_views(v@) =~= peer_views(vb).push(p@));
            assert(peer_views(self.peers@.take(i + 1)) =~= peer_views(self.peers@.take(i as int)).push(self.peers@[i as int]@));
            i = i + 1;
        }
        assert(self.peers@.take(i as int) =~= self.peers@);
        v
    }
}

impl PeerTable {
    fn upsert_peer(&mut self, info: PeerInfo)
        requires
            old(self).wf(),
        ensures
            final(self).wf(),
            final(self).view() == (TableView { peers: upsert(old(self).view().peers, info@), ..old(self).view() }),
    {
        let ghost s = self.view().peers;
        let ghost iv = info@;
        match self.find_peer(&info.endpoint_id) {
            Some(i) => {
                self.peers.set(i, info);
                proof {
                    assert(peer_views(self.peers@) =~= s.update(i as int, iv));
                    assert forall|a: int, b: int| 0 <= a < b < self.view().peers.len() implies
                        (#[trigger] self.view().peers[a]).endpoint_id != (#[trigger] self.view().peers[b]).endpoint_id by {
                        assert(s[i as int].endpoint_id == iv.endpoint_id);
                    }
                }
            },
            None => {
                self.peers.push(info);
                proof {
                    assert(peer_views(self.peers@) =~= s.push(iv));
                    assert forall|a: int, b: int| 0 <= a < b < self.view().peers.len() implies
                        (#[trigger] self.view().peers[a]).endpoint_id != (#[trigger] self.view().peers[b]).endpoint_id by {
                        if b == s.len() {
                            assert(s[a].endpoint_id != iv.endpoint_id);
                        }
                    }
                }
            },
        }
    }

    fn remove_peer(&mut self, id: &EndpointId)
        requires
            old(self).wf(),
        ensures
            final(self).wf(),
            final(self).view() == (TableView { peers: remove_peer_spec(old(self).view().peers, *id), ..old(self).view() }),
    {
        let ghost s = self.view().peers;
        if let Some(i) = self.find_peer(id) {
            self.peers.remove(i);
            proof {
                assert(peer_views(self.peers@) =~= s.remove(i as int));
                assert forall|a: int, b: int| 0 <= a < b < self.view().peers.len() implies
                    (#[trigger] self.view().peers[a]).endpoint_id != (#[trigger] self.view().peers[b]).endpoint_id by {
                    let a0 = if a < i { a } else { a + 1 };
                    let b0 = if b < i { b } else { b + 1 };
                    assert(self.view().peers[a] == s[a0]);
                    assert(self.view().peers[b] == s[b0]);
                }
            }
        }
    }

    fn remove_conn(&mut self, id: &EndpointId) -> (was: bool)
        requires
            old(self).wf(),
        ensures
            final(self).wf(),
            was == has_conn(old(self).view().connections, *id),
            final(self).view() == (TableView { connections: remove_conn_spec(old(self).view().connections, *id), ..old(self).view() }),
    {
        let ghost s = self.view().connections;
        if let Some(i) = self.find_conn(id) {
            self.connections.remove(i);
            proof {
                assert forall|a: int, b: int| 0 <= a < b < self.view().connections.len() implies
                    #[trigger] self.view().connections[a] != #[trigger] self.view().connections[b] by {
                    let a0 = if a < i { a } else { a + 1 };
                    let b0 = if b < i { b } else { b + 1 };
                    assert(self.view().connections[a] == s[a0]);
                    assert(self.view().connections[b] == s[b0]);
                }
                assert(self.view().connections =~= s.remove(i as int));
            }
            true
        } else {
            false
        }
    }

    fn add_conn(&mut self, id: EndpointId)
        requires
            old(self).wf(),
        ensures
            final(self).wf(),
            final(self).view() == (TableView {
                connections: if has_conn(old(self).view().connections, id) {
                    old(self).view().connections
                } else {
                    old(self).view().connections.push(id)
                },
                ..old(self).view()
            }),
    {
        let ghost s = self.view().connections;
        if self.find_conn(&id).is_none() {
            self.connections.push(id);
            proof {
                assert forall|a: int, b: int| 0 <= a < b < self.view().connections.len() implies
                    #[trigger] self.view().connections[a] != #[trigger] self.view().connections[b] by {
                    if b == s.len() {
                        assert(s[a] != id);
                    }
                }
            }
        }
    }

    /// Take the decisions the channel takes on one gossip message received
    /// at time `now`: update the peer table and return the actions to perform.
    ///
    /// Our own messages are ignored. An announce records (or refreshes) the
    /// peer and reports it; for a new peer without a connection, the side
    /// with the greater identity opens the connection. A leave forgets the
    /// peer, closes its connection and reports it. A heartbeat refreshes a
    /// known peer. Media state and file announcements are passed on.
    pub fn on_message(&mut self, msg: ChannelMessage, now: u128) -> (actions: Vec<PeerAction>)
        requires
            old(self).wf(),
        ensures
            final(self).wf(),
            (final(self).view(), action_views(actions@)) == on_message_spec(old(self).view(), msg, now),
    {
        let ghost t = self.view();
        let ghost m = msg;
        let mut actions: Vec<PeerAction> = Vec::new();
        match msg {
            ChannelMessage::PeerAnnounce { endpoint_id, display_name, capabilities } => {
                if endpoint_id == self.our_id {
                    assert(action_views(actions@) =~= Seq::<ActionView>::empty());
                    return actions;
                }
                let is_new = !self.contains_peer(&endpoint_id);
                let info = PeerInfo { endpoint_id, display_name, capabilities, last_heartbeat: now };
                let event = PeerAction::Emit(ChannelEvent::PeerJoined(copy_peer(&info)));
                self.upsert_peer(info);
                actions.push(event);
                if is_new && !self.is_connected(&endpoint_id) && id_greater(&self.our_id, &endpoint_id) {
                    actions.push(PeerAction::Connect(endpoint_id));
                }
                assert(action_views(actions@) =~= on_message_spec(t, m, now).1);
            },
            ChannelMessage::PeerLeave { endpoint_id } => {
                if endpoint_id == self.our_id {
                    assert(action_views(actions@) =~= Seq::<ActionView>::empty());
                    return actions;
                }
                self.remove_peer(&endpoint_id);
                if self.remove_conn(&endpoint_id) {
                    actions.push(PeerAction::CloseConnection(endpoint_id));
                }
                actions.push(PeerAction::Emit(ChannelEvent::PeerLeft(endpoint_id)));
                assert(action_views(actions@) =~= on_message_spec(t, m, now).1);
            },
            ChannelMessage::Heartbeat { endpoint_id, timestamp } => {
                if endpoint_id != self.our_id {
                    if let Some(i) = self.find_peer(&endpoint_id) {
                        let ghost s = self.view().peers;
                        let mut p = copy_peer(&self.peers[i]);
                        p.last_heartbeat = now;
                        let ghost pv = p@;
                        self.peers.set(i, p);
                        proof {
                            assert(peer_views(self.peers@) =~= s.update(i as int, pv));
                            assert forall|a: int, b: int| 0 <= a < b < self.view().peers.len() implies
                                (#[trigger] self.view().peers[a]).endpoint_id != (#[trigger] self.view().peers[b]).endpoint_id by {
                                assert(s[i as int].endpoint_id == pv.endpoint_id);
                            }
                        }
                    }
                }
                assert(action_views(actions@) =~= Seq::<ActionView>::empty());
            },
            ChannelMessage::MediaStateUpdate { endpoint_id, audio_muted, video_enabled, screen_sharing, app_audio_sharing } => {
                if endpoint_id != self.our_id {
                    actions.push(
                        PeerAction::Emit(
                            ChannelEvent::MediaStateChanged {
                                endpoint_id,
                                audio_muted,
                                video_enabled,
                                screen_sharing,
                                app_audio_sharing,
                            },
                        ),
                    );
                }
                assert(action_views(actions@) =~= on_message_spec(t, m, now).1);
            },
            ChannelMessage::FileAnnounce { endpoint_id, file_hash, file_name, file_size } => {
                if endpoint_id != self.our_id {
                    actions.push(
                        PeerAction::Emit(ChannelEvent::FileAnnounced { endpoint_id, file_hash, file_name, file_size }),
                    );
                }
                assert(action_views(actions@) =~= on_message_spec(t, m, now).1);
            },
            ChannelMessage::TicketRefresh { .. } => {
                assert(action_views(actions@) =~= Seq::<ActionView>::empty());
            },
        }
        actions
    }
}

/// Whether a peer last heard from at `last` has timed out at `now`.
pub open spec fn peer_expired(last: u128, now: u128, timeout: u128) -> bool {
    now > last && now - last > timeout
}

/// Peers that are still alive at `now`.
pub open spec fn alive_pred(now: u128, timeout: u128) -> spec_fn(PeerView) -> bool {
    |p: PeerView| !peer_expired(p.last_heartbeat, now, timeout)
}

/// Connections left and actions produced by expiring the timed-out peers
/// of `peers`, in order, starting from the connections `conns`.
pub open spec fn expiry_spec(peers: Seq<PeerView>, conns: Seq<EndpointId>, now: u128, timeout: u128) -> (
    Seq<EndpointId>,
    Seq<ActionView>,
)
    decreases peers.len(),
{
    if peers.len() == 0 {
        (conns, Seq::empty())
    } else {
        let prev = expiry_spec(peers.drop_last(), conns, now, timeout);
        let p = peers.last();
        if peer_expired(p.last_heartbeat, now, timeout) {
            let close = if has_conn(prev.0, p.endpoint_id) {
                seq![ActionView::CloseConnection(p.endpoint_id)]
            } else {
                Seq::empty()
            };
            (
                remove_conn_spec(prev.0, p.endpoint_id),
                prev.1 + close + seq![ActionView::Emit(EventView::PeerLeft(p.endpoint_id))],
            )
        } else {
            prev
        }
    }
}

impl PeerTable {
    /// A direct connection to `id` is up: record it and report it.
    pub fn on_connection_established(&mut self, id: EndpointId) -> (actions: Vec<PeerAction>)
        requires
            old(self).wf(),
        ensures
            final(self).wf(),
            final(self).view() == (TableView {
                connections: if has_conn(old(self).view().connections, id) {
                    old(self).view().connections
                } else {
                    old(self).view().connections.push(id)
                },
                ..old(self).view()
            }),
            action_views(actions@) == seq![ActionView::Emit(EventView::PeerConnected(id))],
    {
        self.add_conn(id);
        let mut actions: Vec<PeerAction> = Vec::new();
        actions.push(PeerAction::Emit(ChannelEvent::PeerConnected(id)));
        assert(action_views(actions@) =~= seq![ActionView::Emit(EventView::PeerConnected(id))]);
        actions
    }

    /// A peer opened a direct connection to us: keep it if the peer is a
    /// known member of the channel, else reject it.
    pub fn on_incoming_connection(&mut self, id: EndpointId) -> (actions: Vec<PeerAction>)
        requires
            old(self).wf(),
        ensures
            final(self).wf(),
            has_peer(old(self).view().peers, id) ==> final(self).view() == (TableView {
                connections: if has_conn(old(self).view().connections, id) {
                    old(self).view().connections
                } else {
                    old(self).view().connections.push(id)
                },
                ..old(self).view()
            }) && action_views(actions@) == seq![ActionView::Emit(EventView::PeerConnected(id))],
            !has_peer(old(self).view().peers, id) ==> final(self).view() == old(self).view()
                && action_views(actions@) == seq![ActionView::RejectIncoming(id)],
    {
        if self.contains_peer(&id) {
            self.on_connection_established(id)
        } else {
            let mut actions: Vec<PeerAction> = Vec::new();
            actions.push(PeerAction::RejectIncoming(id));
            assert(action_views(actions@) =~= seq![ActionView::RejectIncoming(id)]);
            actions
        }
    }

    /// A new gossip neighbor came up: announce ourselves again so it learns
    /// about us.
    pub fn on_neighbor_up(&self) -> (actions: Vec<PeerAction>)
        ensures
            action_views(actions@) == seq![ActionView::Announce],
    {
        let mut actions: Vec<PeerAction> = Vec::new();
        actions.push(PeerAction::Announce);
        assert(action_views(actions@) =~= seq![ActionView::Announce]);
        actions
    }

    /// Leaving the channel: close every direct connection, then announce
    /// that we leave.
    pub fn leave(&self) -> (actions: Vec<PeerAction>)
        ensures
            action_views(actions@) == self.view().connections.map_values(|id: EndpointId| ActionView::CloseConnection(id)).push(ActionView::AnnounceLeave),
    {
        let mut actions: Vec<PeerAction> = Vec::new();
        let mut i: usize = 0;
        while i < self.connections.len()
            invariant
                0 <= i <= self.connections@.len(),
                action_views(actions@) =~= self.connections@.take(i as int).map_values(|id: EndpointId| ActionView::CloseConnection(id)),
            decreases self.connections@.len() - i,
        {
            let ghost ab = actions@;
            actions.push(PeerAction::CloseConnection(self.connections[i]));
            assert(action_views(actions@) =~= action_views(ab).push(ActionView::CloseConnection(self.connections@[i as int])));
            assert(self.connections@.take(i + 1) =~= self.connections@.take(i as int).push(self.connections@[i as int]));
            i = i + 1;
        }
        assert(self.connections@.take(i as int) =~= self.connections@);
        let ghost ab = actions@;
        actions.push(PeerAction::AnnounceLeave);
        assert(action_views(actions@) =~= action_views(ab).push(ActionView::AnnounceLeave));
        actions
    }

    /// Forget the peers not heard from for longer than `timeout` at `now`:
    /// each is removed with its connection (closed) and reported as left.
    pub fn expire_peers(&mut self, now: u128, timeout: u128) -> (actions: Vec<PeerAction>)
        requires
            old(self).wf(),
        ensures
            final(self).wf(),
            final(self).view().our_id == old(self).view().our_id,
            final(self).view().peers == old(self).view().peers.filter(alive_pred(now, timeout)),
            (final(self).view().connections, action_views(actions@)) == expiry_spec(
                old(self).view().peers,
                old(self).view().connections,
                now,
                timeout,
            ),
    {
        let ghost orig = self.view().peers;
        let ghost pred = alive_pred(now, timeout);
        let mut rest: Vec<PeerInfo> = Vec::new();
        std::mem::swap(&mut rest, &mut self.peers);
        assert(peer_views(rest@) == orig);
        let mut kept: Vec<PeerInfo> = Vec::new();
        let mut actions: Vec<PeerAction> = Vec::new();
        let ghost mut j: int = 0;
        while rest.len() > 0
            invariant
                0 <= j <= orig.len(),
                peer_views(rest@) == orig.skip(j),
                peer_views(kept@) == orig.take(j).filter(pred),
                pred == alive_pred(now, timeout),
                distinct_peers(orig),
                distinct_conns(self.connections@),
                self.peers@.len() == 0,
                (self.connections@, action_views(actions@)) == expiry_spec(orig.take(j), old(self).view().connections, now, timeout),
                self.our_id == old(self).view().our_id,
            decreases rest.len(),
        {
            let ghost before = rest@;
            let p = rest.remove(0);
            proof {
                assert(peer_views(before)[0] == p@);
                assert(peer_views(rest@) =~= peer_views(before).drop_first());
                assert(orig.take(j + 1) =~= orig.take(j).push(orig[j]));
                assert(orig[j] == p@);
                orig.take(j).lemma_filter_push(orig[j], pred);
                assert(orig.take(j + 1).drop_last() =~= orig.take(j));
            }
            let expired = now > p.last_heartbeat && now - p.last_heartbeat > timeout;
            if expired {
                let id = p.endpoint_id;
                let ghost ab = actions@;
                let was = self.remove_conn(&id);
                if was {
                    actions.push(PeerAction::CloseConnection(id));
                }
                actions.push(PeerAction::Emit(ChannelEvent::PeerLeft(id)));
                proof {
                    if was {
                        assert(action_views(actions@) =~= action_views(ab) + seq![ActionView::CloseConnection(id)] + seq![ActionView::Emit(EventView::PeerLeft(id))]);
                    } else {
                        assert(action_views(actions@) =~= action_views(ab) + Seq::<ActionView>::empty() + seq![ActionView::Emit(EventView::PeerLeft(id))]);
                    }
                }
            } else {
                let ghost kb = kept@;
                kept.push(p);
                assert(peer_views(kept@) =~= peer_views(kb).push(p@));
            }
            proof {
                j = j + 1;
                assert(orig.skip(j) =~= orig.skip(j - 1).drop_first());
            }
        }
        proof {
            assert(orig.take(j) =~= orig);
        }
        self.peers = kept;
        proof {
            let kv = self.view().peers;
            assert forall|a: int, b: int| 0 <= a < b < kv.len() implies
                (#[trigger] kv[a]).endpoint_id != (#[trigger] kv[b]).endpoint_id by {
                lemma_filter_distinct(orig, pred, a, b);
            }
        }
        actions
    }
}

proof fn lemma_filter_distinct(s: Seq<PeerView>, pred: spec_fn(PeerView) -> bool, a: int, b: int)
    requires
        distinct_peers(s),
        0 <= a < b < s.filter(pred).len(),
    ensures
        s.filter(pred)[a].endpoint_id != s.filter(pred)[b].endpoint_id,
    decreases s.len(),
{
    reveal(Seq::filter);
    let init = s.drop_last();
    assert forall|x: int, y: int| 0 <= x < y < init.len() implies
        (#[trigger] init[x]).endpoint_id != (#[trigger] init[y]).endpoint_id by {
        assert(init[x] == s[x] && init[y] == s[y]);
    }
    init.lemma_filter_len(pred);
    if pred(s.last()) && b == s.filter(pred).len() - 1 {
        let e = init.filter(pred)[a];
        assert(init.filter(pred).contains(e));
        init.lemma_filter_contains_rev(pred, e);
        let k = choose|k: int| 0 <= k < init.len() && init[k] == e;
        assert(s[k] == e);
        assert(s[k].endpoint_id != s[s.len() - 1].endpoint_id);
    } else {
        lemma_filter_distinct(init, pred, a, b);
    }
}

fn copy_peer(p: &PeerInfo) -> (r: PeerInfo)
    ensures
        r@ == p@,
{
    PeerInfo {
        endpoint_id: p.endpoint_id,
        display_name: p.display_name.clone(),
        capabilities: p.capabilities,
        last_heartbeat: p.last_heartbeat,
    }
}


/// An event of the channel's gossip topic.
#[derive(Debug, Clone, PartialEq, Eq)]
pub enum GossipEvent {
    /// A message that decoded as a channel message.
    Message { from: EndpointId, message: ChannelMessage },
    /// A message that did not decode.
    InvalidMessage { from: EndpointId, error: String },
    /// A direct gossip neighbor came up.
    NeighborUp(EndpointId),
    /// A direct gossip neighbor went away.
    NeighborDown(EndpointId),
    /// The subscription fell behind and missed messages.
    Lagged,
}

/// The table after a gossip event and the actions it asks for.
pub open spec fn on_gossip_spec(t: TableView, e: GossipEvent, now: u128) -> (TableView, Seq<ActionView>) {
    match e {
        GossipEvent::Message { message, .. } => on_message_spec(t, message, now),
        GossipEvent::NeighborUp(_) => (t, seq![ActionView::Announce]),
        _ => (t, Seq::empty()),
    }
}

impl PeerTable {
    /// Handle one gossip event: channel messages as [`PeerTable::on_message`]
    /// does; a new neighbor makes us announce ourselves again; undecodable
    /// messages, lost neighbors and lag change nothing.
    pub fn on_gossip_event(&mut self, event: GossipEvent, now: u128) -> (actions: Vec<PeerAction>)
        requires
            old(self).wf(),
        ensures
            final(self).wf(),
            (final(self).view(), action_views(actions@)) == on_gossip_spec(old(self).view(), event, now),
    {
        match event {
            GossipEvent::Message { message, .. } => self.on_message(message, now),
            GossipEvent::NeighborUp(_) => self.on_neighbor_up(),
            _ => {
                let actions: Vec<PeerAction> = Vec::new();
                assert(action_views(actions@) =~= Seq::<ActionView>::empty());
                actions
            },
        }
    }
}

/// The member a gossip message speaks for, if it names one.
pub open spec fn message_sender(msg: ChannelMessage) -> Option<EndpointId> {
    match msg {
        ChannelMessage::PeerAnnounce { endpoint_id, .. } => Some(endpoint_id),
        ChannelMessage::PeerLeave { endpoint_id } => Some(endpoint_id),
        ChannelMessage::Heartbeat { endpoint_id, .. } => Some(endpoint_id),
        ChannelMessage::MediaStateUpdate { endpoint_id, .. } => Some(endpoint_id),
        ChannelMessage::FileAnnounce { endpoint_id, .. } => Some(endpoint_id),
        ChannelMessage::TicketRefresh { .. } => None,
    }
}

/// A member's own gossip, echoed back to it, changes nothing and asks for
/// nothing.
pub proof fn law_own_messages_change_nothing(t: TableView, msg: ChannelMessage, now: u128)
    requires
        message_sender(msg) == Some(t.our_id),
    ensures
        on_message_spec(t, msg, now) == (t, Seq::<ActionView>::empty()),
{
}

/// Of two identities of equal length, at most one is greater, and exactly
/// one when they differ.
pub proof fn lemma_bytes_greater_total(a: Seq<u8>, b: Seq<u8>)
    requires
        a.len() == b.len(),
    ensures
        !(bytes_greater(a, b) && bytes_greater(b, a)),
        a != b ==> (bytes_greater(a, b) || bytes_greater(b, a)),
    decreases a.len(),
{
    if a.len() == 0 {
        assert(a =~= b);
    } else if a[0] == b[0] {
        lemma_bytes_greater_total(a.drop_first(), b.drop_first());
        if a != b {
            assert(a.drop_first() != b.drop_first()) by {
                if a.drop_first() =~= b.drop_first() {
                    assert(a =~= b) by {
                        assert forall|i: int| 0 <= i < a.len() implies a[i] == b[i] by {
                            if i > 0 {
                                assert(a[i] == a.drop_first()[i - 1]);
                                assert(b[i] == b.drop_first()[i - 1]);
                            }
                        }
                    }
                }
            }
        }
    }
}

/// When two members that do not know each other yet each hear the other's
/// announce, exactly one of them opens the direct connection: the one with
/// the greater identity.
pub proof fn law_single_connection_initiator(
    ta: TableView,
    tb: TableView,
    name_a: String,
    name_b: String,
    caps_a: MediaCapabilities,
    caps_b: MediaCapabilities,
    now: u128,
)
    requires
        ta.our_id != tb.our_id,
        !has_peer(ta.peers, tb.our_id),
        !has_conn(ta.connections, tb.our_id),
        !has_peer(tb.peers, ta.our_id),
        !has_conn(tb.connections, ta.our_id),
    ensures
        ({
            let ra = on_message_spec(
                ta,
                ChannelMessage::PeerAnnounce { endpoint_id: tb.our_id, display_name: name_b, capabilities: caps_b },
                now,
            ).1;
            let rb = on_message_spec(
                tb,
                ChannelMessage::PeerAnnounce { endpoint_id: ta.our_id, display_name: name_a, capabilities: caps_a },
                now,
            ).1;
            &&& ra.contains(ActionView::Connect(tb.our_id)) != rb.contains(ActionView::Connect(ta.our_id))
            &&& ra.contains(ActionView::Connect(tb.our_id)) == bytes_greater(ta.our_id.0@, tb.our_id.0@)
        }),
{
    let a = ta.our_id;
    let b = tb.our_id;
    assert(a.0@ != b.0@) by {
        if a.0@ == b.0@ {
            assert(a.0 == b.0) by {
                assert forall|i: int| 0 <= i < 32 implies a.0[i] == b.0[i] by {
                    assert(a.0@[i] == b.0@[i]);
                }
                vstd::array::lemma_array_index(a.0, 0);
            }
        }
    }
    lemma_bytes_greater_total(a.0@, b.0@);
    let infa = PeerView { endpoint_id: b, display_name: name_b@, capabilities: caps_b, last_heartbeat: now };
    let infb = PeerView { endpoint_id: a, display_name: name_a@, capabilities: caps_a, last_heartbeat: now };
    let ja = seq![ActionView::Emit(EventView::PeerJoined(infa))];
    let jb = seq![ActionView::Emit(EventView::PeerJoined(infb))];
    assert(!ja.contains(ActionView::Connect(b))) by {
        if ja.contains(ActionView::Connect(b)) {
            let k = choose|k: int| 0 <= k < ja.len() && ja[k] == ActionView::Connect(b);
            assert(ja[k] == ActionView::Emit(EventView::PeerJoined(infa)));
        }
    }
    assert(!jb.contains(ActionView::Connect(a))) by {
        if jb.contains(ActionView::Connect(a)) {
            let k = choose|k: int| 0 <= k < jb.len() && jb[k] == ActionView::Connect(a);
            assert(jb[k] == ActionView::Emit(EventView::PeerJoined(infb)));
        }
    }
    assert(ja.push(ActionView::Connect(b))[1] == ActionView::Connect(b));
    assert(jb.push(ActionView::Connect(a))[1] == ActionView::Connect(a));
}

/// The entry found for an identity in a table without duplicates is the
/// only one; removing it leaves no entry for that identity.
pub proof fn lemma_removed_peer_gone(s: Seq<PeerView>, id: EndpointId)
    requires
        distinct_peers(s),
    ensures
        !has_peer(remove_peer_spec(s, id), id),
        distinct_peers(remove_peer_spec(s, id)),
{
    let i = peer_index(s, id);
    if i != -1 {
        let r = s.remove(i);
        assert forall|k: int| 0 <= k < r.len() implies (#[trigger] r[k]).endpoint_id != id by {
            if k < i {
                assert(r[k] == s[k]);
            } else {
                assert(r[k] == s[k + 1]);
            }
        }
        assert forall|x: int, y: int| 0 <= x < y < r.len() implies
            (#[trigger] r[x]).endpoint_id != (#[trigger] r[y]).endpoint_id by {
            let xs = if x < i { x } else { x + 1 };
            let ys = if y < i { y } else { y + 1 };
            assert(r[x] == s[xs] && r[y] == s[ys]);
        }
    }
}

pub proof fn lemma_removed_conn_gone(s: Seq<EndpointId>, id: EndpointId)
    requires
        distinct_conns(s),
    ensures
        !has_conn(remove_conn_spec(s, id), id),
{
    let i = conn_index(s, id);
    if i != -1 {
        let r = s.remove(i);
        assert forall|k: int| 0 <= k < r.len() implies #[trigger] r[k] != id by {
            if k < i {
                assert(r[k] == s[k]);
            } else {
                assert(r[k] == s[k + 1]);
            }
        }
    }
}

/// After another member's announce and then its leave, the table no longer
/// knows that member and holds no connection to it, and the leave is
/// reported.
pub proof fn law_announce_then_leave_forgets_peer(
    t: TableView,
    id: EndpointId,
    name: String,
    caps: MediaCapabilities,
    t1: u128,
    t2: u128,
)
    requires
        id != t.our_id,
        distinct_peers(t.peers),
        distinct_conns(t.connections),
    ensures
        ({
            let after_announce = on_message_spec(
                t,
                ChannelMessage::PeerAnnounce { endpoint_id: id, display_name: name, capabilities: caps },
                t1,
            ).0;
            let (after_leave, acts) = on_message_spec(after_announce, ChannelMessage::PeerLeave { endpoint_id: id }, t2);
            &&& has_peer(after_announce.peers, id)
            &&& !has_peer(after_leave.peers, id)
            &&& !has_conn(after_leave.connections, id)
            &&& acts.last() == ActionView::Emit(EventView::PeerLeft(id))
        }),
{
    let info = PeerView { endpoint_id: id, display_name: name@, capabilities: caps, last_heartbeat: t1 };
    let s1 = upsert(t.peers, info);
    let i = peer_index(t.peers, id);
    if i == -1 {
        assert(s1[s1.len() - 1].endpoint_id == id);
        assert forall|x: int, y: int| 0 <= x < y < s1.len() implies
            (#[trigger] s1[x]).endpoint_id != (#[trigger] s1[y]).endpoint_id by {
            if y == s1.len() - 1 {
                assert(s1[x] == t.peers[x]);
                if t.peers[x].endpoint_id == id {
                    assert(has_peer(t.peers, id));
                }
            } else {
                assert(s1[x] == t.peers[x] && s1[y] == t.peers[y]);
            }
        }
    } else {
        assert(s1[i].endpoint_id == id);
        assert forall|x: int, y: int| 0 <= x < y < s1.len() implies
            (#[trigger] s1[x]).endpoint_id != (#[trigger] s1[y]).endpoint_id by {
            if x != i && y != i {
                assert(s1[x] == t.peers[x] && s1[y] == t.peers[y]);
            } else {
                assert(t.peers[i].endpoint_id == id);
                assert(t.peers[x].endpoint_id != t.peers[y].endpoint_id);
            }
        }
    }
    lemma_removed_peer_gone(s1, id);
    lemma_removed_conn_gone(t.connections, id);
}

/// After expiry, exactly the peers heard from within the timeout remain,
/// in their order.
pub proof fn law_expiry_keeps_live_peers(peers: Seq<PeerView>, now: u128, timeout: u128)
    ensures
        forall|p: PeerView| #[trigger] peers.filter(alive_pred(now, timeout)).contains(p) <==> (
            peers.contains(p) && !peer_expired(p.last_heartbeat, now, timeout)),
{
    let pred = alive_pred(now, timeout);
    let f = peers.filter(pred);
    assert forall|p: PeerView| #[trigger] f.contains(p) <==> (
        peers.contains(p) && !peer_expired(p.last_heartbeat, now, timeout)) by {
        if f.contains(p) {
            peers.lemma_filter_contains_rev(pred, p);
            let k = choose|k: int| 0 <= k < f.len() && f[k] == p;
            peers.lemma_filter_pred(pred, k);
        }
        if peers.contains(p) && !peer_expired(p.last_heartbeat, now, timeout) {
            let k = choose|k: int| 0 <= k < peers.len() && peers[k] == p;
            peers.lemma_filter_contains(pred, k);
        }
    }
}

proof fn lemma_remove_conn_keeps(s: Seq<EndpointId>, id: EndpointId, other: EndpointId)
    ensures
        has_conn(remove_conn_spec(s, id), other) ==> has_conn(s, other),
        distinct_conns(s) ==> distinct_conns(remove_conn_spec(s, id)),
{
    let i = conn_index(s, id);
    if i != -1 {
        let r = s.remove(i);
        if has_conn(r, other) {
            let k = choose|k: int| 0 <= k < r.len() && #[trigger] r[k] == other;
            if k < i {
                assert(s[k] == other);
            } else {
                assert(s[k + 1] == other);
            }
        }
        if distinct_conns(s) {
            assert forall|a: int, b: int| 0 <= a < b < r.len() implies #[trigger] r[a] != #[trigger] r[b] by {
                let sa = if a < i {
                    a
                } else {
                    a + 1
                };
                let sb = if b < i {
                    b
                } else {
                    b + 1
                };
                assert(r[a] == s[sa] && r[b] == s[sb]);
            }
        }
    }
}

/// `id` belongs to a peer of `peers` that has timed out at `now`.
pub open spec fn timed_out(peers: Seq<PeerView>, id: EndpointId, now: u128, timeout: u128) -> bool {
    exists|i: int|
        0 <= i < peers.len() && (#[trigger] peers[i]).endpoint_id == id && peer_expired(
            peers[i].last_heartbeat,
            now,
            timeout,
        )
}

/// Expiry reports a peer as gone exactly when it has timed out, and leaves
/// no connection to a peer that has.
pub proof fn law_expiry_reports_departures(
    peers: Seq<PeerView>,
    conns: Seq<EndpointId>,
    now: u128,
    timeout: u128,
    id: EndpointId,
)
    requires
        distinct_conns(conns),
    ensures
        expiry_spec(peers, conns, now, timeout).1.contains(ActionView::Emit(EventView::PeerLeft(id)))
            <==> timed_out(peers, id, now, timeout),
        timed_out(peers, id, now, timeout) ==> !has_conn(expiry_spec(peers, conns, now, timeout).0, id),
        distinct_conns(expiry_spec(peers, conns, now, timeout).0),
    decreases peers.len(),
{
    if peers.len() > 0 {
        let init = peers.drop_last();
        law_expiry_reports_departures(init, conns, now, timeout, id);
        let prev = expiry_spec(init, conns, now, timeout);
        let p = peers.last();
        let left = ActionView::Emit(EventView::PeerLeft(id));
        let r = expiry_spec(peers, conns, now, timeout);
        assert(timed_out(peers, id, now, timeout) <==> timed_out(init, id, now, timeout) || (p.endpoint_id == id
            && peer_expired(p.last_heartbeat, now, timeout))) by {
            if timed_out(peers, id, now, timeout) {
                let i = choose|i: int|
                    0 <= i < peers.len() && (#[trigger] peers[i]).endpoint_id == id && peer_expired(
                        peers[i].last_heartbeat,
                        now,
                        timeout,
                    );
                if i < init.len() {
                    assert(init[i] == peers[i]);
                }
            }
            if timed_out(init, id, now, timeout) {
                let i = choose|i: int|
                    0 <= i < init.len() && (#[trigger] init[i]).endpoint_id == id && peer_expired(
                        init[i].last_heartbeat,
                        now,
                        timeout,
                    );
                assert(peers[i] == init[i]);
            }
            if p.endpoint_id == id && peer_expired(p.last_heartbeat, now, timeout) {
                assert(peers[peers.len() - 1] == p);
            }
        }
        if peer_expired(p.last_heartbeat, now, timeout) {
            let close = if has_conn(prev.0, p.endpoint_id) {
                seq![ActionView::CloseConnection(p.endpoint_id)]
            } else {
                Seq::empty()
            };
            let tail = close + seq![ActionView::Emit(EventView::PeerLeft(p.endpoint_id))];
            assert(r.1 == prev.1 + tail);
            assert(r.1.contains(left) <==> prev.1.contains(left) || p.endpoint_id == id) by {
                if r.1.contains(left) {
                    let k = choose|k: int| 0 <= k < r.1.len() && r.1[k] == left;
                    if k < prev.1.len() {
                        assert(prev.1[k] == left);
                    } else {
                        assert(tail[k - prev.1.len()] == left);
                    }
                }
                if prev.1.contains(left) {
                    let k = choose|k: int| 0 <= k < prev.1.len() && prev.1[k] == left;
                    assert(r.1[k] == left);
                }
                if p.endpoint_id == id {
                    assert(r.1[r.1.len() - 1] == left);
                }
            }
            lemma_remove_conn_keeps(prev.0, p.endpoint_id, id);
            if p.endpoint_id == id {
                lemma_removed_conn_gone(prev.0, id);
            }
        }
    }
}

/// After an announce from another member, the table holds exactly one entry
/// for it, which is the announced information heard at `now`, whether or not
/// the member was known before; every other entry stays as it was.
pub proof fn law_announce_records_latest_info(
    t: TableView,
    id: EndpointId,
    name: String,
    caps: MediaCapabilities,
    now: u128,
)
    requires
        id != t.our_id,
        distinct_peers(t.peers),
    ensures
        ({
            let after = on_message_spec(
                t,
                ChannelMessage::PeerAnnounce { endpoint_id: id, display_name: name, capabilities: caps },
                now,
            ).0;
            let info = PeerView { endpoint_id: id, display_name: name@, capabilities: caps, last_heartbeat: now };
            &&& after.peers.contains(info)
            &&& distinct_peers(after.peers)
            &&& forall|p: PeerView| p.endpoint_id != id ==> (#[trigger] after.peers.contains(p) <==> t.peers.contains(p))
        }),
{
    let info = PeerView { endpoint_id: id, display_name: name@, capabilities: caps, last_heartbeat: now };
    let s1 = upsert(t.peers, info);
    let i = peer_index(t.peers, id);
    if i == -1 {
        assert(s1[s1.len() - 1] == info);
        assert forall|x: int, y: int| 0 <= x < y < s1.len() implies
            (#[trigger] s1[x]).endpoint_id != (#[trigger] s1[y]).endpoint_id by {
            if y == s1.len() - 1 {
                assert(s1[x] == t.peers[x]);
                if t.peers[x].endpoint_id == id {
                    assert(has_peer(t.peers, id));
                }
            } else {
                assert(s1[x] == t.peers[x] && s1[y] == t.peers[y]);
            }
        }
        assert forall|p: PeerView| p.endpoint_id != id implies (#[trigger] s1.contains(p) <==> t.peers.contains(p)) by {
            if s1.contains(p) {
                let k = choose|k: int| 0 <= k < s1.len() && s1[k] == p;
                assert(t.peers[k] == p);
            }
            if t.peers.contains(p) {
                let k = choose|k: int| 0 <= k < t.peers.len() && t.peers[k] == p;
                assert(s1[k] == p);
            }
        }
    } else {
        assert(s1[i] == info);
        assert(t.peers[i].endpoint_id == id);
        assert forall|x: int, y: int| 0 <= x < y < s1.len() implies
            (#[trigger] s1[x]).endpoint_id != (#[trigger] s1[y]).endpoint_id by {
            if x != i && y != i {
                assert(s1[x] == t.peers[x] && s1[y] == t.peers[y]);
            } else {
                assert(t.peers[x].endpoint_id != t.peers[y].endpoint_id);
            }
        }
        assert forall|p: PeerView| p.endpoint_id != id implies (#[trigger] s1.contains(p) <==> t.peers.contains(p)) by {
            if s1.contains(p) {
                let k = choose|k: int| 0 <= k < s1.len() && s1[k] == p;
                assert(k != i);
                assert(t.peers[k] == p);
            }
            if t.peers.contains(p) {
                let k = choose|k: int| 0 <= k < t.peers.len() && t.peers[k] == p;
                assert(k != i);
                assert(s1[k] == p);
            }
        }
    }
}

/// A heartbeat from a known member only refreshes its last-heard time to
/// `now`; an unknown member's heartbeat changes nothing.
pub proof fn law_heartbeat_refreshes_known_peer(t: TableView, id: EndpointId, timestamp: u64, now: u128, k: int)
    requires
        id != t.our_id,
        distinct_peers(t.peers),
        0 <= k < t.peers.len(),
    ensures
        ({
            let (after, acts) = on_message_spec(t, ChannelMessage::Heartbeat { endpoint_id: id, timestamp }, now);
            &&& acts.len() == 0
            &&& after.connections == t.connections
            &&& after.peers.len() == t.peers.len()
            &&& after.peers[k] == if t.peers[k].endpoint_id == id {
                PeerView { last_heartbeat: now, ..t.peers[k] }
            } else {
                t.peers[k]
            }
        }),
{
    if has_peer(t.peers, id) {
        let i = peer_index(t.peers, id);
        assert(0 <= i < t.peers.len() && t.peers[i].endpoint_id == id);
        if t.peers[k].endpoint_id == id && k != i {
            if k < i {
                assert(t.peers[k].endpoint_id != t.peers[i].endpoint_id);
            } else {
                assert(t.peers[i].endpoint_id != t.peers[k].endpoint_id);
            }
        }
    } else {
        assert(t.peers[k].endpoint_id != id);
    }
}

} // verus!
