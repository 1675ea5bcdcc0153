//! Decisions of the in-process network simulation used by integration
//! tests: peer numbering and the fate of each datagram.
//!
//! The random draws (loss and jitter) and the timers run in the caller; the
//! draws are handed here as plain values.

use vstd::prelude::*;

use crate::media_transport::add_wrapping;
use crate::net::TransportMetrics;

verus! {

/// Identity of a simulated peer.
#[derive(Debug, Clone, Copy, PartialEq, Eq, Hash)]
pub struct SimPeerId(pub u64);

/// Hands out peer identities in creation order.
pub struct SimPeerIds {
    next_id: u64,
}

impl SimPeerIds {
    /// The identity the next peer gets.
    pub closed spec fn next_id(&self) -> u64 {
        self.next_id
    }

    /// Numbering starts at 0.
    pub fn new() -> (s: Self)
        ensures
            s.next_id() == 0,
    {
        SimPeerIds { next_id: 0 }
    }

    /// A fresh identity.
    pub fn create_peer(&mut self) -> (id: SimPeerId)
        requires
            old(self).next_id() < u64::MAX,
        ensures
            id == SimPeerId(old(self).next_id()),
            final(self).next_id() == old(self).next_id() + 1,
    {
        let id = SimPeerId(self.next_id);
        self.next_id = self.next_id + 1;
        id
    }
}

/// What happens to a datagram on a simulated link.
#[derive(Debug, Clone, Copy, PartialEq, Eq)]
pub enum RouteDecision {
    /// Dropped: one end is disconnected or the loss draw hit.
    Drop,
    /// Delivered after `delay_nanos`.
    Deliver { delay_nanos: u64 },
}

/// The fate of a datagram (see [`route_decision`]).
pub open spec fn route_spec(
    from_disconnected: bool,
    to_disconnected: bool,
    lost: bool,
    latency_nanos: u64,
    jitter_nanos: u64,
) -> RouteDecision {
    if from_disconnected || to_disconnected || lost {
        RouteDecision::Drop
    } else {
        RouteDecision::Deliver { delay_nanos: (latency_nanos + jitter_nanos) as u64 }
    }
}

/// The fate of a datagram: dropped when either end is disconnected or the
/// loss draw says so, else delivered after the link latency plus the jitter
/// drawn for it (a sum that must then fit in 64 bits).
pub fn route_decision(
    from_disconnected: bool,
    to_disconnected: bool,
    lost: bool,
    latency_nanos: u64,
    jitter_nanos: u64,
) -> (d: RouteDecision)
    requires
        !(from_disconnected || to_disconnected || lost) ==> latency_nanos + jitter_nanos <= u64::MAX,
    ensures
        d == route_spec(from_disconnected, to_disconnected, lost, latency_nanos, jitter_nanos),
{
    if from_disconnected || to_disconnected || lost {
        RouteDecision::Drop
    } else {
        RouteDecision::Deliver { delay_nanos: latency_nanos + jitter_nanos }
    }
}

/// Route one datagram of `len` bytes and count it on the sender: a dropped
/// datagram counts as dropped and leaves the sent and byte counters as they
/// were; a delivered one counts as sent with its bytes.
pub fn route_datagram(
    sender_metrics: &mut TransportMetrics,
    from_disconnected: bool,
    to_disconnected: bool,
    lost: bool,
    latency_nanos: u64,
    jitter_nanos: u64,
    len: usize,
) -> (d: RouteDecision)
    requires
        !(from_disconnected || to_disconnected || lost) ==> latency_nanos + jitter_nanos <= u64::MAX,
    ensures
        d == route_spec(from_disconnected, to_disconnected, lost, latency_nanos, jitter_nanos),
        d is Drop ==> *final(sender_metrics) == (TransportMetrics {
            datagrams_dropped: add_wrapping(old(sender_metrics).datagrams_dropped, 1),
            ..*old(sender_metrics)
        }),
        d is Deliver ==> *final(sender_metrics) == (TransportMetrics {
            datagrams_sent: add_wrapping(old(sender_metrics).datagrams_sent, 1),
            bytes_sent: add_wrapping(old(sender_metrics).bytes_sent, len as u64),
            ..*old(sender_metrics)
        }),
{
    let d = route_decision(from_disconnected, to_disconnected, lost, latency_nanos, jitter_nanos);
    match d {
        RouteDecision::Drop => sender_metrics.record_datagram_dropped(),
        RouteDecision::Deliver { .. } => sender_metrics.record_datagram_sent(len),
    }
    d
}

} // verus!
