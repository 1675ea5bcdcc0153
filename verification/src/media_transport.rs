//! Per-stream sequence numbering and loss detection for media datagrams.
//!
//! The datagram I/O itself runs over a QUIC connection held by the caller;
//! this module is the bookkeeping it does around each packet.

use vstd::prelude::*;

use crate::protocol::{MediaPacket, MediaPacketView};

verus! {

/// Metrics for observability and testing.
#[derive(Debug, Clone, Copy, PartialEq, Eq)]
pub struct TransportMetrics {
    pub packets_sent: u64,
    pub packets_received: u64,
    pub packets_dropped: u64,
    pub bytes_sent: u64,
    pub bytes_received: u64,
}

/// Adds `n` to a counter, wrapping at 2^64 (as an atomic `fetch_add` does).
pub open spec fn add_wrapping(c: u64, n: u64) -> u64 {
    vstd::wrapping::u64_specs::wrapping_add(c, n)
}

impl TransportMetrics {
    /// All counters at zero.
    pub fn new() -> (m: Self)
        ensures
            m == (TransportMetrics { packets_sent: 0, packets_received: 0, packets_dropped: 0, bytes_sent: 0, bytes_received: 0 }),
    {
        TransportMetrics { packets_sent: 0, packets_received: 0, packets_dropped: 0, bytes_sent: 0, bytes_received: 0 }
    }

    /// Count a datagram of `bytes` bytes sent.
    pub fn record_sent(&mut self, bytes: u64)
        ensures
            *final(self) == (TransportMetrics {
                packets_sent: add_wrapping(old(self).packets_sent, 1),
                bytes_sent: add_wrapping(old(self).bytes_sent, bytes),
                ..*old(self)
            }),
    {
        self.packets_sent = self.packets_sent.wrapping_add(1);
        self.bytes_sent = self.bytes_sent.wrapping_add(bytes);
    }

    /// Count a datagram of `bytes` bytes received and decoded.
    pub fn record_received(&mut self, bytes: u64)
        ensures
            *final(self) == (TransportMetrics {
                packets_received: add_wrapping(old(self).packets_received, 1),
                bytes_received: add_wrapping(old(self).bytes_received, bytes),
                ..*old(self)
            }),
    {
        self.packets_received = self.packets_received.wrapping_add(1);
        self.bytes_received = self.bytes_received.wrapping_add(bytes);
    }

    /// Count a malformed datagram that was dropped.
    pub fn record_dropped(&mut self)
        ensures
            *final(self) == (TransportMetrics { packets_dropped: add_wrapping(old(self).packets_dropped, 1), ..*old(self) }),
    {
        self.packets_dropped = self.packets_dropped.wrapping_add(1);
    }
}

/// Next sequence number to assign, per stream id (absent streams start at 0).
pub struct SendSequences {
    next: Vec<u32>,
}

impl SendSequences {
    /// The sequence number the next packet of each stream will carry.
    pub closed spec fn next_for(&self, stream_id: u8) -> u32 {
        self.next@[stream_id as int]
    }

    pub closed spec fn wf(&self) -> bool {
        self.next@.len() == 256
    }

    /// Every stream starts at sequence 0.
    pub fn new() -> (s: Self)
        ensures
            s.wf(),
            forall|id: u8| s.next_for(id) == 0,
    {
        let mut next: Vec<u32> = Vec::new();
        let mut i: usize = 0;
        while i < 256
            invariant
                0 <= i <= 256,
                next@.len() == i,
                forall|k: int| 0 <= k < i ==> next@[k] == 0,
            decreases 256 - i,
        {
            next.push(0);
            i = i + 1;
        }
        Self { next }
    }

    /// Assign the next sequence number of the packet's stream to the packet.
    pub fn assign(&mut self, packet: &mut MediaPacket)
        requires
            old(self).wf(),
        ensures
            final(self).wf(),
            final(packet)@ == (MediaPacketView { sequence: old(self).next_for(old(packet).stream_id), ..old(packet)@ }),
            final(self).next_for(old(packet).stream_id) == vstd::wrapping::u32_specs::wrapping_add(
                old(self).next_for(old(packet).stream_id),
                1,
            ),
            forall|id: u8| id != old(packet).stream_id ==> final(self).next_for(id) == old(self).next_for(id),
    {
        let id = packet.stream_id as usize;
        let seq = self.next[id];
        packet.sequence = seq;
        self.next.set(id, seq.wrapping_add(1));
    }

    /// Take the next sequence number of a stream (as [`assign`](Self::assign)
    /// does), returning it.
    pub fn next_sequence(&mut self, stream_id: u8) -> (seq: u32)
        requires
            old(self).wf(),
        ensures
            final(self).wf(),
            seq == old(self).next_for(stream_id),
            final(self).next_for(stream_id) == vstd::wrapping::u32_specs::wrapping_add(seq, 1),
            forall|id: u8| id != stream_id ==> final(self).next_for(id) == old(self).next_for(id),
    {
        let id = stream_id as usize;
        let seq = self.next[id];
        self.next.set(id, seq.wrapping_add(1));
        seq
    }
}

/// What the receiver learned from one packet's sequence number.
#[derive(Debug, Clone, Copy, PartialEq, Eq)]
pub enum SequenceEvent {
    /// First packet seen on this stream, or the same number again.
    Unchanged,
    /// The number that follows the last one seen.
    InOrder,
    /// A jump: `gap` is `sequence - last` (wrapping); packets may be lost.
    Gap { expected: u32, got: u32, gap: u32 },
}

/// Last received sequence number per stream id, for loss detection.
pub struct RecvSequences {
    last: Vec<Option<u32>>,
}

impl RecvSequences {
    pub closed spec fn last_for(&self, stream_id: u8) -> Option<u32> {
        self.last@[stream_id as int]
    }

    pub closed spec fn wf(&self) -> bool {
        self.last@.len() == 256
    }

    /// No stream seen yet.
    pub fn new() -> (s: Self)
        ensures
            s.wf(),
            forall|id: u8| s.last_for(id) is None,
    {
        let mut last: Vec<Option<u32>> = Vec::new();
        let mut i: usize = 0;
        while i < 256
            invariant
                0 <= i <= 256,
                last@.len() == i,
                forall|k: int| 0 <= k < i ==> last@[k] is None,
            decreases 256 - i,
        {
            last.push(None);
            i = i + 1;
        }
        Self { last }
    }

    /// Record a received sequence number and report whether it follows the
    /// previous one of its stream.
    pub fn observe(&mut self, stream_id: u8, sequence: u32) -> (e: SequenceEvent)
        requires
            old(self).wf(),
        ensures
            final(self).wf(),
            final(self).last_for(stream_id) == Some(sequence),
            forall|id: u8| id != stream_id ==> final(self).last_for(id) == old(self).last_for(id),
            e == match old(self).last_for(stream_id) {
                None => SequenceEvent::Unchanged,
                Some(last) => if sequence == last {
                    SequenceEvent::Unchanged
                } else if sequence == vstd::wrapping::u32_specs::wrapping_add(last, 1) {
                    SequenceEvent::InOrder
                } else {
                    SequenceEvent::Gap {
                        expected: vstd::wrapping::u32_specs::wrapping_add(last, 1),
                        got: sequence,
                        gap: vstd::wrapping::u32_specs::wrapping_sub(sequence, last),
                    }
                },
            },
    {
        let id = stream_id as usize;
        let e = match self.last[id] {
            None => SequenceEvent::Unchanged,
            Some(last) => {
                if sequence == last {
                    SequenceEvent::Unchanged
                } else {
                    let expected = last.wrapping_add(1);
                    if sequence == expected {
                        SequenceEvent::InOrder
                    } else {
                        SequenceEvent::Gap { expected, got: sequence, gap: sequence.wrapping_sub(last) }
                    }
                }
            },
        };
        self.last.set(id, Some(sequence));
        e
    }
}

} // verus!
