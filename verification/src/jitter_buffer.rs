//! Audio jitter buffer: reorder packets, handle gaps, produce smooth playback.
//!
//! This is the packet-ordering core of the buffer. The arrival-time jitter
//! estimate that adapts the buffer's target depth is floating-point and is
//! kept by the caller, which reports a new target through
//! [`JitterBuffer::set_initial_fill`].

use std::collections::BTreeMap;

use vstd::prelude::*;
use vstd::std_specs::iter::IteratorSpec;

use crate::protocol::{MediaPacket, MediaPacketView};

verus! {

broadcast use vstd::std_specs::btree::group_btree_axioms, vstd::laws_cmp::group_laws_cmp;

/// Minimum buffer depth in milliseconds.
pub const MIN_DEPTH_MS: u32 = 50;

/// Maximum buffer depth in milliseconds.
pub const MAX_DEPTH_MS: u32 = 200;

/// Default initial buffer depth in milliseconds.
pub const DEFAULT_DEPTH_MS: u32 = 80;

/// Jitter buffer statistics.
#[derive(Debug, Clone, Copy, PartialEq, Eq)]
pub struct JitterStats {
    pub packets_received: u64,
    pub packets_played: u64,
    pub packets_dropped_duplicate: u64,
    pub packets_lost: u64,
}

impl JitterStats {
    /// All counters at zero.
    pub fn new() -> (s: Self)
        ensures
            s.packets_received == 0,
            s.packets_played == 0,
            s.packets_dropped_duplicate == 0,
            s.packets_lost == 0,
    {
        Self { packets_received: 0, packets_played: 0, packets_dropped_duplicate: 0, packets_lost: 0 }
    }
}

/// Statistics with every counter at zero.
pub open spec fn zero_stats() -> JitterStats {
    JitterStats { packets_received: 0, packets_played: 0, packets_dropped_duplicate: 0, packets_lost: 0 }
}

/// `a` comes before `b` in wrapping sequence-number order.
pub open spec fn seq_before_spec(a: u32, b: u32) -> bool {
    vstd::wrapping::u32_specs::wrapping_sub(a, b) > 0x8000_0000
}

/// Adds one to a counter, wrapping at 2^64.
pub open spec fn bump(c: u64) -> u64 {
    vstd::wrapping::u64_specs::wrapping_add(c, 1)
}

/// Number of packets needed before playout starts, for a target depth of
/// `depth_ms` and frames of `frame_duration_ms`: `ceil(depth / frame)`,
/// or `u32::MAX` for zero-length frames.
pub open spec fn fill_for_depth(depth_ms: u32, frame_duration_ms: u32) -> u32 {
    if frame_duration_ms == 0 {
        u32::MAX
    } else {
        ((depth_ms + frame_duration_ms - 1) / frame_duration_ms as int) as u32
    }
}

/// Whether `k` is the smallest key of `m`.
pub open spec fn is_min_key(m: Map<u32, MediaPacketView>, k: u32) -> bool {
    &&& m.contains_key(k)
    &&& forall|j: u32| m.contains_key(j) ==> k <= j
}

/// Audio jitter buffer that reorders packets and smooths playback.
pub struct JitterBuffer {
    /// Buffered packets keyed by sequence number.
    buffer: BTreeMap<u32, MediaPacket>,
    /// Next expected sequence number for playout.
    next_playout_seq: Option<u32>,
    /// Stream ID this buffer handles (for filtering).
    stream_id: u8,
    /// Timestamp increment per packet (e.g. 960 for 20ms at 48kHz).
    timestamp_step: u32,
    /// Frame duration in milliseconds.
    frame_duration_ms: u32,
    /// Number of packets received before first playout (initial fill).
    initial_fill: u32,
    /// Whether initial fill is complete.
    primed: bool,
    /// Total packets pushed (for initial fill tracking).
    push_count: u32,
    /// Statistics.
    stats: JitterStats,
}

impl JitterBuffer {
    /// The buffered packets, by sequence number.
    pub closed spec fn packets(&self) -> Map<u32, MediaPacketView> {
        self.buffer@.map_values(|p: MediaPacket| p@)
    }

    pub closed spec fn next_playout(&self) -> Option<u32> {
        self.next_playout_seq
    }

    pub closed spec fn spec_stream_id(&self) -> u8 {
        self.stream_id
    }

    pub closed spec fn spec_timestamp_step(&self) -> u32 {
        self.timestamp_step
    }

    pub closed spec fn spec_frame_duration_ms(&self) -> u32 {
        self.frame_duration_ms
    }

    pub closed spec fn spec_initial_fill(&self) -> u32 {
        self.initial_fill
    }

    pub closed spec fn spec_primed(&self) -> bool {
        self.primed
    }

    pub closed spec fn spec_push_count(&self) -> u32 {
        self.push_count
    }

    pub closed spec fn spec_stats(&self) -> JitterStats {
        self.stats
    }

    /// Get the statistics.
    pub fn stats(&self) -> (s: &JitterStats)
        ensures
            *s == self.spec_stats(),
    {
        &self.stats
    }

    /// The buffer's map is finite (it always is: it is built by insertions).
    pub closed spec fn wf(&self) -> bool {
        self.buffer@.dom().finite()
    }

    /// Create a new jitter buffer for a specific stream.
    ///
    /// - `stream_id`: filter packets by this stream (e.g. 0 = audio)
    /// - `timestamp_step`: timestamp increment per frame (e.g. 960 for 20ms at 48kHz)
    /// - `frame_duration_ms`: frame duration in milliseconds (e.g. 20)
    pub fn new(stream_id: u8, timestamp_step: u32, frame_duration_ms: u32) -> (jb: Self)
        ensures
            jb.wf(),
            jb.packets() == Map::<u32, MediaPacketView>::empty(),
            jb.next_playout() == None::<u32>,
            jb.spec_stream_id() == stream_id,
            jb.spec_timestamp_step() == timestamp_step,
            jb.spec_frame_duration_ms() == frame_duration_ms,
            jb.spec_initial_fill() == fill_for_depth(DEFAULT_DEPTH_MS, frame_duration_ms),
            !jb.spec_primed(),
            jb.spec_push_count() == 0,
            jb.spec_stats() == zero_stats(),
    {
        let initial_fill = Self::fill_for(DEFAULT_DEPTH_MS, frame_duration_ms);
        let jb = Self {
            buffer: BTreeMap::new(),
            next_playout_seq: None,
            stream_id,
            timestamp_step,
            frame_duration_ms,
            initial_fill,
            primed: false,
            push_count: 0,
            stats: JitterStats::new(),
        };
        assert(jb.packets() =~= Map::<u32, MediaPacketView>::empty());
        jb
    }

    /// `ceil(depth_ms / frame_duration_ms)`, or `u32::MAX` for zero-length frames.
    pub fn fill_for(depth_ms: u32, frame_duration_ms: u32) -> (n: u32)
        ensures
            n == fill_for_depth(depth_ms, frame_duration_ms),
    {
        if frame_duration_ms == 0 {
            u32::MAX
        } else {
            let q = depth_ms / frame_duration_ms;
            let r = depth_ms % frame_duration_ms;
            let n = if r == 0 {
                q
            } else {
                assert(q < u32::MAX) by (nonlinear_arith)
                    requires
                        frame_duration_ms > 0,
                        q == depth_ms / frame_duration_ms,
                        r == depth_ms % frame_duration_ms,
                        r != 0,
                ;
                q + 1
            };
            assert(n as int == (depth_ms + frame_duration_ms - 1) / frame_duration_ms as int) by (nonlinear_arith)
                requires
                    frame_duration_ms > 0,
                    q == depth_ms / frame_duration_ms,
                    r == depth_ms % frame_duration_ms,
                    n == if r == 0 { q as int } else { q + 1 },
            ;
            n
        }
    }

    /// Replace the number of packets awaited before playout starts (the
    /// caller derives it from its adaptive target depth).
    pub fn set_initial_fill(&mut self, initial_fill: u32)
        ensures
            final(self).spec_initial_fill() == initial_fill,
            final(self).packets() == old(self).packets(),
            final(self).next_playout() == old(self).next_playout(),
            final(self).spec_primed() == old(self).spec_primed(),
            final(self).spec_push_count() == old(self).spec_push_count(),
            final(self).spec_stream_id() == old(self).spec_stream_id(),
            final(self).spec_frame_duration_ms() == old(self).spec_frame_duration_ms(),
            final(self).spec_timestamp_step() == old(self).spec_timestamp_step(),
            final(self).spec_stats() == old(self).spec_stats(),
            final(self).wf() == old(self).wf(),
    {
        self.initial_fill = initial_fill;
    }

    /// Compare sequence numbers accounting for wrapping.
    pub fn seq_before(a: u32, b: u32) -> (r: bool)
        ensures
            r == seq_before_spec(a, b),
    {
        let diff = a.wrapping_sub(b);
        diff > 0x8000_0000
    }

    /// Compare sequence numbers accounting for wrapping.
    pub fn seq_after(a: u32, b: u32) -> (r: bool)
        ensures
            r == seq_before_spec(b, a),
    {
        Self::seq_before(b, a)
    }

    /// The smallest buffered sequence number.
    fn min_key(&self) -> (k: u32)
        requires
            self.wf(),
            self.buffer@.dom().len() > 0,
        ensures
            is_min_key(self.packets(), k),
    {
        let mut min: u32 = 0;
        let mut have = false;
        let ghost ks = vstd::std_specs::btree::spec_keys_iter(&self.buffer).remaining();
        let ghost mut cnt: int = 0;
        for k in it: self.buffer.keys()
            invariant
                it.seq() == ks,
                cnt == it.index(),
                have ==> exists|i: int| 0 <= i < cnt && *ks[i] == min,
                have ==> forall|i: int| 0 <= i < cnt ==> min <= #[trigger] *ks[i],
                !have ==> cnt == 0,
        {
            if !have || *k < min {
                min = *k;
            }
            have = true;
            proof {
                cnt = cnt + 1;
            }
        }
        proof {
            assert(cnt == ks.len());
            assert(ks.unref().to_set() == self.buffer@.dom());
            assert(ks.len() > 0);
            let i0 = choose|i: int| 0 <= i < cnt && *ks[i] == min;
            assert(ks.unref()[i0] == min);
            assert(self.buffer@.dom().contains(min));
            assert forall|j: u32| self.packets().contains_key(j) implies min <= j by {
                assert(ks.unref().to_set().contains(j));
                let i = choose|i: int| 0 <= i < ks.unref().len() && ks.unref()[i] == j;
                assert(*ks[i] == j);
            }
        }
        min
    }

    /// Whether some buffered sequence number comes after `seq` (wrapping order).
    fn has_key_after(&self, seq: u32) -> (r: bool)
        requires
            self.wf(),
        ensures
            r == exists|k: u32| #[trigger] self.packets().contains_key(k) && seq_before_spec(seq, k),
    {
        let ghost ks = vstd::std_specs::btree::spec_keys_iter(&self.buffer).remaining();
        let ghost mut cnt: int = 0;
        let mut found = false;
        for k in it: self.buffer.keys()
            invariant
                it.seq() == ks,
                cnt == it.index(),
                found == exists|i: int| 0 <= i < cnt && #[trigger] seq_before_spec(seq, *ks[i]),
        {
            if Self::seq_before(seq, *k) {
                found = true;
            }
            proof {
                assert(*k == *ks[cnt]);
                cnt = cnt + 1;
            }
        }
        proof {
            assert(cnt == ks.len());
            assert(ks.unref().to_set() == self.buffer@.dom());
            if found {
                let i = choose|i: int| 0 <= i < cnt && #[trigger] seq_before_spec(seq, *ks[i]);
                assert(ks.unref()[i] == *ks[i]);
                assert(ks.unref().to_set().contains(*ks[i]));
                assert(self.packets().contains_key(*ks[i]));
            } else {
                assert forall|k: u32| #[trigger] self.packets().contains_key(k) implies !seq_before_spec(seq, k) by {
                    assert(ks.unref().to_set().contains(k));
                    let i = choose|i: int| 0 <= i < ks.unref().len() && ks.unref()[i] == k;
                    assert(*ks[i] == k);
                }
            }
        }
        found
    }

    /// The mathematical state of the buffer.
    pub open spec fn view(&self) -> JitterView {
        JitterView {
            packets: self.packets(),
            next_playout: self.next_playout(),
            stream_id: self.spec_stream_id(),
            timestamp_step: self.spec_timestamp_step(),
            frame_duration_ms: self.spec_frame_duration_ms(),
            initial_fill: self.spec_initial_fill(),
            primed: self.spec_primed(),
            push_count: self.spec_push_count(),
            stats: self.spec_stats(),
        }
    }

    /// Whether pushing `packet` would store it (see [`push_stores`]).
    pub fn stores(&self, packet: &MediaPacket) -> (b: bool)
        requires
            self.wf(),
        ensures
            b == push_stores(self.view(), packet@),
    {
        if packet.stream_id != self.stream_id {
            return false;
        }
        if self.buffer.contains_key(&packet.sequence) {
            return false;
        }
        match self.next_playout_seq {
            Some(next_seq) => !Self::seq_before(packet.sequence, next_seq),
            None => true,
        }
    }

    /// Push a packet into the buffer.
    ///
    /// Duplicate packets, and packets that come before the next one to be
    /// played, are dropped and counted. Packets for a different stream_id are
    /// ignored. Returns whether the packet was stored.
    pub fn push(&mut self, packet: MediaPacket) -> (accepted: bool)
        requires
            old(self).wf(),
            push_stores(old(self).view(), packet@) ==> old(self).spec_push_count() < u32::MAX,
        ensures
            final(self).wf(),
            (final(self).view(), accepted) == push_spec(old(self).view(), packet@),
    {
        if packet.stream_id != self.stream_id {
            return false;
        }
        let seq = packet.sequence;
        if self.buffer.contains_key(&seq) {
            self.stats.packets_dropped_duplicate = self.stats.packets_dropped_duplicate.wrapping_add(1);
            return false;
        }
        if let Some(next_seq) = self.next_playout_seq {
            if Self::seq_before(seq, next_seq) {
                self.stats.packets_dropped_duplicate = self.stats.packets_dropped_duplicate.wrapping_add(1);
                return false;
            }
        }
        let ghost pv = packet@;
        let ghost old_packets = self.packets();
        self.buffer.insert(seq, packet);
        assert(self.packets() =~= old_packets.insert(seq, pv));
        self.push_count = self.push_count + 1;
        self.stats.packets_received = self.stats.packets_received.wrapping_add(1);
        if !self.primed && self.push_count >= self.initial_fill {
            self.primed = true;
            if self.next_playout_seq.is_none() {
                let first = self.min_key();
                proof {
                    lemma_min_key_unique(self.packets(), first);
                }
                self.next_playout_seq = Some(first);
            }
        }
        true
    }

    /// Pop the next packet for playout.
    ///
    /// Returns `Some(packet)` if the next expected packet is available.
    /// Returns `None` if the buffer isn't primed or the next packet hasn't arrived.
    /// If the next packet is missing (gap) and a later one has arrived, it is
    /// counted as lost and the sequence advances.
    pub fn pop(&mut self) -> (r: Option<MediaPacket>)
        requires
            old(self).wf(),
        ensures
            final(self).wf(),
            (final(self).view(), packet_view(r)) == pop_spec(old(self).view()),
    {
        if !self.primed {
            return None;
        }
        let next_seq = match self.next_playout_seq {
            Some(n) => n,
            None => {
                return None;
            },
        };
        let ghost old_packets = self.packets();
        if let Some(packet) = self.buffer.remove(&next_seq) {
            assert(self.packets() =~= old_packets.remove(next_seq));
            self.next_playout_seq = Some(next_seq.wrapping_add(1));
            self.stats.packets_played = self.stats.packets_played.wrapping_add(1);
            return Some(packet);
        }
        assert(self.packets() =~= old_packets);
        if self.has_key_after(next_seq) {
            self.stats.packets_lost = self.stats.packets_lost.wrapping_add(1);
            self.next_playout_seq = Some(next_seq.wrapping_add(1));
            return None;
        }
        None
    }

    /// Get the current buffer depth (number of packets).
    pub fn len(&self) -> (n: usize)
        requires
            self.wf(),
        ensures
            n == self.packets().len(),
    {
        assert(self.packets().dom() =~= self.buffer@.dom());
        self.buffer.len()
    }

    /// Check if the buffer is empty.
    pub fn is_empty(&self) -> (b: bool)
        requires
            self.wf(),
        ensures
            b == (self.packets().len() == 0),
    {
        assert(self.packets().dom() =~= self.buffer@.dom());
        self.buffer.is_empty()
    }

    /// Check if the buffer has been primed (initial fill complete).
    pub fn is_primed(&self) -> (b: bool)
        ensures
            b == self.spec_primed(),
    {
        self.primed
    }

    /// Number of packets stored so far.
    pub fn push_count(&self) -> (n: u32)
        ensures
            n == self.spec_push_count(),
    {
        self.push_count
    }

    /// Frame duration in milliseconds.
    pub fn frame_duration_ms(&self) -> (n: u32)
        ensures
            n == self.spec_frame_duration_ms(),
    {
        self.frame_duration_ms
    }

    /// Timestamp increment per frame.
    pub fn timestamp_step(&self) -> (n: u32)
        ensures
            n == self.spec_timestamp_step(),
    {
        self.timestamp_step
    }
}

/// The view of an optional packet.
pub open spec fn packet_view(r: Option<MediaPacket>) -> Option<MediaPacketView> {
    match r {
        Some(p) => Some(p@),
        None => None,
    }
}

/// Mathematical state of a [`JitterBuffer`].
pub struct JitterView {
    pub packets: Map<u32, MediaPacketView>,
    pub next_playout: Option<u32>,
    pub stream_id: u8,
    pub timestamp_step: u32,
    pub frame_duration_ms: u32,
    pub initial_fill: u32,
    pub primed: bool,
    pub push_count: u32,
    pub stats: JitterStats,
}

/// The smallest key of a map (meaningful when the map is finite and not empty).
pub open spec fn min_key_spec(m: Map<u32, MediaPacketView>) -> u32 {
    choose|k: u32| is_min_key(m, k)
}

proof fn lemma_min_key_unique(m: Map<u32, MediaPacketView>, k: u32)
    requires
        is_min_key(m, k),
    ensures
        min_key_spec(m) == k,
{
    let c = choose|c: u32| is_min_key(m, c);
    assert(c <= k && k <= c);
}

/// One call of [`JitterBuffer::push`]: the state after it and whether the
/// packet was stored.
/// A push of `p` stores it: it belongs to the stream, is not buffered yet and
/// does not come before the next packet to be played.
pub open spec fn push_stores(v: JitterView, p: MediaPacketView) -> bool {
    &&& p.stream_id == v.stream_id
    &&& !v.packets.contains_key(p.sequence)
    &&& !(v.next_playout matches Some(n) && seq_before_spec(p.sequence, n))
}

pub open spec fn push_spec(v: JitterView, p: MediaPacketView) -> (JitterView, bool) {
    if p.stream_id != v.stream_id {
        (v, false)
    } else if v.packets.contains_key(p.sequence) || (v.next_playout matches Some(n)
        && seq_before_spec(p.sequence, n)) {
        (
            JitterView {
                stats: JitterStats {
                    packets_dropped_duplicate: bump(v.stats.packets_dropped_duplicate),
                    ..v.stats
                },
                ..v
            },
            false,
        )
    } else {
        let packets = v.packets.insert(p.sequence, p);
        let push_count = (v.push_count + 1) as u32;
        let primes = !v.primed && push_count >= v.initial_fill;
        (
            JitterView {
                packets,
                push_count,
                primed: v.primed || primes,
                next_playout: if primes && v.next_playout is None {
                    Some(min_key_spec(packets))
                } else {
                    v.next_playout
                },
                stats: JitterStats { packets_received: bump(v.stats.packets_received), ..v.stats },
                ..v
            },
            true,
        )
    }
}

/// One call of [`JitterBuffer::pop`]: the state after it and the packet it returns.
pub open spec fn pop_spec(v: JitterView) -> (JitterView, Option<MediaPacketView>) {
    if !v.primed {
        (v, None)
    } else {
        match v.next_playout {
            None => (v, None),
            Some(n) => {
                if v.packets.contains_key(n) {
                    (
                        JitterView {
                            packets: v.packets.remove(n),
                            next_playout: Some(vstd::wrapping::u32_specs::wrapping_add(n, 1)),
                            stats: JitterStats { packets_played: bump(v.stats.packets_played), ..v.stats },
                            ..v
                        },
                        Some(v.packets[n]),
                    )
                } else if exists|k: u32| #[trigger] v.packets.contains_key(k) && seq_before_spec(n, k) {
                    (
                        JitterView {
                            next_playout: Some(vstd::wrapping::u32_specs::wrapping_add(n, 1)),
                            stats: JitterStats { packets_lost: bump(v.stats.packets_lost), ..v.stats },
                            ..v
                        },
                        None,
                    )
                } else {
                    (v, None)
                }
            },
        }
    }
}


/// Every stored packet is either still buffered or has been played:
/// `packets_received == packets_played + len` (modulo 2^64, as the counters wrap).
pub open spec fn accounted(v: JitterView) -> bool {
    v.stats.packets_received as int % 0x1_0000_0000_0000_0000 == (v.stats.packets_played
        + v.packets.len()) % 0x1_0000_0000_0000_0000
}

/// A new buffer holds no packets and has counted none.
pub proof fn law_new_buffer_accounted(v: JitterView)
    requires
        v.packets == Map::<u32, MediaPacketView>::empty(),
        v.stats == zero_stats(),
    ensures
        accounted(v),
{
}

/// Pushing and popping keep the books: every packet the buffer has stored
/// is either still in it or has been counted as played.
pub proof fn law_push_pop_keep_accounts(v: JitterView, p: MediaPacketView)
    requires
        v.packets.dom().finite(),
        accounted(v),
    ensures
        accounted(push_spec(v, p).0),
        accounted(pop_spec(v).0),
        push_spec(v, p).0.packets.dom().finite(),
        pop_spec(v).0.packets.dom().finite(),
{
    let (v1, accepted) = push_spec(v, p);
    if accepted {
        assert(!v.packets.contains_key(p.sequence));
        assert(v1.packets.len() == v.packets.len() + 1);
    }
    if v.primed {
        if let Some(n) = v.next_playout {
            if v.packets.contains_key(n) {
                assert(v.packets.remove(n).len() == v.packets.len() - 1);
            }
        }
    }
}

/// Read after write: once playout has started, a packet carrying the next
/// expected sequence number, pushed while missing, is what the next pop returns.
pub proof fn law_next_packet_is_played_next(v: JitterView, p: MediaPacketView)
    requires
        v.primed,
        v.next_playout == Some(p.sequence),
        p.stream_id == v.stream_id,
        !v.packets.contains_key(p.sequence),
    ensures
        push_spec(v, p).1,
        pop_spec(push_spec(v, p).0).1 == Some(p),
{
    assert(!seq_before_spec(p.sequence, p.sequence));
}

/// A packet of the buffer's stream pushed twice is stored at most once: the
/// second push is refused and only counted as a duplicate.
pub proof fn law_duplicate_packet_refused(v: JitterView, p: MediaPacketView)
    requires
        p.stream_id == v.stream_id,
    ensures
        !push_spec(push_spec(v, p).0, p).1,
        push_spec(push_spec(v, p).0, p).0.packets == push_spec(v, p).0.packets,
        push_spec(push_spec(v, p).0, p).0.stats.packets_dropped_duplicate == bump(
            push_spec(v, p).0.stats.packets_dropped_duplicate,
        ),
{
}

/// A packet of another stream changes nothing and is not stored.
pub proof fn law_other_stream_ignored(v: JitterView, p: MediaPacketView)
    requires
        p.stream_id != v.stream_id,
    ensures
        push_spec(v, p) == (v, false),
{
}

/// When the next packet to play is missing and nothing later is buffered
/// (the buffer may even be empty), a pop waits: it returns nothing, counts no
/// loss and keeps its place.
pub proof fn law_pop_waits_without_later_packets(v: JitterView, n: u32)
    requires
        v.next_playout == Some(n),
        !v.packets.contains_key(n),
        forall|k: u32| #[trigger] v.packets.contains_key(k) ==> !seq_before_spec(n, k),
    ensures
        pop_spec(v) == (v, None::<MediaPacketView>),
{
}

/// When the next packet to play is missing but a later one is buffered, a
/// pop gives it up: it returns nothing, counts one loss, moves on by one and
/// keeps every buffered packet.
pub proof fn law_pop_skips_lost_packet(v: JitterView, n: u32, later: u32)
    requires
        v.primed,
        v.next_playout == Some(n),
        !v.packets.contains_key(n),
        v.packets.contains_key(later),
        seq_before_spec(n, later),
    ensures
        pop_spec(v).1 is None,
        pop_spec(v).0.packets == v.packets,
        pop_spec(v).0.next_playout == Some(vstd::wrapping::u32_specs::wrapping_add(n, 1)),
        pop_spec(v).0.stats.packets_lost == bump(v.stats.packets_lost),
        pop_spec(v).0.stats.packets_played == v.stats.packets_played,
{
}

/// A primed buffer holding the next packet plays exactly that packet,
/// removes it, and moves on to the one after it.
pub proof fn law_pop_plays_next_packet(v: JitterView, n: u32)
    requires
        v.primed,
        v.next_playout == Some(n),
        v.packets.contains_key(n),
    ensures
        pop_spec(v).1 == Some(v.packets[n]),
        pop_spec(v).0.packets == v.packets.remove(n),
        pop_spec(v).0.next_playout == Some(vstd::wrapping::u32_specs::wrapping_add(n, 1)),
{
}

/// A buffer that is not primed yet plays nothing and changes nothing.
pub proof fn law_unprimed_pop_waits(v: JitterView)
    requires
        !v.primed,
    ensures
        pop_spec(v) == (v, None::<MediaPacketView>),
{
}

/// A push stores the packet under its sequence number, and reports so,
/// exactly when it belongs to the stream, is new and is not late; other
/// buffered packets stay, and a refused packet leaves the buffer's packets
/// as they were.
pub proof fn law_push_stores_new_packets(v: JitterView, p: MediaPacketView)
    ensures
        push_spec(v, p).1 == push_stores(v, p),
        push_stores(v, p) ==> push_spec(v, p).0.packets == v.packets.insert(p.sequence, p),
        !push_stores(v, p) ==> push_spec(v, p).0.packets == v.packets,
{
}

} // verus!
