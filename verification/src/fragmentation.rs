//! Frame fragmentation and reassembly for video datagrams.
//!
//! Splits large encoded frames into datagram-sized [`MediaPacket`] fragments
//! and reassembles them on the receiving side.

use vstd::prelude::*;

use crate::protocol::{MediaPacket, MediaPacketView};

verus! {

/// Number of fragments a frame of `len` bytes is split into: one for an empty
/// frame, otherwise `ceil(len / max)`, capped at 255 so that it fits in a `u8`.
pub open spec fn fragment_count_spec(len: nat, max: nat) -> nat
    recommends
        max > 0,
{
    if len == 0 {
        1
    } else {
        let full = len / max + (if len % max == 0 { 0nat } else { 1nat });
        if full > 255 {
            255
        } else {
            full
        }
    }
}

/// Bytes carried by fragment `i`: `data[i*max .. min((i+1)*max, len)]`.
pub open spec fn fragment_payload(data: Seq<u8>, i: int, max: int) -> Seq<u8> {
    let start = i * max;
    let end = if start + max < data.len() {
        start + max
    } else {
        data.len() as int
    };
    data.subrange(start, end)
}

/// The sequence number assigned `i` packets after `base`, wrapping at 2^32.
pub open spec fn seq_after(base: u32, i: int) -> u32 {
    ((base + i) % 0x1_0000_0000) as u32
}

/// The packet `i` of a fragmented frame.
pub open spec fn fragment_spec(
    first_sequence: u32,
    stream_id: u8,
    timestamp: u32,
    is_keyframe: bool,
    data: Seq<u8>,
    max: nat,
    i: int,
) -> MediaPacketView {
    MediaPacketView {
        stream_id,
        sequence: seq_after(first_sequence, i),
        timestamp,
        fragment_index: i as u8,
        fragment_count: fragment_count_spec(data.len(), max) as u8,
        is_keyframe,
        payload: fragment_payload(data, i, max as int),
    }
}

/// Concatenation of a sequence of byte strings, in order.
pub open spec fn concat(parts: Seq<Seq<u8>>) -> Seq<u8>
    decreases parts.len(),
{
    if parts.len() == 0 {
        Seq::empty()
    } else {
        concat(parts.drop_last()) + parts.last()
    }
}

/// A fully reassembled frame.
#[derive(Debug, Clone)]
pub struct ReassembledFrame {
    /// Complete encoded frame data.
    pub data: Vec<u8>,
    /// Media timestamp.
    pub timestamp: u32,
    /// Stream identifier.
    pub stream_id: u8,
    /// Whether this frame is a keyframe.
    pub is_keyframe: bool,
}

/// Splits encoded frame data into [`MediaPacket`] fragments.
pub struct Fragmenter {
    next_sequence: u32,
}

proof fn lemma_fragment_bounds(len: nat, max: nat, i: nat)
    requires
        max > 0,
        i < fragment_count_spec(len, max),
    ensures
        i * max <= len,
        len > 0 ==> i * max < len,
        (i + 1) * max == i * max + max,
{
    assert((i + 1) * max == i * max + max) by (nonlinear_arith);
    if len == 0 {
        assert(i == 0);
        assert(i * max == 0) by (nonlinear_arith)
            requires
                i == 0,
        ;
    } else {
        let q = len / max;
        let r = len % max;
        assert(len == q * max + r) by (nonlinear_arith)
            requires
                max > 0,
                q == len / max,
                r == len % max,
        ;
        if r == 0 {
            assert(i < q);
            assert(i * max < len) by (nonlinear_arith)
                requires
                    i < q,
                    len == q * max + r,
                    r == 0,
                    max > 0,
            ;
        } else {
            assert(i <= q);
            assert(i * max < len) by (nonlinear_arith)
                requires
                    i <= q,
                    len == q * max + r,
                    r > 0,
                    max > 0,
            ;
        }
    }
}

impl Fragmenter {
    /// The sequence number the next fragment will carry.
    pub closed spec fn next_sequence(&self) -> u32 {
        self.next_sequence
    }

    /// Create a new fragmenter.
    pub fn new() -> (f: Self)
        ensures
            f.next_sequence() == 0,
    {
        Self { next_sequence: 0 }
    }

    /// Fragment encoded frame data into one or more [`MediaPacket`]s.
    ///
    /// Each packet's payload will be at most `max_payload_size` bytes.
    /// `max_payload_size` must be > 0.
    pub fn fragment(
        &mut self,
        stream_id: u8,
        timestamp: u32,
        is_keyframe: bool,
        data: &[u8],
        max_payload_size: usize,
    ) -> (packets: Vec<MediaPacket>)
        requires
            max_payload_size > 0,
        ensures
            packets.len() == fragment_count_spec(data@.len(), max_payload_size as nat),
            forall|i: int|
                0 <= i < packets.len() ==> #[trigger] packets[i]@ == fragment_spec(
                    old(self).next_sequence(),
                    stream_id,
                    timestamp,
                    is_keyframe,
                    data@,
                    max_payload_size as nat,
                    i,
                ),
            final(self).next_sequence() == seq_after(
                old(self).next_sequence(),
                packets.len() as int,
            ),
    {
        let len = data.len();
        let max = max_payload_size;
        let fragment_count: u8 = if len == 0 {
            1
        } else {
            let q = len / max;
            if q >= 255 {
                255
            } else if len % max == 0 {
                q as u8
            } else {
                (q + 1) as u8
            }
        };
        assert(fragment_count == fragment_count_spec(len as nat, max as nat));

        let ghost first = self.next_sequence;
        let mut packets: Vec<MediaPacket> = Vec::new();
        let mut i: u8 = 0;
        while i < fragment_count
            invariant
                i <= fragment_count,
                fragment_count == fragment_count_spec(len as nat, max as nat),
                len == data@.len(),
                max == max_payload_size,
                max > 0,
                packets.len() == i,
                self.next_sequence == seq_after(first, i as int),
                forall|k: int|
                    0 <= k < packets.len() ==> #[trigger] packets[k]@ == fragment_spec(
                        first,
                        stream_id,
                        timestamp,
                        is_keyframe,
                        data@,
                        max as nat,
                        k,
                    ),
            decreases fragment_count - i,
        {
            proof {
                lemma_fragment_bounds(len as nat, max as nat, i as nat);
            }
            let start: usize = i as usize * max;
            let end: usize = if len - start > max {
                start + max
            } else {
                len
            };
            let mut payload: Vec<u8> = Vec::new();
            let mut j: usize = start;
            while j < end
                invariant
                    start <= j <= end,
                    end <= data@.len(),
                    payload@ == data@.subrange(start as int, j as int),
                decreases end - j,
            {
                payload.push(data[j]);
                assert(data@.subrange(start as int, j + 1) == data@.subrange(
                    start as int,
                    j as int,
                ).push(data@[j as int]));
                j = j + 1;
            }
            let seq = self.next_sequence;
            self.next_sequence = self.next_sequence.wrapping_add(1);
            let packet = MediaPacket {
                stream_id,
                sequence: seq,
                timestamp,
                fragment_index: i,
                fragment_count,
                is_keyframe,
                payload,
            };
            let ghost old_packets = packets@;
            packets.push(packet);
            proof {
                assert(packets[i as int]@ == fragment_spec(
                    first,
                    stream_id,
                    timestamp,
                    is_keyframe,
                    data@,
                    max as nat,
                    i as int,
                ));
                assert forall|k: int| 0 <= k < packets.len() implies #[trigger] packets[k]@
                    == fragment_spec(
                    first,
                    stream_id,
                    timestamp,
                    is_keyframe,
                    data@,
                    max as nat,
                    k,
                ) by {
                    if k < i {
                        assert(packets[k] == old_packets[k]);
                    }
                }
            }
            i = i + 1;
        }
        packets
    }
}


/// A frame in the course of reassembly, as a mathematical value.
pub struct PendingView {
    pub stream_id: u8,
    pub timestamp: u32,
    /// Payload of each fragment slot (empty where `present` is false).
    pub payloads: Seq<Seq<u8>>,
    /// Which fragment slots have arrived.
    pub present: Seq<bool>,
    pub received_count: u8,
    pub fragment_count: u8,
    pub is_keyframe: bool,
    /// Arrival time of the first fragment, in nanoseconds of the reassembler's clock.
    pub created_at: u128,
}

/// A reassembled frame, as a mathematical value.
pub struct FrameView {
    pub data: Seq<u8>,
    pub timestamp: u32,
    pub stream_id: u8,
    pub is_keyframe: bool,
}

impl View for ReassembledFrame {
    type V = FrameView;

    open spec fn view(&self) -> FrameView {
        FrameView {
            data: self.data@,
            timestamp: self.timestamp,
            stream_id: self.stream_id,
            is_keyframe: self.is_keyframe,
        }
    }
}

/// The view of an optional reassembled frame.
pub open spec fn frame_view(r: Option<ReassembledFrame>) -> Option<FrameView> {
    match r {
        Some(f) => Some(f@),
        None => None,
    }
}

/// Number of `true` entries.
pub open spec fn count_true(s: Seq<bool>) -> nat
    decreases s.len(),
{
    if s.len() == 0 {
        0
    } else {
        count_true(s.drop_last()) + (if s.last() { 1nat } else { 0nat })
    }
}

/// Whether a pending frame has waited longer than `timeout` at time `now`.
pub open spec fn expired(p: PendingView, now: u128, timeout: u128) -> bool {
    now > p.created_at && now - p.created_at > timeout
}

/// The predicate that keeps the pending frames that have not expired.
pub open spec fn keep_pred(now: u128, timeout: u128) -> spec_fn(PendingView) -> bool {
    |p: PendingView| !expired(p, now, timeout)
}

pub open spec fn key_matches(p: PendingView, stream_id: u8, timestamp: u32) -> bool {
    p.stream_id == stream_id && p.timestamp == timestamp
}

/// Whether `i` is the first index of `s` whose key is `(stream_id, timestamp)`.
pub open spec fn first_match(s: Seq<PendingView>, stream_id: u8, timestamp: u32, i: int) -> bool {
    &&& 0 <= i < s.len()
    &&& key_matches(s[i], stream_id, timestamp)
    &&& forall|k: int| 0 <= k < i ==> !key_matches(#[trigger] s[k], stream_id, timestamp)
}

/// Index of the pending frame with the given key, or -1 when there is none.
pub open spec fn find(s: Seq<PendingView>, stream_id: u8, timestamp: u32) -> int {
    if exists|i: int| first_match(s, stream_id, timestamp, i) {
        choose|i: int| first_match(s, stream_id, timestamp, i)
    } else {
        -1
    }
}

/// The pending entry created by the first fragment of a frame.
pub open spec fn new_pending(packet: MediaPacketView, now: u128) -> PendingView {
    PendingView {
        stream_id: packet.stream_id,
        timestamp: packet.timestamp,
        payloads: Seq::new(packet.fragment_count as nat, |i: int| Seq::<u8>::empty()),
        present: Seq::new(packet.fragment_count as nat, |i: int| false),
        received_count: 0,
        fragment_count: packet.fragment_count,
        is_keyframe: packet.is_keyframe,
        created_at: now,
    }
}

/// One call of [`Reassembler::push`]: the pending frames after the call and
/// the frame it returns.
pub open spec fn push_step(
    s: Seq<PendingView>,
    timeout: u128,
    packet: MediaPacketView,
    now: u128,
) -> (Seq<PendingView>, Option<FrameView>) {
    let live = s.filter(keep_pred(now, timeout));
    let found = find(live, packet.stream_id, packet.timestamp);
    let s1 = if found == -1 {
        live.push(new_pending(packet, now))
    } else {
        live
    };
    let idx = if found == -1 {
        live.len() as int
    } else {
        found
    };
    let e = s1[idx];
    let fi = packet.fragment_index as int;
    if fi >= e.present.len() {
        (s1, None)
    } else if e.present[fi] {
        (s1, None)
    } else {
        let e2 = PendingView {
            payloads: e.payloads.update(fi, packet.payload),
            present: e.present.update(fi, true),
            received_count: (e.received_count + 1) as u8,
            ..e
        };
        if e2.received_count == e2.fragment_count {
            (
                s1.remove(idx),
                Some(
                    FrameView {
                        data: concat(e2.payloads),
                        timestamp: packet.timestamp,
                        stream_id: e.stream_id,
                        is_keyframe: e.is_keyframe,
                    },
                ),
            )
        } else {
            (s1.update(idx, e2), None)
        }
    }
}

/// Well-formedness of one pending frame.
pub open spec fn pending_wf(p: PendingView) -> bool {
    &&& p.payloads.len() == p.fragment_count as nat
    &&& p.present.len() == p.fragment_count as nat
    &&& p.received_count as nat == count_true(p.present)
}

/// State for a partially received frame.
struct PendingFrame {
    stream_id: u8,
    timestamp: u32,
    payloads: Vec<Vec<u8>>,
    present: Vec<bool>,
    received_count: u8,
    fragment_count: u8,
    is_keyframe: bool,
    created_at: u128,
}

impl View for PendingFrame {
    type V = PendingView;

    closed spec fn view(&self) -> PendingView {
        PendingView {
            stream_id: self.stream_id,
            timestamp: self.timestamp,
            payloads: byte_views(self.payloads@),
            present: self.present@,
            received_count: self.received_count,
            fragment_count: self.fragment_count,
            is_keyframe: self.is_keyframe,
            created_at: self.created_at,
        }
    }
}

spec fn byte_views(v: Seq<Vec<u8>>) -> Seq<Seq<u8>> {
    v.map_values(|x: Vec<u8>| x@)
}

spec fn views(v: Seq<PendingFrame>) -> Seq<PendingView> {
    v.map_values(|f: PendingFrame| f@)
}

proof fn lemma_count_true_update(s: Seq<bool>, i: int)
    requires
        0 <= i < s.len(),
        !s[i],
    ensures
        count_true(s.update(i, true)) == count_true(s) + 1,
    decreases s.len(),
{
    let t = s.update(i, true);
    if i == s.len() - 1 {
        assert(t.drop_last() =~= s.drop_last());
    } else {
        assert(t.drop_last() =~= s.drop_last().update(i, true));
        lemma_count_true_update(s.drop_last(), i);
    }
}

proof fn lemma_count_true_lt(s: Seq<bool>, i: int)
    requires
        0 <= i < s.len(),
        !s[i],
    ensures
        count_true(s) < s.len(),
    decreases s.len(),
{
    lemma_count_true_le(s.drop_last());
    if i < s.len() - 1 {
        lemma_count_true_lt(s.drop_last(), i);
    }
}

proof fn lemma_count_true_le(s: Seq<bool>)
    ensures
        count_true(s) <= s.len(),
    decreases s.len(),
{
    if s.len() > 0 {
        lemma_count_true_le(s.drop_last());
    }
}

proof fn lemma_count_true_all_false(n: nat)
    ensures
        count_true(Seq::new(n, |i: int| false)) == 0,
    decreases n,
{
    if n > 0 {
        assert(Seq::new(n, |i: int| false).drop_last() =~= Seq::new((n - 1) as nat, |i: int| false));
        lemma_count_true_all_false((n - 1) as nat);
    }
}

/// Collects fragments and produces complete frames.
///
/// Handles out-of-order fragments and discards incomplete frames after a timeout.
pub struct Reassembler {
    /// Pending frames, each keyed by (stream_id, timestamp).
    pending: Vec<PendingFrame>,
    /// Timeout in nanoseconds after which incomplete frames are discarded.
    timeout_nanos: u128,
    /// Origin of the reassembler's clock.
    epoch: tokio::time::Instant,
}

/// Default reassembly timeout: 100 ms.
pub const DEFAULT_REASSEMBLY_TIMEOUT_NANOS: u128 = 100_000_000;

impl Reassembler {
    /// The frames currently pending reassembly.
    pub closed spec fn pending(&self) -> Seq<PendingView> {
        views(self.pending@)
    }

    /// The timeout, in nanoseconds.
    pub closed spec fn timeout(&self) -> u128 {
        self.timeout_nanos
    }

    /// Well-formedness: every pending frame has one slot per fragment and
    /// counts the slots that have arrived.
    pub open spec fn wf(&self) -> bool {
        forall|i: int| 0 <= i < self.pending().len() ==> pending_wf(#[trigger] self.pending()[i])
    }

    /// Create a reassembler whose pending frames expire after `timeout_nanos`.
    pub fn with_timeout_nanos(timeout_nanos: u128) -> (r: Self)
        ensures
            r.wf(),
            r.pending() == Seq::<PendingView>::empty(),
            r.timeout() == timeout_nanos,
    {
        let r = Self { pending: Vec::new(), timeout_nanos, epoch: crate::clock::tokio_now() };
        assert(r.pending() =~= Seq::<PendingView>::empty());
        r
    }

    /// Create a new reassembler with the default 100ms timeout.
    pub fn new() -> (r: Self)
        ensures
            r.wf(),
            r.pending() == Seq::<PendingView>::empty(),
            r.timeout() == DEFAULT_REASSEMBLY_TIMEOUT_NANOS,
    {
        Self::with_timeout_nanos(DEFAULT_REASSEMBLY_TIMEOUT_NANOS)
    }

    /// Create a new reassembler with a custom timeout: incomplete frames
    /// expire once older than `timeout`, counted in whole nanoseconds.
    pub fn with_timeout(timeout: std::time::Duration) -> (r: Self)
        ensures
            r.wf(),
            r.pending() == Seq::<PendingView>::empty(),
            r.timeout() == crate::clock::duration_as_nanos(timeout),
    {
        Self::with_timeout_nanos(crate::clock::duration_nanos(&timeout))
    }

    /// Get the number of frames currently pending reassembly.
    pub fn pending_count(&self) -> (n: usize)
        ensures
            n == self.pending().len(),
    {
        self.pending.len()
    }

    /// Remove frames that have been pending longer than the timeout.
    fn expire_stale(&mut self, now: u128)
        requires
            old(self).wf(),
        ensures
            final(self).wf(),
            final(self).pending() == old(self).pending().filter(keep_pred(now, old(self).timeout())),
            final(self).timeout() == old(self).timeout(),
            final(self).epoch == old(self).epoch,
    {
        let timeout = self.timeout_nanos;
        let mut rest: Vec<PendingFrame> = Vec::new();
        std::mem::swap(&mut rest, &mut self.pending);
        let ghost orig = views(rest@);
        assert(orig == old(self).pending());
        let ghost pred = keep_pred(now, timeout);
        let mut kept: Vec<PendingFrame> = Vec::new();
        let ghost mut j: int = 0;
        while rest.len() > 0
            invariant
                0 <= j <= orig.len(),
                views(rest@) == orig.skip(j),
                views(kept@) == orig.take(j).filter(pred),
                pred == keep_pred(now, timeout),
                forall|i: int| 0 <= i < orig.len() ==> pending_wf(#[trigger] orig[i]),
                forall|i: int| 0 <= i < views(kept@).len() ==> pending_wf(#[trigger] views(kept@)[i]),
            decreases rest.len(),
        {
            let ghost before = rest@;
            let f = rest.remove(0);
            proof {
                assert(views(before)[0] == f@);
                assert(views(rest@) =~= views(before).drop_first());
                assert(orig.take(j + 1) =~= orig.take(j).push(orig[j]));
                assert(orig[j] == f@);
                orig.take(j).lemma_filter_push(orig[j], pred);
            }
            let is_expired = now > f.created_at && now - f.created_at > timeout;
            if !is_expired {
                let ghost kb = kept@;
                kept.push(f);
                assert(views(kept@) =~= views(kb).push(f@));
            }
            proof {
                j = j + 1;
                assert(orig.skip(j) =~= orig.skip(j - 1).drop_first());
            }
        }
        proof {
            assert(orig.take(j) =~= orig);
        }
        self.pending = kept;
    }

    /// Push a received fragment, at time `now` (nanoseconds of the
    /// reassembler's clock).
    ///
    /// Returns `Some(ReassembledFrame)` when all fragments for a frame have arrived.
    /// Expired incomplete frames are cleaned up during this call.
    pub fn push_at(&mut self, packet: MediaPacket, now: u128) -> (r: Option<ReassembledFrame>)
        requires
            old(self).wf(),
        ensures
            final(self).wf(),
            final(self).timeout() == old(self).timeout(),
            (final(self).pending(), frame_view(r)) == push_step(
                old(self).pending(),
                old(self).timeout(),
                packet@,
                now,
            ),
    {
        let ghost pv = packet@;
        self.expire_stale(now);
        let ghost live = self.pending();
        let n = self.pending.len();
        let mut idx: usize = 0;
        while idx < n && !(self.pending[idx].stream_id == packet.stream_id
            && self.pending[idx].timestamp == packet.timestamp)
            invariant
                0 <= idx <= n,
                n == self.pending@.len(),
                live == self.pending(),
                live.len() == n,
                pv == packet@,
                forall|k: int| 0 <= k < idx ==> !key_matches(#[trigger] live[k], pv.stream_id, pv.timestamp),
            decreases n - idx,
        {
            assert(live[idx as int] == self.pending@[idx as int]@);
            idx = idx + 1;
        }
        proof {
            if idx < n {
                assert(live[idx as int] == self.pending@[idx as int]@);
                lemma_first_match_unique(live, pv.stream_id, pv.timestamp, idx as int);
            } else {
                assert(!exists|i: int| first_match(live, pv.stream_id, pv.timestamp, i));
            }
        }
        if idx == n {
            let count = packet.fragment_count;
            let mut payloads: Vec<Vec<u8>> = Vec::new();
            let mut present: Vec<bool> = Vec::new();
            let mut c: u8 = 0;
            while c < count
                invariant
                    c <= count,
                    byte_views(payloads@) =~= Seq::new(c as nat, |i: int| Seq::<u8>::empty()),
                    present@ =~= Seq::new(c as nat, |i: int| false),
                decreases count - c,
            {
                let ghost pb = payloads@;
                payloads.push(Vec::new());
                assert(byte_views(payloads@) =~= byte_views(pb).push(Seq::<u8>::empty()));
                present.push(false);
                c = c + 1;
            }
            let fresh = PendingFrame {
                stream_id: packet.stream_id,
                timestamp: packet.timestamp,
                payloads,
                present,
                received_count: 0,
                fragment_count: count,
                is_keyframe: packet.is_keyframe,
                created_at: now,
            };
            proof {
                lemma_count_true_all_false(count as nat);
                assert(fresh@ == new_pending(pv, now));
            }
            let ghost before = self.pending@;
            self.pending.push(fresh);
            assert(views(self.pending@) =~= views(before).push(fresh@));
        }
        let ghost s1 = self.pending();
        let ghost s1_raw = self.pending@;
        assert(pending_wf(s1[idx as int]));
        let mut entry = self.pending.remove(idx);
        proof {
            assert(entry@ == s1[idx as int]);
            assert(views(self.pending@) =~= s1.remove(idx as int));
        }
        let fi = packet.fragment_index as usize;
        if fi >= entry.present.len() || entry.present[fi] {
            let ghost mid = self.pending@;
            self.pending.insert(idx, entry);
            proof {
                assert(views(self.pending@) =~= views(mid).insert(idx as int, entry@));
                assert(views(self.pending@) =~= s1);
            }
            return None;
        }
        let ghost e = entry@;
        proof {
            lemma_count_true_lt(e.present, fi as int);
            lemma_count_true_update(e.present, fi as int);
        }
        let ghost old_payloads = entry.payloads@;
        entry.payloads.set(fi, packet.payload);
        entry.present.set(fi, true);
        entry.received_count = entry.received_count + 1;
        let ghost e2 = PendingView {
            payloads: e.payloads.update(fi as int, pv.payload),
            present: e.present.update(fi as int, true),
            received_count: (e.received_count + 1) as u8,
            ..e
        };
        proof {
            assert(byte_views(entry.payloads@) =~= byte_views(old_payloads).update(fi as int, pv.payload));
            assert(entry@ == e2);
        }
        if entry.received_count == entry.fragment_count {
            let mut data: Vec<u8> = Vec::new();
            let ghost parts = e2.payloads;
            let mut k: usize = 0;
            while k < entry.payloads.len()
                invariant
                    0 <= k <= entry.payloads@.len(),
                    parts.len() == entry.payloads@.len(),
                    forall|j: int| 0 <= j < parts.len() ==> #[trigger] parts[j] == entry.payloads@[j]@,
                    data@ == concat(parts.take(k as int)),
                decreases entry.payloads@.len() - k,
            {
                proof {
                    assert(parts.take(k + 1).drop_last() =~= parts.take(k as int));
                    assert(parts.take(k + 1).last() == entry.payloads@[k as int]@);
                }
                data.extend_from_slice(entry.payloads[k].as_slice());
                k = k + 1;
            }
            proof {
                assert(parts.take(k as int) =~= parts);
            }
            let frame = ReassembledFrame {
                data,
                timestamp: packet.timestamp,
                stream_id: entry.stream_id,
                is_keyframe: entry.is_keyframe,
            };
            proof {
                assert forall|i: int| 0 <= i < self.pending().len() implies pending_wf(
                    #[trigger] self.pending()[i],
                ) by {
                    if i < idx {
                        assert(self.pending()[i] == s1[i]);
                    } else {
                        assert(self.pending()[i] == s1[i + 1]);
                    }
                }
            }
            Some(frame)
        } else {
            let ghost mid = self.pending@;
            self.pending.insert(idx, entry);
            proof {
                assert(views(self.pending@) =~= views(mid).insert(idx as int, e2));
                assert(views(self.pending@) =~= s1.update(idx as int, e2));
            }
            None
        }
    }

    /// Push a received fragment.
    ///
    /// Returns `Some(ReassembledFrame)` when all fragments for a frame have arrived.
    /// Expired incomplete frames are cleaned up during this call. The current
    /// time is read from the tokio clock.
    pub fn push(&mut self, packet: MediaPacket) -> (r: Option<ReassembledFrame>)
        requires
            old(self).wf(),
        ensures
            final(self).wf(),
            final(self).timeout() == old(self).timeout(),
            exists|now: u128|
                (final(self).pending(), frame_view(r)) == #[trigger] push_step(
                    old(self).pending(),
                    old(self).timeout(),
                    packet@,
                    now,
                ),
    {
        let now = crate::clock::duration_nanos(&crate::clock::tokio_elapsed(&self.epoch));
        self.push_at(packet, now)
    }
}

proof fn lemma_first_match_unique(s: Seq<PendingView>, stream_id: u8, timestamp: u32, i: int)
    requires
        first_match(s, stream_id, timestamp, i),
    ensures
        find(s, stream_id, timestamp) == i,
{
    let c = choose|c: int| first_match(s, stream_id, timestamp, c);
    if c < i {
        assert(!key_matches(s[c], stream_id, timestamp));
    } else if c > i {
        assert(!key_matches(s[i], stream_id, timestamp));
    }
}


/// The payloads of all fragments of a frame, in index order.
pub open spec fn fragment_payloads(data: Seq<u8>, max: nat) -> Seq<Seq<u8>> {
    Seq::new(fragment_count_spec(data.len(), max), |i: int| fragment_payload(data, i, max as int))
}

proof fn lemma_fragment_count_pos(len: nat, max: nat)
    requires
        max > 0,
    ensures
        1 <= fragment_count_spec(len, max) <= 255,
{
    if len > 0 && len % max == 0 {
        assert(len / max >= 1) by (nonlinear_arith)
            requires
                len > 0,
                len % max == 0,
                max > 0,
        ;
    }
}

proof fn lemma_concat_prefix(data: Seq<u8>, max: nat, k: nat)
    requires
        max > 0,
        k <= fragment_count_spec(data.len(), max),
    ensures
        concat(fragment_payloads(data, max).take(k as int)) == data.take(
            if k * max < data.len() {
                (k * max) as int
            } else {
                data.len() as int
            },
        ),
    decreases k,
{
    let parts = fragment_payloads(data, max);
    if k == 0 {
        assert(parts.take(0) =~= Seq::<Seq<u8>>::empty());
        assert(data.take(0) =~= Seq::<u8>::empty());
        assert(0 * max == 0) by (nonlinear_arith);
    } else {
        let j = (k - 1) as nat;
        lemma_concat_prefix(data, max, j);
        lemma_fragment_bounds(data.len(), max, j);
        assert(parts.take(k as int).drop_last() =~= parts.take(j as int));
        assert(parts.take(k as int).last() == fragment_payload(data, j as int, max as int));
        let start = (j * max) as int;
        assert(k * max == j * max + max) by (nonlinear_arith)
            requires
                k == j + 1,
        ;
        let end = if start + max < data.len() {
            start + max
        } else {
            data.len() as int
        };
        assert(data.take(start) + data.subrange(start, end) =~= data.take(end));
    }
}

/// Fragmenting a frame loses nothing: when the frame fits in 255 fragments,
/// the fragment payloads, concatenated in index order, are the frame.
pub proof fn law_fragments_concatenate_to_frame(data: Seq<u8>, max: nat)
    requires
        max > 0,
        data.len() <= 255 * max,
    ensures
        concat(fragment_payloads(data, max)) == data,
{
    let n = fragment_count_spec(data.len(), max);
    let parts = fragment_payloads(data, max);
    lemma_concat_prefix(data, max, n);
    assert(parts.take(n as int) =~= parts);
    if data.len() == 0 {
        assert(data.take(0) =~= data);
    } else {
        let q = data.len() / max;
        let r = data.len() % max;
        assert(data.len() == q * max + r) by (nonlinear_arith)
            requires
                max > 0,
                q == data.len() / max,
                r == data.len() % max,
        ;
        assert(q <= 255) by (nonlinear_arith)
            requires
                data.len() == q * max + r,
                data.len() <= 255 * max,
                r >= 0,
                max > 0,
        ;
        if r == 0 {
            assert(n * max >= data.len());
        } else {
            assert(q < 255) by (nonlinear_arith)
                requires
                    data.len() == q * max + r,
                    data.len() <= 255 * max,
                    r > 0,
                    max > 0,
            ;
            assert(n == q + 1);
            assert(n * max >= data.len()) by (nonlinear_arith)
                requires
                    n == q + 1,
                    data.len() == q * max + r,
                    r < max,
            ;
        }
        assert(data.take(data.len() as int) =~= data);
    }
}

/// Feeding packets one after another to [`push_step`], packet `i` at time
/// `times[i]`: the final pending frames and the result of each push.
pub open spec fn run_pushes(
    s: Seq<PendingView>,
    timeout: u128,
    packets: Seq<MediaPacketView>,
    times: Seq<u128>,
) -> (Seq<PendingView>, Seq<Option<FrameView>>)
    decreases packets.len(),
{
    if packets.len() == 0 {
        (s, Seq::empty())
    } else {
        let prev = run_pushes(s, timeout, packets.drop_last(), times);
        let next = push_step(prev.0, timeout, packets.last(), times[packets.len() - 1]);
        (next.0, prev.1.push(next.1))
    }
}

/// The first `n` push times all fall within `timeout` of the first one, so
/// a frame started by the first push has not expired at any of them.
pub open spec fn within_timeout(times: Seq<u128>, timeout: u128, n: nat) -> bool {
    &&& times.len() >= n
    &&& forall|i: int| 0 <= i < n ==> !(#[trigger] times[i] > times[0] && times[i] - times[0] > timeout)
}

/// Whether `order` lists every index in `0..n` exactly once.
pub open spec fn is_permutation(order: Seq<int>, n: nat) -> bool {
    &&& order.len() == n
    &&& forall|i: int| 0 <= i < n ==> 0 <= #[trigger] order[i] < n
    &&& forall|i: int, j: int| 0 <= i < j < n ==> order[i] != order[j]
    &&& forall|v: int| 0 <= v < n ==> #[trigger] order.contains(v)
}

/// The pending frame after the fragments `order[0..k]` of a frame have arrived.
spec fn partial_frame(
    stream_id: u8,
    timestamp: u32,
    is_keyframe: bool,
    data: Seq<u8>,
    max: nat,
    order: Seq<int>,
    k: int,
    created_at: u128,
) -> PendingView {
    let n = fragment_count_spec(data.len(), max);
    PendingView {
        stream_id,
        timestamp,
        payloads: Seq::new(
            n,
            |j: int|
                if order.take(k).contains(j) {
                    fragment_payload(data, j, max as int)
                } else {
                    Seq::empty()
                },
        ),
        present: Seq::new(n, |j: int| order.take(k).contains(j)),
        received_count: k as u8,
        fragment_count: n as u8,
        is_keyframe,
        created_at,
    }
}

/// No pending frame of `s` has the key `(stream_id, timestamp)`.
pub open spec fn holds_no_frame(s: Seq<PendingView>, stream_id: u8, timestamp: u32) -> bool {
    forall|i: int| 0 <= i < s.len() ==> !key_matches(#[trigger] s[i], stream_id, timestamp)
}

/// The pending frames of `s` still there after the expiry checks of the
/// first `k` pushes, made at `times[0..k]`.
pub open spec fn survivors(s: Seq<PendingView>, timeout: u128, times: Seq<u128>, k: nat) -> Seq<PendingView>
    decreases k,
{
    if k == 0 {
        s
    } else {
        survivors(s, timeout, times, (k - 1) as nat).filter(keep_pred(times[k - 1], timeout))
    }
}

proof fn lemma_filter_holds_no_frame(s: Seq<PendingView>, p: spec_fn(PendingView) -> bool, stream_id: u8, timestamp: u32)
    requires
        holds_no_frame(s, stream_id, timestamp),
    ensures
        holds_no_frame(s.filter(p), stream_id, timestamp),
    decreases s.len(),
{
    reveal(Seq::filter);
    if s.len() > 0 {
        lemma_filter_holds_no_frame(s.drop_last(), p, stream_id, timestamp);
        let f = s.drop_last().filter(p);
        if p(s.last()) {
            assert forall|i: int| 0 <= i < f.push(s.last()).len() implies !key_matches(
                #[trigger] f.push(s.last())[i],
                stream_id,
                timestamp,
            ) by {
                if i < f.len() {
                    assert(f.push(s.last())[i] == f[i]);
                }
            }
        }
    }
}

proof fn lemma_survivors_hold_no_frame(s: Seq<PendingView>, timeout: u128, times: Seq<u128>, k: nat, stream_id: u8, timestamp: u32)
    requires
        holds_no_frame(s, stream_id, timestamp),
    ensures
        holds_no_frame(survivors(s, timeout, times, k), stream_id, timestamp),
    decreases k,
{
    if k > 0 {
        lemma_survivors_hold_no_frame(s, timeout, times, (k - 1) as nat, stream_id, timestamp);
        lemma_filter_holds_no_frame(
            survivors(s, timeout, times, (k - 1) as nat),
            keep_pred(times[k - 1], timeout),
            stream_id,
            timestamp,
        );
    }
}

/// One push of a fragment of a frame, when the other pending frames `others`
/// hold no frame of its key: `e` is the frame's entry, after them when
/// `has_entry`, else the entry the push creates. A new fragment fills its
/// slot; the other frames only lose those that expired.
proof fn lemma_push_into_frame(
    others: Seq<PendingView>,
    e: PendingView,
    has_entry: bool,
    timeout: u128,
    pkt: MediaPacketView,
    now: u128,
)
    requires
        holds_no_frame(others, pkt.stream_id, pkt.timestamp),
        key_matches(e, pkt.stream_id, pkt.timestamp),
        has_entry ==> !expired(e, now, timeout),
        !has_entry ==> e == new_pending(pkt, now),
        (pkt.fragment_index as int) < e.present.len(),
        !e.present[pkt.fragment_index as int],
    ensures
        ({
            let prev = if has_entry {
                others.push(e)
            } else {
                others
            };
            let rest = others.filter(keep_pred(now, timeout));
            let fi = pkt.fragment_index as int;
            let e2 = PendingView {
                payloads: e.payloads.update(fi, pkt.payload),
                present: e.present.update(fi, true),
                received_count: (e.received_count + 1) as u8,
                ..e
            };
            push_step(prev, timeout, pkt, now) == if e2.received_count == e2.fragment_count {
                (
                    rest,
                    Some(
                        FrameView {
                            data: concat(e2.payloads),
                            timestamp: pkt.timestamp,
                            stream_id: e.stream_id,
                            is_keyframe: e.is_keyframe,
                        },
                    ),
                )
            } else {
                (rest.push(e2), None)
            }
        }),
{
    let sid = pkt.stream_id;
    let ts = pkt.timestamp;
    let pred = keep_pred(now, timeout);
    let rest = others.filter(pred);
    lemma_filter_holds_no_frame(others, pred, sid, ts);
    let prev = if has_entry {
        others.push(e)
    } else {
        others
    };
    let live = prev.filter(pred);
    if has_entry {
        others.lemma_filter_push(e, pred);
        assert(live == rest.push(e));
        assert(first_match(live, sid, ts, rest.len() as int)) by {
            assert forall|k: int| 0 <= k < rest.len() implies !key_matches(#[trigger] live[k], sid, ts) by {
                assert(live[k] == rest[k]);
            }
        }
        lemma_first_match_unique(live, sid, ts, rest.len() as int);
    } else {
        assert(live == rest);
        assert(!exists|i: int| first_match(live, sid, ts, i));
    }
    let fi = pkt.fragment_index as int;
    let e2 = PendingView {
        payloads: e.payloads.update(fi, pkt.payload),
        present: e.present.update(fi, true),
        received_count: (e.received_count + 1) as u8,
        ..e
    };
    let s1 = rest.push(e);
    assert(s1.remove(rest.len() as int) =~= rest);
    assert(s1.update(rest.len() as int, e2) =~= rest.push(e2));
}

proof fn lemma_reassembly_prefix(
    s: Seq<PendingView>,
    first_sequence: u32,
    stream_id: u8,
    timestamp: u32,
    is_keyframe: bool,
    data: Seq<u8>,
    max: nat,
    order: Seq<int>,
    timeout: u128,
    times: Seq<u128>,
    k: nat,
)
    requires
        max > 0,
        data.len() <= 255 * max,
        holds_no_frame(s, stream_id, timestamp),
        is_permutation(order, fragment_count_spec(data.len(), max)),
        1 <= k < fragment_count_spec(data.len(), max),
        within_timeout(times, timeout, k),
    ensures
        ({
            let packets = order.map_values(
                |j: int| fragment_spec(first_sequence, stream_id, timestamp, is_keyframe, data, max, j),
            );
            let r = run_pushes(s, timeout, packets.take(k as int), times);
            &&& r.0 == survivors(s, timeout, times, k).push(
                partial_frame(stream_id, timestamp, is_keyframe, data, max, order, k as int, times[0]),
            )
            &&& r.1.len() == k
            &&& forall|i: int| 0 <= i < k ==> #[trigger] r.1[i] == None::<FrameView>
        }),
    decreases k,
{
    let n = fragment_count_spec(data.len(), max);
    let packets = order.map_values(
        |j: int| fragment_spec(first_sequence, stream_id, timestamp, is_keyframe, data, max, j),
    );
    let pk = packets.take(k as int);
    assert(pk.drop_last() =~= packets.take(k - 1));
    let j = (k - 1) as int;
    let fi = order[j];
    let pkt = packets[j];
    assert(pk.last() == pkt);
    let others = survivors(s, timeout, times, j as nat);
    lemma_survivors_hold_no_frame(s, timeout, times, j as nat, stream_id, timestamp);
    let before = partial_frame(stream_id, timestamp, is_keyframe, data, max, order, j, times[0]);
    let after = partial_frame(stream_id, timestamp, is_keyframe, data, max, order, k as int, times[0]);
    if k == 1 {
        assert(packets.take(0) =~= Seq::<MediaPacketView>::empty());
        assert(order.take(0) =~= Seq::<int>::empty());
    } else {
        lemma_reassembly_prefix(
            s,
            first_sequence,
            stream_id,
            timestamp,
            is_keyframe,
            data,
            max,
            order,
            timeout,
            times,
            (k - 1) as nat,
        );
    }
    let e = if k == 1 {
        new_pending(pkt, times[j])
    } else {
        before
    };
    assert(e.present =~= before.present);
    assert(e.payloads =~= before.payloads);
    assert(pkt.fragment_index as int == fi);
    assert(!order.take(j).contains(fi)) by {
        if order.take(j).contains(fi) {
            let i = choose|i: int| 0 <= i < j && order.take(j)[i] == fi;
            assert(order[i] == order[j]);
        }
    }
    lemma_push_into_frame(others, e, k != 1, timeout, pkt, times[j]);
    let e2 = PendingView {
        payloads: e.payloads.update(fi, pkt.payload),
        present: e.present.update(fi, true),
        received_count: (e.received_count + 1) as u8,
        ..e
    };
    assert forall|v: int| #![trigger order.take(k as int).contains(v)]
        order.take(k as int).contains(v) == (order.take(j).contains(v) || v == fi) by {
        if order.take(k as int).contains(v) {
            let i = choose|i: int| 0 <= i < k && order.take(k as int)[i] == v;
            if i < j {
                assert(order.take(j)[i] == v);
            }
        }
        if order.take(j).contains(v) {
            let i = choose|i: int| 0 <= i < j && order.take(j)[i] == v;
            assert(order.take(k as int)[i] == v);
        }
        if v == fi {
            assert(order.take(k as int)[j] == v);
        }
    }
    assert(e2.present =~= after.present);
    assert(e2.payloads =~= after.payloads);
    assert(e2 == after);
    assert(e2.received_count != e2.fragment_count);
    let prev = run_pushes(s, timeout, packets.take(j), times);
    let prev_state = if k == 1 {
        others
    } else {
        others.push(e)
    };
    assert(prev.0 == prev_state);
    let rest = others.filter(keep_pred(times[j], timeout));
    assert(survivors(s, timeout, times, k) == rest);
    assert(push_step(prev_state, timeout, pkt, times[j]) == (rest.push(after), None::<FrameView>));
    let r = run_pushes(s, timeout, pk, times);
    assert(r.0 == rest.push(after));
    assert forall|i: int| 0 <= i < k implies #[trigger] r.1[i] == None::<FrameView> by {
        if i < j {
            assert(r.1[i] == prev.1[i]);
        }
    }
}

/// Reassembly is insensitive to arrival order and timing, and to the other
/// frames in progress: pushing every fragment of a frame exactly once, in
/// any order, into a reassembler holding no part of that frame, each push at
/// any time within the timeout of the first one, returns nothing until the
/// last fragment and then returns the original frame; the other pending
/// frames are left as they were, less those that expired on the way.
pub proof fn law_reassembly_in_any_order(
    s: Seq<PendingView>,
    first_sequence: u32,
    stream_id: u8,
    timestamp: u32,
    is_keyframe: bool,
    data: Seq<u8>,
    max: nat,
    order: Seq<int>,
    timeout: u128,
    times: Seq<u128>,
)
    requires
        max > 0,
        data.len() <= 255 * max,
        holds_no_frame(s, stream_id, timestamp),
        is_permutation(order, fragment_count_spec(data.len(), max)),
        within_timeout(times, timeout, fragment_count_spec(data.len(), max)),
    ensures
        ({
            let n = fragment_count_spec(data.len(), max);
            let packets = order.map_values(
                |j: int| fragment_spec(first_sequence, stream_id, timestamp, is_keyframe, data, max, j),
            );
            let r = run_pushes(s, timeout, packets, times);
            &&& r.0 == survivors(s, timeout, times, n)
            &&& r.1.len() == n
            &&& r.1.last() == Some(
                FrameView { data, timestamp, stream_id, is_keyframe },
            )
            &&& forall|i: int| 0 <= i < n - 1 ==> #[trigger] r.1[i] == None::<FrameView>
        }),
{
    let n = fragment_count_spec(data.len(), max);
    lemma_fragment_count_pos(data.len(), max);
    let packets = order.map_values(
        |j: int| fragment_spec(first_sequence, stream_id, timestamp, is_keyframe, data, max, j),
    );
    let j = (n - 1) as int;
    assert(packets.take(n as int) =~= packets);
    assert(packets.drop_last() =~= packets.take(j));
    let others = survivors(s, timeout, times, j as nat);
    lemma_survivors_hold_no_frame(s, timeout, times, j as nat, stream_id, timestamp);
    let before = partial_frame(stream_id, timestamp, is_keyframe, data, max, order, j, times[0]);
    if n == 1 {
        assert(packets.take(0) =~= Seq::<MediaPacketView>::empty());
        assert(order.take(0) =~= Seq::<int>::empty());
    } else {
        lemma_reassembly_prefix(
            s,
            first_sequence,
            stream_id,
            timestamp,
            is_keyframe,
            data,
            max,
            order,
            timeout,
            times,
            j as nat,
        );
    }
    let prev = run_pushes(s, timeout, packets.take(j), times);
    let pkt = packets[j];
    let fi = order[j];
    let e = if n == 1 {
        new_pending(pkt, times[j])
    } else {
        before
    };
    assert(e.present =~= before.present);
    assert(e.payloads =~= before.payloads);
    assert(!order.take(j).contains(fi)) by {
        if order.take(j).contains(fi) {
            let i = choose|i: int| 0 <= i < j && order.take(j)[i] == fi;
            assert(order[i] == order[j]);
        }
    }
    lemma_push_into_frame(others, e, n != 1, timeout, pkt, times[j]);
    let e2 = PendingView {
        payloads: e.payloads.update(fi, pkt.payload),
        present: e.present.update(fi, true),
        received_count: (e.received_count + 1) as u8,
        ..e
    };
    assert(e2.payloads =~= fragment_payloads(data, max)) by {
        assert forall|v: int| 0 <= v < n implies #[trigger] e2.payloads[v] == fragment_payload(
            data,
            v,
            max as int,
        ) by {
            if v != fi {
                assert(order.contains(v));
                let i = choose|i: int| 0 <= i < order.len() && order[i] == v;
                if i == j {
                    assert(false);
                }
                assert(order.take(j)[i] == v);
                assert(order.take(j).contains(v));
            }
        }
    }
    law_fragments_concatenate_to_frame(data, max);
    assert(e2.received_count == e2.fragment_count);
    let r = run_pushes(s, timeout, packets, times);
    assert forall|i: int| 0 <= i < n - 1 implies #[trigger] r.1[i] == None::<FrameView> by {
        assert(r.1[i] == prev.1[i]);
    }
}

proof fn lemma_filter_all_kept(s: Seq<PendingView>, p: spec_fn(PendingView) -> bool)
    requires
        forall|i: int| 0 <= i < s.len() ==> p(#[trigger] s[i]),
    ensures
        s.filter(p) == s,
    decreases s.len(),
{
    reveal(Seq::filter);
    if s.len() > 0 {
        lemma_filter_all_kept(s.drop_last(), p);
        assert(s.drop_last().push(s.last()) =~= s);
    }
}

proof fn lemma_first_match_exists(s: Seq<PendingView>, stream_id: u8, timestamp: u32, k: int)
    requires
        0 <= k < s.len(),
        key_matches(s[k], stream_id, timestamp),
    ensures
        exists|i: int| first_match(s, stream_id, timestamp, i),
    decreases k,
{
    if exists|j: int| 0 <= j < k && key_matches(#[trigger] s[j], stream_id, timestamp) {
        let j = choose|j: int| 0 <= j < k && key_matches(#[trigger] s[j], stream_id, timestamp);
        lemma_first_match_exists(s, stream_id, timestamp, j);
    } else {
        assert(first_match(s, stream_id, timestamp, k));
    }
}

/// A fragment that arrives a second time, at the same moment, changes
/// nothing and completes nothing: duplicates cannot corrupt a frame.
pub proof fn law_duplicate_fragment_ignored(s: Seq<PendingView>, timeout: u128, packet: MediaPacketView, now: u128)
    requires
        push_step(s, timeout, packet, now).1 is None,
    ensures
        push_step(push_step(s, timeout, packet, now).0, timeout, packet, now) == (
            push_step(s, timeout, packet, now).0,
            None::<FrameView>,
        ),
{
    let pred = keep_pred(now, timeout);
    let live = s.filter(pred);
    let sid = packet.stream_id;
    let ts = packet.timestamp;
    let found = find(live, sid, ts);
    let s1 = if found == -1 {
        live.push(new_pending(packet, now))
    } else {
        live
    };
    let idx = if found == -1 {
        live.len() as int
    } else {
        found
    };
    if found == -1 {
        assert forall|k: int| 0 <= k < live.len() implies !key_matches(#[trigger] live[k], sid, ts) by {
            if key_matches(live[k], sid, ts) {
                lemma_first_match_exists(live, sid, ts, k);
            }
        }
        assert(first_match(s1, sid, ts, idx));
    } else {
        let c = choose|i: int| first_match(live, sid, ts, i);
        assert(first_match(live, sid, ts, c));
        assert(first_match(s1, sid, ts, idx));
    }
    assert forall|i: int| 0 <= i < live.len() implies pred(#[trigger] live[i]) by {
        s.lemma_filter_pred(pred, i);
    }
    assert forall|i: int| 0 <= i < s1.len() implies pred(#[trigger] s1[i]) by {
        if i < live.len() {
            assert(s1[i] == live[i]);
        }
    }
    let out = push_step(s, timeout, packet, now).0;
    let e = s1[idx];
    let fi = packet.fragment_index as int;
    if fi < e.present.len() && !e.present[fi] {
        let e2 = PendingView {
            payloads: e.payloads.update(fi, packet.payload),
            present: e.present.update(fi, true),
            received_count: (e.received_count + 1) as u8,
            ..e
        };
        assert(out == s1.update(idx, e2));
        assert forall|i: int| 0 <= i < out.len() implies pred(#[trigger] out[i]) by {
            if i != idx {
                assert(out[i] == s1[i]);
            }
        }
        assert(first_match(out, sid, ts, idx)) by {
            assert forall|k: int| 0 <= k < idx implies !key_matches(#[trigger] out[k], sid, ts) by {
                assert(out[k] == s1[k]);
            }
        }
    } else {
        assert(out == s1);
    }
    lemma_filter_all_kept(out, pred);
    lemma_first_match_unique(out, sid, ts, idx);
}

impl Default for Fragmenter {
    /// A fragmenter starting at sequence number 0.
    fn default() -> (f: Self)
        ensures
            f.next_sequence() == 0,
    {
        Fragmenter::new()
    }
}

impl Default for Reassembler {
    /// A reassembler with the default timeout and nothing pending.
    fn default() -> (r: Self)
        ensures
            r.wf(),
            r.pending() == Seq::<PendingView>::empty(),
            r.timeout() == DEFAULT_REASSEMBLY_TIMEOUT_NANOS,
    {
        Reassembler::new()
    }
}

} // verus!
