//! Media control channel: message framing, receiver reports and RTT estimation.
//!
//! Control messages (keyframe requests, receiver reports, quality changes) are
//! exchanged over a reliable bidirectional stream as length-prefixed messages.
//! The stream I/O and the message encoding are done by the caller; this module
//! frames and checks the bytes and keeps the report state.

use vstd::prelude::*;

use crate::jitter_buffer::JitterStats;
use crate::media_transport::TransportMetrics;
use crate::protocol::MediaControl;

verus! {

/// Largest control message body accepted, in bytes.
pub const MAX_MESSAGE_LEN: usize = 65536;

/// Why a length prefix was refused.
#[derive(Debug, Clone, Copy, PartialEq, Eq)]
pub enum FrameError {
    /// The announced body is longer than [`MAX_MESSAGE_LEN`].
    TooLarge { len: usize },
}

/// Big-endian bytes of a 32-bit length.
pub open spec fn be_bytes(n: u32) -> Seq<u8> {
    seq![
        (n / 0x100_0000) as u8,
        ((n / 0x1_0000) % 0x100) as u8,
        ((n / 0x100) % 0x100) as u8,
        (n % 0x100) as u8,
    ]
}

/// The number whose big-endian bytes are `b`.
pub open spec fn be_value(b: Seq<u8>) -> int {
    b[0] * 0x100_0000 + b[1] * 0x1_0000 + b[2] * 0x100 + b[3]
}

/// Encode a 32-bit length as four big-endian bytes.
pub fn length_prefix(n: u32) -> (b: [u8; 4])
    ensures
        b@ == be_bytes(n),
{
    [(n / 0x100_0000) as u8, ((n / 0x1_0000) % 0x100) as u8, ((n / 0x100) % 0x100) as u8, (n % 0x100) as u8]
}

/// Frame a message body: its length as four big-endian bytes, then the body.
pub fn frame_message(body: &[u8]) -> (framed: Vec<u8>)
    requires
        body@.len() <= u32::MAX,
    ensures
        framed@ == be_bytes(body@.len() as u32) + body@,
{
    let prefix = length_prefix(body.len() as u32);
    let mut framed: Vec<u8> = Vec::new();
    framed.push(prefix[0]);
    framed.push(prefix[1]);
    framed.push(prefix[2]);
    framed.push(prefix[3]);
    let ghost p = framed@;
    assert(p =~= be_bytes(body@.len() as u32));
    framed.extend_from_slice(body);
    framed
}

/// Read a length prefix and check it against [`MAX_MESSAGE_LEN`].
pub fn read_length_prefix(header: [u8; 4]) -> (r: Result<usize, FrameError>)
    ensures
        match r {
            Ok(len) => len == be_value(header@) && len <= MAX_MESSAGE_LEN,
            Err(FrameError::TooLarge { len }) => len == be_value(header@) && len > MAX_MESSAGE_LEN,
        },
{
    let len: u32 = header[0] as u32 * 0x100_0000 + header[1] as u32 * 0x1_0000 + header[2] as u32 * 0x100
        + header[3] as u32;
    let len = len as usize;
    if len > MAX_MESSAGE_LEN {
        Err(FrameError::TooLarge { len })
    } else {
        Ok(len)
    }
}

/// The length written by [`frame_message`] is read back by
/// [`read_length_prefix`]: decoding the four prefix bytes gives the body's
/// length.
pub proof fn law_length_prefix_roundtrip(n: u32)
    ensures
        be_value(be_bytes(n)) == n,
{
    let b0 = n / 0x100_0000;
    let b1 = (n / 0x1_0000) % 0x100;
    let b2 = (n / 0x100) % 0x100;
    let b3 = n % 0x100;
    assert(b0 < 0x100);
    assert(b0 * 0x100_0000 + b1 * 0x1_0000 + b2 * 0x100 + b3 == n) by (nonlinear_arith)
        requires
            b0 == n / 0x100_0000,
            b1 == (n / 0x1_0000) % 0x100,
            b2 == (n / 0x100) % 0x100,
            b3 == n % 0x100,
    ;
}

/// Return a human-readable name for a control message type (for logging).
pub fn control_type_name(msg: &MediaControl) -> (name: &'static str)
    ensures
        name@ == match msg {
            MediaControl::RequestKeyframe { .. } => "RequestKeyframe"@,
            MediaControl::ReceiverReport { .. } => "ReceiverReport"@,
            MediaControl::QualityChange { .. } => "QualityChange"@,
        },
{
    match msg {
        MediaControl::RequestKeyframe { .. } => "RequestKeyframe",
        MediaControl::ReceiverReport { .. } => "ReceiverReport",
        MediaControl::QualityChange { .. } => "QualityChange",
    }
}

/// Counts the control messages sent on one stream.
pub struct ControlCounter {
    count: u64,
}

impl ControlCounter {
    pub closed spec fn value(&self) -> u64 {
        self.count
    }

    pub fn new() -> (c: Self)
        ensures
            c.value() == 0,
    {
        ControlCounter { count: 0 }
    }

    /// Count one more message.
    pub fn record(&mut self)
        requires
            old(self).value() < u64::MAX,
        ensures
            final(self).value() == old(self).value() + 1,
    {
        self.count = self.count + 1;
    }

    pub fn get(&self) -> (n: u64)
        ensures
            n == self.value(),
    {
        self.count
    }
}

/// The RTT estimate after a new sample: the sample itself while there is no
/// estimate yet (0), else 7/8 of the old estimate plus 1/8 of the sample
/// (each divided separately, as TCP's SRTT in integers).
pub open spec fn smoothed_rtt(estimate: u16, sample: u16) -> u16 {
    if estimate == 0 {
        sample
    } else {
        (estimate as int * 7 / 8 + sample as int / 8) as u16
    }
}

/// Milliseconds in a nanosecond duration, truncated to 16 bits as a `u16` cast does.
pub open spec fn millis_u16(nanos: u128) -> u16 {
    ((nanos / 1_000_000) % 0x1_0000) as u16
}

/// The low 32 bits of a counter, as a `u32` cast keeps them.
pub open spec fn low32(x: u64) -> u32 {
    (x % 0x1_0000_0000) as u32
}

/// Generates `ReceiverReport` control messages from transport and jitter buffer statistics.
///
/// Call `generate_report` periodically (every ~1 second) to produce a report
/// reflecting the current packet statistics and RTT estimate.
pub struct ReceiverReportGenerator {
    stream_id: u8,
    /// Snapshot of packets_received at last report.
    last_packets_received: u64,
    /// Snapshot of packets_lost at last report.
    last_packets_lost: u64,
    /// When we last sent a report, in nanoseconds of the generator's clock.
    last_report_sent: Option<u128>,
    /// Current RTT estimate in milliseconds.
    rtt_estimate_ms: u16,
    /// Origin of the generator's clock.
    epoch: std::time::Instant,
}

impl ReceiverReportGenerator {
    pub closed spec fn spec_stream_id(&self) -> u8 {
        self.stream_id
    }

    pub closed spec fn spec_rtt(&self) -> u16 {
        self.rtt_estimate_ms
    }

    pub closed spec fn spec_last_sent(&self) -> Option<u128> {
        self.last_report_sent
    }

    pub closed spec fn spec_last_received(&self) -> u64 {
        self.last_packets_received
    }

    pub closed spec fn spec_last_lost(&self) -> u64 {
        self.last_packets_lost
    }

    /// Create a new report generator for the given stream.
    pub fn new(stream_id: u8) -> (g: Self)
        ensures
            g.spec_stream_id() == stream_id,
            g.spec_rtt() == 0,
            g.spec_last_sent() is None,
            g.spec_last_received() == 0,
            g.spec_last_lost() == 0,
    {
        Self {
            stream_id,
            last_packets_received: 0,
            last_packets_lost: 0,
            last_report_sent: None,
            rtt_estimate_ms: 0,
            epoch: crate::clock::std_now(),
        }
    }

    /// Generate a receiver report from current statistics, noting the
    /// current time as the time the report is sent.
    pub fn generate_report(
        &mut self,
        transport_metrics: &TransportMetrics,
        jitter_stats: &JitterStats,
        jitter_ms: u32,
    ) -> (report: MediaControl)
        ensures
            report == (MediaControl::ReceiverReport {
                stream_id: old(self).spec_stream_id(),
                packets_received: low32(transport_metrics.packets_received),
                packets_lost: low32(jitter_stats.packets_lost),
                jitter: jitter_ms,
                rtt_estimate_ms: old(self).spec_rtt(),
            }),
            final(self).spec_last_sent() is Some,
            final(self).spec_last_received() == low32(transport_metrics.packets_received) as u64,
            final(self).spec_last_lost() == low32(jitter_stats.packets_lost) as u64,
            final(self).spec_stream_id() == old(self).spec_stream_id(),
            final(self).spec_rtt() == old(self).spec_rtt(),
    {
        let now = crate::clock::duration_nanos(&crate::clock::std_elapsed(&self.epoch));
        self.generate_report_at(transport_metrics, jitter_stats, jitter_ms, now)
    }

    /// Update the RTT estimate based on receiving a report back from the
    /// remote peer: the sample is the time elapsed since the last report was
    /// sent, read from the clock.
    pub fn update_rtt_from_response(&mut self)
        ensures
            final(self).spec_last_sent() is None,
            old(self).spec_last_sent() is None ==> final(self).spec_rtt() == old(self).spec_rtt(),
            old(self).spec_last_sent() is Some ==> exists|sample: u16|
                final(self).spec_rtt() == #[trigger] smoothed_rtt(old(self).spec_rtt(), sample),
            final(self).spec_stream_id() == old(self).spec_stream_id(),
    {
        let now = crate::clock::duration_nanos(&crate::clock::std_elapsed(&self.epoch));
        self.update_rtt_at(now);
    }

    /// Generate a receiver report from current statistics, at time `now`.
    ///
    /// Packet counts are the transport's received count and the jitter
    /// buffer's lost count, each truncated to 32 bits; `jitter_ms` is the
    /// jitter buffer's average jitter in whole milliseconds.
    pub fn generate_report_at(
        &mut self,
        transport_metrics: &TransportMetrics,
        jitter_stats: &JitterStats,
        jitter_ms: u32,
        now: u128,
    ) -> (report: MediaControl)
        ensures
            report == (MediaControl::ReceiverReport {
                stream_id: old(self).spec_stream_id(),
                packets_received: low32(transport_metrics.packets_received),
                packets_lost: low32(jitter_stats.packets_lost),
                jitter: jitter_ms,
                rtt_estimate_ms: old(self).spec_rtt(),
            }),
            final(self).spec_last_sent() == Some(now),
            final(self).spec_last_received() == low32(transport_metrics.packets_received) as u64,
            final(self).spec_last_lost() == low32(jitter_stats.packets_lost) as u64,
            final(self).spec_stream_id() == old(self).spec_stream_id(),
            final(self).spec_rtt() == old(self).spec_rtt(),
    {
        let packets_received = (transport_metrics.packets_received % 0x1_0000_0000) as u32;
        let packets_lost = (jitter_stats.packets_lost % 0x1_0000_0000) as u32;
        self.last_packets_received = packets_received as u64;
        self.last_packets_lost = packets_lost as u64;
        self.last_report_sent = Some(now);
        MediaControl::ReceiverReport {
            stream_id: self.stream_id,
            packets_received,
            packets_lost,
            jitter: jitter_ms,
            rtt_estimate_ms: self.rtt_estimate_ms,
        }
    }

    /// Update the RTT estimate on receiving a report back from the remote
    /// peer at time `now`: the sample is the time since the last report was
    /// sent, and a report can be answered once.
    pub fn update_rtt_at(&mut self, now: u128)
        ensures
            final(self).spec_last_sent() is None,
            final(self).spec_rtt() == match old(self).spec_last_sent() {
                Some(sent) => smoothed_rtt(
                    old(self).spec_rtt(),
                    millis_u16(if now >= sent { (now - sent) as u128 } else { 0 }),
                ),
                None => old(self).spec_rtt(),
            },
            final(self).spec_stream_id() == old(self).spec_stream_id(),
            final(self).spec_last_received() == old(self).spec_last_received(),
            final(self).spec_last_lost() == old(self).spec_last_lost(),
    {
        if let Some(sent_at) = self.last_report_sent.take() {
            let elapsed = if now >= sent_at {
                now - sent_at
            } else {
                0
            };
            let rtt_ms = ((elapsed / 1_000_000) % 0x1_0000) as u16;
            self.rtt_estimate_ms = Self::smooth(self.rtt_estimate_ms, rtt_ms);
        }
    }

    /// One step of the RTT moving average.
    pub fn smooth(estimate: u16, sample: u16) -> (r: u16)
        ensures
            r == smoothed_rtt(estimate, sample),
    {
        if estimate == 0 {
            sample
        } else {
            (estimate as u32 * 7 / 8 + sample as u32 / 8) as u16
        }
    }

    /// Get the current RTT estimate in milliseconds.
    pub fn rtt_estimate_ms(&self) -> (r: u16)
        ensures
            r == self.spec_rtt(),
    {
        self.rtt_estimate_ms
    }

    /// Get the stream ID this generator is tracking.
    pub fn stream_id(&self) -> (r: u8)
        ensures
            r == self.spec_stream_id(),
    {
        self.stream_id
    }
}

/// The smoothed RTT lies between the old estimate and the new sample: it
/// moves toward the sample and never overshoots it (up to the rounding of
/// the integer division).
pub proof fn law_rtt_smoothing_between(estimate: u16, sample: u16)
    requires
        estimate > 0,
    ensures
        smoothed_rtt(estimate, sample) <= if estimate >= sample { estimate } else { sample },
        smoothed_rtt(estimate, sample) + 1 >= if estimate <= sample { estimate } else { sample },
{
    let a = estimate as int * 7 / 8;
    let b = sample as int / 8;
    assert(a + b <= 65535);
}

} // verus!
