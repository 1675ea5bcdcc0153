//! The decisions of the voice, camera and screen-share pipelines.
//!
//! Each pipeline runs a send loop (capture, encode, packetize, send) and a
//! receive loop (receive, reassemble, decode, deliver). The codecs and the
//! datagram I/O run in the caller; the state machines here stamp and
//! packetize what was encoded, and filter and reassemble what was received.

use vstd::prelude::*;

use crate::fragmentation::{
    fragment_count_spec, fragment_spec, frame_view, push_step, seq_after, Fragmenter, FrameView, PendingView,
    ReassembledFrame, Reassembler,
};
use crate::media_transport::add_wrapping;
use crate::media::{FRAME_DURATION_MS, MAX_FRAGMENT_PAYLOAD, SAMPLES_PER_FRAME, SAMPLE_RATE, VIDEO_CLOCK_RATE, VideoCommand};
use crate::protocol::{ChannelMessage, EndpointId, MediaPacket, MediaPacketView};

verus! {

/// The NAL unit type carried in the low five bits of a NAL header byte.
pub open spec fn nal_type(header: u8) -> u8 {
    header & 0x1Fu8
}

/// An Annex B start code begins at `i` and the NAL unit after it is an IDR
/// slice (type 5). The start code is `00 00 01` or `00 00 00 01`.
pub open spec fn idr_start_at(d: Seq<u8>, i: int) -> bool {
    &&& 0 <= i
    &&& i + 3 < d.len()
    &&& d[i] == 0u8
    &&& d[i + 1] == 0u8
    &&& {
        ||| d[i + 2] == 1u8 && nal_type(d[i + 3]) == 5u8
        ||| d[i + 2] == 0u8 && d[i + 3] == 1u8 && i + 4 < d.len() && nal_type(d[i + 4]) == 5u8
    }
}

/// The encoded H.264 data holds an IDR (keyframe) NAL unit.
pub open spec fn has_idr(d: Seq<u8>) -> bool {
    exists|i: int| idr_start_at(d, i)
}

/// Check if encoded H.264 data contains an IDR (keyframe) NAL unit.
pub fn contains_idr_nal(data: &[u8]) -> (r: bool)
    ensures
        r == has_idr(data@),
{
    let mut i: usize = 0;
    while i < data.len() && data.len() - i > 3
        invariant
            i <= data.len(),
            forall|j: int| 0 <= j < i ==> !idr_start_at(data@, j),
        decreases data.len() - i,
    {
        if data[i] == 0 && data[i + 1] == 0 {
            if data[i + 2] == 1 {
                if data[i + 3] & 0x1F == 5 {
                    assert(idr_start_at(data@, i as int));
                    return true;
                }
            } else if data[i + 2] == 0 && data[i + 3] == 1 {
                if i + 4 < data.len() && data[i + 4] & 0x1F == 5 {
                    assert(idr_start_at(data@, i as int));
                    return true;
                }
            }
        }
        i = i + 1;
    }
    assert forall|j: int| !idr_start_at(data@, j) by {
        if 0 <= j < i {
        }
    }
    false
}

/// Timestamp advance per video frame on the 90 kHz clock.
pub fn timestamp_increment(framerate: u32) -> (inc: u32)
    requires
        framerate > 0,
    ensures
        inc == VIDEO_CLOCK_RATE / framerate,
{
    VIDEO_CLOCK_RATE / framerate
}

/// One audio frame holds 20 ms of 48 kHz samples.
pub proof fn law_samples_per_frame_matches_rate()
    ensures
        SAMPLES_PER_FRAME == SAMPLE_RATE * FRAME_DURATION_MS / 1000,
{
}

/// `a + b` wrapping at 2^32.
pub open spec fn wrap_add(a: u32, b: u32) -> u32 {
    vstd::wrapping::u32_specs::wrapping_add(a, b)
}

/// Counters of a video send loop. Each wraps at 2^64.
#[derive(Debug, Clone, Copy, PartialEq, Eq)]
pub struct VideoSendCounters {
    /// Frames that arrived from the capture side, sent or not.
    pub frames_captured: u64,
    /// Frames the encoder produced.
    pub frames_encoded: u64,
    /// Fragments handed to the connection.
    pub fragments_sent: u64,
    /// Keyframes requested of the encoder.
    pub keyframes_forced: u64,
}

/// The send side of a video stream: stamps every captured frame with the
/// 90 kHz timestamp of its slot, fragments the encoded frames and counts
/// what it did.
pub struct VideoSendState {
    stream_id: u8,
    timestamp: u32,
    increment: u32,
    fragmenter: Fragmenter,
    counters: VideoSendCounters,
}

impl VideoSendState {
    pub closed spec fn stream_id(&self) -> u8 {
        self.stream_id
    }

    /// Timestamp the next frame will carry.
    pub closed spec fn timestamp(&self) -> u32 {
        self.timestamp
    }

    /// Timestamp advance per frame.
    pub closed spec fn increment(&self) -> u32 {
        self.increment
    }

    /// Sequence number of the next fragment.
    pub closed spec fn next_sequence(&self) -> u32 {
        self.fragmenter.next_sequence()
    }

    /// What the loop has counted so far.
    pub closed spec fn counts(&self) -> VideoSendCounters {
        self.counters
    }

    /// The counters.
    pub fn counters(&self) -> (c: VideoSendCounters)
        ensures
            c == self.counts(),
    {
        self.counters
    }

    /// A sender for `stream_id` at `framerate` frames per second, starting at
    /// timestamp 0.
    pub fn new(stream_id: u8, framerate: u32) -> (s: Self)
        requires
            framerate > 0,
        ensures
            s.stream_id() == stream_id,
            s.timestamp() == 0,
            s.increment() == VIDEO_CLOCK_RATE / framerate,
            s.next_sequence() == 0,
            s.counts() == (VideoSendCounters { frames_captured: 0, frames_encoded: 0, fragments_sent: 0, keyframes_forced: 0 }),
    {
        VideoSendState {
            stream_id,
            timestamp: 0,
            increment: timestamp_increment(framerate),
            fragmenter: Fragmenter::new(),
            counters: VideoSendCounters { frames_captured: 0, frames_encoded: 0, fragments_sent: 0, keyframes_forced: 0 },
        }
    }

    /// A captured frame is not sent (camera or share off, or the encoder
    /// failed): it is counted as captured, and its time slot passes.
    pub fn skip_frame(&mut self)
        ensures
            final(self).timestamp() == wrap_add(old(self).timestamp(), old(self).increment()),
            final(self).stream_id() == old(self).stream_id(),
            final(self).increment() == old(self).increment(),
            final(self).next_sequence() == old(self).next_sequence(),
            final(self).counts() == (VideoSendCounters {
                frames_captured: add_wrapping(old(self).counts().frames_captured, 1),
                ..old(self).counts()
            }),
    {
        self.timestamp = self.timestamp.wrapping_add(self.increment);
        self.counters.frames_captured = self.counters.frames_captured.wrapping_add(1);
    }

    /// An encoded frame: its fragments, stamped with the current timestamp and
    /// flagged as a keyframe when the data holds an IDR unit; then the time
    /// slot passes.
    pub fn on_encoded(&mut self, encoded: &[u8]) -> (packets: Vec<MediaPacket>)
        ensures
            packets.len() == fragment_count_spec(encoded@.len(), MAX_FRAGMENT_PAYLOAD as nat),
            forall|i: int|
                0 <= i < packets.len() ==> #[trigger] packets[i]@ == fragment_spec(
                    old(self).next_sequence(),
                    old(self).stream_id(),
                    old(self).timestamp(),
                    has_idr(encoded@),
                    encoded@,
                    MAX_FRAGMENT_PAYLOAD as nat,
                    i,
                ),
            final(self).next_sequence() == seq_after(old(self).next_sequence(), packets.len() as int),
            final(self).timestamp() == wrap_add(old(self).timestamp(), old(self).increment()),
            final(self).stream_id() == old(self).stream_id(),
            final(self).increment() == old(self).increment(),
            final(self).counts() == (VideoSendCounters {
                frames_captured: add_wrapping(old(self).counts().frames_captured, 1),
                frames_encoded: add_wrapping(old(self).counts().frames_encoded, 1),
                ..old(self).counts()
            }),
    {
        let is_keyframe = contains_idr_nal(encoded);
        let packets = self.fragmenter.fragment(self.stream_id, self.timestamp, is_keyframe, encoded, MAX_FRAGMENT_PAYLOAD);
        self.timestamp = self.timestamp.wrapping_add(self.increment);
        self.counters.frames_captured = self.counters.frames_captured.wrapping_add(1);
        self.counters.frames_encoded = self.counters.frames_encoded.wrapping_add(1);
        packets
    }

    /// A command reached the loop. A keyframe request is counted; the
    /// encoder itself, which carries out both commands, is the caller's.
    /// Nothing else changes.
    pub fn on_command(&mut self, command: VideoCommand)
        ensures
            final(self).counts() == (match command {
                VideoCommand::ForceKeyframe => VideoSendCounters {
                    keyframes_forced: add_wrapping(old(self).counts().keyframes_forced, 1),
                    ..old(self).counts()
                },
                VideoCommand::SetBitrate(_) => old(self).counts(),
            }),
            final(self).timestamp() == old(self).timestamp(),
            final(self).stream_id() == old(self).stream_id(),
            final(self).increment() == old(self).increment(),
            final(self).next_sequence() == old(self).next_sequence(),
    {
        match command {
            VideoCommand::ForceKeyframe => {
                self.counters.keyframes_forced = self.counters.keyframes_forced.wrapping_add(1);
            },
            VideoCommand::SetBitrate(_) => {},
        }
    }

    /// One fragment was handed to the connection.
    pub fn on_fragment_sent(&mut self)
        ensures
            final(self).counts() == (VideoSendCounters {
                fragments_sent: add_wrapping(old(self).counts().fragments_sent, 1),
                ..old(self).counts()
            }),
            final(self).timestamp() == old(self).timestamp(),
            final(self).stream_id() == old(self).stream_id(),
            final(self).increment() == old(self).increment(),
            final(self).next_sequence() == old(self).next_sequence(),
    {
        self.counters.fragments_sent = self.counters.fragments_sent.wrapping_add(1);
    }
}

/// Counters of an audio send loop. Each wraps at 2^64.
#[derive(Debug, Clone, Copy, PartialEq, Eq)]
pub struct AudioSendCounters {
    /// Frames the encoder produced.
    pub frames_encoded: u64,
    /// Packets handed to the connection.
    pub packets_sent: u64,
}

/// The send side of an unfragmented audio stream: one packet per encoded
/// frame, stamped with the sample clock, and counts of what it did.
pub struct AudioSendState {
    stream_id: u8,
    timestamp: u32,
    counters: AudioSendCounters,
}

/// The packet carrying one encoded audio frame.
pub open spec fn audio_packet(stream_id: u8, timestamp: u32, payload: Seq<u8>) -> MediaPacketView {
    MediaPacketView {
        stream_id,
        sequence: 0,
        timestamp,
        fragment_index: 0,
        fragment_count: 1,
        is_keyframe: false,
        payload,
    }
}

impl AudioSendState {
    pub closed spec fn stream_id(&self) -> u8 {
        self.stream_id
    }

    /// Timestamp the next frame will carry.
    pub closed spec fn timestamp(&self) -> u32 {
        self.timestamp
    }

    /// What the loop has counted so far.
    pub closed spec fn counts(&self) -> AudioSendCounters {
        self.counters
    }

    /// The counters.
    pub fn counters(&self) -> (c: AudioSendCounters)
        ensures
            c == self.counts(),
    {
        self.counters
    }

    /// A sender for `stream_id` starting at timestamp 0.
    pub fn new(stream_id: u8) -> (s: Self)
        ensures
            s.stream_id() == stream_id,
            s.timestamp() == 0,
            s.counts() == (AudioSendCounters { frames_encoded: 0, packets_sent: 0 }),
    {
        AudioSendState { stream_id, timestamp: 0, counters: AudioSendCounters { frames_encoded: 0, packets_sent: 0 } }
    }

    /// A captured frame is not sent (muted, or the encoder failed): its
    /// samples' time passes; nothing is counted.
    pub fn skip_frame(&mut self)
        ensures
            final(self).timestamp() == wrap_add(old(self).timestamp(), SAMPLES_PER_FRAME as u32),
            final(self).stream_id() == old(self).stream_id(),
            final(self).counts() == old(self).counts(),
    {
        self.timestamp = self.timestamp.wrapping_add(960);
    }

    /// The packet for an encoded frame (its sequence number is assigned at
    /// sending), counting the frame as encoded; then the frame's time passes.
    pub fn on_encoded(&mut self, payload: Vec<u8>) -> (packet: MediaPacket)
        ensures
            packet@ == audio_packet(old(self).stream_id(), old(self).timestamp(), payload@),
            final(self).timestamp() == wrap_add(old(self).timestamp(), SAMPLES_PER_FRAME as u32),
            final(self).stream_id() == old(self).stream_id(),
            final(self).counts() == (AudioSendCounters {
                frames_encoded: add_wrapping(old(self).counts().frames_encoded, 1),
                ..old(self).counts()
            }),
    {
        let packet = MediaPacket {
            stream_id: self.stream_id,
            sequence: 0,
            timestamp: self.timestamp,
            fragment_index: 0,
            fragment_count: 1,
            is_keyframe: false,
            payload,
        };
        self.timestamp = self.timestamp.wrapping_add(960);
        self.counters.frames_encoded = self.counters.frames_encoded.wrapping_add(1);
        packet
    }

    /// One packet was handed to the connection.
    pub fn on_packet_sent(&mut self)
        ensures
            final(self).counts() == (AudioSendCounters {
                packets_sent: add_wrapping(old(self).counts().packets_sent, 1),
                ..old(self).counts()
            }),
            final(self).timestamp() == old(self).timestamp(),
            final(self).stream_id() == old(self).stream_id(),
    {
        self.counters.packets_sent = self.counters.packets_sent.wrapping_add(1);
    }
}

/// What the receive side did with one datagram.
#[derive(Debug)]
pub enum ReceiveStep {
    /// The packet belongs to another stream.
    Ignored,
    /// The packet was taken; its frame is not complete yet.
    Pending,
    /// The packet completed a frame.
    Frame(ReassembledFrame),
}

/// The frame a step completed, if any.
pub open spec fn step_frame(s: ReceiveStep) -> Option<FrameView> {
    match s {
        ReceiveStep::Frame(f) => frame_view(Some(f)),
        _ => None,
    }
}

/// The receive side of a fragmented video stream.
pub struct FrameReceiver {
    stream_id: u8,
    reassembler: Reassembler,
}

impl FrameReceiver {
    pub closed spec fn stream_id(&self) -> u8 {
        self.stream_id
    }

    /// Frames pending reassembly.
    pub closed spec fn pending(&self) -> Seq<PendingView> {
        self.reassembler.pending()
    }

    /// Reassembly timeout in nanoseconds.
    pub closed spec fn timeout(&self) -> u128 {
        self.reassembler.timeout()
    }

    pub closed spec fn wf(&self) -> bool {
        self.reassembler.wf()
    }

    /// A receiver for `stream_id` with the default reassembly timeout.
    pub fn new(stream_id: u8) -> (r: Self)
        ensures
            r.wf(),
            r.stream_id() == stream_id,
            r.pending() == Seq::<PendingView>::empty(),
            r.timeout() == crate::fragmentation::DEFAULT_REASSEMBLY_TIMEOUT_NANOS,
    {
        FrameReceiver { stream_id, reassembler: Reassembler::new() }
    }

    /// Take a datagram at time `now` (nanoseconds of the reassembler's
    /// clock): packets of other streams are ignored; the others go to the
    /// reassembler.
    pub fn on_packet_at(&mut self, packet: MediaPacket, now: u128) -> (r: ReceiveStep)
        requires
            old(self).wf(),
        ensures
            final(self).wf(),
            final(self).stream_id() == old(self).stream_id(),
            final(self).timeout() == old(self).timeout(),
            packet.stream_id != old(self).stream_id() ==> r is Ignored && final(self).pending() == old(self).pending(),
            packet.stream_id == old(self).stream_id() ==> !(r is Ignored) && (final(self).pending(), step_frame(r))
                == push_step(old(self).pending(), old(self).timeout(), packet@, now),
    {
        if packet.stream_id != self.stream_id {
            return ReceiveStep::Ignored;
        }
        match self.reassembler.push_at(packet, now) {
            Some(frame) => ReceiveStep::Frame(frame),
            None => ReceiveStep::Pending,
        }
    }

    /// Take a datagram, reading the time from the tokio clock.
    pub fn on_packet(&mut self, packet: MediaPacket) -> (r: ReceiveStep)
        requires
            old(self).wf(),
        ensures
            final(self).wf(),
            final(self).stream_id() == old(self).stream_id(),
            final(self).timeout() == old(self).timeout(),
            packet.stream_id != old(self).stream_id() ==> r is Ignored && final(self).pending() == old(self).pending(),
            packet.stream_id == old(self).stream_id() ==> !(r is Ignored) && exists|now: u128|
                (final(self).pending(), step_frame(r)) == #[trigger] push_step(
                    old(self).pending(),
                    old(self).timeout(),
                    packet@,
                    now,
                ),
    {
        if packet.stream_id != self.stream_id {
            return ReceiveStep::Ignored;
        }
        let ghost before = self.pending();
        let ghost pv = packet@;
        let r = self.reassembler.push(packet);
        let ghost fv = frame_view(r);
        let step = match r {
            Some(frame) => ReceiveStep::Frame(frame),
            None => ReceiveStep::Pending,
        };
        proof {
            let now = choose|now: u128| (self.pending(), fv) == #[trigger] push_step(before, self.timeout(), pv, now);
            assert((self.pending(), step_frame(step)) == push_step(before, self.timeout(), pv, now));
        }
        step
    }
}

/// The media-state announcement of a screen share that starts
/// (`screen_sharing`) or stops.
pub fn share_state_message(endpoint_id: EndpointId, screen_sharing: bool, include_app_audio: bool) -> (m: ChannelMessage)
    ensures
        m == (ChannelMessage::MediaStateUpdate {
            endpoint_id,
            audio_muted: false,
            video_enabled: true,
            screen_sharing,
            app_audio_sharing: screen_sharing && include_app_audio,
        }),
{
    ChannelMessage::MediaStateUpdate {
        endpoint_id,
        audio_muted: false,
        video_enabled: true,
        screen_sharing,
        app_audio_sharing: screen_sharing && include_app_audio,
    }
}

} // verus!
