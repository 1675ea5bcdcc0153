//! Wire-level value types exchanged between peers.

use vstd::prelude::*;

verus! {

broadcast use vstd::array::group_array_axioms;

} // verus!

verus! {

/// A media packet carried in one unreliable datagram.
#[derive(Debug, Clone, PartialEq, Eq)]
pub struct MediaPacket {
    /// Stream identifier (0 = voice, 1 = camera, 2 = screen, 3 = app audio).
    pub stream_id: u8,
    /// Per-stream sequence number.
    pub sequence: u32,
    /// Media timestamp.
    pub timestamp: u32,
    /// Index of this fragment within its frame.
    pub fragment_index: u8,
    /// Number of fragments the frame was split into.
    pub fragment_count: u8,
    /// Whether the frame is a keyframe.
    pub is_keyframe: bool,
    /// Encoded media bytes.
    pub payload: Vec<u8>,
}

/// Mathematical view of a [`MediaPacket`].
pub struct MediaPacketView {
    pub stream_id: u8,
    pub sequence: u32,
    pub timestamp: u32,
    pub fragment_index: u8,
    pub fragment_count: u8,
    pub is_keyframe: bool,
    pub payload: Seq<u8>,
}

impl View for MediaPacket {
    type V = MediaPacketView;

    open spec fn view(&self) -> MediaPacketView {
        MediaPacketView {
            stream_id: self.stream_id,
            sequence: self.sequence,
            timestamp: self.timestamp,
            fragment_index: self.fragment_index,
            fragment_count: self.fragment_count,
            is_keyframe: self.is_keyframe,
            payload: self.payload@,
        }
    }
}

} // verus!

verus! {

/// Description of a codec offered or selected during negotiation.
#[derive(Debug, Clone, PartialEq, Eq)]
pub struct CodecInfo {
    /// Codec name, e.g. "opus" or "h264".
    pub name: String,
    /// Clock / sample rate in Hz.
    pub sample_rate: u32,
    /// Channel count (0 for video codecs).
    pub channels: u8,
}

/// Mathematical view of a [`CodecInfo`].
pub struct CodecView {
    pub name: Seq<char>,
    pub sample_rate: u32,
    pub channels: u8,
}

impl View for CodecInfo {
    type V = CodecView;

    open spec fn view(&self) -> CodecView {
        CodecView { name: self.name@, sample_rate: self.sample_rate, channels: self.channels }
    }
}

/// A peer's media capabilities.
#[derive(Debug, PartialEq)]
pub struct MediaOffer {
    pub audio_codecs: Vec<CodecInfo>,
    pub video_codecs: Vec<CodecInfo>,
    /// Maximum (width, height).
    pub max_resolution: (u32, u32),
    pub max_framerate: u32,
}

/// The parameters both peers settle on.
#[derive(Debug, PartialEq)]
pub struct MediaAnswer {
    pub selected_audio_codec: CodecInfo,
    pub selected_video_codec: CodecInfo,
    pub negotiated_resolution: (u32, u32),
    pub negotiated_framerate: u32,
}

/// Control messages exchanged on the reliable media control stream.
#[derive(Debug, PartialEq)]
pub enum MediaControl {
    /// Ask the sender of a stream for a keyframe.
    RequestKeyframe { stream_id: u8 },
    /// Reception statistics for a stream.
    ReceiverReport {
        stream_id: u8,
        packets_received: u32,
        packets_lost: u32,
        jitter: u32,
        rtt_estimate_ms: u16,
    },
    /// Request a change of encoding parameters.
    QualityChange { stream_id: u8, bitrate_bps: u32, resolution: (u32, u32), framerate: u32 },
}

} // verus!

verus! {

/// A peer's 32-byte public identity.
#[derive(Debug, Clone, Copy, Eq, Hash)]
pub struct EndpointId(pub [u8; 32]);

impl PartialEq for EndpointId {
    fn eq(&self, other: &Self) -> (r: bool) {
        let mut i: usize = 0;
        while i < 32
            invariant
                0 <= i <= 32,
                self.0@.len() == 32,
                other.0@.len() == 32,
                forall|k: int| 0 <= k < i ==> self.0@[k] == other.0@[k],
            decreases 32 - i,
        {
            if self.0[i] != other.0[i] {
                return false;
            }
            i = i + 1;
        }
        assert(self.0 =~= other.0);
        true
    }
}

impl vstd::std_specs::cmp::PartialEqSpecImpl for EndpointId {
    open spec fn obeys_eq_spec() -> bool {
        true
    }

    open spec fn eq_spec(&self, other: &Self) -> bool {
        self.0 == other.0
    }
}

/// Lower-case hexadecimal digit of a value below 16.
pub open spec fn hex_digit(v: u8) -> char {
    if v < 10 {
        (('0' as u8) + v) as char
    } else {
        (('a' as u8) + (v - 10)) as char
    }
}

/// Lower-case hexadecimal text of a byte string, two digits per byte.
pub open spec fn hex_lower(bytes: Seq<u8>) -> Seq<char> {
    Seq::new(
        bytes.len() * 2,
        |i: int|
            if i % 2 == 0 {
                hex_digit(bytes[i / 2] / 16)
            } else {
                hex_digit(bytes[i / 2] % 16)
            },
    )
}

/// Encodes bytes as lower-case hexadecimal with `data_encoding::HEXLOWER`,
/// whose documented output is two lower-case digits per byte, most
/// significant nibble first. `Encoding::encode` asserts (through
/// `encode_len`) that the input is at most `usize::MAX / 512` bytes long, so
/// longer inputs are excluded.
#[verifier::external_body]
pub(crate) fn hex_encode(bytes: &[u8]) -> (s: String)
    requires
        bytes@.len() <= usize::MAX / 512,
    ensures
        s@ == hex_lower(bytes@),
{
    data_encoding::HEXLOWER.encode(bytes)
}

impl EndpointId {
    /// Lower-case hexadecimal form of the identity.
    pub fn to_hex(&self) -> (s: String)
        ensures
            s@ == hex_lower(self.0@),
    {
        hex_encode(&self.0)
    }
}

/// `a` is greater than `b` in lexicographic byte order.
pub open spec fn bytes_greater(a: Seq<u8>, b: Seq<u8>) -> bool
    decreases a.len(),
{
    if a.len() == 0 || b.len() == 0 {
        a.len() > b.len()
    } else if a[0] != b[0] {
        a[0] > b[0]
    } else {
        bytes_greater(a.drop_first(), b.drop_first())
    }
}

/// Lexicographic comparison of two identities (as arrays compare).
pub fn id_greater(a: &EndpointId, b: &EndpointId) -> (r: bool)
    ensures
        r == bytes_greater(a.0@, b.0@),
{
    let mut i: usize = 0;
    assert(a.0@.skip(0) =~= a.0@);
    assert(b.0@.skip(0) =~= b.0@);
    while i < 32
        invariant
            0 <= i <= 32,
            a.0@.len() == 32,
            b.0@.len() == 32,
            bytes_greater(a.0@, b.0@) == bytes_greater(a.0@.skip(i as int), b.0@.skip(i as int)),
        decreases 32 - i,
    {
        assert(a.0@.skip(i as int)[0] == a.0@[i as int]);
        assert(b.0@.skip(i as int)[0] == b.0@[i as int]);
        assert(a.0@.skip(i as int).drop_first() =~= a.0@.skip(i + 1));
        assert(b.0@.skip(i as int).drop_first() =~= b.0@.skip(i + 1));
        if a.0[i] != b.0[i] {
            return a.0[i] > b.0[i];
        }
        i = i + 1;
    }
    assert(a.0@.skip(32).len() == 0);
    false
}

/// What a peer can send.
#[derive(Debug, Clone, Copy, PartialEq, Eq)]
pub struct MediaCapabilities {
    pub audio: bool,
    pub video: bool,
    pub screen_share: bool,
}

/// Messages broadcast on a channel's gossip topic.
#[derive(Debug, Clone, PartialEq, Eq)]
pub enum ChannelMessage {
    /// A peer announces itself.
    PeerAnnounce { endpoint_id: EndpointId, display_name: String, capabilities: MediaCapabilities },
    /// A peer leaves the channel.
    PeerLeave { endpoint_id: EndpointId },
    /// A peer is still present.
    Heartbeat { endpoint_id: EndpointId, timestamp: u64 },
    /// A peer's media state changed.
    MediaStateUpdate {
        endpoint_id: EndpointId,
        audio_muted: bool,
        video_enabled: bool,
        screen_sharing: bool,
        app_audio_sharing: bool,
    },
    /// A peer offers a file.
    FileAnnounce { endpoint_id: EndpointId, file_hash: [u8; 32], file_name: String, file_size: u64 },
    /// A peer publishes a fresh join ticket.
    TicketRefresh { ticket: String },
}

/// Metadata of a shared file.
#[derive(Debug, Clone, PartialEq, Eq)]
pub struct FileManifest {
    pub file_hash: [u8; 32],
    pub file_name: String,
    pub file_size: u64,
    pub chunk_size: u32,
    pub chunk_count: u32,
}

/// One chunk of a file.
#[derive(Debug, Clone, PartialEq, Eq)]
pub struct FileChunk {
    pub file_hash: [u8; 32],
    pub chunk_index: u32,
    pub data: Vec<u8>,
}

/// Which chunks of a file a peer holds.
#[derive(Debug, Clone, PartialEq, Eq)]
pub struct ChunkBitfield {
    present: Vec<bool>,
}

impl ChunkBitfield {
    /// Chunk presence, by index.
    pub closed spec fn bits(&self) -> Seq<bool> {
        self.present@
    }

    /// Whether chunk `i` is held.
    pub open spec fn has(&self, i: u32) -> bool {
        (i as int) < self.bits().len() && self.bits()[i as int]
    }

    /// A bitfield for `count` chunks, none held.
    pub fn new(count: u32) -> (b: Self)
        ensures
            b.bits() == Seq::new(count as nat, |i: int| false),
    {
        let mut present: Vec<bool> = Vec::new();
        let mut i: u32 = 0;
        while i < count
            invariant
                i <= count,
                present@ =~= Seq::new(i as nat, |k: int| false),
            decreases count - i,
        {
            present.push(false);
            i = i + 1;
        }
        ChunkBitfield { present }
    }

    /// Build a bitfield from per-chunk presence flags.
    pub fn from_flags(present: Vec<bool>) -> (b: Self)
        ensures
            b.bits() == present@,
    {
        ChunkBitfield { present }
    }

    /// Whether chunk `i` is held.
    pub fn has_chunk(&self, i: u32) -> (r: bool)
        ensures
            r == self.has(i),
    {
        (i as usize) < self.present.len() && self.present[i as usize]
    }

    /// Mark chunk `i` as held (indices past the end are ignored).
    pub fn set_chunk(&mut self, i: u32)
        ensures
            final(self).bits() == if (i as int) < old(self).bits().len() {
                old(self).bits().update(i as int, true)
            } else {
                old(self).bits()
            },
    {
        if (i as usize) < self.present.len() {
            self.present.set(i as usize, true);
        }
    }

    /// Number of chunks the bitfield describes.
    pub fn len(&self) -> (n: usize)
        ensures
            n == self.bits().len(),
    {
        self.present.len()
    }
}

/// Requests a peer answers about a shared file.
#[derive(Debug, Clone, PartialEq, Eq)]
pub enum FileRequest {
    /// Which chunks of the file the peer holds.
    GetBitfield { file_hash: [u8; 32] },
    /// The data of these chunks.
    GetChunks { file_hash: [u8; 32], chunk_indices: Vec<u32> },
    /// The file's manifest.
    GetManifest { file_hash: [u8; 32] },
}

} // verus!
