//! File sharing: manifests, chunking, integrity checks and the swarm download
//! plan.
//!
//! Files are split into chunks of [`CHUNK_SIZE`] bytes and identified by their
//! SHA-256 hash. Reading and writing files, and the streams to peers, belong
//! to the caller; it hands the bytes here and acts on what comes back.

use sha2::Digest;
use vstd::prelude::*;

use crate::protocol::{ChannelMessage, ChunkBitfield, EndpointId, FileChunk, FileManifest};

verus! {

/// Size of one file chunk: 256 KiB.
pub const CHUNK_SIZE: u32 = 262_144;

/// The SHA-256 digest of `data`.
pub uninterp spec fn sha256_digest(data: Seq<u8>) -> Seq<u8>;

/// SHA-256 of `data`, computed by the `sha2` crate (`Sha256::digest`, which
/// feeds `data` to a fresh hasher and finalizes it). The contract names the
/// result: the digest of exactly these bytes.
#[verifier::external_body]
fn sha256(data: &[u8]) -> (h: [u8; 32])
    ensures
        h@ == sha256_digest(data@),
{
    let out = sha2::Sha256::digest(data);
    let mut h = [0u8; 32];
    h.copy_from_slice(&out);
    h
}

/// Whether two hashes are equal, byte for byte.
pub fn hash_eq(a: &[u8; 32], b: &[u8; 32]) -> (r: bool)
    ensures
        r == (a@ == b@),
{
    let mut i: usize = 0;
    while i < 32
        invariant
            i <= 32,
            a@.len() == 32,
            b@.len() == 32,
            forall|j: int| 0 <= j < i ==> a@[j] == b@[j],
        decreases 32 - i,
    {
        if a[i] != b[i] {
            return false;
        }
        i = i + 1;
    }
    assert(a@ =~= b@);
    true
}

/// Number of chunks of a file of `size` bytes (the last may be short).
pub open spec fn chunk_count_spec(size: u64) -> u32 {
    ((size + CHUNK_SIZE - 1) / (CHUNK_SIZE as int)) as u32
}

/// Number of chunks of a file of `file_size` bytes.
pub fn chunk_count(file_size: u64) -> (n: u32)
    ensures
        n == chunk_count_spec(file_size),
{
    let q = file_size / 262_144;
    let n: u64 = if file_size % 262_144 == 0 { q } else { q + 1 };
    assert(n == (file_size + CHUNK_SIZE - 1) / (CHUNK_SIZE as int));
    n as u32
}

/// The bytes of chunk `i` of `data`: from `i * CHUNK_SIZE` up to the next
/// chunk boundary or the end.
pub open spec fn chunk_bytes(data: Seq<u8>, i: int) -> Seq<u8> {
    let start = i * CHUNK_SIZE;
    let end = if start + CHUNK_SIZE <= data.len() { start + CHUNK_SIZE } else { data.len() as int };
    data.subrange(start, end)
}

/// The bytes of chunk `index`, or `None` past the end of the data.
fn chunk_slice(data: &[u8], index: u32) -> (r: Option<Vec<u8>>)
    ensures
        (index as int) * CHUNK_SIZE >= data@.len() ==> r is None,
        (index as int) * CHUNK_SIZE < data@.len() ==> (r matches Some(v) && v@ == chunk_bytes(data@, index as int)),
{
    let start: u64 = index as u64 * 262_144;
    if start >= data.len() as u64 {
        return None;
    }
    let s = start as usize;
    let end: usize = if data.len() - s >= 262_144 { s + 262_144 } else { data.len() };
    let v = vstd::slice::slice_to_vec(vstd::slice::slice_subrange(data, s, end));
    assert(v@ == data@.subrange(s as int, end as int));
    Some(v)
}

/// The manifest of a file named `file_name` holding `data`.
pub fn build_manifest(file_name: String, data: &[u8]) -> (m: FileManifest)
    ensures
        m.file_hash@ == sha256_digest(data@),
        m.file_name@ == file_name@,
        m.file_size == data@.len(),
        m.chunk_size == CHUNK_SIZE,
        m.chunk_count == chunk_count_spec(data@.len() as u64),
{
    let file_hash = sha256(data);
    let file_size = data.len() as u64;
    FileManifest { file_hash, file_name, file_size, chunk_size: CHUNK_SIZE, chunk_count: chunk_count(file_size) }
}

/// Every chunk of `data`, in order, tagged with `file_hash`.
pub fn file_chunks(file_hash: [u8; 32], data: &[u8]) -> (chunks: Vec<FileChunk>)
    requires
        data@.len() <= u32::MAX as int * CHUNK_SIZE,
    ensures
        chunks.len() == chunk_count_spec(data@.len() as u64),
        forall|i: int|
            0 <= i < chunks.len() ==> (#[trigger] chunks[i]).chunk_index == i && chunks[i].file_hash == file_hash
                && chunks[i].data@ == chunk_bytes(data@, i),
{
    let count = chunk_count(data.len() as u64);
    let mut chunks: Vec<FileChunk> = Vec::new();
    let mut i: u32 = 0;
    while i < count
        invariant
            count == chunk_count_spec(data@.len() as u64),
            data@.len() <= u32::MAX as int * CHUNK_SIZE,
            i <= count,
            chunks.len() == i,
            forall|k: int|
                0 <= k < i ==> (#[trigger] chunks[k]).chunk_index == k && chunks[k].file_hash == file_hash
                    && chunks[k].data@ == chunk_bytes(data@, k),
        decreases count - i,
    {
        assert((i as int) * CHUNK_SIZE < data@.len()) by (nonlinear_arith)
            requires
                i < count,
                count == ((data@.len() + CHUNK_SIZE - 1) / (CHUNK_SIZE as int)) as u32,
                data@.len() <= u32::MAX as int * CHUNK_SIZE,
                CHUNK_SIZE == 262_144,
        ;
        let data_i = chunk_slice(data, i);
        let bytes = match data_i {
            Some(v) => v,
            None => Vec::new(),
        };
        chunks.push(FileChunk { file_hash, chunk_index: i, data: bytes });
        i = i + 1;
    }
    chunks
}

/// Why a received file is refused.
#[derive(Debug, Clone, Copy, PartialEq, Eq)]
pub enum TransferError {
    /// A chunk belongs to another file.
    ChunkHashMismatch,
    /// The received bytes do not hash to the manifest's hash.
    ShaMismatch { expected: [u8; 32], computed: [u8; 32] },
}

/// A file being received chunk by chunk: checks each chunk against the
/// manifest and, at the end, the whole content against its hash.
pub struct FileAssembly {
    manifest: FileManifest,
    received: Vec<u8>,
}

impl FileAssembly {
    pub closed spec fn manifest(&self) -> FileManifest {
        self.manifest
    }

    /// The bytes received so far, in arrival order.
    pub closed spec fn received(&self) -> Seq<u8> {
        self.received@
    }

    /// Start receiving the file `manifest` describes.
    pub fn new(manifest: FileManifest) -> (a: Self)
        ensures
            a.manifest() == manifest,
            a.received() == Seq::<u8>::empty(),
    {
        FileAssembly { manifest, received: Vec::new() }
    }

    /// Accept a chunk of this file and return the offset its data belongs
    /// at; a chunk of another file is refused and nothing changes.
    pub fn accept_chunk(&mut self, chunk: &FileChunk) -> (r: Result<u64, TransferError>)
        ensures
            final(self).manifest() == old(self).manifest(),
            chunk.file_hash@ != old(self).manifest().file_hash@ ==> r == Err::<u64, TransferError>(
                TransferError::ChunkHashMismatch,
            ) && final(self).received() == old(self).received(),
            chunk.file_hash@ == old(self).manifest().file_hash@ ==> r == Ok::<u64, TransferError>(
                (chunk.chunk_index * old(self).manifest().chunk_size) as u64,
            ) && final(self).received() == old(self).received() + chunk.data@,
    {
        if !hash_eq(&chunk.file_hash, &self.manifest.file_hash) {
            return Err(TransferError::ChunkHashMismatch);
        }
        let idx = chunk.chunk_index as u64;
        let size = self.manifest.chunk_size as u64;
        assert(idx * size <= u64::MAX) by (nonlinear_arith)
            requires
                idx <= u32::MAX,
                size <= u32::MAX,
        ;
        let offset = idx * size;
        let mut k: usize = 0;
        let ghost before = self.received@;
        while k < chunk.data.len()
            invariant
                k <= chunk.data@.len(),
                self.received@ == before + chunk.data@.subrange(0, k as int),
                self.manifest == old(self).manifest,
            decreases chunk.data@.len() - k,
        {
            self.received.push(chunk.data[k]);
            assert(chunk.data@.subrange(0, k + 1) =~= chunk.data@.subrange(0, k as int).push(chunk.data@[k as int]));
            k = k + 1;
        }
        assert(chunk.data@.subrange(0, k as int) =~= chunk.data@);
        Ok(offset)
    }

    /// The whole file has arrived: it is accepted when the received bytes
    /// hash to the manifest's hash.
    pub fn finish(&self) -> (r: Result<(), TransferError>)
        ensures
            sha256_digest(self.received()) == self.manifest().file_hash@ ==> r == Ok::<(), TransferError>(()),
            sha256_digest(self.received()) != self.manifest().file_hash@ ==> (r matches Err(
                TransferError::ShaMismatch { expected, computed },
            ) && expected == self.manifest().file_hash && computed@ == sha256_digest(self.received())),
    {
        let computed = sha256(self.received.as_slice());
        if hash_eq(&computed, &self.manifest.file_hash) {
            Ok(())
        } else {
            Err(TransferError::ShaMismatch { expected: self.manifest.file_hash, computed })
        }
    }
}

/// Whether `data` hashes to `file_hash`.
pub fn verify_file_hash(data: &[u8], file_hash: &[u8; 32]) -> (r: bool)
    ensures
        r == (sha256_digest(data@) == file_hash@),
{
    let computed = sha256(data);
    hash_eq(&computed, file_hash)
}

/// `count` and `chunks` answer a request of `indices` from a complete file
/// holding `data`: the count is the number of requested indices, taken as a
/// `u32` (so modulo 2^32), and the chunks are the requested ones that lie
/// within the file, in request order.
pub open spec fn serves(file_hash: [u8; 32], data: Seq<u8>, indices: Seq<u32>, count: u32, chunks: Seq<FileChunk>) -> bool {
    let served = indices.filter(|i: u32| (i as int) * CHUNK_SIZE < data.len());
    &&& count == indices.len() as u32
    &&& chunks.len() == served.len()
    &&& forall|k: int|
        0 <= k < served.len() ==> (#[trigger] chunks[k]).chunk_index == served[k] && chunks[k].file_hash == file_hash
            && chunks[k].data@ == chunk_bytes(data, served[k] as int)
}

/// Answer a request for the chunks `indices` of a file: a peer whose copy is
/// not complete refuses with a count of zero and no chunks; a complete copy
/// holding `data` is served as [`serve_chunks`] does.
pub fn answer_chunk_request(file_hash: [u8; 32], complete: bool, data: &[u8], indices: &[u32]) -> (r: (u32, Vec<FileChunk>))
    ensures
        !complete ==> r.0 == 0 && r.1@.len() == 0,
        complete ==> serves(file_hash, data@, indices@, r.0, r.1@),
{
    if !complete {
        return (0, Vec::new());
    }
    serve_chunks(file_hash, data, indices)
}

/// The chunks a peer serves for a request of `indices` from a complete file
/// holding `data`: the count announced first (the number of requested
/// indices, as a `u32`), then
/// each requested chunk that lies within the file, in request order.
pub fn serve_chunks(file_hash: [u8; 32], data: &[u8], indices: &[u32]) -> (r: (u32, Vec<FileChunk>))
    ensures
        serves(file_hash, data@, indices@, r.0, r.1@),
{
    let ghost pred = |i: u32| (i as int) * CHUNK_SIZE < data@.len();
    let mut out: Vec<FileChunk> = Vec::new();
    let mut j: usize = 0;
    while j < indices.len()
        invariant
            j <= indices@.len(),
            pred == (|i: u32| (i as int) * CHUNK_SIZE < data@.len()),
            out.len() == indices@.take(j as int).filter(pred).len(),
            forall|k: int|
                0 <= k < out.len() ==> (#[trigger] out[k]).chunk_index == indices@.take(j as int).filter(pred)[k]
                    && out[k].file_hash == file_hash && out[k].data@ == chunk_bytes(
                    data@,
                    indices@.take(j as int).filter(pred)[k] as int,
                ),
        decreases indices@.len() - j,
    {
        let idx = indices[j];
        proof {
            assert(indices@.take(j + 1) =~= indices@.take(j as int).push(idx));
            indices@.take(j as int).lemma_filter_push(idx, pred);
        }
        match chunk_slice(data, idx) {
            Some(bytes) => {
                out.push(FileChunk { file_hash, chunk_index: idx, data: bytes });
            },
            None => {},
        }
        j = j + 1;
    }
    assert(indices@.take(j as int) =~= indices@);
    #[verifier::truncate]
    let count = indices.len() as u32;
    (count, out)
}

/// Counters of a point-to-point file transfer. Each wraps at 2^64.
#[derive(Debug, Clone, Copy, PartialEq, Eq)]
pub struct TransferMetrics {
    pub bytes_transferred: u64,
    pub chunks_transferred: u64,
}

impl TransferMetrics {
    /// Both counters at zero.
    pub fn new() -> (m: Self)
        ensures
            m == (TransferMetrics { bytes_transferred: 0, chunks_transferred: 0 }),
    {
        TransferMetrics { bytes_transferred: 0, chunks_transferred: 0 }
    }

    /// Count one chunk of `bytes` bytes.
    pub fn record_chunk(&mut self, bytes: u64)
        ensures
            final(self).bytes_transferred == crate::media_transport::add_wrapping(old(self).bytes_transferred, bytes),
            final(self).chunks_transferred == crate::media_transport::add_wrapping(old(self).chunks_transferred, 1),
    {
        self.bytes_transferred = self.bytes_transferred.wrapping_add(bytes);
        self.chunks_transferred = self.chunks_transferred.wrapping_add(1);
    }
}

impl TransferMetrics {
    pub open spec fn zero() -> TransferMetrics {
        TransferMetrics { bytes_transferred: 0, chunks_transferred: 0 }
    }
}

/// Sends whole files over a stream; keeps transfer counters.
pub struct FileSender {
    metrics: TransferMetrics,
}

impl FileSender {
    pub closed spec fn counters(&self) -> TransferMetrics {
        self.metrics
    }

    /// A sender with zero counters.
    pub fn new() -> (s: Self)
        ensures
            s.counters() == TransferMetrics::zero(),
    {
        FileSender { metrics: TransferMetrics::new() }
    }

    /// The transfer counters.
    pub fn metrics(&self) -> (m: &TransferMetrics)
        ensures
            *m == self.counters(),
    {
        &self.metrics
    }

    /// Count a chunk sent.
    pub fn record_chunk(&mut self, bytes: u64)
        ensures
            final(self).counters().bytes_transferred == crate::media_transport::add_wrapping(
                old(self).counters().bytes_transferred,
                bytes,
            ),
            final(self).counters().chunks_transferred == crate::media_transport::add_wrapping(
                old(self).counters().chunks_transferred,
                1,
            ),
    {
        self.metrics.record_chunk(bytes);
    }
}

/// Receives whole files from a stream; keeps transfer counters.
pub struct FileReceiver {
    metrics: TransferMetrics,
}

impl FileReceiver {
    pub closed spec fn counters(&self) -> TransferMetrics {
        self.metrics
    }

    /// A receiver with zero counters.
    pub fn new() -> (r: Self)
        ensures
            r.counters() == TransferMetrics::zero(),
    {
        FileReceiver { metrics: TransferMetrics::new() }
    }

    /// The transfer counters.
    pub fn metrics(&self) -> (m: &TransferMetrics)
        ensures
            *m == self.counters(),
    {
        &self.metrics
    }

    /// Count a chunk received.
    pub fn record_chunk(&mut self, bytes: u64)
        ensures
            final(self).counters().bytes_transferred == crate::media_transport::add_wrapping(
                old(self).counters().bytes_transferred,
                bytes,
            ),
            final(self).counters().chunks_transferred == crate::media_transport::add_wrapping(
                old(self).counters().chunks_transferred,
                1,
            ),
    {
        self.metrics.record_chunk(bytes);
    }
}

/// Counters of swarm downloads and of the chunks served to peers. Each wraps
/// at 2^64.
#[derive(Debug, Clone, Copy, PartialEq, Eq)]
pub struct SwarmMetrics {
    pub chunks_downloaded: u64,
    pub chunks_served: u64,
    pub bytes_downloaded: u64,
    pub bytes_served: u64,
    pub peer_failures: u64,
}

impl SwarmMetrics {
    pub open spec fn zero() -> SwarmMetrics {
        SwarmMetrics { chunks_downloaded: 0, chunks_served: 0, bytes_downloaded: 0, bytes_served: 0, peer_failures: 0 }
    }

    /// All counters at zero.
    pub fn new() -> (m: Self)
        ensures
            m == Self::zero(),
    {
        SwarmMetrics { chunks_downloaded: 0, chunks_served: 0, bytes_downloaded: 0, bytes_served: 0, peer_failures: 0 }
    }

    /// Count a chunk of `bytes` bytes served to a peer.
    pub fn record_served(&mut self, bytes: u64)
        ensures
            *final(self) == (SwarmMetrics {
                chunks_served: crate::media_transport::add_wrapping(old(self).chunks_served, 1),
                bytes_served: crate::media_transport::add_wrapping(old(self).bytes_served, bytes),
                ..*old(self)
            }),
    {
        self.chunks_served = self.chunks_served.wrapping_add(1);
        self.bytes_served = self.bytes_served.wrapping_add(bytes);
    }
}

/// A stream pair to one peer of a swarm download.
pub struct PeerStream<S, R> {
    pub send: S,
    pub recv: R,
    pub id: usize,
}

/// Downloads a file from several peers at once; keeps swarm counters.
pub struct SwarmDownloader {
    metrics: SwarmMetrics,
}

impl SwarmDownloader {
    pub closed spec fn counters(&self) -> SwarmMetrics {
        self.metrics
    }

    /// A downloader with zero counters.
    pub fn new() -> (d: Self)
        ensures
            d.counters() == SwarmMetrics::zero(),
    {
        SwarmDownloader { metrics: SwarmMetrics::new() }
    }

    /// The swarm counters.
    pub fn metrics(&self) -> (m: &SwarmMetrics)
        ensures
            *m == self.counters(),
    {
        &self.metrics
    }

    /// Count a chunk of `bytes` bytes downloaded.
    pub fn record_download(&mut self, bytes: u64)
        ensures
            final(self).counters() == (SwarmMetrics {
                chunks_downloaded: crate::media_transport::add_wrapping(old(self).counters().chunks_downloaded, 1),
                bytes_downloaded: crate::media_transport::add_wrapping(old(self).counters().bytes_downloaded, bytes),
                ..old(self).counters()
            }),
    {
        self.metrics.chunks_downloaded = self.metrics.chunks_downloaded.wrapping_add(1);
        self.metrics.bytes_downloaded = self.metrics.bytes_downloaded.wrapping_add(bytes);
    }

    /// Count a peer that failed to answer.
    pub fn record_peer_failure(&mut self)
        ensures
            final(self).counters() == (SwarmMetrics {
                peer_failures: crate::media_transport::add_wrapping(old(self).counters().peer_failures, 1),
                ..old(self).counters()
            }),
    {
        self.metrics.peer_failures = self.metrics.peer_failures.wrapping_add(1);
    }
}

impl Default for SwarmDownloader {
    /// A downloader with zero counters.
    fn default() -> (d: Self)
        ensures
            d.counters() == SwarmMetrics::zero(),
    {
        SwarmDownloader::new()
    }
}

/// The gossip announcement that `endpoint_id` offers the file `manifest`
/// describes.
pub fn file_announce_message(manifest: &FileManifest, endpoint_id: EndpointId) -> (m: ChannelMessage)
    ensures
        m matches ChannelMessage::FileAnnounce { endpoint_id: e, file_hash, file_name, file_size } && e == endpoint_id
            && file_hash == manifest.file_hash && file_name@ == manifest.file_name@ && file_size == manifest.file_size,
{
    ChannelMessage::FileAnnounce {
        endpoint_id,
        file_hash: manifest.file_hash,
        file_name: manifest.file_name.clone(),
        file_size: manifest.file_size,
    }
}

/// Chunks below `count` that `ours` does not hold, in ascending order.
pub open spec fn missing_spec(count: u32, ours: ChunkBitfield) -> Seq<u32> {
    Seq::new(count as nat, |i: int| i as u32).filter(|i: u32| !ours.has(i))
}

/// Largest number of chunks asked of one peer at a time.
pub const MAX_BATCH: usize = 8;

/// The next chunks to ask of a peer holding `peer`: the first eight missing
/// chunks it holds.
pub open spec fn batch_spec(missing: Seq<u32>, peer: ChunkBitfield) -> Seq<u32> {
    let available = missing.filter(|i: u32| peer.has(i));
    available.take(if available.len() < 8 { available.len() as int } else { 8 })
}

/// The plan of a swarm download: which chunks are still missing, and which
/// peers can still be asked, with what they hold.
pub struct SwarmPlan {
    missing: Vec<u32>,
    peers: Vec<Option<ChunkBitfield>>,
    progressed: bool,
}

/// How a round of requests to every peer ended.
#[derive(Debug, Clone, Copy, PartialEq, Eq)]
pub enum RoundOutcome {
    /// Every chunk has arrived.
    Done,
    /// Some peer answered and chunks are still missing: ask again.
    Continue,
    /// No peer answered a request: the download cannot go on; `remaining`
    /// chunks are still missing.
    Stalled { remaining: usize },
}

impl SwarmPlan {
    /// Missing chunks, in ascending order.
    pub closed spec fn missing(&self) -> Seq<u32> {
        self.missing@
    }

    /// Per peer, what it holds, or `None` once it failed.
    pub closed spec fn peers(&self) -> Seq<Option<ChunkBitfield>> {
        self.peers@
    }

    /// Whether some peer answered a request in the current round.
    pub closed spec fn progressed(&self) -> bool {
        self.progressed
    }

    /// A plan to fetch the `count` chunks of a file of which we hold `ours`,
    /// before any peer is known.
    pub fn new(count: u32, ours: &ChunkBitfield) -> (p: Self)
        ensures
            p.missing() == missing_spec(count, *ours),
            p.peers() == Seq::<Option<ChunkBitfield>>::empty(),
            !p.progressed(),
    {
        let ghost all = Seq::new(count as nat, |i: int| i as u32);
        let ghost pred = |i: u32| !ours.has(i);
        let mut missing: Vec<u32> = Vec::new();
        let mut i: u32 = 0;
        while i < count
            invariant
                i <= count,
                all == Seq::new(count as nat, |k: int| k as u32),
                pred == (|k: u32| !ours.has(k)),
                missing@ == all.take(i as int).filter(pred),
            decreases count - i,
        {
            proof {
                assert(all.take(i + 1) =~= all.take(i as int).push(i));
                all.take(i as int).lemma_filter_push(i, pred);
            }
            if !ours.has_chunk(i) {
                missing.push(i);
            }
            i = i + 1;
        }
        assert(all.take(count as int) =~= all);
        SwarmPlan { missing, peers: Vec::new(), progressed: false }
    }

    /// Record what the next peer holds (`None` if it could not be asked).
    pub fn add_peer(&mut self, held: Option<ChunkBitfield>)
        ensures
            final(self).missing() == old(self).missing(),
            final(self).peers() == old(self).peers().push(held),
            final(self).progressed() == old(self).progressed(),
    {
        self.peers.push(held);
    }

    /// Number of peers recorded.
    pub fn peer_count(&self) -> (n: usize)
        ensures
            n == self.peers().len(),
    {
        self.peers.len()
    }

    /// The chunks to ask of peer `peer` next: none if it failed, else the
    /// first eight missing chunks it holds.
    pub fn batch_for(&self, peer: usize) -> (batch: Vec<u32>)
        requires
            peer < self.peers().len(),
        ensures
            batch@ == match self.peers()[peer as int] {
                None => Seq::<u32>::empty(),
                Some(held) => batch_spec(self.missing(), held),
            },
    {
        match &self.peers[peer] {
            None => Vec::new(),
            Some(held) => {
                let ghost pred = |i: u32| held.has(i);
                let mut available: Vec<u32> = Vec::new();
                let mut j: usize = 0;
                while j < self.missing.len()
                    invariant
                        j <= self.missing@.len(),
                        pred == (|i: u32| held.has(i)),
                        available@ == self.missing@.take(j as int).filter(pred),
                    decreases self.missing@.len() - j,
                {
                    let idx = self.missing[j];
                    proof {
                        assert(self.missing@.take(j + 1) =~= self.missing@.take(j as int).push(idx));
                        self.missing@.take(j as int).lemma_filter_push(idx, pred);
                    }
                    if held.has_chunk(idx) {
                        available.push(idx);
                    }
                    j = j + 1;
                }
                assert(self.missing@.take(j as int) =~= self.missing@);
                available.truncate(MAX_BATCH);
                available
            },
        }
    }

    /// Chunk `index` arrived: it is no longer missing.
    pub fn on_chunk_received(&mut self, index: u32)
        ensures
            final(self).missing() == old(self).missing().filter(|i: u32| i != index),
            final(self).peers() == old(self).peers(),
            final(self).progressed() == old(self).progressed(),
    {
        let ghost pred = |i: u32| i != index;
        let ghost orig = self.missing@;
        let mut kept: Vec<u32> = Vec::new();
        let mut j: usize = 0;
        while j < self.missing.len()
            invariant
                orig == self.missing@,
                j <= orig.len(),
                pred == (|i: u32| i != index),
                kept@ == orig.take(j as int).filter(pred),
            decreases orig.len() - j,
        {
            let idx = self.missing[j];
            proof {
                assert(orig.take(j + 1) =~= orig.take(j as int).push(idx));
                orig.take(j as int).lemma_filter_push(idx, pred);
            }
            if idx != index {
                kept.push(idx);
            }
            j = j + 1;
        }
        assert(orig.take(j as int) =~= orig);
        self.missing = kept;
    }

    /// Peer `peer` failed: it is not asked again.
    pub fn on_peer_failed(&mut self, peer: usize)
        requires
            peer < old(self).peers().len(),
        ensures
            final(self).missing() == old(self).missing(),
            final(self).peers() == old(self).peers().update(peer as int, None),
            final(self).progressed() == old(self).progressed(),
    {
        self.peers.set(peer, None);
    }

    /// A new round of requests begins: no peer has answered in it yet.
    pub fn start_round(&mut self)
        ensures
            final(self).missing() == old(self).missing(),
            final(self).peers() == old(self).peers(),
            !final(self).progressed(),
    {
        self.progressed = false;
    }

    /// A peer answered a request in this round.
    pub fn on_batch_answered(&mut self)
        ensures
            final(self).missing() == old(self).missing(),
            final(self).peers() == old(self).peers(),
            final(self).progressed(),
    {
        self.progressed = true;
    }

    /// How the round ended: stalled when no peer answered, else done when
    /// nothing is missing, else another round is due.
    pub fn round_outcome(&self) -> (r: RoundOutcome)
        ensures
            r == if !self.progressed() {
                RoundOutcome::Stalled { remaining: self.missing().len() as usize }
            } else if self.missing().len() == 0 {
                RoundOutcome::Done
            } else {
                RoundOutcome::Continue
            },
    {
        if !self.progressed {
            RoundOutcome::Stalled { remaining: self.missing.len() }
        } else if self.missing.len() == 0 {
            RoundOutcome::Done
        } else {
            RoundOutcome::Continue
        }
    }

    /// Number of chunks still missing.
    pub fn missing_count(&self) -> (n: usize)
        ensures
            n == self.missing().len(),
    {
        self.missing.len()
    }

    /// Whether every chunk has arrived.
    pub fn is_complete(&self) -> (b: bool)
        ensures
            b == (self.missing().len() == 0),
    {
        self.missing.len() == 0
    }
}

/// Chunks `0..n` of `data`, joined in order.
pub open spec fn joined_chunks(data: Seq<u8>, n: nat) -> Seq<u8>
    decreases n,
{
    if n == 0 {
        Seq::empty()
    } else {
        joined_chunks(data, (n - 1) as nat) + chunk_bytes(data, n - 1)
    }
}

proof fn lemma_joined_prefix(data: Seq<u8>, k: nat)
    requires
        k == 0 || (k - 1) * CHUNK_SIZE < data.len(),
    ensures
        joined_chunks(data, k) == data.subrange(
            0,
            if k * CHUNK_SIZE <= data.len() { k * CHUNK_SIZE } else { data.len() as int },
        ),
    decreases k,
{
    if k > 0 {
        if k >= 2 {
            lemma_joined_prefix(data, (k - 1) as nat);
        } else {
            lemma_joined_prefix(data, 0);
        }
        let end = if k * CHUNK_SIZE <= data.len() { k * CHUNK_SIZE } else { data.len() as int };
        assert(data.subrange(0, (k - 1) * CHUNK_SIZE) + data.subrange((k - 1) * CHUNK_SIZE, end) =~= data.subrange(
            0,
            end,
        ));
    }
}

/// The chunks of a file, joined in order, are the file; so a receiver that
/// takes every chunk of a file in order holds bytes that hash to the
/// manifest's hash.
pub proof fn law_chunks_rebuild_file(data: Seq<u8>)
    requires
        data.len() <= u32::MAX as int * CHUNK_SIZE,
    ensures
        joined_chunks(data, chunk_count_spec(data.len() as u64) as nat) == data,
        sha256_digest(joined_chunks(data, chunk_count_spec(data.len() as u64) as nat)) == sha256_digest(data),
{
    let n = chunk_count_spec(data.len() as u64) as nat;
    assert(n == (data.len() + CHUNK_SIZE - 1) / (CHUNK_SIZE as int));
    assert(n * CHUNK_SIZE >= data.len());
    assert(n == 0 || (n - 1) * CHUNK_SIZE < data.len());
    lemma_joined_prefix(data, n);
    assert(data.subrange(0, data.len() as int) =~= data);
}

/// What a receiver holds after taking `chunks` (each a file hash and data)
/// in order as [`FileAssembly::accept_chunk`] does, starting from
/// `received`, for a file whose hash is `hash`; `None` once a chunk of
/// another file is refused.
pub open spec fn receive_all(received: Seq<u8>, hash: Seq<u8>, chunks: Seq<(Seq<u8>, Seq<u8>)>) -> Option<Seq<u8>>
    decreases chunks.len(),
{
    if chunks.len() == 0 {
        Some(received)
    } else {
        match receive_all(received, hash, chunks.drop_last()) {
            Some(r) => if chunks.last().0 == hash {
                Some(r + chunks.last().1)
            } else {
                None
            },
            None => None,
        }
    }
}

/// The chunks [`file_chunks`] makes of `data` for the manifest
/// [`build_manifest`] gives it: its hash and the bytes of each chunk.
pub open spec fn sent_chunks(data: Seq<u8>) -> Seq<(Seq<u8>, Seq<u8>)> {
    Seq::new(chunk_count_spec(data.len() as u64) as nat, |i: int| (sha256_digest(data), chunk_bytes(data, i)))
}

proof fn lemma_receive_prefix(data: Seq<u8>, k: nat)
    requires
        k <= chunk_count_spec(data.len() as u64),
    ensures
        receive_all(Seq::empty(), sha256_digest(data), sent_chunks(data).take(k as int)) == Some(joined_chunks(data, k)),
    decreases k,
{
    let c = sent_chunks(data).take(k as int);
    if k > 0 {
        lemma_receive_prefix(data, (k - 1) as nat);
        assert(c.drop_last() =~= sent_chunks(data).take(k - 1));
        assert(c.last() == (sha256_digest(data), chunk_bytes(data, k - 1)));
    } else {
        assert(c =~= Seq::<(Seq<u8>, Seq<u8>)>::empty());
    }
}

/// A receiver that takes, in order, the chunks a sender made of a file,
/// starting empty, refuses none and ends up holding exactly the file's
/// bytes. Those hash to the manifest's hash, so [`FileAssembly::finish`]
/// accepts the transfer and the receiver has the sender's contents.
pub proof fn law_sent_file_arrives_intact(data: Seq<u8>)
    requires
        data.len() <= u32::MAX as int * CHUNK_SIZE,
    ensures
        receive_all(Seq::empty(), sha256_digest(data), sent_chunks(data)) == Some(data),
{
    let n = chunk_count_spec(data.len() as u64) as nat;
    lemma_receive_prefix(data, n);
    assert(sent_chunks(data).take(n as int) =~= sent_chunks(data));
    law_chunks_rebuild_file(data);
}

/// A batch asks only for chunks that are missing and that the peer holds,
/// at most eight, each once.
pub proof fn law_batch_is_missing_and_held(missing: Seq<u32>, held: ChunkBitfield)
    ensures
        batch_spec(missing, held).len() <= MAX_BATCH,
        forall|x: u32| #[trigger] batch_spec(missing, held).contains(x) ==> missing.contains(x) && held.has(x),
{
    let pred = |i: u32| held.has(i);
    let available = missing.filter(pred);
    let b = batch_spec(missing, held);
    assert forall|x: u32| #[trigger] b.contains(x) implies missing.contains(x) && held.has(x) by {
        let k = choose|k: int| 0 <= k < b.len() && b[k] == x;
        assert(available[k] == x);
        assert(available.contains(x));
        missing.lemma_filter_contains_rev(pred, x);
        missing.lemma_filter_pred(pred, k);
    }
}

/// A chunk that has arrived is never asked for again.
pub proof fn law_received_chunk_not_requested(missing: Seq<u32>, held: ChunkBitfield, index: u32)
    ensures
        !batch_spec(missing.filter(|i: u32| i != index), held).contains(index),
{
    let rest = missing.filter(|i: u32| i != index);
    law_batch_is_missing_and_held(rest, held);
    if rest.contains(index) {
        let k = choose|k: int| 0 <= k < rest.len() && rest[k] == index;
        missing.lemma_filter_pred(|i: u32| i != index, k);
    }
}

} // verus!
