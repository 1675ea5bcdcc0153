use bisc::files::{
    answer_chunk_request, build_manifest, chunk_count, file_announce_message, file_chunks, serve_chunks, verify_file_hash, FileAssembly,
    FileReceiver, FileSender, RoundOutcome, SwarmDownloader, SwarmMetrics, SwarmPlan, TransferError, CHUNK_SIZE,
};
use bisc::protocol::{ChannelMessage, ChunkBitfield, EndpointId, FileChunk, FileManifest};
use sha2::Digest;

fn test_data(size: usize) -> Vec<u8> {
    (0..size).map(|i| (i % 251) as u8).collect()
}

fn sha(data: &[u8]) -> [u8; 32] {
    let mut h = [0u8; 32];
    h.copy_from_slice(&sha2::Sha256::digest(data));
    h
}

#[test]
fn file_announce_message_created() {
    let manifest = FileManifest {
        file_hash: [42u8; 32],
        file_name: "test.txt".to_string(),
        file_size: 100,
        chunk_size: CHUNK_SIZE,
        chunk_count: 1,
    };
    let endpoint_id = EndpointId([1u8; 32]);
    let msg = file_announce_message(&manifest, endpoint_id);

    match msg {
        ChannelMessage::FileAnnounce { file_name, file_size, .. } => {
            assert_eq!(file_name, "test.txt");
            assert_eq!(file_size, 100);
        }
        _ => panic!("wrong message type"),
    }
}

#[test]
fn manifest_of_small_file() {
    let data = test_data(1000);
    let m = build_manifest("small.bin".to_string(), &data);
    assert_eq!(m.file_hash, sha(&data));
    assert_eq!(m.chunk_count, 1);
    assert_eq!(m.file_size, 1000);
    assert_eq!(m.chunk_size, CHUNK_SIZE);
}

#[test]
fn chunk_counts_round_up() {
    assert_eq!(chunk_count(0), 0);
    assert_eq!(chunk_count(1), 1);
    assert_eq!(chunk_count(262_144), 1);
    assert_eq!(chunk_count(262_145), 2);
    assert_eq!(chunk_count(1_500_000), 6);
}

#[test]
fn send_receive_large_file_in_memory() {
    let data = test_data(1_500_000);
    let manifest = build_manifest("large.bin".to_string(), &data);
    let chunks = file_chunks(manifest.file_hash, &data);
    assert_eq!(chunks.len(), 6);
    assert_eq!(chunks[5].data.len(), 1_500_000 - 5 * 262_144);

    let mut sender = FileSender::new();
    let mut receiver = FileReceiver::new();
    let mut assembly = FileAssembly::new(manifest.clone());
    for c in &chunks {
        sender.record_chunk(c.data.len() as u64);
        let offset = assembly.accept_chunk(c).unwrap();
        assert_eq!(offset, c.chunk_index as u64 * CHUNK_SIZE as u64);
        receiver.record_chunk(c.data.len() as u64);
    }
    assert_eq!(assembly.finish(), Ok(()));
    assert_eq!(sender.metrics().chunks_transferred, 6);
    assert_eq!(receiver.metrics().bytes_transferred, 1_500_000);
}

#[test]
fn chunk_of_other_file_is_refused() {
    let data = test_data(10);
    let manifest = build_manifest("f".to_string(), &data);
    let mut assembly = FileAssembly::new(manifest);
    let stray = FileChunk { file_hash: [0u8; 32], chunk_index: 0, data: data.clone() };
    assert_eq!(assembly.accept_chunk(&stray), Err(TransferError::ChunkHashMismatch));
}

#[test]
fn corrupted_content_fails_hash_check() {
    let data = test_data(10);
    let manifest = build_manifest("f".to_string(), &data);
    let mut assembly = FileAssembly::new(manifest.clone());
    let mut bad = data.clone();
    bad[3] ^= 1;
    let chunk = FileChunk { file_hash: manifest.file_hash, chunk_index: 0, data: bad.clone() };
    assembly.accept_chunk(&chunk).unwrap();
    assert_eq!(
        assembly.finish(),
        Err(TransferError::ShaMismatch { expected: manifest.file_hash, computed: sha(&bad) })
    );
    assert!(verify_file_hash(&data, &manifest.file_hash));
    assert!(!verify_file_hash(&bad, &manifest.file_hash));
}

#[test]
fn served_chunks_skip_indices_past_the_end() {
    let data = test_data(300_000);
    let hash = sha(&data);
    let (count, chunks) = serve_chunks(hash, &data, &[1, 5, 0]);
    assert_eq!(count, 3);
    assert_eq!(chunks.len(), 2);
    assert_eq!(chunks[0].chunk_index, 1);
    assert_eq!(chunks[0].data, data[262_144..].to_vec());
    assert_eq!(chunks[1].chunk_index, 0);
    assert_eq!(chunks[1].data, data[..262_144].to_vec());
}

#[test]
fn swarm_plan_batches_and_completes() {
    let ours = ChunkBitfield::from_flags(vec![true, false, false, false, false, false, false, false, false, false, false]);
    let mut plan = SwarmPlan::new(11, &ours);
    assert_eq!(plan.missing_count(), 10);

    plan.add_peer(None);
    plan.add_peer(Some(ChunkBitfield::from_flags(vec![true; 11])));
    assert_eq!(plan.peer_count(), 2);
    assert!(plan.batch_for(0).is_empty());
    let batch = plan.batch_for(1);
    assert_eq!(batch, vec![1, 2, 3, 4, 5, 6, 7, 8]);

    for i in batch {
        plan.on_chunk_received(i);
    }
    assert_eq!(plan.batch_for(1), vec![9, 10]);
    plan.on_chunk_received(9);
    plan.on_peer_failed(1);
    assert!(plan.batch_for(1).is_empty());
    assert!(!plan.is_complete());
    plan.on_chunk_received(10);
    assert!(plan.is_complete());
}

#[test]
fn swarm_metrics_start_at_zero_and_count() {
    let mut d = SwarmDownloader::new();
    assert_eq!(d.metrics().chunks_downloaded, 0);
    d.record_download(100);
    d.record_peer_failure();
    assert_eq!(d.metrics().chunks_downloaded, 1);
    assert_eq!(d.metrics().bytes_downloaded, 100);
    assert_eq!(d.metrics().peer_failures, 1);
}

#[test]
fn chunk_server_refuses_incomplete_copy() {
    let data = test_data(300_000);
    let hash = sha(&data);
    let (count, chunks) = answer_chunk_request(hash, false, &data, &[0, 1]);
    assert_eq!(count, 0);
    assert!(chunks.is_empty());
    let (count, chunks) = answer_chunk_request(hash, true, &data, &[0, 1]);
    assert_eq!((count, chunks.len()), (2, 2));
}

#[test]
fn swarm_round_outcomes() {
    let ours = ChunkBitfield::from_flags(vec![false, false]);
    let mut plan = SwarmPlan::new(2, &ours);
    plan.add_peer(Some(ChunkBitfield::from_flags(vec![true, false])));
    plan.start_round();
    assert_eq!(plan.batch_for(0), vec![0]);
    plan.on_chunk_received(0);
    plan.on_batch_answered();
    assert_eq!(plan.round_outcome(), RoundOutcome::Continue);
    plan.start_round();
    assert!(plan.batch_for(0).is_empty());
    assert_eq!(plan.round_outcome(), RoundOutcome::Stalled { remaining: 1 });
}

#[test]
fn served_chunks_are_counted() {
    let data = test_data(300_000);
    let hash = sha(&data);
    let (_, chunks) = answer_chunk_request(hash, true, &data, &[0, 1, 9]);
    let mut m = SwarmMetrics::new();
    for c in &chunks {
        m.record_served(c.data.len() as u64);
    }
    assert_eq!(m.chunks_served, 2);
    assert_eq!(m.bytes_served, 300_000);
    assert_eq!((m.chunks_downloaded, m.bytes_downloaded, m.peer_failures), (0, 0, 0));
}
