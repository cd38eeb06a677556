use oxiddd::hash::{ForensicHasher, HashAlgo};
use oxiddd::pipeline::{
    hash_chunks, read_step, write_chunks, zero_fill, Chunk, PipelineSession, ReadOutcome,
    ReadStep, SessionState,
};
use oxiddd::report::format_hash_report;
use sha2::Digest;

#[test]
fn test_read_step_success_and_eof() {
    assert_eq!(read_step(4096, ReadOutcome::Data(0)), ReadStep::Finish);
    assert_eq!(
        read_step(4096, ReadOutcome::Data(100)),
        ReadStep::Emit {
            len: 100,
            fill_zero: false,
            skip_ahead: false
        }
    );
}

#[test]
fn test_read_step_failure_preserves_alignment() {
    // A failed read becomes a full-length zero block plus a skip, never a
    // size-shifting gap.
    assert_eq!(
        read_step(4096, ReadOutcome::Failed),
        ReadStep::Emit {
            len: 4096,
            fill_zero: true,
            skip_ahead: true
        }
    );
    let mut buffer = vec![0xABu8; 4096];
    zero_fill(&mut buffer);
    assert_eq!(buffer.len(), 4096);
    assert!(buffer.iter().all(|&b| b == 0));
}

#[test]
fn test_chunk_payload() {
    let chunk = Chunk::new(vec![1, 2, 3, 4], 2);
    assert_eq!(chunk.len(), 2);
    assert_eq!(chunk.bytes(), &[1u8, 2][..]);
    let buffer = chunk.into_buffer();
    assert_eq!(buffer, vec![1, 2, 3, 4]);
}

#[test]
fn test_session_lifecycle() {
    let mut s = PipelineSession::new(16, 8);
    assert_eq!(s.current_state(), SessionState::Opening);
    s.begin_streaming();
    assert_eq!(s.current_state(), SessionState::Streaming);
    s.acquire_buffer();
    assert_eq!(s.buffers_outstanding(), 1);
    s.produce(&[1, 2, 3]);
    s.release_buffer();
    assert_eq!(s.buffers_outstanding(), 0);
    s.begin_drain();
    s.begin_finalize();
    s.complete();
    assert_eq!(s.current_state(), SessionState::Done);
}

#[test]
fn test_pool_saturation_blocks_acquire() {
    // With every pool buffer in flight, the Read stage must block: the model
    // refuses further acquires until a buffer is released.
    let mut s = PipelineSession::new(16, 8);
    s.begin_streaming();
    for i in 0..16 {
        assert!(s.can_acquire(), "buffer {} should be available", i);
        s.acquire_buffer();
    }
    assert_eq!(s.buffers_outstanding(), 16);
    assert!(!s.can_acquire());
    s.release_buffer();
    assert!(s.can_acquire());
}

#[test]
fn test_empty_stream_session() {
    // A zero-length source: no chunk is ever produced, and the session still
    // runs to completion with nothing in flight.
    let mut s = PipelineSession::new(4, 2);
    s.begin_streaming();
    assert_eq!(read_step(4096, ReadOutcome::Data(0)), ReadStep::Finish);
    s.begin_drain();
    s.begin_finalize();
    s.complete();
    assert_eq!(s.current_state(), SessionState::Done);
    assert_eq!(s.buffers_outstanding(), 0);
}

#[test]
fn test_session_failure_path() {
    let mut s = PipelineSession::new(2, 2);
    s.begin_streaming();
    s.fail();
    assert_eq!(s.current_state(), SessionState::Failed);
}

#[test]
fn test_hash_stage_over_chunks() {
    // Feeding chunked payloads (only the valid prefix of each buffer) must
    // digest the same stream as hashing the concatenation at once.
    let chunks = vec![
        Chunk::new(vec![1u8, 2, 0xFF, 0xFF], 2),
        Chunk::new(vec![3u8, 4, 5, 0xFF], 3),
        Chunk::new(vec![0xFFu8; 4], 0),
        Chunk::new(vec![6u8, 7, 8, 9], 4),
    ];
    let mut h = ForensicHasher::new(HashAlgo::Sha256, "c.dd".to_string(), "t".to_string());
    hash_chunks(&mut h, &chunks);
    let (std, _) = h.finalize();

    let flat: Vec<u8> = vec![1, 2, 3, 4, 5, 6, 7, 8, 9];
    let expected = hex::encode(sha2::Sha256::digest(&flat));
    assert_eq!(std, expected);
}

#[test]
fn test_write_and_hash_orders_agree() {
    // The stream the Write stage persists hashes to exactly the digest the
    // Hash stage reports over the same delivered chunks.
    let chunks = vec![
        Chunk::new(vec![10u8, 20, 30, 99], 3),
        Chunk::new(vec![40u8, 50, 99, 99], 2),
    ];
    let mut image: Vec<u8> = Vec::new();
    write_chunks(&mut image, &chunks);
    assert_eq!(image, vec![10, 20, 30, 40, 50]);

    let mut h = ForensicHasher::new(HashAlgo::Sha256, "w.dd".to_string(), "t".to_string());
    hash_chunks(&mut h, &chunks);
    let (hash_stage_std, _) = h.finalize();
    let written_std = hex::encode(sha2::Sha256::digest(&image));
    assert_eq!(hash_stage_std, written_std);
}

#[test]
fn test_alignment_preserved_under_read_failure() {
    // A run whose middle block failed produces an image of the same length
    // as the fault-free run, with that block all zero and every other byte
    // identical.
    let block = 4usize;
    let good = vec![
        Chunk::new(vec![1u8, 2, 3, 4], block),
        Chunk::new(vec![5u8, 6, 7, 8], block),
        Chunk::new(vec![9u8, 10, 11, 12], block),
    ];
    let mut failed_buffer = vec![5u8, 6, 7, 8];
    assert_eq!(
        read_step(block, ReadOutcome::Failed),
        ReadStep::Emit {
            len: block,
            fill_zero: true,
            skip_ahead: true
        }
    );
    zero_fill(&mut failed_buffer);
    let faulty = vec![
        Chunk::new(vec![1u8, 2, 3, 4], block),
        Chunk::new(failed_buffer, block),
        Chunk::new(vec![9u8, 10, 11, 12], block),
    ];

    let mut good_image: Vec<u8> = Vec::new();
    write_chunks(&mut good_image, &good);
    let mut faulty_image: Vec<u8> = Vec::new();
    write_chunks(&mut faulty_image, &faulty);

    assert_eq!(faulty_image.len(), good_image.len());
    assert!(faulty_image[block..2 * block].iter().all(|&b| b == 0));
    assert_eq!(faulty_image[..block], good_image[..block]);
    assert_eq!(faulty_image[2 * block..], good_image[2 * block..]);
}

#[test]
fn test_report_layout() {
    let report = format_hash_report("SHA256", "aa", "bb", "img_x.dd", "2026-01-01T000000Z");
    let expected = "--- STANDARD HASH (Bit-for-bit content) ---\n\
SHA256: aa\n\
\n\
--- CUSTOM FORENSIC HASH (Binding) ---\n\
Method: SHA256(Content + FileName + Timestamp)\n\
Hash:   bb\n\
\n\
--- METADATA ---\n\
Target FileName: img_x.dd\n\
NTP Timestamp:   2026-01-01T000000Z\n";
    assert_eq!(report, expected);
}
