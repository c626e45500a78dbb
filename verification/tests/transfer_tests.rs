use dropwire::error::DropWireError;
use rand::RngCore;
use std::time::Instant;
use dropwire::net::parallel::ChunkFrame;
use dropwire::transfer::chunker::{
    chunks_for_size, file_entry, ChunkHasher, Chunker, ReadPlan, VirtualWriter, WritePlan,
};
use dropwire::transfer::compress::{decompress, is_incompressible_name, maybe_compress, sample_histogram};
use dropwire::transfer::engine::{
    ack_status, build_resume_frame, check_ack, chunks_to_send, send_plan, decode_chunk_hashes, encode_chunk_hashes, eof_frame,
    parse_resume_frame, root_name, state_file_name, state_matches, FrameAction, ReceiveProgress,
    TransferEngine, EOF_INDEX,
};
use dropwire::transfer::resume::PartialState;
use dropwire::types::{FileMetadata, TransferManifest};

/// Shannon entropy (bits per byte) of the sample, from the library's byte counts.
fn sample_entropy(data: &[u8]) -> f64 {
    let counts = sample_histogram(data);
    let n: u64 = counts.iter().sum();
    if n == 0 {
        return 0.0;
    }
    let len = n as f64;
    let mut e = 0.0;
    for c in counts {
        if c > 0 {
            let p = c as f64 / len;
            e -= p * p.log2();
        }
    }
    e
}

fn compress(data: &[u8], name: &str) -> (Vec<u8>, bool) {
    let high = sample_entropy(data) > 7.5;
    maybe_compress(data, name, high)
}

#[test]
fn test_compressible_data() {
    let data = vec![42u8; 1024];
    let (out, compressed) = compress(&data, "test.txt");
    assert!(compressed);
    assert!(out.len() < data.len());
}

#[test]
fn test_incompressible_entropy() {
    let mut data = vec![0u8; 8192];
    let mut x: u32 = 0x1234_5678;
    for b in data.iter_mut() {
        x ^= x << 13;
        x ^= x >> 17;
        x ^= x << 5;
        *b = (x >> 24) as u8;
    }
    let (out, compressed) = compress(&data, "test.bin");
    assert!(!compressed);
    assert_eq!(out.len(), data.len());
}

#[test]
fn test_incompressible_extension() {
    let data = vec![0u8; 1024];
    let (out, compressed) = compress(&data, "test.mp4");
    assert!(!compressed);
    assert_eq!(out.len(), data.len());
}

#[test]
fn test_round_trip() {
    let data = vec![42u8; 1024];
    let (out, compressed) = compress(&data, "test.txt");
    assert!(compressed);
    let decoded = decompress(&out).unwrap();
    assert_eq!(decoded, data);
}

#[test]
fn test_decompress_garbage() {
    let data = vec![1, 2, 3, 4, 5, 6, 7];
    let result = decompress(&data);
    assert!(result.is_err());
}

#[test]
fn decompress_error_is_protocol() {
    assert!(matches!(decompress(&[9, 9, 9]), Err(DropWireError::Protocol(_))));
}

#[test]
fn incompressible_names_ignore_case_and_directories() {
    assert!(is_incompressible_name("movie.MP4"));
    assert!(is_incompressible_name("dir/photo.JpEg"));
    assert!(!is_incompressible_name("notes.txt"));
    assert!(!is_incompressible_name("zip"));
    assert!(is_incompressible_name("archive.zip/"));
    assert!(!is_incompressible_name(".zip"));
}

#[test]
fn high_entropy_verdict_skips_compression() {
    let data = vec![42u8; 1024];
    let (out, compressed) = maybe_compress(&data, "a.txt", true);
    assert!(!compressed);
    assert_eq!(out, data);
}

#[test]
fn empty_chunk_is_not_compressed() {
    let (out, compressed) = maybe_compress(&[], "a.txt", false);
    assert!(!compressed);
    assert!(out.is_empty());
}

#[test]
fn histogram_counts_the_first_4096_bytes() {
    let mut data = vec![1u8; 5000];
    data[0] = 7;
    let h = sample_histogram(&data);
    assert_eq!(h.len(), 256);
    assert_eq!(h[7], 1);
    assert_eq!(h[1], 4095);
    assert_eq!(h.iter().sum::<u64>(), 4096);
}

#[test]
fn test_save_and_load() {
    let hash = [1u8; 32];
    let chunk_hashes = vec![[2u8; 32], [3u8; 32]];

    let mut state = PartialState::new("partial", hash, chunk_hashes.clone(), 2);
    state.mark_received(1);
    let bytes = state.to_bytes();

    let loaded = PartialState::from_bytes("partial", &bytes).unwrap();
    assert_eq!(loaded.expected_hash, hash);
    assert_eq!(loaded.chunk_hashes, chunk_hashes);
    assert_eq!(loaded.total_chunks, 2);
    assert!(!loaded.is_received(0));
    assert!(loaded.is_received(1));
}

#[test]
fn test_mark_chunks() {
    let mut state = PartialState::new("dummy", [0; 32], vec![[0; 32]; 15], 15);
    state.mark_received(0);
    state.mark_received(5);
    state.mark_received(10);

    assert!(state.is_received(0));
    assert!(state.is_received(5));
    assert!(state.is_received(10));
    assert!(!state.is_received(1));
}

#[test]
fn test_is_complete() {
    let mut state = PartialState::new("dummy", [0; 32], vec![[0; 32]; 2], 2);
    assert!(!state.is_complete());
    state.mark_received(0);
    assert!(!state.is_complete());
    state.mark_received(1);
    assert!(state.is_complete());
}

#[test]
fn test_corrupt_state_file() {
    assert!(PartialState::from_bytes("x", &[1, 2, 3]).is_err());
    assert!(PartialState::from_bytes("x", &[]).is_err());
}

#[test]
fn state_layout_is_hash_count_hashes_bitmap() {
    let mut state = PartialState::new("p", [9u8; 32], vec![[4u8; 32]], 1);
    state.mark_received(0);
    let b = state.to_bytes();
    assert_eq!(b.len(), 32 + 8 + 32 + 4 + 1);
    assert_eq!(&b[32..40], &1u64.to_be_bytes());
    assert_eq!(&b[72..76], &1u32.to_be_bytes());
    assert_eq!(b[76], 1);
}

#[test]
fn state_refuses_too_many_chunks() {
    let mut b = vec![0u8; 40];
    b[32..40].copy_from_slice(&1_000_001u64.to_be_bytes());
    assert!(matches!(PartialState::from_bytes("p", &b), Err(DropWireError::Protocol(_))));
}

#[test]
fn state_refuses_truncated_hashes_and_bitmap() {
    let mut b = vec![0u8; 40];
    b[32..40].copy_from_slice(&2u64.to_be_bytes());
    b.extend_from_slice(&[0u8; 32]);
    assert!(PartialState::from_bytes("p", &b).is_err());
    b.extend_from_slice(&[0u8; 32]);
    assert!(PartialState::from_bytes("p", &b).is_err());
    b.extend_from_slice(&5u32.to_be_bytes());
    assert!(PartialState::from_bytes("p", &b).is_err());
    b.extend_from_slice(&[0u8; 5]);
    assert!(PartialState::from_bytes("p", &b).is_ok());
}

#[test]
fn mark_past_the_end_is_ignored() {
    let mut state = PartialState::new("p", [0; 32], vec![], 3);
    state.mark_received(7);
    assert_eq!(state.received_count(), 0);
    state.mark_received(2);
    assert_eq!(state.received_count(), 1);
}

#[test]
fn chunk_hash_manifest_roundtrip() {
    let hs = vec![[1u8; 32], [2u8; 32], [3u8; 32]];
    let b = encode_chunk_hashes(&hs);
    assert_eq!(b.len(), 96);
    assert_eq!(decode_chunk_hashes(&b, 3).unwrap(), hs);
    assert!(decode_chunk_hashes(&b, 4).is_err());
}

#[test]
fn resume_frame_roundtrip() {
    let mut state = PartialState::new("p", [0; 32], vec![[0; 32]; 10], 10);
    state.mark_received(0);
    state.mark_received(9);
    let f = build_resume_frame(&state);
    assert_eq!(f[0], 1);
    let skip = parse_resume_frame(&f, 10).unwrap();
    assert_eq!(skip.len(), 10);
    for i in 0..10 {
        assert_eq!(skip[i], i == 0 || i == 9);
    }
    assert!(parse_resume_frame(&[], 10).is_err());
    assert_eq!(parse_resume_frame(&[0], 3).unwrap(), vec![false, false, false]);
}

#[test]
fn acks_and_hash_status() {
    assert!(check_ack(&[0]).is_ok());
    assert!(matches!(check_ack(&[1]), Err(DropWireError::HashMismatch)));
    assert!(check_ack(&[]).is_err());
    assert_eq!(ack_status(&[1; 32], &[1; 32]), 0);
    assert_eq!(ack_status(&[1; 32], &[2; 32]), 1);
}

#[test]
fn eof_marker() {
    let f = eof_frame();
    assert_eq!(f.chunk_index, EOF_INDEX);
    assert_eq!(EOF_INDEX, u64::MAX);
    assert!(f.is_compressed);
    assert!(f.data.is_empty());
}

#[test]
fn control_frames_roundtrip_and_bind_type() {
    let e = TransferEngine::new([1; 32], [2; 32]);
    let c = e.encrypt_control(5, 0x10, b"manifest").unwrap();
    assert_eq!(e.decrypt_control(5, 0x10, &c).unwrap(), b"manifest");
    assert!(matches!(e.decrypt_control(5, 0x11, &c), Err(DropWireError::Crypto(_))));
    assert!(e.decrypt_control(6, 0x10, &c).is_err());
}

#[test]
fn sealed_chunks_open() {
    let e = TransferEngine::new([3; 32], [4; 32]);
    let data = vec![42u8; 4096];
    let f = e.seal_chunk(7, &data, false).unwrap();
    assert_eq!(f.chunk_index, 7);
    assert!(f.is_compressed);
    assert_eq!(e.open_chunk(&f).unwrap(), data);
    let bytes = f.to_bytes();
    let back = ChunkFrame::from_bytes(&bytes).unwrap();
    assert_eq!(e.open_chunk(&back).unwrap(), data);
    let moved = ChunkFrame { chunk_index: 8, is_compressed: back.is_compressed, data: back.data.clone() };
    assert!(e.open_chunk(&moved).is_err());
}

#[test]
fn root_and_state_names() {
    let m = TransferManifest {
        files: vec![FileMetadata { relative_path: "photos/a/b.jpg".to_string(), size: 1, chunks: 1 }],
        total_size: 1,
        total_chunks: 1,
        overall_hash: [0; 32],
    };
    assert_eq!(root_name(&m), "photos");
    let empty = TransferManifest { files: vec![], total_size: 0, total_chunks: 1, overall_hash: [0; 32] };
    assert_eq!(root_name(&empty), "empty_transfer");
    assert_eq!(state_file_name("photos"), ".photos.dwstate");
}

#[test]
fn state_matching() {
    let s = PartialState::new("p", [5; 32], vec![], 4);
    assert!(state_matches(&s, &[5; 32], 4));
    assert!(!state_matches(&s, &[5; 32], 5));
    assert!(!state_matches(&s, &[6; 32], 4));
}

#[test]
fn receive_progress_counts_and_classifies() {
    let mut p = ReceiveProgress::new(2, 1);
    assert!(!p.is_done());
    assert!(matches!(p.on_frame(5), FrameAction::Ignore));
    assert!(matches!(p.on_frame(1), FrameAction::Store(1)));
    p.record_stored();
    assert!(!p.is_done());
    assert!(matches!(p.on_frame(EOF_INDEX), FrameAction::Eof));
    assert!(p.is_done());
}

#[test]
fn chunk_counts_round_up() {
    assert_eq!(chunks_for_size(0, 1024), 1);
    assert_eq!(chunks_for_size(1, 1024), 1);
    assert_eq!(chunks_for_size(1024, 1024), 1);
    assert_eq!(chunks_for_size(1025, 1024), 2);
}

#[test]
fn chunker_sorts_totals_and_locates() {
    let files = vec![
        file_entry("/x/b.txt".to_string(), "d/b.txt".to_string(), 2500, 1024),
        file_entry("/x/a.txt".to_string(), "d/a.txt".to_string(), 0, 1024),
    ];
    let mut h = ChunkHasher::new();
    h.add_empty_file();
    h.add_read(&[1u8; 1024]);
    h.add_read(&[1u8; 1024]);
    h.add_read(&[1u8; 452]);
    let c = Chunker::assemble(files, h, 1024).unwrap();
    assert_eq!(c.files[0].relative_path, "d/a.txt");
    assert_eq!(c.total_size(), 2500);
    assert_eq!(c.total_chunks(), 4);
    assert_eq!(c.chunk_hashes().len(), 4);
    assert_eq!(c.chunk_hashes()[0], *blake3::hash(&[]).as_bytes());
    let mut all = Vec::new();
    all.extend_from_slice(&[1u8; 2500]);
    assert_eq!(c.blake3_hash(), *blake3::hash(&all).as_bytes());
    match c.plan_read(0) {
        ReadPlan::Read(loc) => {
            assert_eq!(loc.file_index, 0);
            assert_eq!(loc.len, 0);
        }
        _ => panic!("chunk 0 is the empty file"),
    }
    match c.plan_read(3) {
        ReadPlan::Read(loc) => {
            assert_eq!(loc.file_index, 1);
            assert_eq!(loc.file_chunk_index, 2);
            assert_eq!(loc.byte_offset, Some(2048));
            assert_eq!(loc.len, 452);
        }
        _ => panic!("chunk 3 is the tail of b.txt"),
    }
    assert!(matches!(c.plan_read(4), ReadPlan::OutOfBounds));
    let meta = c.get_metadata();
    assert_eq!(meta.len(), 2);
    assert_eq!(meta[1].chunks, 3);
}

#[test]
fn chunker_with_no_files_has_one_empty_chunk() {
    let c = Chunker::assemble(vec![], ChunkHasher::new(), 1024).unwrap();
    assert_eq!(c.total_chunks(), 1);
    assert_eq!(c.chunk_hashes(), vec![*blake3::hash(&[]).as_bytes()]);
    assert!(matches!(c.plan_read(0), ReadPlan::NoFiles));
}

#[test]
fn writer_plans_checked_paths() {
    let files = vec![
        FileMetadata { relative_path: "ok/one.bin".to_string(), size: 10, chunks: 1 },
        FileMetadata { relative_path: "../evil".to_string(), size: 10, chunks: 1 },
    ];
    let w = VirtualWriter::new("/tmp/out", files, 1024);
    match w.plan_chunk(0) {
        WritePlan::At { relative_path, byte_offset, len } => {
            assert_eq!(relative_path, "ok/one.bin");
            assert_eq!(byte_offset, Some(0));
            assert_eq!(len, 10);
        }
        _ => panic!("chunk 0 belongs to ok/one.bin"),
    }
    assert!(matches!(w.plan_chunk(1), WritePlan::BadPath(DropWireError::Protocol(_))));
    assert!(matches!(w.plan_chunk(2), WritePlan::Unmapped));
    let none = VirtualWriter::new("/tmp/out", vec![], 1024);
    assert!(matches!(none.plan_chunk(0), WritePlan::Nothing));
}

#[test]
fn hasher_overall_matches_one_shot_hash() {
    let mut h = ChunkHasher::new();
    h.add_bytes(b"hello ");
    h.add_bytes(b"world");
    assert_eq!(h.overall(), *blake3::hash(b"hello world").as_bytes());
    assert!(h.chunk_hashes.is_empty());
}

#[test]
fn receiver_writes_where_sender_reads() {
    let files = vec![
        file_entry("/s/a".to_string(), "t/a".to_string(), 3000, 1024),
        file_entry("/s/b".to_string(), "t/b".to_string(), 10, 1024),
    ];
    let c = Chunker::assemble(files, ChunkHasher::new(), 1024).unwrap();
    let w = VirtualWriter::new("/out", c.get_metadata(), 1024);
    for i in 0..c.total_chunks() {
        match (c.plan_read(i), w.plan_chunk(i)) {
            (ReadPlan::Read(r), WritePlan::At { relative_path, byte_offset, len }) => {
                assert_eq!(relative_path, c.files[r.file_index].relative_path);
                assert_eq!(byte_offset, r.byte_offset);
                assert_eq!(len, r.len);
            }
            _ => panic!("every chunk is read and written somewhere"),
        }
    }
}

#[test]
fn resumed_state_keeps_only_verified_chunks() {
    let mut s = PartialState::new("p", [0; 32], vec![[0; 32]; 4], 4);
    s.mark_received(0);
    s.mark_received(1);
    s.mark_received(3);
    s.keep_verified(&vec![true, false, true]);
    assert!(s.is_received(0));
    assert!(!s.is_received(1));
    assert!(!s.is_received(2));
    assert!(s.is_received(3));
}

#[test]
fn sender_sends_only_missing_chunks() {
    let mut state = PartialState::new("p", [0; 32], vec![[0; 32]; 6], 6);
    state.mark_received(1);
    state.mark_received(4);
    let skip = parse_resume_frame(&build_resume_frame(&state), 6).unwrap();
    assert_eq!(chunks_to_send(&skip), vec![0, 2, 3, 5]);
}

#[test]
fn test_benchmark_entropy_skip() {
    let mut data = vec![0u8; 1024 * 1024];
    rand::thread_rng().fill_bytes(&mut data);

    let start_zstd = Instant::now();
    let _ = zstd::stream::encode_all(data.as_slice(), 3);
    let zstd_time = start_zstd.elapsed();

    let start_entropy = Instant::now();
    let (_, compressed) = compress(&data, "test.bin");
    let entropy_time = start_entropy.elapsed();

    assert!(!compressed);
    assert!(
        entropy_time * 3 < zstd_time,
        "Entropy check was not 3x faster! entropy: {:?}, zstd: {:?}",
        entropy_time,
        zstd_time
    );
}

#[test]
fn received_chunks_are_checked_against_their_hash() {
    let e = TransferEngine::new([3; 32], [4; 32]);
    let data = vec![7u8; 2048];
    let f = e.seal_chunk(1, &data, false).unwrap();
    let good = [[0u8; 32], *blake3::hash(&data).as_bytes()];
    assert_eq!(e.accept_chunk(&f, &good).unwrap(), Some(data.clone()));
    let bad = [[0u8; 32], [9u8; 32]];
    assert_eq!(e.accept_chunk(&f, &bad).unwrap(), None);
    let moved = ChunkFrame { chunk_index: 0, is_compressed: f.is_compressed, data: f.data.clone() };
    assert!(matches!(e.accept_chunk(&moved, &good), Err(DropWireError::Crypto(_))));
}

#[test]
fn send_plan_reports_every_chunk() {
    let plan = send_plan(&vec![true, false, true, false]);
    let sent: Vec<u64> = plan.iter().filter(|s| s.send).map(|s| s.index).collect();
    let progress: Vec<u64> = plan.iter().map(|s| s.progress).collect();
    assert_eq!(sent, vec![1, 3]);
    assert_eq!(progress, vec![1, 2, 3, 4]);
}

#[test]
fn maybe_compress_uses_shorter_zstd_output() {
    let data = vec![0u8; 10_000];
    let (out, compressed) = maybe_compress(&data, "notes.txt", false);
    assert!(compressed);
    assert_eq!(out, zstd::stream::encode_all(data.as_slice(), 3).unwrap());
    let (raw, kept) = maybe_compress(&data, "photo.jpg", false);
    assert!(!kept);
    assert_eq!(raw, data);
}

#[test]
fn state_roundtrip_without_premise() {
    let mut s = PartialState::new("/tmp/x.dwstate", [1u8; 32], vec![[2u8; 32], [3u8; 32]], 2);
    s.mark_received(1);
    let back = PartialState::from_bytes("/tmp/x.dwstate", &s.to_bytes()).unwrap();
    assert_eq!(back.expected_hash, [1u8; 32]);
    assert_eq!(back.chunk_hashes, vec![[2u8; 32], [3u8; 32]]);
    assert_eq!(back.total_chunks, 2);
    assert!(!back.is_received(0));
    assert!(back.is_received(1));
}

#[test]
fn over_expanding_chunk_is_refused() {
    let big = vec![0u8; 20 * 1024 * 1024 + 1];
    let bomb = zstd::stream::encode_all(big.as_slice(), 3).unwrap();
    assert!(matches!(decompress(&bomb), Err(DropWireError::Protocol(_))));
    let limit = vec![0u8; 20 * 1024 * 1024];
    let ok = zstd::stream::encode_all(limit.as_slice(), 3).unwrap();
    assert_eq!(decompress(&ok).unwrap().len(), 20 * 1024 * 1024);
}

#[test]
fn sealed_chunk_compression_follows_the_entropy_verdict() {
    let e = TransferEngine::new([3; 32], [4; 32]);
    let data = vec![42u8; 4096];
    assert!(e.seal_chunk(0, &data, false).unwrap().is_compressed);
    assert!(!e.seal_chunk(0, &data, true).unwrap().is_compressed);
}
