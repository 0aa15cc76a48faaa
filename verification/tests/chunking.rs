use boxpeer::chunking::{concat_chunks, split_bytes};
use boxpeer::content::ContentManager;

#[test]
fn split_exact_multiple_sizes() {
    let data: Vec<u8> = (0..20u8).collect();
    let chunks = split_bytes(&data, 5);
    assert_eq!(chunks.len(), 4);
    for chunk in &chunks {
        assert_eq!(chunk.len(), 5);
    }
}

#[test]
fn split_with_remainder_sizes() {
    let data: Vec<u8> = (0..23u8).collect();
    let chunks = split_bytes(&data, 5);
    assert_eq!(chunks.len(), 5);
    for chunk in &chunks[..4] {
        assert_eq!(chunk.len(), 5);
    }
    assert_eq!(chunks[4].len(), 3);
}

#[test]
fn split_empty_input_yields_no_chunks() {
    let data: Vec<u8> = Vec::new();
    let chunks = split_bytes(&data, 4);
    assert_eq!(chunks.len(), 0);
}

#[test]
fn split_smaller_than_chunk_size() {
    let data: Vec<u8> = vec![9, 8, 7];
    let chunks = split_bytes(&data, 1024);
    assert_eq!(chunks.len(), 1);
    assert_eq!(chunks[0], data);
}

#[test]
fn split_then_concat_round_trips() {
    let data: Vec<u8> = (0..=255u8).cycle().take(10_000).collect();
    let chunks = split_bytes(&data, 777);
    let rebuilt = concat_chunks(&chunks);
    assert_eq!(rebuilt, data);
}

#[test]
fn split_file_into_chunks_counts_and_round_trip() {
    let mut manager = ContentManager::new();
    let data: Vec<u8> = (0..=255u8).cycle().take(4_100).collect();
    let chunks = manager.split_file_into_chunks(&data, 1024);
    // ceil(4100 / 1024) = 5 chunks; the last holds 4100 mod 1024 = 4 bytes.
    assert_eq!(chunks.len(), 5);
    for chunk in &chunks[..4] {
        assert_eq!(chunk.len(), 1024);
    }
    assert_eq!(chunks[4].len(), 4);
    let rebuilt = concat_chunks(&chunks);
    assert_eq!(rebuilt, data);
}

#[test]
fn split_file_into_chunks_zero_chunk_size_reads_nothing() {
    let mut manager = ContentManager::new();
    let data: Vec<u8> = vec![1, 2, 3];
    let chunks = manager.split_file_into_chunks(&data, 0);
    assert_eq!(chunks.len(), 0);
}
