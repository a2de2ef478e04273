use ragfs::memory::MemoryStore;
use ragfs::types::{
    Chunk, ChunkMetadata, ContentType, FileRecord, FileStatus, Timestamp,
};

fn bits(v: &[f32]) -> Vec<u32> {
    v.iter().map(|x| x.to_bits()).collect()
}

fn create_test_chunk(id: u128, file_id: u128, path: &str, embedding: Vec<f32>) -> Chunk {
    Chunk {
        id,
        file_id,
        file_path: path.to_string(),
        content: "test content".to_string(),
        content_type: ContentType::Text,
        mime_type: Some("text/plain".to_string()),
        chunk_index: 0,
        byte_range: 0..12,
        line_range: Some(0..1),
        parent_chunk_id: None,
        depth: 0,
        embedding: Some(bits(&embedding)),
        dir_path: std::path::Path::new(path)
            .parent()
            .map_or_else(String::new, |p| p.to_string_lossy().to_string()),
        dir_depth: 0,
        path_components: path.to_string(),
        metadata: ChunkMetadata::default(),
    }
}

fn create_test_record(path: &str, size_bytes: u64) -> FileRecord {
    FileRecord {
        id: uuid::Uuid::new_v4().as_u128(),
        path: path.to_string(),
        size_bytes,
        mime_type: "text/plain".to_string(),
        content_hash: "abc123".to_string(),
        modified_at: Timestamp { secs: 1_700_000_000, nanos: 0 },
        indexed_at: None,
        chunk_count: 1,
        status: FileStatus::Indexed,
        error_message: None,
    }
}

fn stamp() -> Timestamp {
    Timestamp { secs: 1_700_000_000, nanos: 0 }
}

fn new_id() -> u128 {
    uuid::Uuid::new_v4().as_u128()
}

/// Cosine similarity of two embeddings given as f32 bit patterns, computed
/// as the asynchronous store front end computes it.
fn cosine(a: &[u32], b: &[u32]) -> f32 {
    if a.len() != b.len() {
        return 0.0;
    }
    let a: Vec<f32> = a.iter().map(|x| f32::from_bits(*x)).collect();
    let b: Vec<f32> = b.iter().map(|x| f32::from_bits(*x)).collect();
    let dot: f32 = a.iter().zip(b.iter()).map(|(x, y)| x * y).sum();
    let norm_a: f32 = a.iter().map(|x| x * x).sum::<f32>().sqrt();
    let norm_b: f32 = b.iter().map(|x| x * x).sum::<f32>().sqrt();
    if norm_a == 0.0 || norm_b == 0.0 {
        return 0.0;
    }
    dot / (norm_a * norm_b)
}

#[test]
fn test_memory_store_new() {
    let store = MemoryStore::new(384);
    assert_eq!(store.dimension(), 384);
}

#[test]
fn test_memory_store_init() {
    let mut store = MemoryStore::new(384);
    store.init();
    let stats = store.stats(stamp());
    assert_eq!(stats.total_chunks, 0);
    assert_eq!(stats.total_files, 0);
}

#[test]
fn test_memory_store_upsert_and_stats() {
    let mut store = MemoryStore::new(3);
    store.init();

    let file_id = new_id();
    let chunks = vec![
        create_test_chunk(new_id(), file_id, "/test/file.txt", vec![1.0, 0.0, 0.0]),
        create_test_chunk(new_id(), file_id, "/test/file.txt", vec![0.0, 1.0, 0.0]),
    ];

    store.upsert_chunks(&chunks);

    let stats = store.stats(stamp());
    assert_eq!(stats.total_chunks, 2);
}

#[test]
fn test_memory_store_search() {
    let mut store = MemoryStore::new(3);
    store.init();

    let file_id = new_id();
    let chunk1_id = new_id();
    let chunks = vec![
        create_test_chunk(chunk1_id, file_id, "/test/file.txt", vec![1.0, 0.0, 0.0]),
        create_test_chunk(new_id(), file_id, "/test/file.txt", vec![0.0, 1.0, 0.0]),
        create_test_chunk(new_id(), file_id, "/test/file.txt", vec![0.0, 0.0, 1.0]),
    ];

    store.upsert_chunks(&chunks);

    let query = bits(&[1.0, 0.0, 0.0]);
    let candidates = store.search_candidates();
    let scores: Vec<u32> = candidates
        .iter()
        .map(|c| cosine(&query, c.embedding.as_ref().unwrap()).to_bits())
        .collect();
    let results = MemoryStore::rank_candidates(&candidates, &scores, 2);
    assert_eq!(results.len(), 2);
    assert_eq!(results[0].chunk_id, chunk1_id);
    assert!((f32::from_bits(results[0].score) - 1.0).abs() < 0.001);
}

#[test]
fn test_memory_store_delete_by_file_path() {
    let mut store = MemoryStore::new(3);
    store.init();

    let chunks = vec![
        create_test_chunk(new_id(), new_id(), "/test/file1.txt", vec![1.0, 0.0, 0.0]),
        create_test_chunk(new_id(), new_id(), "/test/file2.txt", vec![0.0, 1.0, 0.0]),
    ];

    store.upsert_chunks(&chunks);

    let deleted = store.delete_by_file_path("/test/file1.txt");
    assert_eq!(deleted, 1);

    let stats = store.stats(stamp());
    assert_eq!(stats.total_chunks, 1);
}

#[test]
fn test_memory_store_get_all_chunks() {
    let mut store = MemoryStore::new(3);
    store.init();

    let file_id = new_id();
    let chunks = vec![
        create_test_chunk(new_id(), file_id, "/test/file.txt", vec![1.0, 0.0, 0.0]),
        create_test_chunk(new_id(), file_id, "/test/file.txt", vec![0.0, 1.0, 0.0]),
    ];

    store.upsert_chunks(&chunks);

    let all_chunks = store.get_all_chunks();
    assert_eq!(all_chunks.len(), 2);
}

#[test]
fn upsert_replaces_chunk_with_same_id() {
    let mut store = MemoryStore::new(3);
    let id = new_id();
    let mut first = create_test_chunk(id, 7, "/a.txt", vec![1.0, 0.0, 0.0]);
    first.content = "first".to_string();
    let mut second = create_test_chunk(id, 7, "/a.txt", vec![0.0, 1.0, 0.0]);
    second.content = "second".to_string();
    store.upsert_chunks(&[first, second]);
    let all = store.get_all_chunks();
    assert_eq!(all.len(), 1);
    assert_eq!(all[0].content, "second");
    assert_eq!(store.stats(stamp()).total_chunks, 1);
}

#[test]
fn file_read_after_write() {
    let mut store = MemoryStore::default();
    assert_eq!(store.dimension(), 384);
    assert!(store.get_file("/docs/a.md").is_none());
    let record = create_test_record("/docs/a.md", 10);
    store.upsert_file(&record);
    let got = store.get_file("/docs/a.md").unwrap();
    assert_eq!(got.id, record.id);
    assert_eq!(got.path, "/docs/a.md");
    assert_eq!(got.size_bytes, 10);
    // replacing the record at the same path keeps one record
    store.upsert_file(&create_test_record("/docs/a.md", 20));
    assert_eq!(store.get_file("/docs/a.md").unwrap().size_bytes, 20);
    store.upsert_file(&create_test_record("/docs/b.md", 30));
    assert_eq!(store.stats(stamp()).total_files, 2);
    let mut paths: Vec<String> = store.get_all_files().into_iter().map(|f| f.path).collect();
    paths.sort();
    assert_eq!(paths, vec!["/docs/a.md".to_string(), "/docs/b.md".to_string()]);
}

#[test]
fn delete_removes_file_record_and_keeps_other_files() {
    let mut store = MemoryStore::new(3);
    store.upsert_file(&create_test_record("/x.txt", 1));
    store.upsert_file(&create_test_record("/y.txt", 2));
    let keep = new_id();
    store.upsert_chunks(&[
        create_test_chunk(new_id(), 1, "/x.txt", vec![1.0, 0.0, 0.0]),
        create_test_chunk(new_id(), 1, "/x.txt", vec![1.0, 0.0, 0.0]),
        create_test_chunk(keep, 2, "/y.txt", vec![1.0, 0.0, 0.0]),
    ]);
    assert_eq!(store.get_chunks_for_file("/x.txt").len(), 2);
    assert_eq!(store.delete_by_file_path("/x.txt"), 2);
    assert!(store.get_file("/x.txt").is_none());
    assert!(store.get_file("/y.txt").is_some());
    assert!(store.get_chunks_for_file("/x.txt").is_empty());
    let rest = store.get_chunks_for_file("/y.txt");
    assert_eq!(rest.len(), 1);
    assert_eq!(rest[0].id, keep);
    // deleting a path with nothing stored removes nothing
    assert_eq!(store.delete_by_file_path("/nothing"), 0);
}

#[test]
fn update_file_path_moves_chunks_and_record() {
    let mut store = MemoryStore::new(3);
    store.upsert_file(&create_test_record("/old.txt", 5));
    store.upsert_chunks(&[
        create_test_chunk(new_id(), 1, "/old.txt", vec![1.0, 0.0, 0.0]),
        create_test_chunk(new_id(), 1, "/old.txt", vec![0.0, 1.0, 0.0]),
        create_test_chunk(new_id(), 2, "/other.txt", vec![0.0, 0.0, 1.0]),
    ]);
    assert_eq!(store.update_file_path("/old.txt", "/new.txt"), 2);
    assert!(store.get_chunks_for_file("/old.txt").is_empty());
    assert_eq!(store.get_chunks_for_file("/new.txt").len(), 2);
    assert_eq!(store.get_chunks_for_file("/other.txt").len(), 1);
    assert!(store.get_file("/old.txt").is_none());
    let moved = store.get_file("/new.txt").unwrap();
    assert_eq!(moved.path, "/new.txt");
    assert_eq!(moved.size_bytes, 5);
    // moving a path that holds nothing changes nothing
    assert_eq!(store.update_file_path("/missing.txt", "/else.txt"), 0);
    assert!(store.get_file("/else.txt").is_none());
    assert_eq!(store.stats(stamp()).total_chunks, 3);
}

#[test]
fn search_skips_chunks_without_embedding_and_respects_limit() {
    let mut store = MemoryStore::new(3);
    let mut plain = create_test_chunk(new_id(), 1, "/a.txt", vec![1.0, 0.0, 0.0]);
    plain.embedding = None;
    store.upsert_chunks(&[
        plain,
        create_test_chunk(new_id(), 1, "/a.txt", vec![1.0, 0.0, 0.0]),
        create_test_chunk(new_id(), 1, "/a.txt", vec![0.0, 1.0, 0.0]),
    ]);
    let candidates = store.search_candidates();
    assert_eq!(candidates.len(), 2);
    let scores: Vec<u32> = candidates.iter().map(|_| 0.5f32.to_bits()).collect();
    assert_eq!(MemoryStore::rank_candidates(&candidates, &scores, 10).len(), 2);
    assert_eq!(MemoryStore::rank_candidates(&candidates, &scores, 1).len(), 1);
    assert!(MemoryStore::rank_candidates(&candidates, &scores, 0).is_empty());
}

#[test]
fn stats_report_counts_and_given_time() {
    let mut store = MemoryStore::new(3);
    store.upsert_file(&create_test_record("/s.txt", 1));
    let stats = store.stats(Timestamp { secs: 5, nanos: 6 });
    assert_eq!(stats.total_chunks, 0);
    assert_eq!(stats.total_files, 1);
    assert_eq!(stats.index_size_bytes, 0);
    assert_eq!(stats.last_updated, Some(Timestamp { secs: 5, nanos: 6 }));
}

#[test]
fn unchanged_store_lists_chunks_in_the_same_order() {
    let mut store = MemoryStore::new(3);
    let chunks: Vec<Chunk> = (0..8)
        .map(|i| create_test_chunk(new_id(), 1, "/same.txt", vec![i as f32, 1.0, 0.0]))
        .collect();
    store.upsert_chunks(&chunks);
    let first: Vec<u128> = store.get_all_chunks().iter().map(|c| c.id).collect();
    let second: Vec<u128> = store.get_all_chunks().iter().map(|c| c.id).collect();
    assert_eq!(first, second);
    let in_file: Vec<u128> = store.get_chunks_for_file("/same.txt").iter().map(|c| c.id).collect();
    assert_eq!(first, in_file);
    let candidates: Vec<u128> = store.search_candidates().iter().map(|c| c.id).collect();
    assert_eq!(first, candidates);
}
