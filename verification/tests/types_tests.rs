use ragfs::types::{
    ChunkConfig, ChunkMetadata, ChunkOutputMetadata, ContentMetadataInfo, DistanceMetric,
    EmbeddingConfig, FileEvent, FileStatus, IndexStats, Modality,
};

#[test]
fn test_file_status_equality() {
    assert_eq!(FileStatus::Pending, FileStatus::Pending);
    assert_ne!(FileStatus::Pending, FileStatus::Indexed);
}

#[test]
fn test_chunk_config_default() {
    let config = ChunkConfig::default();
    assert_eq!(config.target_size, 512);
    assert_eq!(config.max_size, 1024);
    assert_eq!(config.overlap, 64);
    assert!(config.hierarchical);
    assert_eq!(config.max_depth, 2);
}

#[test]
fn test_embedding_config_default() {
    let config = EmbeddingConfig::default();
    assert!(config.normalize);
    assert!(config.instruction.is_none());
    assert_eq!(config.batch_size, 32);
}

#[test]
fn test_modality_equality() {
    assert_eq!(Modality::Text, Modality::Text);
    assert_ne!(Modality::Text, Modality::Image);
}

#[test]
fn test_distance_metric_default() {
    let metric = DistanceMetric::default();
    assert_eq!(metric, DistanceMetric::Cosine);
}

#[test]
fn test_index_stats_default() {
    let stats = IndexStats::default();
    assert_eq!(stats.total_files, 0);
    assert_eq!(stats.indexed_files, 0);
    assert_eq!(stats.pending_files, 0);
    assert_eq!(stats.error_files, 0);
    assert_eq!(stats.total_chunks, 0);
    assert!(stats.last_update.is_none());
}

#[test]
fn test_chunk_metadata_default() {
    let meta = ChunkMetadata::default();
    assert!(meta.embedding_model.is_none());
    assert!(meta.indexed_at.is_none());
    assert!(meta.token_count.is_none());
    assert!(meta.extra.is_empty());
}

#[test]
fn test_chunk_output_metadata_default() {
    let meta = ChunkOutputMetadata::default();
    assert!(meta.symbol_type.is_none());
    assert!(meta.symbol_name.is_none());
    assert!(meta.language.is_none());
}

#[test]
fn test_content_metadata_info_default() {
    let meta = ContentMetadataInfo::default();
    assert!(meta.title.is_none());
    assert!(meta.author.is_none());
    assert!(meta.language.is_none());
    assert!(meta.page_count.is_none());
    assert!(meta.created_at.is_none());
}

#[test]
fn test_file_event_created() {
    let event = FileEvent::Created("/test/new.txt".to_string());
    match event {
        FileEvent::Created(path) => assert_eq!(path, "/test/new.txt".to_string()),
        _ => panic!("Expected Created event"),
    }
}

#[test]
fn test_file_event_modified() {
    let event = FileEvent::Modified("/test/changed.txt".to_string());
    match event {
        FileEvent::Modified(path) => assert_eq!(path, "/test/changed.txt".to_string()),
        _ => panic!("Expected Modified event"),
    }
}

#[test]
fn test_file_event_deleted() {
    let event = FileEvent::Deleted("/test/removed.txt".to_string());
    match event {
        FileEvent::Deleted(path) => assert_eq!(path, "/test/removed.txt".to_string()),
        _ => panic!("Expected Deleted event"),
    }
}

#[test]
fn test_file_event_renamed() {
    let event = FileEvent::Renamed {
        from: "/test/old.txt".to_string(),
        to: "/test/new.txt".to_string(),
    };
    match event {
        FileEvent::Renamed { from, to } => {
            assert_eq!(from, "/test/old.txt".to_string());
            assert_eq!(to, "/test/new.txt".to_string());
        }
        _ => panic!("Expected Renamed event"),
    }
}

