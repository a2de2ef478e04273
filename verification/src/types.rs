//! Core data types of the semantic filesystem: file records, chunks,
//! extraction output, chunking and embedding configuration, search queries
//! and results, statistics and file events.
//!
//! Values that the library only carries keep plain representations:
//! identifiers are the 128-bit values of UUIDs, paths are strings, points in
//! time are [`Timestamp`]s, and every 32-bit float (embedding components,
//! similarity scores) is held as its IEEE-754 bit pattern (`f32::to_bits`),
//! which converts back without loss (`f32::from_bits`).

use vstd::prelude::*;
use std::collections::HashMap;
use std::ops::Range;

verus! {

// ============================================================================
// Time
// ============================================================================

/// A point in time in UTC: whole seconds since the Unix epoch and the
/// nanoseconds elapsed within that second.
#[derive(Debug, Clone, Copy, PartialEq, Eq, Structural)]
pub struct Timestamp {
    pub secs: i64,
    pub nanos: u32,
}

// ============================================================================
// Small cloning helpers whose results equal their inputs
// ============================================================================

/// Clones an optional string; the copy equals the input.
pub fn clone_opt_string(s: &Option<String>) -> (r: Option<String>)
    ensures
        r == *s,
{
    match s {
        Some(v) => Some(v.clone()),
        None => None,
    }
}

/// Copies a byte range; the copy equals the input.
pub fn copy_range_u64(r: &Range<u64>) -> (c: Range<u64>)
    ensures
        c == *r,
{
    r.start..r.end
}

/// Copies an optional line range; the copy equals the input.
pub fn copy_opt_range_u32(r: &Option<Range<u32>>) -> (c: Option<Range<u32>>)
    ensures
        c == *r,
{
    match r {
        Some(x) => Some(x.start..x.end),
        None => None,
    }
}

/// The view of an optional string: the optional sequence of its characters.
pub open spec fn opt_string_view(s: Option<String>) -> Option<Seq<char>> {
    match s {
        Some(v) => Some(v@),
        None => None,
    }
}

// ============================================================================
// File Records
// ============================================================================

/// Metadata about an indexed file.
#[derive(Debug)]
pub struct FileRecord {
    /// Unique file identifier (the 128-bit value of a UUID)
    pub id: u128,
    /// Absolute path to the file
    pub path: String,
    /// File size in bytes
    pub size_bytes: u64,
    /// MIME type
    pub mime_type: String,
    /// Content hash for change detection (blake3)
    pub content_hash: String,
    /// Last modification time
    pub modified_at: Timestamp,
    /// When the file was indexed (None if not yet indexed)
    pub indexed_at: Option<Timestamp>,
    /// Number of chunks produced
    pub chunk_count: u32,
    /// Current indexing status
    pub status: FileStatus,
    /// Error message if status is Error
    pub error_message: Option<String>,
}

/// The mathematical value of a [`FileRecord`].
pub struct FileRecordView {
    pub id: u128,
    pub path: Seq<char>,
    pub size_bytes: u64,
    pub mime_type: Seq<char>,
    pub content_hash: Seq<char>,
    pub modified_at: Timestamp,
    pub indexed_at: Option<Timestamp>,
    pub chunk_count: u32,
    pub status: FileStatus,
    pub error_message: Option<Seq<char>>,
}

impl View for FileRecord {
    type V = FileRecordView;

    open spec fn view(&self) -> FileRecordView {
        FileRecordView {
            id: self.id,
            path: self.path@,
            size_bytes: self.size_bytes,
            mime_type: self.mime_type@,
            content_hash: self.content_hash@,
            modified_at: self.modified_at,
            indexed_at: self.indexed_at,
            chunk_count: self.chunk_count,
            status: self.status,
            error_message: opt_string_view(self.error_message),
        }
    }
}

impl Clone for FileRecord {
    fn clone(&self) -> (r: Self)
        ensures
            r == *self,
    {
        FileRecord {
            id: self.id,
            path: self.path.clone(),
            size_bytes: self.size_bytes,
            mime_type: self.mime_type.clone(),
            content_hash: self.content_hash.clone(),
            modified_at: self.modified_at,
            indexed_at: self.indexed_at,
            chunk_count: self.chunk_count,
            status: self.status,
            error_message: clone_opt_string(&self.error_message),
        }
    }
}

/// File indexing status.
#[derive(Debug, Clone, Copy, PartialEq, Eq, Structural)]
pub enum FileStatus {
    /// Waiting to be indexed
    Pending,
    /// Currently being indexed
    Indexing,
    /// Successfully indexed
    Indexed,
    /// Indexing failed
    Error,
    /// File was deleted
    Deleted,
}

// ============================================================================
// Chunks
// ============================================================================

/// A chunk of content from a file.
#[derive(Debug)]
pub struct Chunk {
    /// Unique chunk identifier (the 128-bit value of a UUID)
    pub id: u128,
    /// Parent file identifier
    pub file_id: u128,
    /// Path to the source file
    pub file_path: String,
    /// The actual content
    pub content: String,
    /// Type of content
    pub content_type: ContentType,
    /// MIME type of the source file
    pub mime_type: Option<String>,
    /// Position in file (0-indexed)
    pub chunk_index: u32,
    /// Byte range in source file
    pub byte_range: Range<u64>,
    /// Line range (if applicable)
    pub line_range: Option<Range<u32>>,
    /// Parent chunk ID (for hierarchical chunking)
    pub parent_chunk_id: Option<u128>,
    /// Depth in hierarchy (0 = root)
    pub depth: u8,
    /// Embedding vector (if computed), each component as its f32 bit pattern
    pub embedding: Option<Vec<u32>>,
    /// Hierarchical directory path (e.g., "src/auth")
    pub dir_path: String,
    /// Depth in directory tree
    pub dir_depth: u16,
    /// Comma-separated path components (e.g., "src,auth,login.rs")
    pub path_components: String,
    /// Additional metadata
    pub metadata: ChunkMetadata,
}

/// The mathematical value of a [`Chunk`].
pub struct ChunkView {
    pub id: u128,
    pub file_id: u128,
    pub file_path: Seq<char>,
    pub content: Seq<char>,
    pub content_type: ContentType,
    pub mime_type: Option<Seq<char>>,
    pub chunk_index: u32,
    pub byte_range: Range<u64>,
    pub line_range: Option<Range<u32>>,
    pub parent_chunk_id: Option<u128>,
    pub depth: u8,
    pub embedding: Option<Seq<u32>>,
    pub dir_path: Seq<char>,
    pub dir_depth: u16,
    pub path_components: Seq<char>,
    pub metadata: ChunkMetadataView,
}

impl View for Chunk {
    type V = ChunkView;

    open spec fn view(&self) -> ChunkView {
        ChunkView {
            id: self.id,
            file_id: self.file_id,
            file_path: self.file_path@,
            content: self.content@,
            content_type: self.content_type,
            mime_type: opt_string_view(self.mime_type),
            chunk_index: self.chunk_index,
            byte_range: self.byte_range,
            line_range: self.line_range,
            parent_chunk_id: self.parent_chunk_id,
            depth: self.depth,
            embedding: match self.embedding {
                Some(e) => Some(e@),
                None => None,
            },
            dir_path: self.dir_path@,
            dir_depth: self.dir_depth,
            path_components: self.path_components@,
            metadata: self.metadata@,
        }
    }
}

impl Clone for Chunk {
    fn clone(&self) -> (r: Self)
        ensures
            r@ == self@,
    {
        let embedding = match &self.embedding {
            Some(e) => Some(e.clone()),
            None => None,
        };
        proof {
            if self.embedding is Some {
                assert(embedding.unwrap()@ =~= self.embedding.unwrap()@);
            }
        }
        Chunk {
            id: self.id,
            file_id: self.file_id,
            file_path: self.file_path.clone(),
            content: self.content.clone(),
            content_type: self.content_type.clone(),
            mime_type: clone_opt_string(&self.mime_type),
            chunk_index: self.chunk_index,
            byte_range: copy_range_u64(&self.byte_range),
            line_range: copy_opt_range_u32(&self.line_range),
            parent_chunk_id: self.parent_chunk_id,
            depth: self.depth,
            embedding,
            dir_path: self.dir_path.clone(),
            dir_depth: self.dir_depth,
            path_components: self.path_components.clone(),
            metadata: self.metadata.clone(),
        }
    }
}

/// Type of chunk content.
#[derive(Debug)]
pub enum ContentType {
    /// Plain text content
    Text,
    /// Source code
    Code {
        /// Programming language
        language: String,
        /// Code symbol information
        symbol: Option<CodeSymbol>,
    },
    /// Caption for an image
    ImageCaption,
    /// Content from a PDF page
    PdfPage {
        /// Page number (1-indexed)
        page_num: u32,
    },
    /// Markdown content
    Markdown,
}

impl Clone for ContentType {
    fn clone(&self) -> (r: Self)
        ensures
            r == *self,
    {
        match self {
            ContentType::Text => ContentType::Text,
            ContentType::Code { language, symbol } => ContentType::Code {
                language: language.clone(),
                symbol: match symbol {
                    Some(s) => Some(s.clone()),
                    None => None,
                },
            },
            ContentType::ImageCaption => ContentType::ImageCaption,
            ContentType::PdfPage { page_num } => ContentType::PdfPage { page_num: *page_num },
            ContentType::Markdown => ContentType::Markdown,
        }
    }
}

/// Code symbol information.
#[derive(Debug)]
pub struct CodeSymbol {
    /// Type of symbol
    pub kind: SymbolKind,
    /// Symbol name
    pub name: String,
}

impl Clone for CodeSymbol {
    fn clone(&self) -> (r: Self)
        ensures
            r == *self,
    {
        CodeSymbol { kind: self.kind, name: self.name.clone() }
    }
}

/// Types of code symbols.
#[derive(Debug, Clone, Copy, PartialEq, Eq, Structural)]
pub enum SymbolKind {
    Function,
    Method,
    Class,
    Struct,
    Enum,
    Module,
    Constant,
    Variable,
    Interface,
    Trait,
}

/// Metadata associated with a chunk.
#[derive(Debug)]
pub struct ChunkMetadata {
    /// Embedding model used
    pub embedding_model: Option<String>,
    /// When chunk was indexed
    pub indexed_at: Option<Timestamp>,
    /// Token count (approximate)
    pub token_count: Option<usize>,
    /// Additional key-value metadata
    pub extra: HashMap<String, String>,
}

/// The mathematical value of a [`ChunkMetadata`].
pub struct ChunkMetadataView {
    pub embedding_model: Option<String>,
    pub indexed_at: Option<Timestamp>,
    pub token_count: Option<usize>,
    pub extra: Map<String, String>,
}

impl View for ChunkMetadata {
    type V = ChunkMetadataView;

    open spec fn view(&self) -> ChunkMetadataView {
        ChunkMetadataView {
            embedding_model: self.embedding_model,
            indexed_at: self.indexed_at,
            token_count: self.token_count,
            extra: self.extra@,
        }
    }
}

impl Clone for ChunkMetadata {
    fn clone(&self) -> (r: Self)
        ensures
            r@ == self@,
    {
        ChunkMetadata {
            embedding_model: clone_opt_string(&self.embedding_model),
            indexed_at: self.indexed_at,
            token_count: self.token_count,
            extra: self.extra.clone(),
        }
    }
}

impl Default for ChunkMetadata {
    fn default() -> (r: Self)
        ensures
            r.embedding_model is None,
            r.indexed_at is None,
            r.token_count is None,
            r.extra@ == Map::<String, String>::empty(),
    {
        ChunkMetadata {
            embedding_model: None,
            indexed_at: None,
            token_count: None,
            extra: HashMap::new(),
        }
    }
}

// ============================================================================
// Extraction
// ============================================================================

/// Content extracted from a file.
#[derive(Debug, Clone)]
pub struct ExtractedContent {
    /// Main text content
    pub text: String,
    /// Structured elements
    pub elements: Vec<ContentElement>,
    /// Extracted images
    pub images: Vec<ExtractedImage>,
    /// File-level metadata
    pub metadata: ContentMetadataInfo,
}

/// A structural element in extracted content.
#[derive(Debug, Clone)]
pub enum ContentElement {
    Heading { level: u8, text: String, byte_offset: u64 },
    Paragraph { text: String, byte_offset: u64 },
    CodeBlock { language: Option<String>, code: String, byte_offset: u64 },
    List { items: Vec<String>, ordered: bool, byte_offset: u64 },
    Table { headers: Vec<String>, rows: Vec<Vec<String>>, byte_offset: u64 },
}

/// An image extracted from a document.
#[derive(Debug, Clone)]
pub struct ExtractedImage {
    /// Raw image data
    pub data: Vec<u8>,
    /// MIME type
    pub mime_type: String,
    /// Caption if available
    pub caption: Option<String>,
    /// Page number (for PDFs)
    pub page: Option<u32>,
}

/// Metadata extracted from file content.
#[derive(Debug, Clone)]
pub struct ContentMetadataInfo {
    /// Document title
    pub title: Option<String>,
    /// Author
    pub author: Option<String>,
    /// Language
    pub language: Option<String>,
    /// Page count (for PDFs)
    pub page_count: Option<u32>,
    /// Creation date
    pub created_at: Option<Timestamp>,
}

impl Default for ContentMetadataInfo {
    fn default() -> (r: Self)
        ensures
            r.title is None,
            r.author is None,
            r.language is None,
            r.page_count is None,
            r.created_at is None,
    {
        ContentMetadataInfo { title: None, author: None, language: None, page_count: None, created_at: None }
    }
}

// ============================================================================
// Chunking
// ============================================================================

/// Configuration for chunking.
#[derive(Debug, Clone, Copy, PartialEq, Eq, Structural)]
pub struct ChunkConfig {
    /// Target chunk size in tokens
    pub target_size: usize,
    /// Maximum chunk size in tokens
    pub max_size: usize,
    /// Overlap between chunks in tokens
    pub overlap: usize,
    /// Enable hierarchical chunking
    pub hierarchical: bool,
    /// Maximum hierarchy depth
    pub max_depth: u8,
}

impl Default for ChunkConfig {
    /// Chunks target 512 tokens, never exceed 1024, overlap by 64, and are
    /// hierarchical down to depth 2.
    fn default() -> (r: Self)
        ensures
            r == (ChunkConfig {
                target_size: 512,
                max_size: 1024,
                overlap: 64,
                hierarchical: true,
                max_depth: 2,
            }),
    {
        ChunkConfig { target_size: 512, max_size: 1024, overlap: 64, hierarchical: true, max_depth: 2 }
    }
}

/// Output from a chunker.
#[derive(Debug)]
pub struct ChunkOutput {
    /// Chunk content
    pub content: String,
    /// Byte range in source
    pub byte_range: Range<u64>,
    /// Line range if applicable
    pub line_range: Option<Range<u32>>,
    /// Index of parent chunk (in output array)
    pub parent_index: Option<usize>,
    /// Depth in hierarchy
    pub depth: u8,
    /// Additional metadata
    pub metadata: ChunkOutputMetadata,
}

/// Metadata for chunk output.
#[derive(Debug)]
pub struct ChunkOutputMetadata {
    /// Symbol type (for code)
    pub symbol_type: Option<String>,
    /// Symbol name (for code)
    pub symbol_name: Option<String>,
    /// Programming language
    pub language: Option<String>,
}

impl Clone for ChunkOutput {
    fn clone(&self) -> (r: Self)
        ensures
            r == *self,
    {
        ChunkOutput {
            content: self.content.clone(),
            byte_range: copy_range_u64(&self.byte_range),
            line_range: copy_opt_range_u32(&self.line_range),
            parent_index: self.parent_index,
            depth: self.depth,
            metadata: self.metadata.clone(),
        }
    }
}

impl Clone for ChunkOutputMetadata {
    fn clone(&self) -> (r: Self)
        ensures
            r == *self,
    {
        ChunkOutputMetadata {
            symbol_type: clone_opt_string(&self.symbol_type),
            symbol_name: clone_opt_string(&self.symbol_name),
            language: clone_opt_string(&self.language),
        }
    }
}

impl Default for ChunkOutputMetadata {
    fn default() -> (r: Self)
        ensures
            r.symbol_type is None,
            r.symbol_name is None,
            r.language is None,
    {
        ChunkOutputMetadata { symbol_type: None, symbol_name: None, language: None }
    }
}

// ============================================================================
// Embedding
// ============================================================================

/// Supported modalities for embedding.
#[derive(Debug, Clone, Copy, PartialEq, Eq, Structural)]
pub enum Modality {
    Text,
    Image,
    Audio,
}

/// Configuration for embedding.
#[derive(Debug, Clone)]
pub struct EmbeddingConfig {
    /// Normalize embeddings to unit length
    pub normalize: bool,
    /// Instruction prefix for models that support it
    pub instruction: Option<String>,
    /// Batch size for processing
    pub batch_size: usize,
}

impl Default for EmbeddingConfig {
    /// Embeddings are normalized, carry no instruction prefix, and are
    /// computed in batches of 32.
    fn default() -> (r: Self)
        ensures
            r.normalize,
            r.instruction is None,
            r.batch_size == 32,
    {
        EmbeddingConfig { normalize: true, instruction: None, batch_size: 32 }
    }
}

/// Output from embedding.
#[derive(Debug, Clone)]
pub struct EmbeddingOutput {
    /// The embedding vector, each component as its f32 bit pattern
    pub embedding: Vec<u32>,
    /// Number of tokens in input
    pub token_count: usize,
}

// ============================================================================
// Search
// ============================================================================

/// A search query.
#[derive(Debug, Clone)]
pub struct SearchQuery {
    /// Query embedding, each component as its f32 bit pattern
    pub embedding: Vec<u32>,
    /// Optional text for hybrid search
    pub text: Option<String>,
    /// Maximum results to return
    pub limit: usize,
    /// Search filters
    pub filters: Vec<SearchFilter>,
    /// Distance metric
    pub metric: DistanceMetric,
    /// Optional directory scope prefix (e.g., "src/auth/")
    pub scope_prefix: Option<String>,
}

/// Search filters.
#[derive(Debug, Clone)]
pub enum SearchFilter {
    /// Match files with path prefix
    PathPrefix(String),
    /// Match files by glob pattern
    PathGlob(String),
    /// Match by MIME type
    MimeType(String),
    /// Match by programming language
    Language(String),
    /// Files modified after date
    ModifiedAfter(Timestamp),
    /// Files modified before date
    ModifiedBefore(Timestamp),
    /// Minimum hierarchy depth
    MinDepth(u8),
    /// Maximum hierarchy depth
    MaxDepth(u8),
}

/// Distance metric for vector search.
#[derive(Debug, Clone, Copy, PartialEq, Eq, Structural)]
pub enum DistanceMetric {
    Cosine,
    L2,
    Dot,
}

impl Default for DistanceMetric {
    /// Cosine similarity is the default metric.
    fn default() -> (r: Self)
        ensures
            r == DistanceMetric::Cosine,
    {
        DistanceMetric::Cosine
    }
}

/// A search result.
#[derive(Debug)]
pub struct SearchResult {
    /// Chunk ID
    pub chunk_id: u128,
    /// File path
    pub file_path: String,
    /// Chunk content
    pub content: String,
    /// Similarity score, as its f32 bit pattern
    pub score: u32,
    /// Byte range in file
    pub byte_range: Range<u64>,
    /// Line range if available
    pub line_range: Option<Range<u32>>,
    /// Additional metadata
    pub metadata: HashMap<String, String>,
}

/// The mathematical value of a [`SearchResult`].
pub struct SearchResultView {
    pub chunk_id: u128,
    pub file_path: Seq<char>,
    pub content: Seq<char>,
    pub score: u32,
    pub byte_range: Range<u64>,
    pub line_range: Option<Range<u32>>,
    pub metadata: Map<String, String>,
}

impl View for SearchResult {
    type V = SearchResultView;

    open spec fn view(&self) -> SearchResultView {
        SearchResultView {
            chunk_id: self.chunk_id,
            file_path: self.file_path@,
            content: self.content@,
            score: self.score,
            byte_range: self.byte_range,
            line_range: self.line_range,
            metadata: self.metadata@,
        }
    }
}

/// Vector store statistics.
#[derive(Debug, Clone, Copy, PartialEq, Eq, Structural)]
pub struct StoreStats {
    /// Total number of chunks
    pub total_chunks: u64,
    /// Total number of files
    pub total_files: u64,
    /// Index size in bytes
    pub index_size_bytes: u64,
    /// Last update time
    pub last_updated: Option<Timestamp>,
}

// ============================================================================
// Index Status
// ============================================================================

/// Overall index statistics.
#[derive(Debug, Clone, Copy, PartialEq, Eq, Structural)]
pub struct IndexStats {
    /// Total files tracked
    pub total_files: u64,
    /// Successfully indexed files
    pub indexed_files: u64,
    /// Files pending indexing
    pub pending_files: u64,
    /// Files with errors
    pub error_files: u64,
    /// Total chunks stored
    pub total_chunks: u64,
    /// Last update time
    pub last_update: Option<Timestamp>,
}

impl Default for IndexStats {
    fn default() -> (r: Self)
        ensures
            r == (IndexStats {
                total_files: 0,
                indexed_files: 0,
                pending_files: 0,
                error_files: 0,
                total_chunks: 0,
                last_update: None,
            }),
    {
        IndexStats {
            total_files: 0,
            indexed_files: 0,
            pending_files: 0,
            error_files: 0,
            total_chunks: 0,
            last_update: None,
        }
    }
}

// ============================================================================
// File Events
// ============================================================================

/// File system event for indexing.
#[derive(Debug, Clone)]
pub enum FileEvent {
    Created(String),
    Modified(String),
    Deleted(String),
    Renamed { from: String, to: String },
}

} // verus!
