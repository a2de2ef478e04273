//! Arrow schemas of the chunk table and the file metadata table.
//!
//! The columns of each table are listed here as plain values
//! ([`ColumnDef`]); the arrow-schema crate builds the [`Schema`] from them.

use vstd::prelude::*;
use arrow_schema::{DataType, Field, Schema, TimeUnit};
use std::sync::Arc;

verus! {

#[verifier::external_type_specification]
#[verifier::external_body]
pub struct ExSchema(Schema);

#[verifier::external_type_specification]
#[verifier::external_body]
pub struct ExField(Field);

#[verifier::external_type_specification]
#[verifier::external_body]
pub struct ExDataType(DataType);

/// The single-value types of the columns of the chunk and file tables.
#[derive(Debug, Clone, Copy, PartialEq, Eq, Structural)]
pub enum ScalarType {
    /// UTF-8 string
    Utf8,
    /// Unsigned 8-bit integer
    UInt8,
    /// Unsigned 16-bit integer
    UInt16,
    /// Unsigned 32-bit integer
    UInt32,
    /// Unsigned 64-bit integer
    UInt64,
    /// 32-bit float
    Float32,
    /// A point in time, in milliseconds, without a time zone
    TimestampMillis,
}

/// The value types of the columns of the chunk and file tables.
#[derive(Debug, Clone, Copy, PartialEq, Eq, Structural)]
pub enum ColumnType {
    /// A single value
    Scalar(ScalarType),
    /// A list of exactly this many nullable 32-bit floats (an embedding)
    Float32List(i32),
}

/// A column of a table: its name, value type and whether it may hold nulls.
#[derive(Debug)]
pub struct ColumnDef {
    pub name: String,
    pub data_type: ColumnType,
    pub nullable: bool,
}

/// The mathematical value of a [`ColumnDef`].
pub struct ColumnSpec {
    pub name: Seq<char>,
    pub data_type: ColumnType,
    pub nullable: bool,
}

impl View for ColumnDef {
    type V = ColumnSpec;

    open spec fn view(&self) -> ColumnSpec {
        ColumnSpec { name: self.name@, data_type: self.data_type, nullable: self.nullable }
    }
}

/// The views of a sequence of columns.
pub open spec fn columns_view(cols: Seq<ColumnDef>) -> Seq<ColumnSpec> {
    cols.map_values(|c: ColumnDef| c@)
}

/// The column named `name`.
pub open spec fn col(name: &str, data_type: ColumnType, nullable: bool) -> ColumnSpec {
    ColumnSpec { name: name@, data_type, nullable }
}

fn column(name: &str, data_type: ColumnType, nullable: bool) -> (c: ColumnDef)
    ensures
        c@ == col(name, data_type, nullable),
{
    ColumnDef { name: name.to_owned(), data_type, nullable }
}

/// The columns of the chunk table, in order, for embeddings of dimension
/// `embedding_dim` (converted to `i32` as Rust's `as` converts, wrapping
/// values above `i32::MAX`).
pub open spec fn chunk_columns_spec(embedding_dim: usize) -> Seq<ColumnSpec> {
    seq![
        // Identity
        col("chunk_id", ColumnType::Scalar(ScalarType::Utf8), false),
        col("file_id", ColumnType::Scalar(ScalarType::Utf8), false),
        col("file_path", ColumnType::Scalar(ScalarType::Utf8), false),
        // Content
        col("content", ColumnType::Scalar(ScalarType::Utf8), false),
        col("content_type", ColumnType::Scalar(ScalarType::Utf8), false),
        // Position
        col("chunk_index", ColumnType::Scalar(ScalarType::UInt32), false),
        col("start_byte", ColumnType::Scalar(ScalarType::UInt64), false),
        col("end_byte", ColumnType::Scalar(ScalarType::UInt64), false),
        col("start_line", ColumnType::Scalar(ScalarType::UInt32), true),
        col("end_line", ColumnType::Scalar(ScalarType::UInt32), true),
        // Hierarchy
        col("parent_chunk_id", ColumnType::Scalar(ScalarType::Utf8), true),
        col("depth", ColumnType::Scalar(ScalarType::UInt8), false),
        // Embedding
        col("embedding", ColumnType::Float32List(embedding_dim as i32), false),
        // Metadata
        col("embedding_model", ColumnType::Scalar(ScalarType::Utf8), true),
        col("indexed_at", ColumnType::Scalar(ScalarType::TimestampMillis), false),
        // File metadata (denormalized)
        col("file_mime_type", ColumnType::Scalar(ScalarType::Utf8), true),
        col("file_size_bytes", ColumnType::Scalar(ScalarType::UInt64), true),
        // Code-specific
        col("language", ColumnType::Scalar(ScalarType::Utf8), true),
        col("symbol_type", ColumnType::Scalar(ScalarType::Utf8), true),
        col("symbol_name", ColumnType::Scalar(ScalarType::Utf8), true),
        // Scoped search
        col("dir_path", ColumnType::Scalar(ScalarType::Utf8), false),
        col("dir_depth", ColumnType::Scalar(ScalarType::UInt16), false),
        col("path_components", ColumnType::Scalar(ScalarType::Utf8), false),
    ]
}

/// The columns of the file metadata table, in order.
pub open spec fn file_columns_spec() -> Seq<ColumnSpec> {
    seq![
        col("file_id", ColumnType::Scalar(ScalarType::Utf8), false),
        col("path", ColumnType::Scalar(ScalarType::Utf8), false),
        col("size_bytes", ColumnType::Scalar(ScalarType::UInt64), false),
        col("mime_type", ColumnType::Scalar(ScalarType::Utf8), false),
        col("content_hash", ColumnType::Scalar(ScalarType::Utf8), false),
        col("modified_at", ColumnType::Scalar(ScalarType::TimestampMillis), false),
        col("indexed_at", ColumnType::Scalar(ScalarType::TimestampMillis), true),
        col("chunk_count", ColumnType::Scalar(ScalarType::UInt32), false),
        col("status", ColumnType::Scalar(ScalarType::Utf8), false),
        col("error_message", ColumnType::Scalar(ScalarType::Utf8), true),
    ]
}

/// The chunk-table columns that may hold nulls: those that come from an
/// optional field of a chunk or of its metadata (the line range, the parent
/// chunk, the embedding model, the file's MIME type and size, and the code
/// language and symbol).
pub open spec fn chunk_column_optional(name: Seq<char>) -> bool {
    name == "start_line"@
        || name == "end_line"@
        || name == "parent_chunk_id"@
        || name == "embedding_model"@
        || name == "file_mime_type"@
        || name == "file_size_bytes"@
        || name == "language"@
        || name == "symbol_type"@
        || name == "symbol_name"@
}

/// The file-table columns that may hold nulls: those that come from an
/// optional field of a file record (indexing time and error message).
pub open spec fn file_column_optional(name: Seq<char>) -> bool {
    name == "indexed_at"@
        || name == "error_message"@
}

/// The chunk table has 23 columns; a column may hold
/// nulls exactly when it comes from an optional field, and the embedding
/// column is a list of the requested dimension.
pub proof fn lemma_chunk_columns_nullability(embedding_dim: usize)
    ensures
        chunk_columns_spec(embedding_dim).len() == 23,
        forall|i: int|
            0 <= i < 23 ==> (#[trigger] chunk_columns_spec(embedding_dim)[i]).nullable
                == chunk_column_optional(chunk_columns_spec(embedding_dim)[i].name),
        forall|i: int|
            0 <= i < 23 && (#[trigger] chunk_columns_spec(embedding_dim)[i]).name == "embedding"@
                ==> chunk_columns_spec(embedding_dim)[i].data_type == ColumnType::Float32List(
                #[verifier::truncate]
                (embedding_dim as i32),
            ),
{
    reveal_strlit("chunk_count");
    reveal_strlit("chunk_id");
    reveal_strlit("chunk_index");
    reveal_strlit("content");
    reveal_strlit("content_hash");
    reveal_strlit("content_type");
    reveal_strlit("depth");
    reveal_strlit("dir_depth");
    reveal_strlit("dir_path");
    reveal_strlit("embedding");
    reveal_strlit("embedding_model");
    reveal_strlit("end_byte");
    reveal_strlit("end_line");
    reveal_strlit("error_message");
    reveal_strlit("file_id");
    reveal_strlit("file_mime_type");
    reveal_strlit("file_path");
    reveal_strlit("file_size_bytes");
    reveal_strlit("indexed_at");
    reveal_strlit("language");
    reveal_strlit("mime_type");
    reveal_strlit("modified_at");
    reveal_strlit("parent_chunk_id");
    reveal_strlit("path");
    reveal_strlit("path_components");
    reveal_strlit("size_bytes");
    reveal_strlit("start_byte");
    reveal_strlit("start_line");
    reveal_strlit("status");
    reveal_strlit("symbol_name");
    reveal_strlit("symbol_type");
    assert("chunk_id"@.len() != "start_line"@.len());
    assert("chunk_id"@[0] != "end_line"@[0]);
    assert("chunk_id"@.len() != "parent_chunk_id"@.len());
    assert("chunk_id"@.len() != "embedding_model"@.len());
    assert("chunk_id"@.len() != "file_mime_type"@.len());
    assert("chunk_id"@.len() != "file_size_bytes"@.len());
    assert("chunk_id"@[0] != "language"@[0]);
    assert("chunk_id"@.len() != "symbol_type"@.len());
    assert("chunk_id"@.len() != "symbol_name"@.len());
    assert("file_id"@.len() != "start_line"@.len());
    assert("file_id"@.len() != "end_line"@.len());
    assert("file_id"@.len() != "parent_chunk_id"@.len());
    assert("file_id"@.len() != "embedding_model"@.len());
    assert("file_id"@.len() != "file_mime_type"@.len());
    assert("file_id"@.len() != "file_size_bytes"@.len());
    assert("file_id"@.len() != "language"@.len());
    assert("file_id"@.len() != "symbol_type"@.len());
    assert("file_id"@.len() != "symbol_name"@.len());
    assert("file_path"@.len() != "start_line"@.len());
    assert("file_path"@.len() != "end_line"@.len());
    assert("file_path"@.len() != "parent_chunk_id"@.len());
    assert("file_path"@.len() != "embedding_model"@.len());
    assert("file_path"@.len() != "file_mime_type"@.len());
    assert("file_path"@.len() != "file_size_bytes"@.len());
    assert("file_path"@.len() != "language"@.len());
    assert("file_path"@.len() != "symbol_type"@.len());
    assert("file_path"@.len() != "symbol_name"@.len());
    assert("content"@.len() != "start_line"@.len());
    assert("content"@.len() != "end_line"@.len());
    assert("content"@.len() != "parent_chunk_id"@.len());
    assert("content"@.len() != "embedding_model"@.len());
    assert("content"@.len() != "file_mime_type"@.len());
    assert("content"@.len() != "file_size_bytes"@.len());
    assert("content"@.len() != "language"@.len());
    assert("content"@.len() != "symbol_type"@.len());
    assert("content"@.len() != "symbol_name"@.len());
    assert("content_type"@.len() != "start_line"@.len());
    assert("content_type"@.len() != "end_line"@.len());
    assert("content_type"@.len() != "parent_chunk_id"@.len());
    assert("content_type"@.len() != "embedding_model"@.len());
    assert("content_type"@.len() != "file_mime_type"@.len());
    assert("content_type"@.len() != "file_size_bytes"@.len());
    assert("content_type"@.len() != "language"@.len());
    assert("content_type"@.len() != "symbol_type"@.len());
    assert("content_type"@.len() != "symbol_name"@.len());
    assert("chunk_index"@.len() != "start_line"@.len());
    assert("chunk_index"@.len() != "end_line"@.len());
    assert("chunk_index"@.len() != "parent_chunk_id"@.len());
    assert("chunk_index"@.len() != "embedding_model"@.len());
    assert("chunk_index"@.len() != "file_mime_type"@.len());
    assert("chunk_index"@.len() != "file_size_bytes"@.len());
    assert("chunk_index"@.len() != "language"@.len());
    assert("chunk_index"@[0] != "symbol_type"@[0]);
    assert("chunk_index"@[0] != "symbol_name"@[0]);
    assert("start_byte"@[6] != "start_line"@[6]);
    assert("start_byte"@.len() != "end_line"@.len());
    assert("start_byte"@.len() != "parent_chunk_id"@.len());
    assert("start_byte"@.len() != "embedding_model"@.len());
    assert("start_byte"@.len() != "file_mime_type"@.len());
    assert("start_byte"@.len() != "file_size_bytes"@.len());
    assert("start_byte"@.len() != "language"@.len());
    assert("start_byte"@.len() != "symbol_type"@.len());
    assert("start_byte"@.len() != "symbol_name"@.len());
    assert("end_byte"@.len() != "start_line"@.len());
    assert("end_byte"@[4] != "end_line"@[4]);
    assert("end_byte"@.len() != "parent_chunk_id"@.len());
    assert("end_byte"@.len() != "embedding_model"@.len());
    assert("end_byte"@.len() != "file_mime_type"@.len());
    assert("end_byte"@.len() != "file_size_bytes"@.len());
    assert("end_byte"@[0] != "language"@[0]);
    assert("end_byte"@.len() != "symbol_type"@.len());
    assert("end_byte"@.len() != "symbol_name"@.len());
    assert("depth"@.len() != "start_line"@.len());
    assert("depth"@.len() != "end_line"@.len());
    assert("depth"@.len() != "parent_chunk_id"@.len());
    assert("depth"@.len() != "embedding_model"@.len());
    assert("depth"@.len() != "file_mime_type"@.len());
    assert("depth"@.len() != "file_size_bytes"@.len());
    assert("depth"@.len() != "language"@.len());
    assert("depth"@.len() != "symbol_type"@.len());
    assert("depth"@.len() != "symbol_name"@.len());
    assert("embedding"@.len() != "start_line"@.len());
    assert("embedding"@.len() != "end_line"@.len());
    assert("embedding"@.len() != "parent_chunk_id"@.len());
    assert("embedding"@.len() != "embedding_model"@.len());
    assert("embedding"@.len() != "file_mime_type"@.len());
    assert("embedding"@.len() != "file_size_bytes"@.len());
    assert("embedding"@.len() != "language"@.len());
    assert("embedding"@.len() != "symbol_type"@.len());
    assert("embedding"@.len() != "symbol_name"@.len());
    assert("indexed_at"@[0] != "start_line"@[0]);
    assert("indexed_at"@.len() != "end_line"@.len());
    assert("indexed_at"@.len() != "parent_chunk_id"@.len());
    assert("indexed_at"@.len() != "embedding_model"@.len());
    assert("indexed_at"@.len() != "file_mime_type"@.len());
    assert("indexed_at"@.len() != "file_size_bytes"@.len());
    assert("indexed_at"@.len() != "language"@.len());
    assert("indexed_at"@.len() != "symbol_type"@.len());
    assert("indexed_at"@.len() != "symbol_name"@.len());
    assert("dir_path"@.len() != "start_line"@.len());
    assert("dir_path"@[0] != "end_line"@[0]);
    assert("dir_path"@.len() != "parent_chunk_id"@.len());
    assert("dir_path"@.len() != "embedding_model"@.len());
    assert("dir_path"@.len() != "file_mime_type"@.len());
    assert("dir_path"@.len() != "file_size_bytes"@.len());
    assert("dir_path"@[0] != "language"@[0]);
    assert("dir_path"@.len() != "symbol_type"@.len());
    assert("dir_path"@.len() != "symbol_name"@.len());
    assert("dir_depth"@.len() != "start_line"@.len());
    assert("dir_depth"@.len() != "end_line"@.len());
    assert("dir_depth"@.len() != "parent_chunk_id"@.len());
    assert("dir_depth"@.len() != "embedding_model"@.len());
    assert("dir_depth"@.len() != "file_mime_type"@.len());
    assert("dir_depth"@.len() != "file_size_bytes"@.len());
    assert("dir_depth"@.len() != "language"@.len());
    assert("dir_depth"@.len() != "symbol_type"@.len());
    assert("dir_depth"@.len() != "symbol_name"@.len());
    assert("path_components"@.len() != "start_line"@.len());
    assert("path_components"@.len() != "end_line"@.len());
    assert("path_components"@[2] != "parent_chunk_id"@[2]);
    assert("path_components"@[0] != "embedding_model"@[0]);
    assert("path_components"@.len() != "file_mime_type"@.len());
    assert("path_components"@[0] != "file_size_bytes"@[0]);
    assert("path_components"@.len() != "language"@.len());
    assert("path_components"@.len() != "symbol_type"@.len());
    assert("path_components"@.len() != "symbol_name"@.len());
    assert("embedding"@.len() != "chunk_id"@.len());
    assert("embedding"@.len() != "file_id"@.len());
    assert("embedding"@[0] != "file_path"@[0]);
    assert("embedding"@.len() != "content"@.len());
    assert("embedding"@.len() != "content_type"@.len());
    assert("embedding"@.len() != "chunk_index"@.len());
    assert("embedding"@.len() != "start_byte"@.len());
    assert("embedding"@.len() != "end_byte"@.len());
    assert("embedding"@.len() != "start_line"@.len());
    assert("embedding"@.len() != "end_line"@.len());
    assert("embedding"@.len() != "parent_chunk_id"@.len());
    assert("embedding"@.len() != "depth"@.len());
    assert("embedding"@.len() != "embedding_model"@.len());
    assert("embedding"@.len() != "indexed_at"@.len());
    assert("embedding"@.len() != "file_mime_type"@.len());
    assert("embedding"@.len() != "file_size_bytes"@.len());
    assert("embedding"@.len() != "language"@.len());
    assert("embedding"@.len() != "symbol_type"@.len());
    assert("embedding"@.len() != "symbol_name"@.len());
    assert("embedding"@.len() != "dir_path"@.len());
    assert("embedding"@[0] != "dir_depth"@[0]);
    assert("embedding"@.len() != "path_components"@.len());
    let cols = chunk_columns_spec(embedding_dim);
    assert(cols[0].name == "chunk_id"@);
    assert(cols[0].nullable == chunk_column_optional(cols[0].name));
    assert(cols[1].name == "file_id"@);
    assert(cols[1].nullable == chunk_column_optional(cols[1].name));
    assert(cols[2].name == "file_path"@);
    assert(cols[2].nullable == chunk_column_optional(cols[2].name));
    assert(cols[3].name == "content"@);
    assert(cols[3].nullable == chunk_column_optional(cols[3].name));
    assert(cols[4].name == "content_type"@);
    assert(cols[4].nullable == chunk_column_optional(cols[4].name));
    assert(cols[5].name == "chunk_index"@);
    assert(cols[5].nullable == chunk_column_optional(cols[5].name));
    assert(cols[6].name == "start_byte"@);
    assert(cols[6].nullable == chunk_column_optional(cols[6].name));
    assert(cols[7].name == "end_byte"@);
    assert(cols[7].nullable == chunk_column_optional(cols[7].name));
    assert(cols[8].name == "start_line"@);
    assert(cols[8].nullable == chunk_column_optional(cols[8].name));
    assert(cols[9].name == "end_line"@);
    assert(cols[9].nullable == chunk_column_optional(cols[9].name));
    assert(cols[10].name == "parent_chunk_id"@);
    assert(cols[10].nullable == chunk_column_optional(cols[10].name));
    assert(cols[11].name == "depth"@);
    assert(cols[11].nullable == chunk_column_optional(cols[11].name));
    assert(cols[12].name == "embedding"@);
    assert(cols[12].nullable == chunk_column_optional(cols[12].name));
    assert(cols[13].name == "embedding_model"@);
    assert(cols[13].nullable == chunk_column_optional(cols[13].name));
    assert(cols[14].name == "indexed_at"@);
    assert(cols[14].nullable == chunk_column_optional(cols[14].name));
    assert(cols[15].name == "file_mime_type"@);
    assert(cols[15].nullable == chunk_column_optional(cols[15].name));
    assert(cols[16].name == "file_size_bytes"@);
    assert(cols[16].nullable == chunk_column_optional(cols[16].name));
    assert(cols[17].name == "language"@);
    assert(cols[17].nullable == chunk_column_optional(cols[17].name));
    assert(cols[18].name == "symbol_type"@);
    assert(cols[18].nullable == chunk_column_optional(cols[18].name));
    assert(cols[19].name == "symbol_name"@);
    assert(cols[19].nullable == chunk_column_optional(cols[19].name));
    assert(cols[20].name == "dir_path"@);
    assert(cols[20].nullable == chunk_column_optional(cols[20].name));
    assert(cols[21].name == "dir_depth"@);
    assert(cols[21].nullable == chunk_column_optional(cols[21].name));
    assert(cols[22].name == "path_components"@);
    assert(cols[22].nullable == chunk_column_optional(cols[22].name));
}

/// The file table has 10 columns; a column may hold
/// nulls exactly when it comes from an optional field of a file record.
pub proof fn lemma_file_columns_nullability()
    ensures
        file_columns_spec().len() == 10,
        forall|i: int|
            0 <= i < 10 ==> (#[trigger] file_columns_spec()[i]).nullable == file_column_optional(
                file_columns_spec()[i].name,
            ),
{
    reveal_strlit("chunk_count");
    reveal_strlit("chunk_id");
    reveal_strlit("chunk_index");
    reveal_strlit("content");
    reveal_strlit("content_hash");
    reveal_strlit("content_type");
    reveal_strlit("depth");
    reveal_strlit("dir_depth");
    reveal_strlit("dir_path");
    reveal_strlit("embedding");
    reveal_strlit("embedding_model");
    reveal_strlit("end_byte");
    reveal_strlit("end_line");
    reveal_strlit("error_message");
    reveal_strlit("file_id");
    reveal_strlit("file_mime_type");
    reveal_strlit("file_path");
    reveal_strlit("file_size_bytes");
    reveal_strlit("indexed_at");
    reveal_strlit("language");
    reveal_strlit("mime_type");
    reveal_strlit("modified_at");
    reveal_strlit("parent_chunk_id");
    reveal_strlit("path");
    reveal_strlit("path_components");
    reveal_strlit("size_bytes");
    reveal_strlit("start_byte");
    reveal_strlit("start_line");
    reveal_strlit("status");
    reveal_strlit("symbol_name");
    reveal_strlit("symbol_type");
    assert("file_id"@.len() != "indexed_at"@.len());
    assert("file_id"@.len() != "error_message"@.len());
    assert("path"@.len() != "indexed_at"@.len());
    assert("path"@.len() != "error_message"@.len());
    assert("size_bytes"@[0] != "indexed_at"@[0]);
    assert("size_bytes"@.len() != "error_message"@.len());
    assert("mime_type"@.len() != "indexed_at"@.len());
    assert("mime_type"@.len() != "error_message"@.len());
    assert("content_hash"@.len() != "indexed_at"@.len());
    assert("content_hash"@.len() != "error_message"@.len());
    assert("modified_at"@.len() != "indexed_at"@.len());
    assert("modified_at"@.len() != "error_message"@.len());
    assert("chunk_count"@.len() != "indexed_at"@.len());
    assert("chunk_count"@.len() != "error_message"@.len());
    assert("status"@.len() != "indexed_at"@.len());
    assert("status"@.len() != "error_message"@.len());
    let cols = file_columns_spec();
    assert(cols[0].name == "file_id"@);
    assert(cols[0].nullable == file_column_optional(cols[0].name));
    assert(cols[1].name == "path"@);
    assert(cols[1].nullable == file_column_optional(cols[1].name));
    assert(cols[2].name == "size_bytes"@);
    assert(cols[2].nullable == file_column_optional(cols[2].name));
    assert(cols[3].name == "mime_type"@);
    assert(cols[3].nullable == file_column_optional(cols[3].name));
    assert(cols[4].name == "content_hash"@);
    assert(cols[4].nullable == file_column_optional(cols[4].name));
    assert(cols[5].name == "modified_at"@);
    assert(cols[5].nullable == file_column_optional(cols[5].name));
    assert(cols[6].name == "indexed_at"@);
    assert(cols[6].nullable == file_column_optional(cols[6].name));
    assert(cols[7].name == "chunk_count"@);
    assert(cols[7].nullable == file_column_optional(cols[7].name));
    assert(cols[8].name == "status"@);
    assert(cols[8].nullable == file_column_optional(cols[8].name));
    assert(cols[9].name == "error_message"@);
    assert(cols[9].nullable == file_column_optional(cols[9].name));
}

/// The columns of the chunk table for embeddings of dimension
/// `embedding_dim`.
pub fn chunk_columns(embedding_dim: usize) -> (cols: Vec<ColumnDef>)
    ensures
        columns_view(cols@) == chunk_columns_spec(embedding_dim),
{
    let dim: i32 = embedding_dim as i32;
    let cols = vec![
        column("chunk_id", ColumnType::Scalar(ScalarType::Utf8), false),
        column("file_id", ColumnType::Scalar(ScalarType::Utf8), false),
        column("file_path", ColumnType::Scalar(ScalarType::Utf8), false),
        column("content", ColumnType::Scalar(ScalarType::Utf8), false),
        column("content_type", ColumnType::Scalar(ScalarType::Utf8), false),
        column("chunk_index", ColumnType::Scalar(ScalarType::UInt32), false),
        column("start_byte", ColumnType::Scalar(ScalarType::UInt64), false),
        column("end_byte", ColumnType::Scalar(ScalarType::UInt64), false),
        column("start_line", ColumnType::Scalar(ScalarType::UInt32), true),
        column("end_line", ColumnType::Scalar(ScalarType::UInt32), true),
        column("parent_chunk_id", ColumnType::Scalar(ScalarType::Utf8), true),
        column("depth", ColumnType::Scalar(ScalarType::UInt8), false),
        column("embedding", ColumnType::Float32List(dim), false),
        column("embedding_model", ColumnType::Scalar(ScalarType::Utf8), true),
        column("indexed_at", ColumnType::Scalar(ScalarType::TimestampMillis), false),
        column("file_mime_type", ColumnType::Scalar(ScalarType::Utf8), true),
        column("file_size_bytes", ColumnType::Scalar(ScalarType::UInt64), true),
        column("language", ColumnType::Scalar(ScalarType::Utf8), true),
        column("symbol_type", ColumnType::Scalar(ScalarType::Utf8), true),
        column("symbol_name", ColumnType::Scalar(ScalarType::Utf8), true),
        column("dir_path", ColumnType::Scalar(ScalarType::Utf8), false),
        column("dir_depth", ColumnType::Scalar(ScalarType::UInt16), false),
        column("path_components", ColumnType::Scalar(ScalarType::Utf8), false),
    ];
    proof {
        assert(columns_view(cols@) =~= chunk_columns_spec(embedding_dim));
    }
    cols
}

/// The columns of the file metadata table.
pub fn file_columns() -> (cols: Vec<ColumnDef>)
    ensures
        columns_view(cols@) == file_columns_spec(),
{
    let cols = vec![
        column("file_id", ColumnType::Scalar(ScalarType::Utf8), false),
        column("path", ColumnType::Scalar(ScalarType::Utf8), false),
        column("size_bytes", ColumnType::Scalar(ScalarType::UInt64), false),
        column("mime_type", ColumnType::Scalar(ScalarType::Utf8), false),
        column("content_hash", ColumnType::Scalar(ScalarType::Utf8), false),
        column("modified_at", ColumnType::Scalar(ScalarType::TimestampMillis), false),
        column("indexed_at", ColumnType::Scalar(ScalarType::TimestampMillis), true),
        column("chunk_count", ColumnType::Scalar(ScalarType::UInt32), false),
        column("status", ColumnType::Scalar(ScalarType::Utf8), false),
        column("error_message", ColumnType::Scalar(ScalarType::Utf8), true),
    ];
    proof {
        assert(columns_view(cols@) =~= file_columns_spec());
    }
    cols
}

/// The arrow data type that arrow-schema's `DataType` constructors build for
/// a scalar type.
pub uninterp spec fn arrow_primitive_type_of(t: ScalarType) -> DataType;

/// Builds the arrow-schema `DataType` variant of the same name for `Utf8`,
/// `UInt8`, `UInt16`, `UInt32`, `UInt64` and `Float32`, and
/// `DataType::Timestamp(TimeUnit::Millisecond, None)` for `TimestampMillis`.
/// The contract says only that the result is the one that the scalar type
/// determines.
#[verifier::external_body]
fn arrow_primitive_type(t: ScalarType) -> (d: DataType)
    ensures
        d == arrow_primitive_type_of(t),
{
    match t {
        ScalarType::Utf8 => DataType::Utf8,
        ScalarType::UInt8 => DataType::UInt8,
        ScalarType::UInt16 => DataType::UInt16,
        ScalarType::UInt32 => DataType::UInt32,
        ScalarType::UInt64 => DataType::UInt64,
        ScalarType::Float32 => DataType::Float32,
        ScalarType::TimestampMillis => DataType::Timestamp(TimeUnit::Millisecond, None),
    }
}

/// The arrow data type `DataType::FixedSizeList` of `len` items described by
/// `item`.
pub uninterp spec fn arrow_list_type_of(item: Field, len: i32) -> DataType;

/// Builds arrow-schema's `DataType::FixedSizeList(Arc::new(item), len)`. The
/// contract says only that the result is the one that the arguments
/// determine (up to the address of the shared item allocation).
#[verifier::external_body]
fn arrow_list_type(item: Field, len: i32) -> (d: DataType)
    ensures
        d == arrow_list_type_of(item, len),
{
    DataType::FixedSizeList(Arc::new(item), len)
}

/// The field that arrow-schema's `Field::new` builds.
pub uninterp spec fn arrow_field_of(name: Seq<char>, data_type: DataType, nullable: bool) -> Field;

/// Calls arrow-schema's `Field::new(name, data_type, nullable)`, which stores
/// the three arguments (with empty metadata). The contract says only that the
/// result is the one that the arguments determine (up to the addresses of
/// shared allocations inside the data type).
#[verifier::external_body]
fn arrow_field(name: &str, data_type: DataType, nullable: bool) -> (f: Field)
    ensures
        f == arrow_field_of(name@, data_type, nullable),
{
    Field::new(name, data_type, nullable)
}

/// The schema that arrow-schema's `Schema::new` builds.
pub uninterp spec fn arrow_schema_of(fields: Seq<Field>) -> Schema;

/// Calls arrow-schema's `Schema::new(fields)`, which keeps the fields in
/// order (with empty metadata). The contract says only that the result is the
/// one that the fields determine (up to the addresses of shared
/// allocations).
#[verifier::external_body]
fn arrow_schema(fields: Vec<Field>) -> (s: Schema)
    ensures
        s == arrow_schema_of(fields@),
{
    Schema::new(fields)
}

/// The arrow data type of a column type: a list of `n` 32-bit floats is a
/// fixed-size list of `n` items of a nullable 32-bit float field named
/// "item".
pub open spec fn data_type_of(t: ColumnType) -> DataType {
    match t {
        ColumnType::Float32List(n) => arrow_list_type_of(
            arrow_field_of("item"@, arrow_primitive_type_of(ScalarType::Float32), true),
            n,
        ),
        ColumnType::Scalar(st) => arrow_primitive_type_of(st),
    }
}

/// Builds the arrow data type of a column type.
fn data_type_for(t: ColumnType) -> (d: DataType)
    ensures
        d == data_type_of(t),
{
    match t {
        ColumnType::Float32List(n) => {
            let item = arrow_field("item", arrow_primitive_type(ScalarType::Float32), true);
            arrow_list_type(item, n)
        },
        ColumnType::Scalar(st) => arrow_primitive_type(st),
    }
}

/// The arrow field of a column.
pub open spec fn field_of_column(c: ColumnSpec) -> Field {
    arrow_field_of(c.name, data_type_of(c.data_type), c.nullable)
}

/// The arrow schema of a table with the given columns, in order.
pub open spec fn schema_of_columns(cols: Seq<ColumnSpec>) -> Schema {
    arrow_schema_of(cols.map_values(|c: ColumnSpec| field_of_column(c)))
}

/// The arrow schema of a table with the given columns, in order.
pub fn table_schema(cols: &Vec<ColumnDef>) -> (s: Schema)
    ensures
        s == schema_of_columns(columns_view(cols@)),
{
    let ghost want = columns_view(cols@).map_values(|c: ColumnSpec| field_of_column(c));
    let mut fields: Vec<Field> = Vec::new();
    let mut i: usize = 0;
    while i < cols.len()
        invariant
            i <= cols@.len(),
            want == columns_view(cols@).map_values(|c: ColumnSpec| field_of_column(c)),
            fields@ == want.take(i as int),
        decreases cols@.len() - i,
    {
        let c = &cols[i];
        let f = arrow_field(c.name.as_str(), data_type_for(c.data_type), c.nullable);
        fields.push(f);
        i = i + 1;
        proof {
            assert(fields@ =~= want.take(i as int));
        }
    }
    proof {
        assert(fields@ =~= want);
    }
    arrow_schema(fields)
}

/// Schema for the chunks table.
pub fn chunks_schema(embedding_dim: usize) -> (s: Schema)
    ensures
        s == schema_of_columns(chunk_columns_spec(embedding_dim)),
{
    let cols = chunk_columns(embedding_dim);
    table_schema(&cols)
}

/// Schema for the files metadata table.
pub fn files_schema() -> (s: Schema)
    ensures
        s == schema_of_columns(file_columns_spec()),
{
    let cols = file_columns();
    table_schema(&cols)
}

} // verus!
