use arrow_schema::{DataType, TimeUnit};
use ragfs::schema::{chunk_columns, chunks_schema, file_columns, files_schema, ColumnType};

#[test]
fn chunks_schema_lists_the_chunk_columns() {
    let schema = chunks_schema(384);
    assert_eq!(schema.fields().len(), 23);
    let names: Vec<&str> = schema.fields().iter().map(|f| f.name().as_str()).collect();
    assert_eq!(names[0], "chunk_id");
    assert_eq!(names[12], "embedding");
    assert_eq!(names[22], "path_components");
    let embedding = schema.field_with_name("embedding").unwrap();
    assert!(!embedding.is_nullable());
    match embedding.data_type() {
        DataType::FixedSizeList(item, n) => {
            assert_eq!(*n, 384);
            assert_eq!(item.name(), "item");
            assert_eq!(item.data_type(), &DataType::Float32);
            assert!(item.is_nullable());
        }
        other => panic!("unexpected embedding type {:?}", other),
    }
    let start_line = schema.field_with_name("start_line").unwrap();
    assert_eq!(start_line.data_type(), &DataType::UInt32);
    assert!(start_line.is_nullable());
    assert_eq!(
        schema.field_with_name("indexed_at").unwrap().data_type(),
        &DataType::Timestamp(TimeUnit::Millisecond, None)
    );
    assert_eq!(schema.field_with_name("dir_depth").unwrap().data_type(), &DataType::UInt16);
    assert_eq!(schema.field_with_name("depth").unwrap().data_type(), &DataType::UInt8);
}

#[test]
fn files_schema_lists_the_file_columns() {
    let schema = files_schema();
    let names: Vec<&str> = schema.fields().iter().map(|f| f.name().as_str()).collect();
    assert_eq!(
        names,
        vec![
            "file_id",
            "path",
            "size_bytes",
            "mime_type",
            "content_hash",
            "modified_at",
            "indexed_at",
            "chunk_count",
            "status",
            "error_message"
        ]
    );
    assert!(schema.field_with_name("indexed_at").unwrap().is_nullable());
    assert!(!schema.field_with_name("modified_at").unwrap().is_nullable());
    assert_eq!(schema.field_with_name("size_bytes").unwrap().data_type(), &DataType::UInt64);
}

#[test]
fn column_lists_match_the_schemas() {
    let cols = chunk_columns(7);
    assert_eq!(cols.len(), 23);
    assert_eq!(cols[12].name, "embedding");
    assert_eq!(cols[12].data_type, ColumnType::Float32List(7));
    assert_eq!(file_columns().len(), 10);
}
