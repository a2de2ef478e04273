# ragfs

Verified core of a semantic filesystem index, written in Verus.

- `src/types.rs` — shared data types (file records, chunks, extraction
  output, chunking and embedding configuration, search queries and results,
  statistics, file events). Identifiers are 128-bit UUID values, paths are
  strings, times are `Timestamp`s and 32-bit floats are held as bit patterns.
- `src/memory.rs` — the in-memory store of chunks (keyed by identifier) and
  file records (keyed by path), with each operation specified over the
  store's mathematical value.
- `src/ranking.rs` — ranking of search candidates by score: a stable
  descending order, cut at the limit.
- `src/schema.rs` — the columns of the chunk and file tables and their
  arrow schemas.
- `src/laws.rs` — properties that relate the store's operations.
- `app/` — the asynchronous, serializable front end: the same types with
  `Uuid`, `PathBuf`, `DateTime<Utc>` and `f32` fields and serde derives,
  cosine similarity, and the store behind a tokio lock.
