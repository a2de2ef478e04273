//! In-memory store of chunks and file records.
//!
//! [`MemoryStore`] keeps every chunk keyed by its identifier and every file
//! record keyed by its path. It is meant for tests and development builds
//! that do without a persistent vector database. Search ranks the chunks that
//! carry an embedding by a similarity score computed outside this module
//! (floating-point arithmetic), see [`MemoryStore::search_candidates`] and
//! [`MemoryStore::rank_candidates`].

use vstd::prelude::*;
use std::collections::HashMap;
use vstd::std_specs::iter::IteratorSpec;
use crate::types::{
    Chunk, ChunkView, FileRecord, FileRecordView, SearchResult, SearchResultView, StoreStats,
    Timestamp,
};
use crate::ranking::{is_top_ranking, rank_positions, ranked_len, score_key, top_ranking};

verus! {

broadcast use vstd::std_specs::hash::group_hash_axioms;

/// The embedding dimension of a store made by `Default`.
pub const DEFAULT_DIMENSION: usize = 384;

/// In-memory vector store: chunks keyed by identifier, file records keyed by
/// path.
pub struct MemoryStore {
    dimension: usize,
    chunks: HashMap<u128, Chunk>,
    files: Vec<FileRecord>,
    initialized: bool,
}

/// The mathematical value of a [`MemoryStore`].
pub struct MemoryStoreView {
    /// Embedding dimension the store was created with
    pub dimension: usize,
    /// Stored chunks, keyed by chunk identifier
    pub chunks: Map<u128, ChunkView>,
    /// Stored file records, keyed by path
    pub files: Map<Seq<char>, FileRecordView>,
    /// Whether `init` has been called
    pub initialized: bool,
}

// ============================================================================
// File records held in a sequence with distinct paths
// ============================================================================

/// Some record of `s` has path `p`.
pub open spec fn has_path(s: Seq<FileRecord>, p: Seq<char>) -> bool {
    exists|i: int| 0 <= i < s.len() && (#[trigger] s[i]).path@ == p
}

/// No two records of `s` share a path.
pub open spec fn unique_paths(s: Seq<FileRecord>) -> bool {
    forall|i: int, j: int|
        #![trigger s[i], s[j]]
        0 <= i < s.len() && 0 <= j < s.len() && i != j ==> s[i].path@ != s[j].path@
}

/// The records of `s`, keyed by path.
pub open spec fn files_map(s: Seq<FileRecord>) -> Map<Seq<char>, FileRecordView> {
    Map::new(
        |p: Seq<char>| has_path(s, p),
        |p: Seq<char>| s[choose|i: int| 0 <= i < s.len() && (#[trigger] s[i]).path@ == p]@,
    )
}

proof fn lemma_files_map_at(s: Seq<FileRecord>, i: int)
    requires
        unique_paths(s),
        0 <= i < s.len(),
    ensures
        files_map(s).contains_key(s[i].path@),
        files_map(s)[s[i].path@] == s[i]@,
{
    let p = s[i].path@;
    assert(has_path(s, p));
    let j = choose|j: int| 0 <= j < s.len() && (#[trigger] s[j]).path@ == p;
    assert(j == i);
}

proof fn lemma_files_map_update(s: Seq<FileRecord>, i: int, r: FileRecord)
    requires
        unique_paths(s),
        0 <= i < s.len(),
        r.path@ == s[i].path@,
    ensures
        unique_paths(s.update(i, r)),
        files_map(s.update(i, r)) == files_map(s).insert(r.path@, r@),
{
    let t = s.update(i, r);
    assert(unique_paths(t)) by {
        assert forall|a: int, b: int|
            #![trigger t[a], t[b]]
            0 <= a < t.len() && 0 <= b < t.len() && a != b implies t[a].path@ != t[b].path@ by {
            assert(t[a].path@ == s[a].path@);
            assert(t[b].path@ == s[b].path@);
        }
    }
    assert forall|p: Seq<char>| has_path(t, p) <==> has_path(s, p) || p == r.path@ by {
        if has_path(t, p) {
            let a = choose|a: int| 0 <= a < t.len() && (#[trigger] t[a]).path@ == p;
            assert(s[a].path@ == p);
        }
        if has_path(s, p) {
            let a = choose|a: int| 0 <= a < s.len() && (#[trigger] s[a]).path@ == p;
            assert(t[a].path@ == p);
        }
        if p == r.path@ {
            assert(t[i].path@ == p);
        }
    }
    assert forall|p: Seq<char>| #[trigger] files_map(t).contains_key(p) implies files_map(t)[p]
        == files_map(s).insert(r.path@, r@)[p] by {
        let a = choose|a: int| 0 <= a < t.len() && (#[trigger] t[a]).path@ == p;
        lemma_files_map_at(t, a);
        if a != i {
            lemma_files_map_at(s, a);
        }
    }
    assert(files_map(t) =~= files_map(s).insert(r.path@, r@));
}

proof fn lemma_files_map_push(s: Seq<FileRecord>, r: FileRecord)
    requires
        unique_paths(s),
        !has_path(s, r.path@),
    ensures
        unique_paths(s.push(r)),
        files_map(s.push(r)) == files_map(s).insert(r.path@, r@),
{
    let t = s.push(r);
    assert(unique_paths(t)) by {
        assert forall|a: int, b: int|
            #![trigger t[a], t[b]]
            0 <= a < t.len() && 0 <= b < t.len() && a != b implies t[a].path@ != t[b].path@ by {
            if a == s.len() {
                assert(s[b] == t[b]);
            } else if b == s.len() {
                assert(s[a] == t[a]);
            } else {
                assert(s[a] == t[a]);
                assert(s[b] == t[b]);
            }
        }
    }
    assert forall|p: Seq<char>| has_path(t, p) <==> has_path(s, p) || p == r.path@ by {
        if has_path(t, p) {
            let a = choose|a: int| 0 <= a < t.len() && (#[trigger] t[a]).path@ == p;
            if a < s.len() {
                assert(s[a] == t[a]);
            }
        }
        if has_path(s, p) {
            let a = choose|a: int| 0 <= a < s.len() && (#[trigger] s[a]).path@ == p;
            assert(t[a] == s[a]);
        }
        if p == r.path@ {
            assert(t[s.len() as int] == r);
        }
    }
    assert forall|p: Seq<char>| #[trigger] files_map(t).contains_key(p) implies files_map(t)[p]
        == files_map(s).insert(r.path@, r@)[p] by {
        let a = choose|a: int| 0 <= a < t.len() && (#[trigger] t[a]).path@ == p;
        lemma_files_map_at(t, a);
        if a < s.len() {
            assert(t[a] == s[a]);
            lemma_files_map_at(s, a);
        }
    }
    assert(files_map(t) =~= files_map(s).insert(r.path@, r@));
}

proof fn lemma_files_map_remove(s: Seq<FileRecord>, i: int)
    requires
        unique_paths(s),
        0 <= i < s.len(),
    ensures
        unique_paths(s.remove(i)),
        files_map(s.remove(i)) == files_map(s).remove(s[i].path@),
{
    let t = s.remove(i);
    assert(forall|a: int| 0 <= a < i ==> #[trigger] t[a] == s[a]);
    assert(forall|a: int| i <= a < t.len() ==> #[trigger] t[a] == s[a + 1]);
    assert(unique_paths(t)) by {
        assert forall|a: int, b: int|
            #![trigger t[a], t[b]]
            0 <= a < t.len() && 0 <= b < t.len() && a != b implies t[a].path@ != t[b].path@ by {
            let sa = if a < i { a } else { a + 1 };
            let sb = if b < i { b } else { b + 1 };
            assert(t[a] == s[sa]);
            assert(t[b] == s[sb]);
        }
    }
    assert forall|p: Seq<char>| has_path(t, p) <==> has_path(s, p) && p != s[i].path@ by {
        if has_path(t, p) {
            let a = choose|a: int| 0 <= a < t.len() && (#[trigger] t[a]).path@ == p;
            let sa = if a < i { a } else { a + 1 };
            assert(t[a] == s[sa]);
        }
        if has_path(s, p) && p != s[i].path@ {
            let a = choose|a: int| 0 <= a < s.len() && (#[trigger] s[a]).path@ == p;
            if a < i {
                assert(t[a] == s[a]);
            } else {
                assert(a != i);
                assert(t[a - 1] == s[a]);
            }
        }
    }
    assert forall|p: Seq<char>| #[trigger] files_map(t).contains_key(p) implies files_map(t)[p]
        == files_map(s).remove(s[i].path@)[p] by {
        let a = choose|a: int| 0 <= a < t.len() && (#[trigger] t[a]).path@ == p;
        lemma_files_map_at(t, a);
        let sa = if a < i { a } else { a + 1 };
        assert(t[a] == s[sa]);
        lemma_files_map_at(s, sa);
    }
    assert(files_map(t) =~= files_map(s).remove(s[i].path@));
}

proof fn lemma_files_map_len(s: Seq<FileRecord>)
    requires
        unique_paths(s),
    ensures
        files_map(s).dom().finite(),
        files_map(s).dom().len() == s.len(),
{
    let paths = s.map_values(|f: FileRecord| f.path@);
    assert(paths.no_duplicates()) by {
        assert forall|a: int, b: int|
            0 <= a < paths.len() && 0 <= b < paths.len() && a != b implies paths[a] != paths[b] by {
            assert(s[a].path@ != s[b].path@);
        }
    }
    paths.unique_seq_to_set();
    assert forall|p: Seq<char>| paths.to_set().contains(p) <==> files_map(s).dom().contains(p) by {
        if paths.to_set().contains(p) {
            let a = choose|a: int| 0 <= a < paths.len() && paths[a] == p;
            assert(s[a].path@ == p);
        }
        if files_map(s).dom().contains(p) {
            let a = choose|a: int| 0 <= a < s.len() && (#[trigger] s[a]).path@ == p;
            assert(paths[a] == p);
        }
    }
    assert(files_map(s).dom() =~= paths.to_set());
}

/// The position of the record with path `path` in `files`, if any.
fn find_file(files: &Vec<FileRecord>, path: &String) -> (r: Option<usize>)
    ensures
        match r {
            Some(i) => i < files@.len() && files@[i as int].path@ == path@,
            None => !has_path(files@, path@),
        },
{
    let mut i: usize = 0;
    while i < files.len()
        invariant
            i <= files@.len(),
            forall|a: int| 0 <= a < i ==> (#[trigger] files@[a]).path@ != path@,
        decreases files@.len() - i,
    {
        if files[i].path == *path {
            return Some(i);
        }
        i = i + 1;
    }
    None
}


// ============================================================================
// Walking the stored chunks
// ============================================================================

/// Which stored chunks an operation works on.
enum Selection<'a> {
    /// Every chunk
    All,
    /// The chunks of the file at this path
    InFile(&'a String),
    /// The chunks that carry an embedding
    Embedded,
}

spec fn selects(sel: Selection, c: ChunkView) -> bool {
    match sel {
        Selection::All => true,
        Selection::InFile(p) => c.file_path == p@,
        Selection::Embedded => c.embedding is Some,
    }
}

fn select_matches(sel: &Selection, c: &Chunk) -> (b: bool)
    ensures
        b == selects(*sel, c@),
{
    match sel {
        Selection::All => true,
        Selection::InFile(p) => c.file_path == **p,
        Selection::Embedded => c.embedding.is_some(),
    }
}

/// `r` lists each chunk of `m` that satisfies `pred` exactly once: every
/// entry of `r` is a stored chunk that satisfies `pred`, every stored chunk
/// that satisfies `pred` is in `r`, and no chunk is listed twice. The
/// functions that list chunks state their order separately, through
/// [`MemoryStore::walk_order`].
pub open spec fn lists_exactly(
    m: Map<u128, ChunkView>,
    r: Seq<ChunkView>,
    pred: spec_fn(ChunkView) -> bool,
) -> bool {
    &&& forall|i: int|
        0 <= i < r.len() ==> m.contains_key(#[trigger] r[i].id) && m[r[i].id] == r[i] && pred(r[i])
    &&& forall|k: u128|
        #[trigger] m.contains_key(k) && pred(m[k]) ==> exists|i: int|
            0 <= i < r.len() && (#[trigger] r[i]).id == k
    &&& forall|i: int, j: int|
        #![trigger r[i], r[j]]
        0 <= i < r.len() && 0 <= j < r.len() && i != j ==> r[i].id != r[j].id
}

/// The views of a sequence of chunk references.
pub open spec fn chunk_refs_view(r: Seq<&Chunk>) -> Seq<ChunkView> {
    r.map_values(|c: &Chunk| c@)
}

/// The views of a sequence of chunks.
pub open spec fn chunks_view(r: Seq<Chunk>) -> Seq<ChunkView> {
    r.map_values(|c: Chunk| c@)
}

/// The identifiers of the referenced chunks, in order.
fn ids_of(refs: &Vec<&Chunk>) -> (ids: Vec<u128>)
    ensures
        ids@ == chunk_refs_view(refs@).map_values(|c: ChunkView| c.id),
{
    let mut ids: Vec<u128> = Vec::new();
    let mut i: usize = 0;
    while i < refs.len()
        invariant
            i <= refs@.len(),
            ids@ == chunk_refs_view(refs@).map_values(|c: ChunkView| c.id).take(i as int),
        decreases refs@.len() - i,
    {
        ids.push(refs[i].id);
        i = i + 1;
        proof {
            assert(ids@ =~= chunk_refs_view(refs@).map_values(|c: ChunkView| c.id).take(i as int));
        }
    }
    proof {
        assert(ids@ =~= chunk_refs_view(refs@).map_values(|c: ChunkView| c.id));
    }
    ids
}

/// Copies of the referenced chunks, in order.
fn clone_all(refs: &Vec<&Chunk>) -> (r: Vec<Chunk>)
    ensures
        chunks_view(r@) == chunk_refs_view(refs@),
{
    let mut r: Vec<Chunk> = Vec::new();
    let mut i: usize = 0;
    while i < refs.len()
        invariant
            i <= refs@.len(),
            r@.len() == i,
            chunks_view(r@) == chunk_refs_view(refs@).take(i as int),
        decreases refs@.len() - i,
    {
        let c = refs[i].clone();
        let ghost prev = r@;
        r.push(c);
        proof {
            assert forall|j: int| 0 <= j < i + 1 implies chunks_view(r@)[j]
                == chunk_refs_view(refs@).take(i + 1)[j] by {
                if j < i {
                    assert(r@[j] == prev[j]);
                    assert(chunks_view(prev)[j] == chunk_refs_view(refs@).take(i as int)[j]);
                } else {
                    assert(r@[j] == c);
                }
            }
            assert(chunks_view(r@) =~= chunk_refs_view(refs@).take(i + 1));
        }
        i = i + 1;
    }
    proof {
        assert(chunks_view(r@) =~= chunk_refs_view(refs@));
    }
    r
}

/// Filtering with two predicates that agree on every element gives the same
/// sequence.
proof fn lemma_filter_agree(s: Seq<u128>, p1: spec_fn(u128) -> bool, p2: spec_fn(u128) -> bool)
    requires
        forall|i: int| 0 <= i < s.len() ==> p1(#[trigger] s[i]) == p2(s[i]),
    ensures
        s.filter(p1) == s.filter(p2),
    decreases s.len(),
{
    if s.len() > 0 {
        let front = s.drop_last();
        assert forall|i: int| 0 <= i < front.len() implies p1(#[trigger] front[i]) == p2(front[i]) by {
            assert(front[i] == s[i]);
        }
        lemma_filter_agree(front, p1, p2);
        assert(front.push(s.last()) =~= s);
        front.lemma_filter_push(s.last(), p1);
        front.lemma_filter_push(s.last(), p2);
    }
}

/// Filtering with a predicate that holds everywhere keeps the sequence.
proof fn lemma_filter_all(s: Seq<u128>)
    ensures
        s.filter(|k: u128| true) == s,
    decreases s.len(),
{
    if s.len() > 0 {
        let front = s.drop_last();
        lemma_filter_all(front);
        assert(front.push(s.last()) =~= s);
        front.lemma_filter_push(s.last(), |k: u128| true);
    }
}

/// A listing is one for any predicate that agrees with its own.
proof fn lemma_listing_same_pred(
    m: Map<u128, ChunkView>,
    r: Seq<ChunkView>,
    p1: spec_fn(ChunkView) -> bool,
    p2: spec_fn(ChunkView) -> bool,
)
    requires
        lists_exactly(m, r, p1),
        forall|c: ChunkView| #[trigger] p1(c) == p2(c),
    ensures
        lists_exactly(m, r, p2),
{
    assert(p1 =~= p2);
}

/// A listing without repeated identifiers names as many chunks as the set it
/// lists.
pub proof fn lemma_listing_len(
    m: Map<u128, ChunkView>,
    r: Seq<ChunkView>,
    pred: spec_fn(ChunkView) -> bool,
)
    requires
        lists_exactly(m, r, pred),
    ensures
        r.map_values(|c: ChunkView| c.id).no_duplicates(),
        r.map_values(|c: ChunkView| c.id).to_set() == m.dom().filter(|k: u128| pred(m[k])),
        r.len() == m.dom().filter(|k: u128| pred(m[k])).len(),
{
    let ids = r.map_values(|c: ChunkView| c.id);
    assert forall|i: int, j: int| 0 <= i < ids.len() && 0 <= j < ids.len() && i != j implies ids[i]
        != ids[j] by {
        assert(r[i].id != r[j].id);
    }
    assert forall|k: u128| ids.to_set().contains(k) <==> m.dom().filter(|k: u128| pred(m[k])).contains(k) by {
        if ids.to_set().contains(k) {
            let i = choose|i: int| 0 <= i < ids.len() && ids[i] == k;
            assert(m.contains_key(r[i].id));
        }
        if m.dom().filter(|k: u128| pred(m[k])).contains(k) {
            assert(m.contains_key(k) && pred(m[k]));
            let i = choose|i: int| 0 <= i < r.len() && (#[trigger] r[i]).id == k;
            assert(ids[i] == k);
        }
    }
    assert(ids.to_set() =~= m.dom().filter(|k: u128| pred(m[k])));
    ids.unique_seq_to_set();
}

// ============================================================================
// The operations, as functions of the store's value
// ============================================================================

/// A fresh store with the given embedding dimension.
pub open spec fn empty_store(dimension: usize) -> MemoryStoreView {
    MemoryStoreView {
        dimension,
        chunks: Map::empty(),
        files: Map::empty(),
        initialized: false,
    }
}

/// The record stored under path `p`, if any.
pub open spec fn file_at(v: MemoryStoreView, p: Seq<char>) -> Option<FileRecordView> {
    if v.files.contains_key(p) {
        Some(v.files[p])
    } else {
        None
    }
}

/// The store after storing `r` under its path, replacing any record there.
pub open spec fn with_file(v: MemoryStoreView, r: FileRecordView) -> MemoryStoreView {
    MemoryStoreView { files: v.files.insert(r.path, r), ..v }
}

/// The identifiers of the chunks of `m` whose file is at path `p`.
pub open spec fn chunk_ids_in_file(m: Map<u128, ChunkView>, p: Seq<char>) -> Set<u128> {
    m.dom().filter(|k: u128| m[k].file_path == p)
}

/// `m` without the chunks of the file at path `p`.
pub open spec fn chunks_without_file(m: Map<u128, ChunkView>, p: Seq<char>) -> Map<
    u128,
    ChunkView,
> {
    m.remove_keys(chunk_ids_in_file(m, p))
}

/// `m` with the chunks of the file at path `from` now at path `to`; nothing
/// else about any chunk changes.
pub open spec fn chunks_moved(m: Map<u128, ChunkView>, from: Seq<char>, to: Seq<char>) -> Map<
    u128,
    ChunkView,
> {
    Map::new(
        |k: u128| m.contains_key(k),
        |k: u128|
            if m[k].file_path == from {
                ChunkView { file_path: to, ..m[k] }
            } else {
                m[k]
            },
    )
}

/// `f` with the record at path `from`, if any, moved to path `to` (its
/// `path` field changed accordingly), replacing any record stored at `to`.
pub open spec fn files_moved(
    f: Map<Seq<char>, FileRecordView>,
    from: Seq<char>,
    to: Seq<char>,
) -> Map<Seq<char>, FileRecordView> {
    if f.contains_key(from) {
        f.remove(from).insert(to, FileRecordView { path: to, ..f[from] })
    } else {
        f
    }
}

/// `m` after storing each chunk of `cs` in turn under its identifier, each
/// replacing whatever was stored under that identifier.
pub open spec fn upsert_all(m: Map<u128, ChunkView>, cs: Seq<ChunkView>) -> Map<u128, ChunkView>
    decreases cs.len(),
{
    if cs.len() == 0 {
        m
    } else {
        upsert_all(m, cs.drop_last()).insert(cs.last().id, cs.last())
    }
}

/// The results of a search over `cands` with scores `scores` and this limit:
/// the candidates at the top-ranked positions, best first, each with its
/// score.
pub open spec fn search_hits(cands: Seq<ChunkView>, scores: Seq<u32>, limit: usize) -> Seq<
    SearchResultView,
> {
    top_ranking(scores, limit).map_values(
        |pos: usize| search_hit(cands[pos as int], scores[pos as int]),
    )
}

/// The search result that reports chunk `c` with score `score`.
pub open spec fn search_hit(c: ChunkView, score: u32) -> SearchResultView {
    SearchResultView {
        chunk_id: c.id,
        file_path: c.file_path,
        content: c.content,
        score,
        byte_range: c.byte_range,
        line_range: c.line_range,
        metadata: c.metadata.extra,
    }
}

/// The store after removing the chunks of the file at `p` and the record
/// stored under `p`.
pub open spec fn without_path(v: MemoryStoreView, p: Seq<char>) -> MemoryStoreView {
    MemoryStoreView {
        chunks: chunks_without_file(v.chunks, p),
        files: v.files.remove(p),
        ..v
    }
}

/// The store after moving the chunks of the file at `from`, and the record
/// stored under `from`, to path `to`.
pub open spec fn moved_path(v: MemoryStoreView, from: Seq<char>, to: Seq<char>) -> MemoryStoreView {
    MemoryStoreView {
        chunks: chunks_moved(v.chunks, from, to),
        files: files_moved(v.files, from, to),
        ..v
    }
}

/// The store after storing each chunk of `cs` in turn.
pub open spec fn with_chunks(v: MemoryStoreView, cs: Seq<ChunkView>) -> MemoryStoreView {
    MemoryStoreView { chunks: upsert_all(v.chunks, cs), ..v }
}

/// The view of an optional file record.
pub open spec fn opt_file_view(r: Option<FileRecord>) -> Option<FileRecordView> {
    match r {
        Some(f) => Some(f@),
        None => None,
    }
}

impl View for MemoryStore {
    type V = MemoryStoreView;

    closed spec fn view(&self) -> MemoryStoreView {
        MemoryStoreView {
            dimension: self.dimension,
            chunks: self.chunks@.map_values(|c: Chunk| c@),
            files: files_map(self.files@),
            initialized: self.initialized,
        }
    }
}

impl MemoryStore {
    /// The identifiers of the stored chunks in the order in which the chunk
    /// map is walked. It is a function of the store: a store that has not
    /// changed is walked in the same order every time.
    pub closed spec fn walk_order(&self) -> Seq<u128> {
        vstd::std_specs::hash::into_iter(
            vstd::std_specs::hash::spec_hash_map_iter(&self.chunks),
        ).map_values(|e: (u128, Chunk)| e.0)
    }

    /// The store's internal invariant: every chunk is stored under its own
    /// identifier, and no two file records share a path.
    #[verifier::type_invariant]
    spec fn wf(&self) -> bool {
        &&& forall|k: u128| #[trigger] self.chunks@.contains_key(k) ==> self.chunks@[k].id == k
        &&& unique_paths(self.files@)
    }

    /// Create a new in-memory store with the given embedding dimension.
    pub fn new(dimension: usize) -> (s: Self)
        ensures
            s@ == empty_store(dimension),
    {
        let s = MemoryStore {
            dimension,
            chunks: HashMap::new(),
            files: Vec::new(),
            initialized: false,
        };
        proof {
            assert(s.chunks@.map_values(|c: Chunk| c@) =~= Map::<u128, ChunkView>::empty());
            assert(files_map(s.files@) =~= Map::<Seq<char>, FileRecordView>::empty());
        }
        s
    }

    /// References to the stored chunks that `sel` selects, each once.
    fn select<'a>(&'a self, sel: &Selection) -> (r: Vec<&'a Chunk>)
        ensures
            forall|i: int|
                0 <= i < r@.len() ==> self.chunks@.contains_key(#[trigger] r@[i].id)
                    && self.chunks@[r@[i].id] == *r@[i] && selects(*sel, r@[i]@),
            forall|k: u128|
                #[trigger] self.chunks@.contains_key(k) && selects(*sel, self.chunks@[k]@)
                    ==> exists|i: int| 0 <= i < r@.len() && (#[trigger] r@[i]).id == k,
            forall|i: int, j: int|
                #![trigger r@[i], r@[j]]
                0 <= i < r@.len() && 0 <= j < r@.len() && i != j ==> r@[i].id != r@[j].id,
            r@.map_values(|c: &Chunk| c.id) == self.walk_order().filter(
                |k: u128| selects(*sel, self.chunks@[k]@),
            ),
            forall|i: int|
                0 <= i < self.walk_order().len() ==> self.chunks@.contains_key(
                    #[trigger] self.walk_order()[i],
                ),
    {
        proof {
            use_type_invariant(&*self);
        }
        let ghost m = self.chunks@;
        let ghost s = vstd::std_specs::hash::spec_hash_map_iter(&self.chunks).remaining();
        let ghost walk = self.walk_order();
        let ghost f = |k: u128| selects(*sel, m[k]@);
        let mut r: Vec<&'a Chunk> = Vec::new();
        let ghost mut pos: Seq<int> = Seq::empty();
        for (k, v) in it: self.chunks.iter()
            invariant
                it.seq() == s,
                m == self.chunks@,
                self.wf(),
                s.no_duplicates(),
                pos.len() == r@.len(),
                forall|j: int|
                    0 <= j < r@.len() ==> 0 <= #[trigger] pos[j] < it.index() && *s[pos[j]].1
                        == *r@[j] && selects(*sel, r@[j]@),
                forall|a: int, b: int|
                    #![trigger pos[a], pos[b]]
                    0 <= a < b < pos.len() ==> pos[a] < pos[b],
                forall|i: int|
                    0 <= i < it.index() && selects(*sel, (*s[i].1)@) ==> exists|j: int|
                        0 <= j < pos.len() && #[trigger] pos[j] == i,
                walk == vstd::std_specs::hash::into_iter(
                    vstd::std_specs::hash::spec_hash_map_iter(&self.chunks),
                ).map_values(|e: (u128, Chunk)| e.0),
                vstd::std_specs::hash::into_iter(
                    vstd::std_specs::hash::spec_hash_map_iter(&self.chunks),
                ) == s.unref(),
                f == (|k: u128| selects(*sel, m[k]@)),
                r@.map_values(|c: &Chunk| c.id) == walk.take(it.index() as int).filter(f),
        {
            let ghost idx = it.index();
            let ghost old_pos = pos;
            let ghost old_r = r@;
            assert(*v == *s[idx].1);
            proof {
                assert(m.contains_key(*s[idx as int].0) && m[*s[idx as int].0] == *s[idx as int].1);
                assert(s.unref()[idx as int].0 == *s[idx as int].0);
                assert(walk[idx as int] == *s[idx as int].0);
                assert(walk.take(idx + 1) =~= walk.take(idx as int).push(walk[idx as int]));
                walk.take(idx as int).lemma_filter_push(walk[idx as int], f);
                assert(f(walk[idx as int]) == selects(*sel, (*s[idx as int].1)@));
            }
            if select_matches(sel, v) {
                r.push(v);
                proof {
                    pos = pos.push(idx as int);
                    assert(r@.map_values(|c: &Chunk| c.id) =~= old_r.map_values(|c: &Chunk| c.id).push(
                        v.id,
                    ));
                }
            }
            proof {
                assert forall|i: int|
                    0 <= i <= idx && selects(*sel, (*s[i].1)@) implies exists|j: int|
                    0 <= j < pos.len() && #[trigger] pos[j] == i by {
                    if i < idx {
                        let j = choose|j: int| 0 <= j < old_pos.len() && #[trigger] old_pos[j] == i;
                        assert(pos[j] == i);
                    } else {
                        assert(pos[pos.len() - 1] == i);
                    }
                }
            }
        }
        proof {
            assert(walk.take(walk.len() as int) =~= walk);
            assert forall|i: int| 0 <= i < walk.len() implies self.chunks@.contains_key(
                #[trigger] walk[i],
            ) by {
                assert(s.unref()[i].0 == *s[i].0);
                assert(m.contains_key(*s[i].0));
            }
            assert(f =~= (|k: u128| selects(*sel, self.chunks@[k]@)));
            assert forall|i: int| 0 <= i < r@.len() implies self.chunks@.contains_key(
                #[trigger] r@[i].id,
            ) && self.chunks@[r@[i].id] == *r@[i] && selects(*sel, r@[i]@) by {
                let p = pos[i];
                assert(m.contains_key(*s[p].0) && m[*s[p].0] == *s[p].1);
            }
            assert forall|i: int, j: int|
                #![trigger r@[i], r@[j]]
                0 <= i < r@.len() && 0 <= j < r@.len() && i != j implies r@[i].id != r@[j].id by {
                let pi = pos[i];
                let pj = pos[j];
                assert(m.contains_key(*s[pi].0) && m[*s[pi].0] == *s[pi].1);
                assert(m.contains_key(*s[pj].0) && m[*s[pj].0] == *s[pj].1);
                assert(pi != pj) by {
                    if i < j {
                        assert(pos[i] < pos[j]);
                    } else {
                        assert(pos[j] < pos[i]);
                    }
                }
                assert(s[pi] != s[pj]);
            }
            assert forall|k: u128|
                #[trigger] self.chunks@.contains_key(k) && selects(*sel, self.chunks@[k]@)
                implies exists|i: int| 0 <= i < r@.len() && (#[trigger] r@[i]).id == k by {
                assert(s.contains((&k, &m[k])));
                let p = choose|p: int| 0 <= p < s.len() && s[p] == (&k, &m[k]);
                let j = choose|j: int| 0 <= j < pos.len() && #[trigger] pos[j] == p;
                assert(r@[j].id == k);
            }
        }
        r
    }

    /// References to the stored chunks that `sel` selects, each once.
    fn listed<'a>(&'a self, sel: &Selection) -> (r: Vec<&'a Chunk>)
        ensures
            lists_exactly(self@.chunks, chunk_refs_view(r@), |c: ChunkView| selects(*sel, c)),
            forall|i: int| 0 <= i < r@.len() ==> #[trigger] self.chunks@[r@[i].id] == *r@[i],
            chunk_refs_view(r@).map_values(|c: ChunkView| c.id) == self.walk_order().filter(
                |k: u128| selects(*sel, self@.chunks[k]),
            ),
    {
        let r = self.select(sel);
        proof {
            assert(chunk_refs_view(r@).map_values(|c: ChunkView| c.id) =~= r@.map_values(
                |c: &Chunk| c.id,
            ));
            lemma_filter_agree(
                self.walk_order(),
                |k: u128| selects(*sel, self.chunks@[k]@),
                |k: u128| selects(*sel, self@.chunks[k]),
            );
            let v = chunk_refs_view(r@);
            let m = self@.chunks;
            assert forall|i: int| 0 <= i < v.len() implies m.contains_key(#[trigger] v[i].id)
                && m[v[i].id] == v[i] && selects(*sel, v[i]) by {
                assert(self.chunks@.contains_key(r@[i].id));
            }
            assert forall|k: u128| #[trigger] m.contains_key(k) && selects(*sel, m[k]) implies exists|
                i: int,
            | 0 <= i < v.len() && (#[trigger] v[i]).id == k by {
                assert(self.chunks@.contains_key(k));
                let i = choose|i: int| 0 <= i < r@.len() && (#[trigger] r@[i]).id == k;
                assert(v[i].id == k);
            }
            assert forall|i: int, j: int|
                #![trigger v[i], v[j]]
                0 <= i < v.len() && 0 <= j < v.len() && i != j implies v[i].id != v[j].id by {
                assert(r@[i].id != r@[j].id);
            }
        }
        r
    }

    /// Copies of every stored chunk, each once, in the map's walk order.
    pub fn get_all_chunks(&self) -> (r: Vec<Chunk>)
        ensures
            lists_exactly(self@.chunks, chunks_view(r@), |c: ChunkView| true),
            chunks_view(r@).map_values(|c: ChunkView| c.id) == self.walk_order(),
    {
        let refs = self.listed(&Selection::All);
        let r = clone_all(&refs);
        proof {
            assert((|k: u128| selects(Selection::All, self@.chunks[k])) =~= (|k: u128| true));
            lemma_filter_all(self.walk_order());
            lemma_listing_same_pred(
                self@.chunks,
                chunks_view(r@),
                |c: ChunkView| selects(Selection::All, c),
                |c: ChunkView| true,
            );
        }
        r
    }

    /// Copies of the stored chunks of the file at `path`, each once, in the
    /// map's walk order.
    pub fn get_chunks_for_file(&self, path: &str) -> (r: Vec<Chunk>)
        ensures
            lists_exactly(self@.chunks, chunks_view(r@), |c: ChunkView| c.file_path == path@),
            chunks_view(r@).map_values(|c: ChunkView| c.id) == self.walk_order().filter(
                |k: u128| self@.chunks[k].file_path == path@,
            ),
    {
        let p = path.to_owned();
        let refs = self.listed(&Selection::InFile(&p));
        let r = clone_all(&refs);
        proof {
            assert((|k: u128| selects(Selection::InFile(&p), self@.chunks[k])) =~= (|k: u128|
                self@.chunks[k].file_path == path@));
            lemma_listing_same_pred(
                self@.chunks,
                chunks_view(r@),
                |c: ChunkView| selects(Selection::InFile(&p), c),
                |c: ChunkView| c.file_path == path@,
            );
        }
        r
    }

    /// The stored chunks that carry an embedding, each once, in the map's
    /// walk order: the candidates of a search.
    pub fn search_candidates(&self) -> (r: Vec<&Chunk>)
        ensures
            lists_exactly(self@.chunks, chunk_refs_view(r@), |c: ChunkView| c.embedding is Some),
            chunk_refs_view(r@).map_values(|c: ChunkView| c.id) == self.walk_order().filter(
                |k: u128| self@.chunks[k].embedding is Some,
            ),
    {
        let r = self.listed(&Selection::Embedded);
        proof {
            assert((|k: u128| selects(Selection::Embedded, self@.chunks[k])) =~= (|k: u128|
                self@.chunks[k].embedding is Some));
            lemma_listing_same_pred(
                self@.chunks,
                chunk_refs_view(r@),
                |c: ChunkView| selects(Selection::Embedded, c),
                |c: ChunkView| c.embedding is Some,
            );
        }
        r
    }

    /// The results of a search over `candidates`, whose similarity scores
    /// (as f32 bit patterns) are `scores`, position for position: the first
    /// `limit` candidates in the stable descending order of their scores,
    /// each reported with its score.
    pub fn rank_candidates(candidates: &Vec<&Chunk>, scores: &Vec<u32>, limit: usize) -> (r: Vec<
        SearchResult,
    >)
        requires
            scores@.len() == candidates@.len(),
        ensures
            r@.len() == ranked_len(scores@.len(), limit),
            is_top_ranking(scores@, limit, top_ranking(scores@, limit)),
            forall|t: int|
                0 <= t < r@.len() ==> (#[trigger] r@[t])@ == search_hit(
                    candidates@[top_ranking(scores@, limit)[t] as int]@,
                    scores@[top_ranking(scores@, limit)[t] as int],
                ),
            forall|a: int, b: int|
                0 <= a < b < r@.len() ==> score_key((#[trigger] r@[a]).score) >= score_key(
                    (#[trigger] r@[b]).score,
                ),
            r@.map_values(|h: SearchResult| h@) == search_hits(
                chunk_refs_view(candidates@),
                scores@,
                limit,
            ),
    {
        let ord = rank_positions(scores, limit);
        let ghost top = top_ranking(scores@, limit);
        let mut r: Vec<SearchResult> = Vec::new();
        let mut t: usize = 0;
        while t < ord.len()
            invariant
                ord@ == top,
                is_top_ranking(scores@, limit, top),
                scores@.len() == candidates@.len(),
                t <= ord@.len(),
                r@.len() == t,
                forall|u: int|
                    0 <= u < t ==> (#[trigger] r@[u])@ == search_hit(
                        candidates@[top[u] as int]@,
                        scores@[top[u] as int],
                    ),
            decreases ord@.len() - t,
        {
            let i = ord[t];
            let c = candidates[i];
            let hit = SearchResult {
                chunk_id: c.id,
                file_path: c.file_path.clone(),
                content: c.content.clone(),
                score: scores[i],
                byte_range: crate::types::copy_range_u64(&c.byte_range),
                line_range: crate::types::copy_opt_range_u32(&c.line_range),
                metadata: c.metadata.extra.clone(),
            };
            r.push(hit);
            t = t + 1;
        }
        proof {
            assert forall|a: int, b: int| 0 <= a < b < r@.len() implies score_key(
                (#[trigger] r@[a]).score,
            ) >= score_key((#[trigger] r@[b]).score) by {
                assert(crate::ranking::precedes(scores@, top[a] as int, top[b] as int));
            }
            assert(r@.map_values(|h: SearchResult| h@) =~= search_hits(
                chunk_refs_view(candidates@),
                scores@,
                limit,
            ));
        }
        r
    }

    /// Store each chunk of `chunks` in turn under its identifier, replacing
    /// whatever was stored under that identifier.
    pub fn upsert_chunks(&mut self, chunks: &[Chunk])
        ensures
            final(self)@ == with_chunks(old(self)@, chunks_view(chunks@)),
    {
        proof {
            use_type_invariant(&*self);
        }
        let ghost v0 = self@;
        let ghost cs = chunks_view(chunks@);
        let mut map: HashMap<u128, Chunk> = HashMap::new();
        std::mem::swap(&mut map, &mut self.chunks);
        let mut i: usize = 0;
        while i < chunks.len()
            invariant
                i <= chunks@.len(),
                cs == chunks_view(chunks@),
                self.files == old(self).files,
                self.dimension == old(self).dimension,
                self.initialized == old(self).initialized,
                forall|k: u128| #[trigger] map@.contains_key(k) ==> map@[k].id == k,
                map@.map_values(|c: Chunk| c@) == upsert_all(v0.chunks, cs.take(i as int)),
            decreases chunks@.len() - i,
        {
            let c = chunks[i].clone();
            let ghost before = map@;
            map.insert(chunks[i].id, c);
            proof {
                assert(cs.take(i + 1).drop_last() =~= cs.take(i as int));
                assert(cs.take(i + 1).last() == cs[i as int]);
                assert(map@.map_values(|c: Chunk| c@) =~= before.map_values(|c: Chunk| c@).insert(
                    chunks@[i as int].id,
                    cs[i as int],
                ));
            }
            i = i + 1;
        }
        proof {
            assert(cs.take(chunks@.len() as int) =~= cs);
        }
        self.chunks = map;
    }

    /// Remove the chunks of the file at `path` and the record stored under
    /// `path`; returns how many chunks were removed.
    pub fn delete_by_file_path(&mut self, path: &str) -> (deleted: u64)
        ensures
            final(self)@ == without_path(old(self)@, path@),
            deleted == chunk_ids_in_file(old(self)@.chunks, path@).len(),
    {
        proof {
            use_type_invariant(&*self);
        }
        let p = path.to_owned();
        let ghost v0 = self@;
        let ghost m0 = self.chunks@;
        let ids: Vec<u128>;
        {
            let refs = self.listed(&Selection::InFile(&p));
            ids = ids_of(&refs);
            proof {
                lemma_listing_len(
                    v0.chunks,
                    chunk_refs_view(refs@),
                    |c: ChunkView| selects(Selection::InFile(&p), c),
                );
                assert(v0.chunks.dom().filter(
                    |k: u128| selects(Selection::InFile(&p), v0.chunks[k]),
                ) =~= chunk_ids_in_file(v0.chunks, path@));
            }
        }
        let ghost target = chunk_ids_in_file(v0.chunks, path@);
        proof {
            assert(v0.chunks.dom() =~= m0.dom());
        }
        let mut map: HashMap<u128, Chunk> = HashMap::new();
        std::mem::swap(&mut map, &mut self.chunks);
        let before = map.len();
        let mut i: usize = 0;
        while i < ids.len()
            invariant
                i <= ids@.len(),
                ids@.no_duplicates(),
                ids@.to_set() == target,
                self.files == old(self).files,
                self.dimension == old(self).dimension,
                self.initialized == old(self).initialized,
                map@ == m0.remove_keys(ids@.take(i as int).to_set()),
                forall|k: u128| #[trigger] m0.contains_key(k) ==> m0[k].id == k,
            decreases ids@.len() - i,
        {
            map.remove(&ids[i]);
            proof {
                assert(ids@.take(i + 1) =~= ids@.take(i as int).push(ids@[i as int]));
                ids@.take(i as int).lemma_push_to_set_commute(ids@[i as int]);
                assert(map@ =~= m0.remove_keys(ids@.take(i + 1).to_set()));
            }
            i = i + 1;
        }
        proof {
            assert(ids@.take(ids@.len() as int) =~= ids@);
            assert(map@ == m0.remove_keys(target));
            assert(target.subset_of(m0.dom()));
            assert(map@.dom() =~= m0.dom().difference(target));
            assert(m0.dom().intersect(target) =~= target);
            vstd::set_lib::lemma_set_difference_len(m0.dom(), target);
            assert(map@.map_values(|c: Chunk| c@) =~= chunks_without_file(v0.chunks, path@));
        }
        let deleted: u64 = (before - map.len()) as u64;
        self.chunks = map;
        let mut files: Vec<FileRecord> = Vec::new();
        std::mem::swap(&mut files, &mut self.files);
        match find_file(&files, &p) {
            Some(i) => {
                proof {
                    lemma_files_map_remove(files@, i as int);
                }
                files.remove(i);
            },
            None => {
                proof {
                    assert(files_map(files@).remove(path@) =~= files_map(files@));
                }
            },
        }
        self.files = files;
        deleted
    }

    /// Move the chunks of the file at `from` to path `to`, and the record
    /// stored under `from`, if any, to `to` (replacing any record stored
    /// there); returns how many chunks were moved.
    pub fn update_file_path(&mut self, from: &str, to: &str) -> (updated: u64)
        ensures
            final(self)@ == moved_path(old(self)@, from@, to@),
            updated == chunk_ids_in_file(old(self)@.chunks, from@).len(),
    {
        proof {
            use_type_invariant(&*self);
        }
        let from_s = from.to_owned();
        let to_s = to.to_owned();
        let ghost v0 = self@;
        let ghost m0 = self.chunks@;
        let ids: Vec<u128>;
        {
            let refs = self.listed(&Selection::InFile(&from_s));
            ids = ids_of(&refs);
            proof {
                lemma_listing_len(
                    v0.chunks,
                    chunk_refs_view(refs@),
                    |c: ChunkView| selects(Selection::InFile(&from_s), c),
                );
                assert(v0.chunks.dom().filter(
                    |k: u128| selects(Selection::InFile(&from_s), v0.chunks[k]),
                ) =~= chunk_ids_in_file(v0.chunks, from@));
            }
        }
        let ghost target = chunk_ids_in_file(v0.chunks, from@);
        proof {
            assert(v0.chunks.dom() =~= m0.dom());
        }
        let mut map: HashMap<u128, Chunk> = HashMap::new();
        std::mem::swap(&mut map, &mut self.chunks);
        let mut i: usize = 0;
        while i < ids.len()
            invariant
                i <= ids@.len(),
                ids@.no_duplicates(),
                ids@.to_set() == target,
                forall|k: u128|
                    #[trigger] target.contains(k) ==> m0.contains_key(k) && m0[k]@.file_path == from@,
                to_s@ == to@,
                v0.chunks == m0.map_values(|c: Chunk| c@),
                self.files == old(self).files,
                self.dimension == old(self).dimension,
                self.initialized == old(self).initialized,
                map@.dom() == m0.dom(),
                forall|k: u128| #[trigger] map@.contains_key(k) ==> map@[k].id == k,
                forall|k: u128|
                    #[trigger] map@.contains_key(k) ==> map@[k]@ == (if ids@.take(
                        i as int,
                    ).contains(k) {
                        ChunkView { file_path: to@, ..m0[k]@ }
                    } else {
                        m0[k]@
                    }),
            decreases ids@.len() - i,
        {
            let id = ids[i];
            let ghost prev = map@;
            proof {
                assert(target.contains(id)) by {
                    assert(ids@.contains(id));
                }
                assert(!ids@.take(i as int).contains(id)) by {
                    if ids@.take(i as int).contains(id) {
                        let j = choose|j: int| 0 <= j < i && ids@.take(i as int)[j] == id;
                        assert(ids@[j] == ids@[i as int]);
                    }
                }
            }
            match map.remove(&id) {
                Some(mut c) => {
                    c.file_path = to_s.clone();
                    map.insert(id, c);
                },
                None => {},
            }
            proof {
                assert(ids@.take(i + 1) =~= ids@.take(i as int).push(id));
                assert forall|k: u128| #[trigger] map@.contains_key(k) <==> m0.contains_key(k) by {
                    if k == id {
                        assert(m0.contains_key(k));
                    }
                }
                assert(map@.dom() =~= m0.dom());
                assert forall|k: u128| #[trigger] map@.contains_key(k) implies map@[k]@
                    == (if ids@.take(i + 1).contains(k) {
                    ChunkView { file_path: to@, ..m0[k]@ }
                } else {
                    m0[k]@
                }) by {
                    if k == id {
                        assert(ids@.take(i + 1).contains(k)) by {
                            assert(ids@.take(i + 1)[i as int] == id);
                        }
                        assert(m0[k]@.file_path == from@);
                    } else {
                        assert(ids@.take(i + 1).contains(k) == ids@.take(i as int).contains(k));
                    }
                }
            }
            i = i + 1;
        }
        proof {
            assert(ids@.take(ids@.len() as int) =~= ids@);
            assert forall|k: u128| m0.contains_key(k) implies (ids@.contains(k) <==> m0[k]@.file_path
                == from@) by {
                assert(ids@.to_set().contains(k) == target.contains(k));
            }
            assert(map@.map_values(|c: Chunk| c@) =~= chunks_moved(v0.chunks, from@, to@));
        }
        self.chunks = map;
        let updated: u64 = ids.len() as u64;
        let mut files: Vec<FileRecord> = Vec::new();
        std::mem::swap(&mut files, &mut self.files);
        match find_file(&files, &from_s) {
            Some(i) => {
                proof {
                    lemma_files_map_at(files@, i as int);
                    lemma_files_map_remove(files@, i as int);
                }
                let mut rec = files.remove(i);
                self.files = files;
                rec.path = to_s;
                self.upsert_file(&rec);
                proof {
                    assert(self@.files =~= files_moved(v0.files, from@, to@));
                }
            },
            None => {
                self.files = files;
            },
        }
        updated
    }

    /// The embedding dimension the store was created with.
    pub fn dimension(&self) -> (d: usize)
        ensures
            d == self@.dimension,
    {
        self.dimension
    }

    /// Mark the store as initialized; nothing else changes.
    pub fn init(&mut self)
        ensures
            final(self)@ == (MemoryStoreView { initialized: true, ..old(self)@ }),
    {
        proof {
            use_type_invariant(&*self);
        }
        self.initialized = true;
    }

    /// The record stored under `path`, if any.
    pub fn get_file(&self, path: &str) -> (r: Option<FileRecord>)
        ensures
            opt_file_view(r) == file_at(self@, path@),
    {
        proof {
            use_type_invariant(&*self);
        }
        let p = path.to_owned();
        match find_file(&self.files, &p) {
            Some(i) => {
                proof {
                    lemma_files_map_at(self.files@, i as int);
                }
                Some(self.files[i].clone())
            },
            None => None,
        }
    }

    /// Store `record` under its path, replacing any record stored there.
    pub fn upsert_file(&mut self, record: &FileRecord)
        ensures
            final(self)@ == with_file(old(self)@, record@),
    {
        proof {
            use_type_invariant(&*self);
        }
        let r = record.clone();
        let mut files: Vec<FileRecord> = Vec::new();
        std::mem::swap(&mut files, &mut self.files);
        match find_file(&files, &record.path) {
            Some(i) => {
                proof {
                    lemma_files_map_update(files@, i as int, r);
                }
                files.set(i, r);
            },
            None => {
                proof {
                    lemma_files_map_push(files@, r);
                }
                files.push(r);
            },
        }
        self.files = files;
    }

    /// Every stored file record, each path once.
    pub fn get_all_files(&self) -> (r: Vec<FileRecord>)
        ensures
            unique_paths(r@),
            files_map(r@) == self@.files,
            r@.len() == self@.files.dom().len(),
    {
        proof {
            use_type_invariant(&*self);
        }
        let mut r: Vec<FileRecord> = Vec::new();
        let mut i: usize = 0;
        while i < self.files.len()
            invariant
                i <= self.files@.len(),
                r@ == self.files@.take(i as int),
            decreases self.files@.len() - i,
        {
            r.push(self.files[i].clone());
            i = i + 1;
            proof {
                assert(r@ =~= self.files@.take(i as int));
            }
        }
        proof {
            assert(r@ =~= self.files@);
            lemma_files_map_len(self.files@);
        }
        r
    }

    /// Statistics of the store as of time `now`: the number of chunks and of
    /// file records, no bytes on disk, and `now` as the last update.
    pub fn stats(&self, now: Timestamp) -> (st: StoreStats)
        ensures
            st.total_chunks == self@.chunks.dom().len(),
            st.total_files == self@.files.dom().len(),
            st.index_size_bytes == 0,
            st.last_updated == Some(now),
    {
        proof {
            use_type_invariant(&*self);
        }
        proof {
            lemma_files_map_len(self.files@);
            assert(self@.chunks.dom() =~= self.chunks@.dom());
        }
        StoreStats {
            total_chunks: self.chunks.len() as u64,
            total_files: self.files.len() as u64,
            index_size_bytes: 0,
            last_updated: Some(now),
        }
    }

}

/// A store holds finitely many chunks and finitely many file records.
pub proof fn lemma_store_finite(s: &MemoryStore)
    ensures
        s@.chunks.dom().finite(),
        s@.files.dom().finite(),
{
    assert(s@.chunks.dom() =~= s.chunks@.dom());
    let paths = s.files@.map_values(|f: FileRecord| f.path@);
    assert forall|p: Seq<char>| s@.files.dom().contains(p) implies paths.to_set().contains(p) by {
        let i = choose|i: int| 0 <= i < s.files@.len() && (#[trigger] s.files@[i]).path@ == p;
        assert(paths[i] == p);
    }
    vstd::set_lib::lemma_len_subset(s@.files.dom(), paths.to_set());
}

impl Default for MemoryStore {
    /// A store for 384-dimensional embeddings.
    fn default() -> (s: Self)
        ensures
            s@ == empty_store(DEFAULT_DIMENSION),
    {
        MemoryStore::new(DEFAULT_DIMENSION)
    }
}

} // verus!
