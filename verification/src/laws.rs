//! Laws of the in-memory store: what one operation shows of another.

use vstd::prelude::*;
use crate::types::{ChunkView, FileRecordView};
use crate::ranking::{
    lemma_top_ranking_exists, lemma_top_ranking_prefix, precedes, ranked_len, score_key,
    top_ranking,
};
use crate::memory::{
    MemoryStoreView, chunk_ids_in_file, chunks_moved, file_at, lemma_listing_len, lists_exactly,
    moved_path, search_hits, upsert_all, with_file, without_path,
};

verus! {

/// Reading the record at a path right after storing a record with that path
/// gives back the stored record.
pub proof fn lemma_file_read_after_write(v: MemoryStoreView, r: FileRecordView)
    ensures
        file_at(with_file(v, r), r.path) == Some(r),
{
}

/// Storing a record leaves the records at every other path as they were.
pub proof fn lemma_file_write_isolated(v: MemoryStoreView, r: FileRecordView, p: Seq<char>)
    requires
        p != r.path,
    ensures
        file_at(with_file(v, r), p) == file_at(v, p),
{
}

/// After storing a batch of chunks, a chunk of the batch whose identifier
/// does not recur later in the batch is stored under its identifier.
pub proof fn lemma_upsert_last_wins(m: Map<u128, ChunkView>, cs: Seq<ChunkView>, i: int)
    requires
        0 <= i < cs.len(),
        forall|j: int| i < j < cs.len() ==> (#[trigger] cs[j]).id != cs[i].id,
    ensures
        upsert_all(m, cs).contains_key(cs[i].id),
        upsert_all(m, cs)[cs[i].id] == cs[i],
    decreases cs.len(),
{
    if i < cs.len() - 1 {
        let front = cs.drop_last();
        assert forall|j: int| i < j < front.len() implies (#[trigger] front[j]).id != front[i].id by {
            assert(front[j] == cs[j]);
        }
        lemma_upsert_last_wins(m, front, i);
        assert(cs.last() == cs[cs.len() - 1]);
    }
}

/// Storing a batch of chunks leaves every identifier that the batch does not
/// carry as it was: stored with the same chunk, or absent.
pub proof fn lemma_upsert_keeps_others(m: Map<u128, ChunkView>, cs: Seq<ChunkView>, k: u128)
    requires
        forall|j: int| 0 <= j < cs.len() ==> (#[trigger] cs[j]).id != k,
    ensures
        upsert_all(m, cs).contains_key(k) == m.contains_key(k),
        m.contains_key(k) ==> upsert_all(m, cs)[k] == m[k],
    decreases cs.len(),
{
    if cs.len() > 0 {
        let front = cs.drop_last();
        assert forall|j: int| 0 <= j < front.len() implies (#[trigger] front[j]).id != k by {
            assert(front[j] == cs[j]);
        }
        lemma_upsert_keeps_others(m, front, k);
        assert(cs.last() == cs[cs.len() - 1]);
    }
}

/// Storing a batch of chunks whose identifiers are distinct and new to the
/// store adds exactly one stored chunk per chunk of the batch.
pub proof fn lemma_upsert_count(m: Map<u128, ChunkView>, cs: Seq<ChunkView>)
    requires
        m.dom().finite(),
        forall|i: int, j: int|
            #![trigger cs[i], cs[j]]
            0 <= i < cs.len() && 0 <= j < cs.len() && i != j ==> cs[i].id != cs[j].id,
        forall|i: int| 0 <= i < cs.len() ==> !m.contains_key((#[trigger] cs[i]).id),
    ensures
        upsert_all(m, cs).dom().finite(),
        upsert_all(m, cs).dom().len() == m.dom().len() + cs.len(),
    decreases cs.len(),
{
    if cs.len() > 0 {
        let front = cs.drop_last();
        assert forall|i: int, j: int|
            #![trigger front[i], front[j]]
            0 <= i < front.len() && 0 <= j < front.len() && i != j implies front[i].id
            != front[j].id by {
            assert(front[i] == cs[i] && front[j] == cs[j]);
        }
        assert forall|i: int| 0 <= i < front.len() implies !m.contains_key(
            (#[trigger] front[i]).id,
        ) by {
            assert(front[i] == cs[i]);
        }
        lemma_upsert_count(m, front);
        let last = cs.last();
        assert(last == cs[cs.len() - 1]);
        assert forall|j: int| 0 <= j < front.len() implies (#[trigger] front[j]).id != last.id by {
            assert(front[j] == cs[j]);
        }
        lemma_upsert_keeps_others(m, front, last.id);
        assert(!upsert_all(m, front).contains_key(last.id));
    }
}

/// After deleting the file at `p`: no chunk of that file remains, every
/// chunk of another file remains unchanged, the chunks removed and the chunks
/// remaining add up to the chunks stored before, and no record is stored
/// under `p`.
pub proof fn lemma_delete_file(v: MemoryStoreView, p: Seq<char>)
    requires
        v.chunks.dom().finite(),
    ensures
        chunk_ids_in_file(without_path(v, p).chunks, p) == Set::<u128>::empty(),
        forall|k: u128|
            #[trigger] v.chunks.contains_key(k) && v.chunks[k].file_path != p ==> without_path(
                v,
                p,
            ).chunks.contains_key(k) && without_path(v, p).chunks[k] == v.chunks[k],
        chunk_ids_in_file(v.chunks, p).len() + without_path(v, p).chunks.dom().len()
            == v.chunks.dom().len(),
        file_at(without_path(v, p), p) is None,
{
    let m = v.chunks;
    let gone = chunk_ids_in_file(m, p);
    let rest = without_path(v, p).chunks;
    assert(chunk_ids_in_file(rest, p) =~= Set::<u128>::empty());
    assert(rest.dom() =~= m.dom().difference(gone));
    assert(m.dom().intersect(gone) =~= gone);
    vstd::set_lib::lemma_set_difference_len(m.dom(), gone);
}

/// After moving the file at `from` to a different path `to`: the same chunks
/// are stored, none of them at `from`; the chunks at `to` are those that were
/// at `from` or at `to`; no record is stored under `from`, and the record
/// that was stored under `from`, if any, is stored under `to` with its path
/// changed.
pub proof fn lemma_move_file(v: MemoryStoreView, from: Seq<char>, to: Seq<char>)
    requires
        from != to,
    ensures
        moved_path(v, from, to).chunks.dom() == v.chunks.dom(),
        chunk_ids_in_file(moved_path(v, from, to).chunks, from) == Set::<u128>::empty(),
        chunk_ids_in_file(moved_path(v, from, to).chunks, to) == chunk_ids_in_file(v.chunks, from)
            + chunk_ids_in_file(v.chunks, to),
        file_at(moved_path(v, from, to), from) is None,
        v.files.contains_key(from) ==> file_at(moved_path(v, from, to), to) == Some(
            FileRecordView { path: to, ..v.files[from] },
        ),
        !v.files.contains_key(from) ==> file_at(moved_path(v, from, to), to) == file_at(v, to),
{
    let w = chunks_moved(v.chunks, from, to);
    assert(w.dom() =~= v.chunks.dom());
    assert(chunk_ids_in_file(w, from) =~= Set::<u128>::empty());
    assert(chunk_ids_in_file(w, to) =~= chunk_ids_in_file(v.chunks, from) + chunk_ids_in_file(
        v.chunks,
        to,
    ));
}

/// The chunks that `get_chunks_for_file` lists for a path are as many as
/// `delete_by_file_path` reports removing for it.
pub proof fn lemma_listing_matches_count(m: Map<u128, ChunkView>, r: Seq<ChunkView>, p: Seq<char>)
    requires
        lists_exactly(m, r, |c: ChunkView| c.file_path == p),
    ensures
        r.len() == chunk_ids_in_file(m, p).len(),
{
    lemma_listing_len(m, r, |c: ChunkView| c.file_path == p);
    assert(m.dom().filter(|k: u128| (|c: ChunkView| c.file_path == p)(m[k])) =~= chunk_ids_in_file(
        m,
        p,
    ));
}

/// A search over the store's candidates (the chunks that carry an
/// embedding) with one score per candidate: there are `min(limit, number of
/// candidates)` results, each a stored chunk that carries an embedding, no
/// chunk twice, and the scores never increase down the list.
pub proof fn lemma_search_results(
    m: Map<u128, ChunkView>,
    cands: Seq<ChunkView>,
    scores: Seq<u32>,
    limit: usize,
)
    requires
        lists_exactly(m, cands, |c: ChunkView| c.embedding is Some),
        scores.len() == cands.len(),
        scores.len() <= usize::MAX,
    ensures
        top_ranking(scores, limit).len() == ranked_len(cands.len(), limit),
        forall|t: int|
            #![trigger top_ranking(scores, limit)[t]]
            0 <= t < top_ranking(scores, limit).len() ==> {
                let c = cands[top_ranking(scores, limit)[t] as int];
                &&& m.contains_key(c.id)
                &&& m[c.id] == c
                &&& c.embedding is Some
            },
        forall|a: int, b: int|
            #![trigger top_ranking(scores, limit)[a], top_ranking(scores, limit)[b]]
            0 <= a < top_ranking(scores, limit).len() && 0 <= b < top_ranking(scores, limit).len()
                && a != b ==> cands[top_ranking(scores, limit)[a] as int].id
                != cands[top_ranking(scores, limit)[b] as int].id,
        forall|a: int, b: int|
            #![trigger top_ranking(scores, limit)[a], top_ranking(scores, limit)[b]]
            0 <= a < b < top_ranking(scores, limit).len() ==> score_key(
                scores[top_ranking(scores, limit)[a] as int],
            ) >= score_key(scores[top_ranking(scores, limit)[b] as int]),
{
    lemma_top_ranking_exists(scores, limit);
    let top = top_ranking(scores, limit);
    assert forall|t: int| #![trigger top[t]] 0 <= t < top.len() implies {
        let c = cands[top[t] as int];
        &&& m.contains_key(c.id)
        &&& m[c.id] == c
        &&& c.embedding is Some
    } by {
        assert(top[t] < scores.len());
        let c = cands[top[t] as int];
        assert(m.contains_key(c.id));
    }
    assert forall|a: int, b: int|
        #![trigger top[a], top[b]]
        0 <= a < top.len() && 0 <= b < top.len() && a != b implies cands[top[a] as int].id
        != cands[top[b] as int].id by {
        assert(top[a] != top[b]) by {
            if a < b {
                assert(precedes(scores, top[a] as int, top[b] as int));
            } else {
                assert(precedes(scores, top[b] as int, top[a] as int));
            }
        }
        assert(top[a] < scores.len() && top[b] < scores.len());
        let ca = cands[top[a] as int];
        let cb = cands[top[b] as int];
        assert(ca.id != cb.id);
    }
    assert forall|a: int, b: int|
        #![trigger top[a], top[b]]
        0 <= a < b < top.len() implies score_key(scores[top[a] as int])
        >= score_key(scores[top[b] as int]) by {
        assert(precedes(scores, top[a] as int, top[b] as int));
    }
}

/// Searching the same candidates with the same scores under a smaller limit
/// gives the start of the results under a larger limit.
pub proof fn lemma_search_limit_prefix(
    cands: Seq<ChunkView>,
    scores: Seq<u32>,
    k1: usize,
    k2: usize,
)
    requires
        k1 <= k2,
        scores.len() == cands.len(),
        scores.len() <= usize::MAX,
    ensures
        search_hits(cands, scores, k1).len() <= search_hits(cands, scores, k2).len(),
        search_hits(cands, scores, k1) == search_hits(cands, scores, k2).take(
            search_hits(cands, scores, k1).len() as int,
        ),
{
    lemma_top_ranking_prefix(scores, k1, k2);
    lemma_top_ranking_exists(scores, k1);
    lemma_top_ranking_exists(scores, k2);
    assert(search_hits(cands, scores, k1) =~= search_hits(cands, scores, k2).take(
        search_hits(cands, scores, k1).len() as int,
    ));
}

/// Deleting the file at `p` leaves the record at every other path as it
/// was, and removes exactly one record when one is stored under `p`.
pub proof fn lemma_delete_keeps_other_records(v: MemoryStoreView, p: Seq<char>, q: Seq<char>)
    requires
        q != p,
    ensures
        file_at(without_path(v, p), q) == file_at(v, q),
        v.files.dom().finite() ==> without_path(v, p).files.dom().len() == if v.files.contains_key(
            p,
        ) {
            v.files.dom().len() - 1
        } else {
            v.files.dom().len() as int
        },
{
    if v.files.dom().finite() {
        if v.files.contains_key(p) {
            assert(without_path(v, p).files.dom() =~= v.files.dom().remove(p));
        } else {
            assert(without_path(v, p).files.dom() =~= v.files.dom());
        }
    }
}

/// Moving the file at `from` to `to` leaves the record at every path other
/// than `from` and `to` as it was; when a record is stored under `from` and
/// none under a different `to`, the number of records stays the same.
pub proof fn lemma_move_keeps_other_records(
    v: MemoryStoreView,
    from: Seq<char>,
    to: Seq<char>,
    p: Seq<char>,
)
    requires
        p != from,
        p != to,
    ensures
        file_at(moved_path(v, from, to), p) == file_at(v, p),
        v.files.dom().finite() && v.files.contains_key(from) && !v.files.contains_key(to)
            ==> moved_path(v, from, to).files.dom().len() == v.files.dom().len(),
{
    if v.files.dom().finite() && v.files.contains_key(from) && !v.files.contains_key(to) {
        assert(moved_path(v, from, to).files.dom() =~= v.files.dom().remove(from).insert(to));
    }
}

} // verus!
