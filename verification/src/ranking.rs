//! Ranking of search candidates by similarity score.
//!
//! Scores are 32-bit floats held as their IEEE-754 bit patterns. Candidates
//! are ordered by descending score; candidates with equal scores keep their
//! original relative order (a stable sort), and the first `limit` of that
//! order are kept. Scores compare as `f32::partial_cmp` compares them: the
//! two zeros are equal. A NaN score has no place in that order; here it ranks
//! below every other score.

use vstd::prelude::*;

verus! {

/// The order key of a score's bit pattern. For non-NaN scores, keys compare
/// exactly as the floats do (positive magnitudes grow with their bit
/// patterns, negative ones are mirrored, and both zeros map to 0); every NaN
/// pattern maps to a key below that of negative infinity.
pub open spec fn score_key(bits: u32) -> int {
    let magnitude = bits & 0x7fff_ffffu32;
    if magnitude > 0x7f80_0000u32 {
        -0x8000_0000
    } else if bits & 0x8000_0000u32 == 0 {
        magnitude as int
    } else {
        -(magnitude as int)
    }
}

/// The bit pattern is a NaN.
pub open spec fn is_nan_bits(bits: u32) -> bool {
    bits & 0x7fff_ffffu32 > 0x7f80_0000u32
}

/// IEEE-754 ordering of two non-NaN 32-bit floats given by their bit patterns:
/// among non-negative floats (sign bit clear) a larger pattern is a larger
/// float; among negative floats (sign bit set) a larger pattern is a smaller
/// float; every negative float is below every non-negative one, except that
/// negative zero equals positive zero.
pub open spec fn float_bits_lt(a: u32, b: u32) -> bool {
    if a < 0x8000_0000u32 && b < 0x8000_0000u32 {
        a < b
    } else if a >= 0x8000_0000u32 && b >= 0x8000_0000u32 {
        a > b
    } else if a >= 0x8000_0000u32 {
        !(a == 0x8000_0000u32 && b == 0)
    } else {
        false
    }
}

/// Two non-NaN 32-bit floats given by their bit patterns are equal: the same
/// pattern, or the two zeros.
pub open spec fn float_bits_eq(a: u32, b: u32) -> bool {
    a == b || ((a == 0 || a == 0x8000_0000u32) && (b == 0 || b == 0x8000_0000u32))
}

/// Scores compare by their keys exactly as the floats compare: for non-NaN
/// patterns, a key is smaller exactly when the float is smaller and equal
/// exactly when the floats are equal; a NaN's key is below every non-NaN key.
pub proof fn lemma_score_key_orders_like_floats(a: u32, b: u32)
    ensures
        !is_nan_bits(a) && !is_nan_bits(b) ==> (score_key(a) < score_key(b) <==> float_bits_lt(a, b)),
        !is_nan_bits(a) && !is_nan_bits(b) ==> (score_key(a) == score_key(b) <==> float_bits_eq(a, b)),
        is_nan_bits(a) && !is_nan_bits(b) ==> score_key(a) < score_key(b),
{
    assert(a & 0x7fff_ffffu32 <= 0x7fff_ffffu32) by (bit_vector);
    assert(b & 0x7fff_ffffu32 <= 0x7fff_ffffu32) by (bit_vector);
    assert((a & 0x8000_0000u32 == 0) <==> a < 0x8000_0000u32) by (bit_vector);
    assert((b & 0x8000_0000u32 == 0) <==> b < 0x8000_0000u32) by (bit_vector);
    assert(a < 0x8000_0000u32 ==> a & 0x7fff_ffffu32 == a) by (bit_vector);
    assert(b < 0x8000_0000u32 ==> b & 0x7fff_ffffu32 == b) by (bit_vector);
    assert(a >= 0x8000_0000u32 ==> a & 0x7fff_ffffu32 == a - 0x8000_0000u32) by (bit_vector);
    assert(b >= 0x8000_0000u32 ==> b & 0x7fff_ffffu32 == b - 0x8000_0000u32) by (bit_vector);
}

/// Computes [`score_key`].
pub fn score_key_of(bits: u32) -> (k: i64)
    ensures
        k == score_key(bits),
{
    let magnitude: u32 = bits & 0x7fff_ffffu32;
    if magnitude > 0x7f80_0000u32 {
        -0x8000_0000i64
    } else if bits & 0x8000_0000u32 == 0 {
        magnitude as i64
    } else {
        -(magnitude as i64)
    }
}

/// Candidate `i` comes before candidate `j`: it has the higher score, or an
/// equal score and an earlier position.
pub open spec fn precedes(scores: Seq<u32>, i: int, j: int) -> bool {
    ||| score_key(scores[i]) > score_key(scores[j])
    ||| (score_key(scores[i]) == score_key(scores[j]) && i < j)
}

/// The number of candidates that a search with this limit returns.
pub open spec fn ranked_len(n: nat, limit: usize) -> nat {
    if limit < n { limit as nat } else { n }
}

/// `ord` lists the positions of the first `min(limit, n)` candidates in the
/// stable descending order of their scores.
pub open spec fn is_top_ranking(scores: Seq<u32>, limit: usize, ord: Seq<usize>) -> bool {
    &&& ord.len() == ranked_len(scores.len(), limit)
    &&& forall|t: int| 0 <= t < ord.len() ==> #[trigger] ord[t] < scores.len()
    &&& forall|a: int, b: int|
        0 <= a < b < ord.len() ==> precedes(scores, #[trigger] ord[a] as int, #[trigger] ord[b] as int)
    &&& forall|a: int, j: usize|
        #![trigger ord[a], ord.contains(j)]
        0 <= a < ord.len() && j < scores.len() && !ord.contains(j) ==> precedes(
            scores,
            ord[a] as int,
            j as int,
        )
}

/// The positions of the candidates that a search keeps, best first.
pub open spec fn top_ranking(scores: Seq<u32>, limit: usize) -> Seq<usize> {
    choose|ord: Seq<usize>| is_top_ranking(scores, limit, ord)
}

proof fn lemma_precedes_asymmetric(scores: Seq<u32>, i: int, j: int)
    ensures
        !(precedes(scores, i, j) && precedes(scores, j, i)),
{
}

proof fn lemma_rankings_agree_at(
    scores: Seq<u32>,
    limit: usize,
    a: Seq<usize>,
    b: Seq<usize>,
    t: int,
)
    requires
        is_top_ranking(scores, limit, a),
        is_top_ranking(scores, limit, b),
        0 <= t < a.len(),
    ensures
        a[t] == b[t],
    decreases t,
{
    assert forall|u: int| 0 <= u < t implies a[u] == b[u] by {
        lemma_rankings_agree_at(scores, limit, a, b, u);
    }
    let x = a[t];
    let y = b[t];
    if x != y {
        // x comes before y in a
        assert(precedes(scores, x as int, y as int)) by {
            if a.contains(y) {
                let t2 = choose|t2: int| 0 <= t2 < a.len() && a[t2] == y;
                if t2 < t {
                    assert(b[t2] == y);
                    assert(precedes(scores, b[t2] as int, b[t] as int));
                } else {
                    assert(t < t2);
                }
            }
        }
        // y comes before x in b
        assert(precedes(scores, y as int, x as int)) by {
            if b.contains(x) {
                let t2 = choose|t2: int| 0 <= t2 < b.len() && b[t2] == x;
                if t2 < t {
                    assert(a[t2] == x);
                    assert(precedes(scores, a[t2] as int, a[t] as int));
                } else {
                    assert(t < t2);
                }
            }
        }
        lemma_precedes_asymmetric(scores, x as int, y as int);
    }
}

/// There is at most one top ranking for given scores and limit.
pub proof fn lemma_top_ranking_unique(scores: Seq<u32>, limit: usize, a: Seq<usize>, b: Seq<usize>)
    requires
        is_top_ranking(scores, limit, a),
        is_top_ranking(scores, limit, b),
    ensures
        a == b,
{
    assert forall|t: int| 0 <= t < a.len() implies a[t] == b[t] by {
        lemma_rankings_agree_at(scores, limit, a, b, t);
    }
    assert(a =~= b);
}

proof fn lemma_precedes_transitive(scores: Seq<u32>, i: int, j: int, l: int)
    requires
        precedes(scores, i, j),
        precedes(scores, j, l),
    ensures
        precedes(scores, i, l),
{
}

/// Among the positions below `m` that `ord` leaves out, if any, one comes
/// before all the others.
proof fn lemma_best_free_below(scores: Seq<u32>, ord: Seq<usize>, m: nat)
    requires
        m <= scores.len(),
        m <= usize::MAX + 1,
        exists|j: usize| j < m && !ord.contains(j),
    ensures
        exists|b: usize|
            #![trigger ord.contains(b)]
            b < m && !ord.contains(b) && forall|j: usize|
                j < m && !ord.contains(j) && j != b ==> precedes(scores, b as int, j as int),
    decreases m,
{
    let last = (m - 1) as usize;
    if exists|j: usize| j < m - 1 && !ord.contains(j) {
        lemma_best_free_below(scores, ord, (m - 1) as nat);
        let b0 = choose|b: usize|
            #![trigger ord.contains(b)]
            b < m - 1 && !ord.contains(b) && forall|j: usize|
                j < m - 1 && !ord.contains(j) && j != b ==> precedes(scores, b as int, j as int);
        if !ord.contains(last) && precedes(scores, last as int, b0 as int) {
            assert forall|j: usize| j < m && !ord.contains(j) && j != last implies precedes(
                scores,
                last as int,
                j as int,
            ) by {
                if j != b0 {
                    lemma_precedes_transitive(scores, last as int, b0 as int, j as int);
                }
            }
        } else {
            assert forall|j: usize| j < m && !ord.contains(j) && j != b0 implies precedes(
                scores,
                b0 as int,
                j as int,
            ) by {
                if j == last {
                    assert(!precedes(scores, last as int, b0 as int));
                }
            }
        }
    } else {
        assert forall|j: usize| j < m && !ord.contains(j) && j != last implies precedes(
            scores,
            last as int,
            j as int,
        ) by {
            assert(j < m - 1);
        }
        assert(!ord.contains(last));
    }
}

/// `ord` lists `k` positions in the stable descending order of their scores,
/// each before every position it leaves out.
spec fn is_ranking_prefix(scores: Seq<u32>, k: nat, ord: Seq<usize>) -> bool {
    &&& ord.len() == k
    &&& forall|t: int| 0 <= t < ord.len() ==> #[trigger] ord[t] < scores.len()
    &&& forall|a: int, b: int|
        0 <= a < b < ord.len() ==> precedes(scores, #[trigger] ord[a] as int, #[trigger] ord[b] as int)
    &&& forall|a: int, j: usize|
        #![trigger ord[a], ord.contains(j)]
        0 <= a < ord.len() && j < scores.len() && !ord.contains(j) ==> precedes(
            scores,
            ord[a] as int,
            j as int,
        )
}

/// A top ranking of `k` positions exists for every `k` up to the number of
/// candidates.
proof fn lemma_ranking_prefix_exists(scores: Seq<u32>, limit: usize, k: nat)
    requires
        k <= scores.len(),
        scores.len() <= usize::MAX,
    ensures
        exists|ord: Seq<usize>| #[trigger] is_ranking_prefix(scores, k, ord),
    decreases k,
{
    if k == 0 {
        let ord = Seq::<usize>::empty();
        assert(is_ranking_prefix(scores, k, ord));
    } else {
        lemma_ranking_prefix_exists(scores, limit, (k - 1) as nat);
        let ord = choose|ord: Seq<usize>| #[trigger] is_ranking_prefix(scores, (k - 1) as nat, ord);
        lemma_some_position_free(ord, scores.len());
        lemma_best_free_below(scores, ord, scores.len());
        let b = choose|b: usize|
            #![trigger ord.contains(b)]
            b < scores.len() && !ord.contains(b) && forall|j: usize|
                j < scores.len() && !ord.contains(j) && j != b ==> precedes(
                    scores,
                    b as int,
                    j as int,
                );
        let next = ord.push(b);
        assert forall|t: int| 0 <= t < next.len() implies #[trigger] next[t] < scores.len() by {
            if t < ord.len() {
                assert(next[t] == ord[t]);
            }
        }
        assert forall|a: int, c: int| 0 <= a < c < next.len() implies precedes(
            scores,
            #[trigger] next[a] as int,
            #[trigger] next[c] as int,
        ) by {
            assert(next[a] == ord[a]);
            if c < ord.len() {
                assert(next[c] == ord[c]);
            }
        }
        assert forall|a: int, j: usize|
            #![trigger next[a], next.contains(j)]
            0 <= a < next.len() && j < scores.len() && !next.contains(j) implies precedes(
            scores,
            next[a] as int,
            j as int,
        ) by {
            assert(!ord.contains(j)) by {
                if ord.contains(j) {
                    let w = choose|w: int| 0 <= w < ord.len() && ord[w] == j;
                    assert(next[w] == j);
                }
            }
            assert(j != b) by {
                assert(next[ord.len() as int] == b);
            }
            if a < ord.len() {
                assert(next[a] == ord[a]);
            } else {
                assert(next[a] == b);
            }
        }
        assert(is_ranking_prefix(scores, k, next));
    }
}

/// Every list of scores (as long as positions fit in `usize`) has a top
/// ranking for every limit.
pub proof fn lemma_top_ranking_exists(scores: Seq<u32>, limit: usize)
    requires
        scores.len() <= usize::MAX,
    ensures
        is_top_ranking(scores, limit, top_ranking(scores, limit)),
{
    lemma_ranking_prefix_exists(scores, limit, ranked_len(scores.len(), limit));
    let ord = choose|ord: Seq<usize>|
        #[trigger] is_ranking_prefix(scores, ranked_len(scores.len(), limit), ord);
    assert(is_top_ranking(scores, limit, ord));
    lemma_top_ranking_unique(scores, limit, ord, top_ranking(scores, limit));
}

/// For the same scores, the ranking kept under a smaller limit is the start
/// of the ranking kept under a larger one.
pub proof fn lemma_top_ranking_prefix(scores: Seq<u32>, k1: usize, k2: usize)
    requires
        k1 <= k2,
        scores.len() <= usize::MAX,
    ensures
        ranked_len(scores.len(), k1) <= ranked_len(scores.len(), k2),
        top_ranking(scores, k1) == top_ranking(scores, k2).take(ranked_len(scores.len(), k1) as int),
{
    lemma_top_ranking_exists(scores, k1);
    lemma_top_ranking_exists(scores, k2);
    let big = top_ranking(scores, k2);
    let small = big.take(ranked_len(scores.len(), k1) as int);
    assert forall|t: int| 0 <= t < small.len() implies #[trigger] small[t] < scores.len() by {
        assert(small[t] == big[t]);
    }
    assert forall|a: int, b: int| 0 <= a < b < small.len() implies precedes(
        scores,
        #[trigger] small[a] as int,
        #[trigger] small[b] as int,
    ) by {
        assert(small[a] == big[a] && small[b] == big[b]);
    }
    assert forall|a: int, j: usize|
        #![trigger small[a], small.contains(j)]
        0 <= a < small.len() && j < scores.len() && !small.contains(j) implies precedes(
        scores,
        small[a] as int,
        j as int,
    ) by {
        assert(small[a] == big[a]);
        if big.contains(j) {
            let t = choose|t: int| 0 <= t < big.len() && big[t] == j;
            if t < small.len() {
                assert(small[t] == j);
            }
            assert(precedes(scores, big[a] as int, big[t] as int));
        }
    }
    assert(is_top_ranking(scores, k1, small));
    lemma_top_ranking_unique(scores, k1, small, top_ranking(scores, k1));
}

/// A top ranking never puts a candidate with a smaller (non-NaN) score
/// before one with a larger score, and never drops a candidate whose score is
/// larger than that of a kept one.
pub proof fn lemma_top_ranking_follows_float_order(scores: Seq<u32>, limit: usize)
    requires
        scores.len() <= usize::MAX,
    ensures
        forall|a: int, b: int|
            #![trigger top_ranking(scores, limit)[a], top_ranking(scores, limit)[b]]
            0 <= a < b < top_ranking(scores, limit).len() && !is_nan_bits(
                scores[top_ranking(scores, limit)[a] as int],
            ) && !is_nan_bits(scores[top_ranking(scores, limit)[b] as int]) ==> !float_bits_lt(
                scores[top_ranking(scores, limit)[a] as int],
                scores[top_ranking(scores, limit)[b] as int],
            ),
        forall|a: int, j: usize|
            #![trigger top_ranking(scores, limit)[a], top_ranking(scores, limit).contains(j)]
            0 <= a < top_ranking(scores, limit).len() && j < scores.len() && !top_ranking(
                scores,
                limit,
            ).contains(j) && !is_nan_bits(scores[top_ranking(scores, limit)[a] as int])
                && !is_nan_bits(scores[j as int]) ==> !float_bits_lt(
                scores[top_ranking(scores, limit)[a] as int],
                scores[j as int],
            ),
{
    lemma_top_ranking_exists(scores, limit);
    let top = top_ranking(scores, limit);
    assert forall|a: int, b: int|
        #![trigger top[a], top[b]]
        0 <= a < b < top.len() && !is_nan_bits(scores[top[a] as int]) && !is_nan_bits(
            scores[top[b] as int],
        ) implies !float_bits_lt(scores[top[a] as int], scores[top[b] as int]) by {
        assert(precedes(scores, top[a] as int, top[b] as int));
        lemma_score_key_orders_like_floats(scores[top[a] as int], scores[top[b] as int]);
    }
    assert forall|a: int, j: usize|
        #![trigger top[a], top.contains(j)]
        0 <= a < top.len() && j < scores.len() && !top.contains(j) && !is_nan_bits(
            scores[top[a] as int],
        ) && !is_nan_bits(scores[j as int]) implies !float_bits_lt(
        scores[top[a] as int],
        scores[j as int],
    ) by {
        assert(precedes(scores, top[a] as int, j as int));
        lemma_score_key_orders_like_floats(scores[top[a] as int], scores[j as int]);
    }
}

fn precedes_at(scores: &Vec<u32>, i: usize, j: usize) -> (r: bool)
    requires
        i < scores.len(),
        j < scores.len(),
    ensures
        r == precedes(scores@, i as int, j as int),
{
    let ki = score_key_of(scores[i]);
    let kj = score_key_of(scores[j]);
    ki > kj || (ki == kj && i < j)
}

/// A sequence of fewer than `n` positions below `n` leaves one out.
proof fn lemma_some_position_free(ord: Seq<usize>, n: nat)
    requires
        ord.len() < n,
        n <= usize::MAX + 1,
        forall|t: int| 0 <= t < ord.len() ==> #[trigger] ord[t] < n,
    ensures
        exists|j: usize| j < n && !ord.contains(j),
{
    let ints = ord.map_values(|x: usize| x as int);
    let all = vstd::set_lib::set_int_range(0, n as int);
    ints.lemma_cardinality_of_set();
    vstd::set_lib::lemma_int_range(0, n as int);
    if forall|j: usize| j < n ==> ord.contains(j) {
        assert forall|x: int| all.contains(x) implies ints.to_set().contains(x) by {
            let j = x as usize;
            assert(ord.contains(j));
            let w = choose|w: int| 0 <= w < ord.len() && ord[w] == j;
            assert(ints[w] == x);
        }
        vstd::set_lib::lemma_len_subset(all, ints.to_set());
        assert(false);
    }
}

/// Positions of the candidates kept by a search, best first: the first
/// `min(limit, n)` positions of the stable descending order of the scores.
pub fn rank_positions(scores: &Vec<u32>, limit: usize) -> (ord: Vec<usize>)
    ensures
        is_top_ranking(scores@, limit, ord@),
        ord@ == top_ranking(scores@, limit),
{
    let n = scores.len();
    let k = if limit < n { limit } else { n };
    let mut chosen: Vec<bool> = vec![false; n];
    let mut ord: Vec<usize> = Vec::new();
    let mut t: usize = 0;
    while t < k
        invariant
            k == ranked_len(scores@.len(), limit),
            n == scores@.len(),
            k <= n,
            t <= k,
            chosen@.len() == n,
            ord@.len() == t,
            forall|j: int| 0 <= j < n ==> (#[trigger] chosen@[j] <==> ord@.contains(j as usize)),
            forall|a: int| 0 <= a < ord@.len() ==> #[trigger] ord@[a] < n,
            forall|a: int, b: int|
                0 <= a < b < ord@.len() ==> precedes(
                    scores@,
                    #[trigger] ord@[a] as int,
                    #[trigger] ord@[b] as int,
                ),
            forall|a: int, j: int|
                #![trigger ord@[a], chosen@[j]]
                0 <= a < ord@.len() && 0 <= j < n && !chosen@[j] ==> precedes(
                    scores@,
                    ord@[a] as int,
                    j,
                ),
        decreases k - t,
    {
        proof {
            lemma_some_position_free(ord@, n as nat);
        }
        let mut best: usize = n;
        let mut j: usize = 0;
        while j < n
            invariant
                n == scores@.len(),
                chosen@.len() == n,
                j <= n,
                best == n || (best < j && !chosen@[best as int]),
                forall|i: int|
                    0 <= i < j && !chosen@[i] ==> best < n && (i == best || precedes(
                        scores@,
                        best as int,
                        i,
                    )),
            decreases n - j,
        {
            if !chosen[j] {
                if best == n || precedes_at(scores, j, best) {
                    proof {
                        assert forall|i: int| 0 <= i < j && !chosen@[i] implies precedes(
                            scores@,
                            j as int,
                            i,
                        ) by {
                            if i != best {
                                // transitivity through the previous best
                                assert(precedes(scores@, best as int, i));
                            }
                        }
                    }
                    best = j;
                }
            }
            j = j + 1;
        }
        proof {
            let free = choose|x: usize| x < n && !ord@.contains(x);
            assert(!chosen@[free as int]);
        }
        let ghost old_ord = ord@;
        let ghost old_chosen = chosen@;
        ord.push(best);
        chosen.set(best, true);
        proof {
            assert forall|jj: int| 0 <= jj < n implies (#[trigger] chosen@[jj] <==> ord@.contains(
                jj as usize,
            )) by {
                if jj == best {
                    assert(ord@[t as int] == best);
                } else {
                    assert(chosen@[jj] == old_chosen[jj]);
                    if old_ord.contains(jj as usize) {
                        let w = choose|w: int| 0 <= w < old_ord.len() && old_ord[w] == jj as usize;
                        assert(ord@[w] == jj as usize);
                    }
                    if ord@.contains(jj as usize) {
                        let w = choose|w: int| 0 <= w < ord@.len() && ord@[w] == jj as usize;
                        assert(w < old_ord.len());
                        assert(old_ord[w] == jj as usize);
                    }
                }
            }
            assert forall|a: int, b: int| 0 <= a < b < ord@.len() implies precedes(
                scores@,
                #[trigger] ord@[a] as int,
                #[trigger] ord@[b] as int,
            ) by {
                if b == t {
                    assert(ord@[a] == old_ord[a]);
                    assert(!old_chosen[best as int]);
                } else {
                    assert(ord@[a] == old_ord[a]);
                    assert(ord@[b] == old_ord[b]);
                }
            }
            assert forall|a: int, jj: int|
                #![trigger ord@[a], chosen@[jj]]
                0 <= a < ord@.len() && 0 <= jj < n && !chosen@[jj] implies precedes(
                scores@,
                ord@[a] as int,
                jj,
            ) by {
                assert(old_chosen[jj] == chosen@[jj]);
                if a == t {
                    assert(ord@[a] == best);
                    assert(jj != best);
                } else {
                    assert(ord@[a] == old_ord[a]);
                }
            }
        }
        t = t + 1;
    }
    proof {
        assert forall|a: int, jj: usize|
            #![trigger ord@[a], ord@.contains(jj)]
            0 <= a < ord@.len() && jj < scores@.len() && !ord@.contains(jj) implies precedes(
            scores@,
            ord@[a] as int,
            jj as int,
        ) by {
            assert(!chosen@[jj as int]);
        }
        assert(is_top_ranking(scores@, limit, ord@));
        lemma_top_ranking_unique(scores@, limit, ord@, top_ranking(scores@, limit));
    }
    ord
}

} // verus!
