//! Top-k similarity search: threshold filtering, descending sort and
//! truncation of a batch's scores.
//!
//! The scores arrive as the bit patterns of double-precision values, one per
//! candidate in collection order; the kernel that produced them runs in the
//! host layer. Selection here is fully verified: the result holds exactly the
//! `min(k, qualifying)` best candidates, ordered by descending score with
//! ties broken by ascending collection index.

use vstd::prelude::*;
use vstd::multiset::Multiset;
use vstd::seq_lib::group_to_multiset_ensures;

use crate::errors::VectorError;
use crate::float_bits::f64_order_key;
use crate::vector_ops::SimilarityResult;
use crate::vector_ops::VectorOperations;

verus! {

/// How many scores pass the threshold, in the bit-pattern order of
/// `float_bits`.
pub open spec fn qualifying_count(sims: Seq<u64>, threshold: u64) -> int
    decreases sims.len(),
{
    if sims.len() == 0 {
        0
    } else {
        qualifying_count(sims.drop_last(), threshold) + if f64_order_key(sims.last())
            >= f64_order_key(threshold) {
            1int
        } else {
            0int
        }
    }
}

/// The rank order of candidates `(index, score bits)`: a higher score ranks
/// first, and among equal scores the lower collection index. (A final
/// comparison of the raw bits only serves to make the order total on
/// patterns, such as the two zeros, that encode equal values.)
pub open spec fn rank_le(i1: int, s1: u64, i2: int, s2: u64) -> bool {
    ||| f64_order_key(s1) > f64_order_key(s2)
    ||| (f64_order_key(s1) == f64_order_key(s2) && (i1 < i2 || (i1 == i2 && s1 <= s2)))
}

/// A well-formed search hit: its index is a real position, its score and
/// label are that position's, and its score passes the threshold.
pub open spec fn entry_ok(
    sims: Seq<u64>,
    paths: Seq<String>,
    threshold: u64,
    e: SimilarityResult,
) -> bool {
    &&& 0 <= e.index < sims.len()
    &&& e.similarity == sims[e.index as int]
    &&& paths.len() == sims.len() && e.path@ == paths[e.index as int]@
    &&& f64_order_key(e.similarity) >= f64_order_key(threshold)
}

/// Strict output order: descending score, ties broken by ascending index.
pub open spec fn entry_precedes(a: SimilarityResult, b: SimilarityResult) -> bool {
    ||| f64_order_key(a.similarity) > f64_order_key(b.similarity)
    ||| (f64_order_key(a.similarity) == f64_order_key(b.similarity) && a.index < b.index)
}

/// Whether some returned entry refers to collection position `q`.
pub open spec fn result_has_index(out: Seq<SimilarityResult>, q: int) -> bool {
    exists|u: int| 0 <= u < out.len() && out[u].index == q
}

/// The smaller of two integers.
pub open spec fn int_min(a: int, b: int) -> int {
    if a <= b {
        a
    } else {
        b
    }
}

/// A candidate pair drawn faithfully from the scores: a real position, that
/// position's score, and a score that passes the threshold.
spec fn cand_ok(sims: Seq<u64>, threshold: u64, c: (usize, u64)) -> bool {
    &&& c.0 < sims.len()
    &&& c.1 == sims[c.0 as int]
    &&& f64_order_key(c.1) >= f64_order_key(threshold)
}

/// The candidate list is sorted by rank.
spec fn sorted_by_rank(s: Seq<(usize, u64)>) -> bool {
    forall|i: int, j: int|
        0 <= i < j < s.len() ==> rank_le(s[i].0 as int, s[i].1, s[j].0 as int, s[j].1)
}

proof fn lemma_rank_le_total(i1: int, s1: u64, i2: int, s2: u64)
    ensures
        rank_le(i1, s1, i2, s2) || rank_le(i2, s2, i1, s1),
{
}

proof fn lemma_rank_le_trans(i1: int, s1: u64, i2: int, s2: u64, i3: int, s3: u64)
    requires
        rank_le(i1, s1, i2, s2),
        rank_le(i2, s2, i3, s3),
    ensures
        rank_le(i1, s1, i3, s3),
{
}

/// Compares two candidates in the rank order.
fn cand_le(a: (usize, u64), b: (usize, u64)) -> (r: bool)
    ensures
        r == rank_le(a.0 as int, a.1, b.0 as int, b.1),
{
    let a_le_b = crate::float_bits::f64_le_bits(a.1, b.1);
    let b_le_a = crate::float_bits::f64_le_bits(b.1, a.1);
    if !a_le_b {
        true
    } else if b_le_a {
        a.0 < b.0 || (a.0 == b.0 && a.1 <= b.1)
    } else {
        false
    }
}

/// Selection sort of the candidate list in the rank order; the result is a
/// permutation of the input.
fn sort_cands(cands: Vec<(usize, u64)>) -> (r: Vec<(usize, u64)>)
    ensures
        r@.to_multiset() == cands@.to_multiset(),
        sorted_by_rank(r@),
{
    broadcast use group_to_multiset_ensures;

    let mut rest = cands;
    let mut out: Vec<(usize, u64)> = Vec::new();
    proof {
        assert(out@.to_multiset().add(rest@.to_multiset()) =~= cands@.to_multiset());
    }
    while rest.len() > 0
        invariant
            out@.to_multiset().add(rest@.to_multiset()) == cands@.to_multiset(),
            sorted_by_rank(out@),
            forall|i: int, j: int|
                0 <= i < out@.len() && 0 <= j < rest@.len() ==> rank_le(
                    #[trigger] out@[i].0 as int,
                    out@[i].1,
                    #[trigger] rest@[j].0 as int,
                    rest@[j].1,
                ),
        decreases rest@.len(),
    {
        let mut best: usize = 0;
        let mut k: usize = 1;
        while k < rest.len()
            invariant
                0 < rest@.len(),
                best < k <= rest@.len(),
                forall|t: int|
                    0 <= t < k ==> rank_le(
                        rest@[best as int].0 as int,
                        rest@[best as int].1,
                        #[trigger] rest@[t].0 as int,
                        rest@[t].1,
                    ),
            decreases rest@.len() - k,
        {
            if cand_le(rest[k], rest[best]) {
                proof {
                    let old_best = best as int;
                    assert forall|t: int| 0 <= t < k + 1 implies rank_le(
                        rest@[k as int].0 as int,
                        rest@[k as int].1,
                        #[trigger] rest@[t].0 as int,
                        rest@[t].1,
                    ) by {
                        if t < k {
                            lemma_rank_le_trans(
                                rest@[k as int].0 as int,
                                rest@[k as int].1,
                                rest@[old_best].0 as int,
                                rest@[old_best].1,
                                rest@[t].0 as int,
                                rest@[t].1,
                            );
                        }
                    }
                }
                best = k;
            } else {
                proof {
                    lemma_rank_le_total(
                        rest@[k as int].0 as int,
                        rest@[k as int].1,
                        rest@[best as int].0 as int,
                        rest@[best as int].1,
                    );
                }
            }
            k += 1;
        }
        let ghost old_rest = rest@;
        let ghost old_out = out@;
        let x = rest.remove(best);
        out.push(x);
        proof {
            broadcast use group_to_multiset_ensures;

            assert(old_rest.remove(best as int).to_multiset() =~= old_rest.to_multiset().remove(
                x,
            ));
            assert(old_out.push(x).to_multiset() =~= old_out.to_multiset().insert(x));
            assert(out@.to_multiset().add(rest@.to_multiset()) =~= cands@.to_multiset()) by {
                assert(old_rest.to_multiset().count(x) > 0) by {
                    assert(old_rest.contains(x));
                }
                assert forall|y: (usize, u64)|
                    out@.to_multiset().add(rest@.to_multiset()).count(y)
                        == cands@.to_multiset().count(y) by {
                    assert(old_out.to_multiset().add(old_rest.to_multiset()).count(y)
                        == cands@.to_multiset().count(y));
                }
            }
            assert forall|j: int| 0 <= j < rest@.len() implies rank_le(
                x.0 as int,
                x.1,
                #[trigger] rest@[j].0 as int,
                rest@[j].1,
            ) by {
                if j < best as int {
                    assert(rest@[j] == old_rest[j]);
                } else {
                    assert(rest@[j] == old_rest[j + 1]);
                }
            }
            assert forall|i: int, j: int|
                0 <= i < out@.len() && 0 <= j < rest@.len() implies rank_le(
                #[trigger] out@[i].0 as int,
                out@[i].1,
                #[trigger] rest@[j].0 as int,
                rest@[j].1,
            ) by {
                if i < old_out.len() {
                    if j < best as int {
                        assert(rest@[j] == old_rest[j]);
                    } else {
                        assert(rest@[j] == old_rest[j + 1]);
                    }
                } else {
                    assert(out@[i] == x);
                }
            }
            assert forall|i: int, j: int| 0 <= i < j < out@.len() implies rank_le(
                out@[i].0 as int,
                out@[i].1,
                out@[j].0 as int,
                out@[j].1,
            ) by {
                if j == out@.len() - 1 {
                    assert(out@[j] == x);
                    assert(old_rest.contains(x));
                }
            }
        }
    }
    proof {
        broadcast use group_to_multiset_ensures;

        assert(rest@.to_multiset() =~= Multiset::empty());
        assert(out@.to_multiset() =~= cands@.to_multiset()) by {
            assert forall|y: (usize, u64)|
                out@.to_multiset().count(y) == cands@.to_multiset().count(y) by {
                assert(out@.to_multiset().add(rest@.to_multiset()).count(y)
                    == cands@.to_multiset().count(y));
            }
        }
    }
    out
}

impl VectorOperations {
    /// Filters a batch's scores by the configured similarity threshold, sorts
    /// the survivors by descending score (ties by ascending collection index)
    /// and keeps at most `top_k` of them, each labeled with its caller-given
    /// path. Fails when the label count disagrees with the score count.
    pub fn select_top_k(
        &self,
        similarities: &Vec<u64>,
        paths: &Vec<String>,
        top_k: u32,
    ) -> (r: Result<Vec<SimilarityResult>, VectorError>)
        ensures
            r is Ok <==> similarities@.len() == paths@.len(),
            r is Err ==> r->Err_0 == VectorError::LabelCountMismatch,
            r matches Ok(out) ==> {
                let sims = similarities@;
                let th = self.config.similarity_threshold;
                &&& out@.len() == int_min(top_k as int, qualifying_count(sims, th))
                &&& forall|i: int|
                    0 <= i < out@.len() ==> entry_ok(sims, paths@, th, #[trigger] out@[i])
                &&& forall|i: int, j: int|
                    0 <= i < j < out@.len() ==> entry_precedes(out@[i], out@[j])
                &&& forall|q: int, i: int|
                    0 <= q < sims.len() && f64_order_key(#[trigger] sims[q]) >= f64_order_key(th)
                        && !result_has_index(out@, q) && 0 <= i < out@.len() ==> rank_le(
                        (#[trigger] out@[i]).index as int,
                        out@[i].similarity,
                        q,
                        sims[q],
                    )
            },
    {
        broadcast use group_to_multiset_ensures;

        if similarities.len() != paths.len() {
            return Err(VectorError::LabelCountMismatch);
        }
        let ghost sims = similarities@;
        let th = self.config.similarity_threshold;

        let mut cands: Vec<(usize, u64)> = Vec::new();
        let mut i: usize = 0;
        proof {
            assert(sims.take(0) =~= Seq::<u64>::empty());
        }
        while i < similarities.len()
            invariant
                i <= sims.len(),
                sims == similarities@,
                th == self.config.similarity_threshold,
                cands@.len() == qualifying_count(sims.take(i as int), th),
                forall|t: int| 0 <= t < cands@.len() ==> cand_ok(sims, th, #[trigger] cands@[t]),
                forall|t: int| 0 <= t < cands@.len() ==> (#[trigger] cands@[t]).0 < i,
                forall|t: int, u: int|
                    0 <= t < u < cands@.len() ==> (#[trigger] cands@[t]).0 < (
                    #[trigger] cands@[u]).0,
                forall|q: int|
                    0 <= q < i && f64_order_key(sims[q]) >= f64_order_key(th)
                        ==> cands@.contains((q as usize, sims[q])),
            decreases sims.len() - i,
        {
            let s = similarities[i];
            let ghost old_cands = cands@;
            if crate::float_bits::f64_le_bits(th, s) {
                cands.push((i, s));
            }
            proof {
                assert(sims.take(i + 1).drop_last() =~= sims.take(i as int));
                assert(sims.take(i + 1).last() == sims[i as int]);
                assert forall|q: int|
                    0 <= q < i + 1 && f64_order_key(sims[q]) >= f64_order_key(th)
                        implies cands@.contains((q as usize, sims[q])) by {
                    if q < i {
                        let t = choose|t: int|
                            0 <= t < old_cands.len() && old_cands[t] == (q as usize, sims[q]);
                        assert(cands@[t] == (q as usize, sims[q]));
                    } else {
                        assert(cands@[cands@.len() - 1] == (q as usize, sims[q]));
                    }
                }
            }
            i += 1;
        }
        proof {
            assert(sims.take(sims.len() as int) =~= sims);
        }

        let ghost gcands = cands@;
        let sorted = sort_cands(cands);
        proof {
            assert(gcands.no_duplicates()) by {
                assert forall|t: int, u: int|
                    0 <= t < gcands.len() && 0 <= u < gcands.len() && t != u implies gcands[t]
                    != gcands[u] by {
                    if t < u {
                        assert(gcands[t].0 < gcands[u].0);
                    } else {
                        assert(gcands[u].0 < gcands[t].0);
                    }
                }
            }
            gcands.lemma_multiset_has_no_duplicates();
            sorted@.lemma_multiset_has_no_duplicates_conv();
            assert(sorted@.len() == gcands.len()) by {
                assert(sorted@.len() == sorted@.to_multiset().len());
                assert(gcands.len() == gcands.to_multiset().len());
            }
            assert forall|t: int| 0 <= t < sorted@.len() implies cand_ok(
                sims,
                th,
                #[trigger] sorted@[t],
            ) by {
                assert(sorted@.contains(sorted@[t]));
                assert(sorted@.to_multiset().count(sorted@[t]) > 0);
                assert(gcands.to_multiset().count(sorted@[t]) > 0);
                assert(gcands.contains(sorted@[t]));
                let u = choose|u: int| 0 <= u < gcands.len() && gcands[u] == sorted@[t];
                assert(cand_ok(sims, th, gcands[u]));
            }
        }

        let limit: usize = if (top_k as usize) < sorted.len() {
            top_k as usize
        } else {
            sorted.len()
        };
        let mut out: Vec<SimilarityResult> = Vec::new();
        let mut t: usize = 0;
        while t < limit
            invariant
                t <= limit <= sorted@.len(),
                sims == similarities@,
                sims.len() == paths@.len(),
                forall|u: int| 0 <= u < sorted@.len() ==> cand_ok(sims, th, #[trigger] sorted@[u]),
                out@.len() == t,
                forall|u: int|
                    0 <= u < t ==> {
                        let e = #[trigger] out@[u];
                        e.index == sorted@[u].0 && e.similarity == sorted@[u].1 && e.path@
                            == paths@[sorted@[u].0 as int]@
                    },
            decreases limit - t,
        {
            let (idx, sim) = sorted[t];
            out.push(SimilarityResult { index: idx, path: paths[idx].clone(), similarity: sim });
            t += 1;
        }

        proof {
            assert(qualifying_count(sims, th) == gcands.len()) by {
                assert(sims.take(sims.len() as int) == sims);
            }
            assert(out@.len() == int_min(top_k as int, qualifying_count(sims, th)));
            assert forall|u: int| 0 <= u < out@.len() implies entry_ok(
                sims,
                paths@,
                th,
                #[trigger] out@[u],
            ) by {
                assert(cand_ok(sims, th, sorted@[u]));
            }
            assert forall|u: int, v: int| 0 <= u < v < out@.len() implies entry_precedes(
                out@[u],
                out@[v],
            ) by {
                assert(rank_le(
                    sorted@[u].0 as int,
                    sorted@[u].1,
                    sorted@[v].0 as int,
                    sorted@[v].1,
                ));
                assert(sorted@[u] != sorted@[v]);
                if sorted@[u].0 == sorted@[v].0 {
                    assert(sorted@[u].1 == sims[sorted@[u].0 as int]);
                    assert(sorted@[v].1 == sims[sorted@[v].0 as int]);
                    assert(false);
                }
            }
            assert forall|q: int, u: int|
                0 <= q < sims.len() && f64_order_key(#[trigger] sims[q]) >= f64_order_key(th)
                    && !result_has_index(out@, q) && 0 <= u < out@.len() implies rank_le(
                (#[trigger] out@[u]).index as int,
                out@[u].similarity,
                q,
                sims[q],
            ) by {
                let pair = (q as usize, sims[q]);
                assert(gcands.contains(pair));
                assert(gcands.to_multiset().count(pair) > 0);
                assert(sorted@.to_multiset().count(pair) > 0);
                assert(sorted@.contains(pair));
                let p = choose|p: int| 0 <= p < sorted@.len() && sorted@[p] == pair;
                if p < out@.len() {
                    assert(out@[p].index == q);
                    assert(result_has_index(out@, q));
                } else {
                    assert(rank_le(
                        sorted@[u].0 as int,
                        sorted@[u].1,
                        sorted@[p].0 as int,
                        sorted@[p].1,
                    ));
                }
            }
        }
        Ok(out)
    }
}

} // verus!
