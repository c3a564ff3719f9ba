//! Ordering the items of one level by fuzzy score.
//!
//! A filtered list is a sequence of indices into the underlying items: the
//! eligible indices, sorted by descending score with ties kept in input order
//! (a stable sort). That description determines the sequence uniquely, which
//! is what makes the memoizing cache invisible to observers.

use vstd::prelude::*;

verus! {

/// Sort key of a fuzzy score: a missing score orders below every present one.
pub open spec fn score_key(s: Option<i64>) -> int {
    match s {
        Option::Some(v) => v as int,
        Option::None => (i64::MIN as int) - 1,
    }
}

/// Whether index `i` may appear in the filtered list. At the group level
/// every index is kept (`keep_unmatched` is true); at the entry level only
/// indices with a score are kept.
pub open spec fn kept(scores: Seq<Option<i64>>, keep_unmatched: bool, i: int) -> bool {
    keep_unmatched || scores[i] is Some
}

/// Strict "appears before" order of the filtered list: higher score first,
/// ties broken by input position.
pub open spec fn rank_precedes(scores: Seq<Option<i64>>, a: int, b: int) -> bool {
    ||| score_key(scores[a]) > score_key(scores[b])
    ||| (score_key(scores[a]) == score_key(scores[b]) && a < b)
}

/// `r` is the filtered list for `scores`: it holds exactly the kept indices,
/// ordered by `rank_precedes`.
pub open spec fn is_ranking(r: Seq<usize>, scores: Seq<Option<i64>>, keep_unmatched: bool) -> bool {
    &&& forall|k: int|
        0 <= k < r.len() ==> (#[trigger] r[k]) < scores.len() && kept(
            scores,
            keep_unmatched,
            r[k] as int,
        )
    &&& forall|i: int|
        0 <= i < scores.len() && kept(scores, keep_unmatched, i) ==> #[trigger] r.contains(
            i as usize,
        )
    &&& forall|p: int, q: int|
        #![trigger r[p], r[q]]
        0 <= p < q < r.len() ==> rank_precedes(scores, r[p] as int, r[q] as int)
}

/// The filtered list for `scores`, as a function. By
/// [`lemma_ranking_unique`] there is at most one sequence with
/// [`is_ranking`], so this names it.
pub open spec fn the_ranking(scores: Seq<Option<i64>>, keep_unmatched: bool) -> Seq<usize> {
    choose|r: Seq<usize>| is_ranking(r, scores, keep_unmatched)
}

/// [`is_ranking`] generalised to an arbitrary eligible set, for induction.
pub open spec fn is_ranking_of(r: Seq<usize>, scores: Seq<Option<i64>>, elig: Set<int>) -> bool {
    &&& forall|i: int| elig.contains(i) ==> 0 <= i < scores.len()
    &&& forall|k: int| 0 <= k < r.len() ==> elig.contains((#[trigger] r[k]) as int)
    &&& forall|i: int| elig.contains(i) ==> #[trigger] r.contains(i as usize)
    &&& forall|p: int, q: int|
        #![trigger r[p], r[q]]
        0 <= p < q < r.len() ==> rank_precedes(scores, r[p] as int, r[q] as int)
}

/// The eligible set of [`is_ranking`].
pub open spec fn ranking_elig(scores: Seq<Option<i64>>, keep_unmatched: bool) -> Set<int> {
    Set::new(|i: int| 0 <= i < scores.len() && kept(scores, keep_unmatched, i))
}

proof fn lemma_is_ranking_of(r: Seq<usize>, scores: Seq<Option<i64>>, keep_unmatched: bool)
    requires
        is_ranking(r, scores, keep_unmatched),
    ensures
        is_ranking_of(r, scores, ranking_elig(scores, keep_unmatched)),
{
}

proof fn lemma_ranking_of_unique(
    r1: Seq<usize>,
    r2: Seq<usize>,
    scores: Seq<Option<i64>>,
    elig: Set<int>,
)
    requires
        scores.len() <= usize::MAX,
        is_ranking_of(r1, scores, elig),
        is_ranking_of(r2, scores, elig),
    ensures
        r1 == r2,
    decreases r1.len(),
{
    if r1.len() == 0 {
        if r2.len() > 0 {
            assert(elig.contains(r2[0] as int));
            assert((r2[0] as int) as usize == r2[0]);
            assert(r1.contains(r2[0]));
            assert(false);
        }
        assert(r1 =~= r2);
    } else {
        assert(elig.contains(r1[0] as int));
        assert((r1[0] as int) as usize == r1[0]);
        assert(r2.contains(r1[0]));
        let j = choose|j: int| 0 <= j < r2.len() && r2[j] == r1[0];
        if r2.len() == 0 {
            assert(false);
        }
        assert(elig.contains(r2[0] as int));
        assert((r2[0] as int) as usize == r2[0]);
        assert(r1.contains(r2[0]));
        let k = choose|k: int| 0 <= k < r1.len() && r1[k] == r2[0];
        if r1[0] != r2[0] {
            assert(j != 0);
            assert(k != 0);
            assert(rank_precedes(scores, r2[0] as int, r2[j] as int));
            assert(rank_precedes(scores, r1[0] as int, r1[k] as int));
            assert(false);
        }
        let h = r1[0];
        let elig2 = elig.remove(h as int);
        let t1 = r1.drop_first();
        let t2 = r2.drop_first();
        assert forall|m: int| 0 <= m < t1.len() implies elig2.contains((#[trigger] t1[m]) as int) by {
            assert(t1[m] == r1[m + 1]);
            assert(elig.contains(r1[m + 1] as int));
            assert(rank_precedes(scores, r1[0] as int, r1[m + 1] as int));
        }
        assert forall|m: int| 0 <= m < t2.len() implies elig2.contains((#[trigger] t2[m]) as int) by {
            assert(t2[m] == r2[m + 1]);
            assert(elig.contains(r2[m + 1] as int));
            assert(rank_precedes(scores, r2[0] as int, r2[m + 1] as int));
        }
        assert forall|i: int| elig2.contains(i) implies #[trigger] t1.contains(i as usize) by {
            assert(elig.contains(i));
            assert(r1.contains(i as usize));
            let idx = choose|idx: int| 0 <= idx < r1.len() && r1[idx] == (i as usize);
            assert(0 <= i < scores.len());
            assert((i as usize) as int == i);
            assert(idx != 0);
            assert(t1[idx - 1] == (i as usize));
        }
        assert forall|i: int| elig2.contains(i) implies #[trigger] t2.contains(i as usize) by {
            assert(elig.contains(i));
            assert(r2.contains(i as usize));
            let idx = choose|idx: int| 0 <= idx < r2.len() && r2[idx] == (i as usize);
            assert(0 <= i < scores.len());
            assert((i as usize) as int == i);
            assert(idx != 0);
            assert(t2[idx - 1] == (i as usize));
        }
        assert forall|p: int, q: int|
            #![trigger t1[p], t1[q]]
            0 <= p < q < t1.len() implies rank_precedes(scores, t1[p] as int, t1[q] as int) by {
            assert(t1[p] == r1[p + 1]);
            assert(t1[q] == r1[q + 1]);
        }
        assert forall|p: int, q: int|
            #![trigger t2[p], t2[q]]
            0 <= p < q < t2.len() implies rank_precedes(scores, t2[p] as int, t2[q] as int) by {
            assert(t2[p] == r2[p + 1]);
            assert(t2[q] == r2[q + 1]);
        }
        lemma_ranking_of_unique(t1, t2, scores, elig2);
        assert(r1 =~= r2) by {
            assert(t1.len() == t2.len());
            assert forall|m: int| 0 <= m < r1.len() implies r1[m] == r2[m] by {
                if m > 0 {
                    assert(r1[m] == t1[m - 1]);
                    assert(r2[m] == t2[m - 1]);
                }
            }
        }
    }
}

/// There is at most one filtered list for given scores: however it was
/// produced — recomputed or replayed from the memoizing cache — the filter
/// returns the same ordered index sequence.
pub proof fn lemma_ranking_unique(
    r1: Seq<usize>,
    r2: Seq<usize>,
    scores: Seq<Option<i64>>,
    keep_unmatched: bool,
)
    requires
        scores.len() <= usize::MAX,
        is_ranking(r1, scores, keep_unmatched),
        is_ranking(r2, scores, keep_unmatched),
    ensures
        r1 == r2,
{
    lemma_is_ranking_of(r1, scores, keep_unmatched);
    lemma_is_ranking_of(r2, scores, keep_unmatched);
    lemma_ranking_of_unique(r1, r2, scores, ranking_elig(scores, keep_unmatched));
}

/// A sequence shown to be a ranking is the ranking.
pub proof fn lemma_the_ranking(witness: Seq<usize>, scores: Seq<Option<i64>>, keep_unmatched: bool)
    requires
        scores.len() <= usize::MAX,
        is_ranking(witness, scores, keep_unmatched),
    ensures
        the_ranking(scores, keep_unmatched) == witness,
        is_ranking(the_ranking(scores, keep_unmatched), scores, keep_unmatched),
{
    assert(is_ranking(the_ranking(scores, keep_unmatched), scores, keep_unmatched)) by {
        assert(exists|r: Seq<usize>| is_ranking(r, scores, keep_unmatched)) by {
            assert(is_ranking(witness, scores, keep_unmatched));
        }
    }
    lemma_ranking_unique(witness, the_ranking(scores, keep_unmatched), scores, keep_unmatched);
}

proof fn lemma_precedes_trichotomy(scores: Seq<Option<i64>>, a: int, b: int)
    requires
        a != b,
    ensures
        rank_precedes(scores, a, b) || rank_precedes(scores, b, a),
{
}

proof fn lemma_precedes_trans(scores: Seq<Option<i64>>, a: int, b: int, c: int)
    requires
        rank_precedes(scores, a, b),
        rank_precedes(scores, b, c),
    ensures
        rank_precedes(scores, a, c),
{
}

fn precedes_exec(sa: &Option<i64>, sb: &Option<i64>, a: usize, b: usize) -> (r: bool)
    ensures
        r == (score_key(*sa) > score_key(*sb) || (score_key(*sa) == score_key(*sb) && a < b)),
{
    match (sa, sb) {
        (Option::Some(x), Option::Some(y)) => *x > *y || (*x == *y && a < b),
        (Option::Some(_), Option::None) => true,
        (Option::None, Option::Some(_)) => false,
        (Option::None, Option::None) => a < b,
    }
}

fn prec_at(scores: &Vec<Option<i64>>, out: &Vec<usize>, pos: usize, i: usize) -> (r: bool)
    requires
        pos < out@.len(),
        out@[pos as int] < scores@.len(),
        i < scores@.len(),
    ensures
        r == rank_precedes(scores@, out@[pos as int] as int, i as int),
{
    let e = out[pos];
    precedes_exec(&scores[e], &scores[i], e, i)
}

/// Compute the filtered list for `scores` by stable insertion.
pub(crate) fn rank_by_scores(scores: &Vec<Option<i64>>, keep_unmatched: bool) -> (r: Vec<usize>)
    ensures
        is_ranking(r@, scores@, keep_unmatched),
        r@ == the_ranking(scores@, keep_unmatched),
{
    let n = scores.len();
    let mut out: Vec<usize> = Vec::new();
    let mut i: usize = 0;
    while i < n
        invariant
            n == scores@.len(),
            i <= n,
            forall|k: int|
                0 <= k < out@.len() ==> (#[trigger] out@[k]) < i && kept(
                    scores@,
                    keep_unmatched,
                    out@[k] as int,
                ),
            forall|j: int|
                0 <= j < i && kept(scores@, keep_unmatched, j) ==> #[trigger] out@.contains(
                    j as usize,
                ),
            forall|p: int, q: int|
                #![trigger out@[p], out@[q]]
                0 <= p < q < out@.len() ==> rank_precedes(scores@, out@[p] as int, out@[q] as int),
        decreases n - i,
    {
        let keep = keep_unmatched || scores[i].is_some();
        if keep {
            let mut pos: usize = 0;
            while pos < out.len() && prec_at(scores, &out, pos, i)
                invariant
                    n == scores@.len(),
                    i < n,
                    pos <= out@.len(),
                    forall|k: int|
                        0 <= k < out@.len() ==> (#[trigger] out@[k]) < i && out@[k]
                            < scores@.len(),
                    forall|p: int|
                        0 <= p < pos ==> rank_precedes(scores@, (#[trigger] out@[p]) as int,
                        i as int),
                decreases out@.len() - pos,
            {
                pos += 1;
            }
            let ghost old_out = out@;
            out.insert(pos, i);
            proof {
                old_out.insert_ensures(pos as int, i);
                assert(out@ == old_out.insert(pos as int, i));
                // every element of the new list is below i + 1 and kept
                assert forall|k: int|
                    0 <= k < out@.len() implies (#[trigger] out@[k]) < i + 1 && kept(
                    scores@,
                    keep_unmatched,
                    out@[k] as int,
                ) by {
                    if k < pos {
                        assert(out@[k] == old_out[k]);
                    } else if k == pos {
                        assert(out@[k] == i);
                    } else {
                        assert(out@[k] == old_out[k - 1]);
                    }
                }
                // the new list still covers every kept index, now up to i + 1
                assert forall|j: int|
                    0 <= j < i + 1 && kept(scores@, keep_unmatched, j) implies #[trigger] out@
                    .contains(j as usize) by {
                    if j == i {
                        assert(out@[pos as int] == i);
                    } else {
                        assert(old_out.contains(j as usize));
                        let idx = choose|idx: int|
                            0 <= idx < old_out.len() && old_out[idx] == (j as usize);
                        if idx < pos {
                            assert(out@[idx] == old_out[idx]);
                        } else {
                            assert(out@[idx + 1] == old_out[idx]);
                        }
                    }
                }
                // the new list is still sorted: i went in at its place
                assert forall|p: int, q: int|
                    #![trigger out@[p], out@[q]]
                    0 <= p < q < out@.len() implies rank_precedes(
                    scores@,
                    out@[p] as int,
                    out@[q] as int,
                ) by {
                    if q < pos {
                        assert(out@[p] == old_out[p] && out@[q] == old_out[q]);
                    } else if q == pos {
                        assert(out@[p] == old_out[p] && out@[q] == i);
                    } else if p < pos {
                        assert(out@[p] == old_out[p] && out@[q] == old_out[q - 1]);
                        assert(rank_precedes(scores@, old_out[p] as int, old_out[q - 1] as int));
                    } else if p == pos {
                        // i precedes everything that follows the insertion point
                        assert(out@[p] == i && out@[q] == old_out[q - 1]);
                        assert(pos < old_out.len());
                        assert(!rank_precedes(scores@, old_out[pos as int] as int, i as int));
                        assert(old_out[pos as int] != i);
                        lemma_precedes_trichotomy(scores@, i as int, old_out[pos as int] as int);
                        assert(rank_precedes(scores@, i as int, old_out[pos as int] as int));
                        if q - 1 > pos {
                            assert(rank_precedes(
                                scores@,
                                old_out[pos as int] as int,
                                old_out[q - 1] as int,
                            ));
                            lemma_precedes_trans(
                                scores@,
                                i as int,
                                old_out[pos as int] as int,
                                old_out[q - 1] as int,
                            );
                        }
                    } else {
                        assert(out@[p] == old_out[p - 1] && out@[q] == old_out[q - 1]);
                        assert(rank_precedes(scores@, old_out[p - 1] as int, old_out[q - 1] as int));
                    }
                }
            }
        }
        i += 1;
    }
    proof {
        assert(is_ranking(out@, scores@, keep_unmatched));
        lemma_the_ranking(out@, scores@, keep_unmatched);
    }
    out
}

} // verus!
