//! Score fusion and the keep-or-drop decision for the predicates of a class.
//!
//! The relative softmax weight of a predicate and the classifier's
//! confidence come from outside; this module turns them into scores on a
//! scale of one hundred, ranks the predicates, and decides which to keep.

use vstd::prelude::*;
use crate::graph::Ratio;
use crate::order::{is_ranking, rank_desc, ranks_before, SortKey};
use crate::predicates::{PredicateStats, SCALE};
use crate::prune::{weight_keys, weight_sum};
use crate::store::KG;
use crate::text::{chars_of, same_chars};

verus! {

/// The five numbers that describe a predicate to the classifier.
#[derive(Clone, Copy, Debug, PartialEq, Eq, Structural)]
pub struct PredicateFeatures {
    pub frequency: Ratio,
    pub uniqueness: Ratio,
    pub entropy: u64,
    pub quality: u64,
    pub edge_rank: Ratio,
}

/// A predicate with its score.
#[derive(Debug)]
pub struct ScoredPredicate {
    pub stats: PredicateStats,
    /// The predicate's relative softmax weight; zero when its raw score is
    /// zero.
    pub softmax: u32,
    /// One hundred times the predicate's share of the summed weights.
    pub score: Ratio,
    /// The next predicate's score over this one's; the last has none.
    pub score_ratio: Option<Ratio>,
    /// The classifier's confidence that the predicate is worth keeping,
    /// fixed-point.
    pub confidence: u32,
}

/// The features of a row.
pub open spec fn features_of(row: PredicateStats) -> PredicateFeatures {
    PredicateFeatures {
        frequency: row.frequency,
        uniqueness: row.uniqueness,
        entropy: row.entropy,
        quality: row.quality,
        edge_rank: row.edge_rank,
    }
}

/// The score of weight `w` among weights that sum to `total`: one hundred
/// times its share, and zero when all weights are zero.
pub open spec fn score_of(w: u32, total: nat) -> Ratio {
    if total == 0 {
        Ratio { num: 0, den: 1 }
    } else {
        Ratio { num: (100 * w) as u64, den: total as u128 }
    }
}

/// The row at position `a` of the ranking `perm`.
pub open spec fn scored_row(
    data: Seq<PredicateStats>,
    weights: Seq<u32>,
    confidences: Seq<u32>,
    perm: Seq<usize>,
    a: int,
) -> ScoredPredicate {
    ScoredPredicate {
        stats: data[perm[a] as int],
        softmax: weights[perm[a] as int],
        score: score_of(weights[perm[a] as int], weight_sum(weights, weights.len() as int)),
        score_ratio: if a + 1 < perm.len() {
            Some(Ratio { num: weights[perm[a + 1] as int] as u64, den: weights[perm[a] as int] as u128 })
        } else {
            None
        },
        confidence: confidences[perm[a] as int],
    }
}

/// Whether `out` is `data` fused with the given weights and confidences:
/// the rows in the order of their weights, heaviest first and equal weights
/// in the order they came in, each with its score, its ratio to the next
/// row, and its confidence.
pub open spec fn is_fused(
    data: Seq<PredicateStats>,
    weights: Seq<u32>,
    confidences: Seq<u32>,
    out: Seq<ScoredPredicate>,
) -> bool {
    exists|perm: Seq<usize>|
        #![trigger is_ranking(weight_keys(weights), perm)]
        {
            &&& is_ranking(weight_keys(weights), perm)
            &&& out.len() == data.len()
            &&& forall|a: int|
                0 <= a < out.len() ==> #[trigger] out[a] == scored_row(
                    data,
                    weights,
                    confidences,
                    perm,
                    a,
                )
        }
}

/// Fused rows come sorted by score, highest first, and where two
/// neighbours both have a positive score, the ratio of the second to the
/// first is greater than zero and at most one.
pub proof fn lemma_fused_is_sorted(
    data: Seq<PredicateStats>,
    weights: Seq<u32>,
    confidences: Seq<u32>,
    out: Seq<ScoredPredicate>,
)
    requires
        weights.len() == data.len(),
        is_fused(data, weights, confidences, out),
    ensures
        forall|a: int, b: int|
            0 <= a <= b < out.len() ==> (#[trigger] out[a]).softmax >= (#[trigger] out[b]).softmax
                && out[a].score.num >= out[b].score.num && out[a].score.den == out[b].score.den,
        forall|a: int|
            0 <= a < out.len() - 1 && out[a + 1].softmax > 0 ==> {
                &&& (#[trigger] out[a]).score_ratio is Some
                &&& 0 < out[a].score_ratio->0.num <= out[a].score_ratio->0.den
                &&& out[a].score_ratio->0.num == out[a + 1].softmax
                &&& out[a].score_ratio->0.den == out[a].softmax
            },
{
    let perm = choose|perm: Seq<usize>|
        #![trigger is_ranking(weight_keys(weights), perm)]
        {
            &&& is_ranking(weight_keys(weights), perm)
            &&& out.len() == data.len()
            &&& forall|a: int|
                0 <= a < out.len() ==> #[trigger] out[a] == scored_row(
                    data,
                    weights,
                    confidences,
                    perm,
                    a,
                )
        };
    let keys = weight_keys(weights);
    assert forall|a: int, b: int| 0 <= a <= b < out.len() implies (#[trigger] out[a]).softmax >= (
    #[trigger] out[b]).softmax && out[a].score.num >= out[b].score.num && out[a].score.den
        == out[b].score.den by {
        if a < b {
            assert(ranks_before(keys, perm[a] as int, perm[b] as int));
        }
    }
    assert forall|a: int| 0 <= a < out.len() - 1 && out[a + 1].softmax > 0 implies {
        &&& (#[trigger] out[a]).score_ratio is Some
        &&& 0 < out[a].score_ratio->0.num <= out[a].score_ratio->0.den
        &&& out[a].score_ratio->0.num == out[a + 1].softmax
        &&& out[a].score_ratio->0.den == out[a].softmax
    } by {
        assert(ranks_before(keys, perm[a] as int, perm[a + 1] as int));
        assert(out[a + 1] == scored_row(data, weights, confidences, perm, a + 1));
    }
}

/// The features of `row`.
pub fn features(row: &PredicateStats) -> (f: PredicateFeatures)
    ensures
        f == features_of(*row),
{
    PredicateFeatures {
        frequency: row.frequency,
        uniqueness: row.uniqueness,
        entropy: row.entropy,
        quality: row.quality,
        edge_rank: row.edge_rank,
    }
}

/// Fuses the rows with their softmax weights and confidences: computes the
/// scores, ranks the rows by score, and notes each row's ratio to the next.
pub fn fuse(data: Vec<PredicateStats>, weights: &Vec<u32>, confidences: &Vec<u32>) -> (out: Vec<
    ScoredPredicate,
>)
    requires
        weights.len() == data.len(),
        confidences.len() == data.len(),
    ensures
        is_fused(data@, weights@, confidences@, out@),
{
    let n = data.len();
    let mut total: u128 = 0;
    let mut keys: Vec<SortKey> = Vec::new();
    let mut i: usize = 0;
    while i < n
        invariant
            i <= n,
            n == weights.len(),
            keys.len() == i,
            total == weight_sum(weights@, i as int),
            total <= i * u32::MAX,
            forall|k: int| 0 <= k < i ==> keys[k] == weight_keys(weights@)[k],
        decreases n - i,
    {
        assert(i * u32::MAX + u32::MAX == (i + 1) * u32::MAX) by (nonlinear_arith);
        assert((i + 1) * u32::MAX <= usize::MAX * u32::MAX) by (nonlinear_arith)
            requires
                i + 1 <= usize::MAX,
        ;
        total = total + weights[i] as u128;
        keys.push(SortKey { major: 0, minor: weights[i] as u64 });
        i += 1;
    }
    assert(keys@ =~= weight_keys(weights@));
    let perm = rank_desc(&keys);
    let mut out: Vec<ScoredPredicate> = Vec::new();
    let mut a: usize = 0;
    while a < n
        invariant
            a <= n,
            n == data.len(),
            n == weights.len(),
            n == confidences.len(),
            n == perm.len(),
            is_ranking(weight_keys(weights@), perm@),
            total == weight_sum(weights@, n as int),
            out.len() == a,
            forall|b: int|
                0 <= b < a ==> #[trigger] out[b] == scored_row(data@, weights@, confidences@, perm@, b),
        decreases n - a,
    {
        let at = perm[a];
        let w = weights[at];
        let score = if total == 0 {
            Ratio { num: 0, den: 1 }
        } else {
            Ratio { num: 100 * (w as u64), den: total }
        };
        let score_ratio = if a + 1 < n {
            Some(Ratio { num: weights[perm[a + 1]] as u64, den: w as u128 })
        } else {
            None
        };
        let row = &data[at];
        out.push(
            ScoredPredicate {
                stats: PredicateStats {
                    predicate: row.predicate.clone(),
                    frequency: row.frequency,
                    uniqueness: row.uniqueness,
                    entropy: row.entropy,
                    quality: row.quality,
                    edge_rank: row.edge_rank,
                },
                softmax: w,
                score,
                score_ratio,
                confidence: confidences[at],
            },
        );
        a += 1;
    }
    out
}

/// Scores the predicates of a class.
///
/// `weigh` gives each row its relative softmax weight from the row's
/// features and the number of rows; `classify` gives the classifier's
/// confidence from the features. The result is the rows fused with what the
/// two returned.
pub fn compute_scores<F: Fn(PredicateFeatures, usize) -> u32, C: Fn(PredicateFeatures) -> u32>(
    data: Vec<PredicateStats>,
    weigh: F,
    classify: C,
) -> (out: Vec<ScoredPredicate>)
    requires
        forall|f: PredicateFeatures, n: usize| call_requires(weigh, (f, n)),
        forall|f: PredicateFeatures| call_requires(classify, (f,)),
    ensures
        exists|weights: Seq<u32>, confidences: Seq<u32>|
            {
                &&& weights.len() == data.len()
                &&& confidences.len() == data.len()
                &&& forall|i: int|
                    0 <= i < data.len() ==> call_ensures(
                        weigh,
                        (features_of(data[i]), data.len()),
                        #[trigger] weights[i],
                    )
                &&& forall|i: int|
                    0 <= i < data.len() ==> call_ensures(
                        classify,
                        (features_of(data[i]),),
                        #[trigger] confidences[i],
                    )
                &&& #[trigger] is_fused(data@, weights, confidences, out@)
            },
{
    let n = data.len();
    let mut weights: Vec<u32> = Vec::new();
    let mut confidences: Vec<u32> = Vec::new();
    let mut i: usize = 0;
    while i < n
        invariant
            i <= n,
            n == data.len(),
            weights.len() == i,
            confidences.len() == i,
            forall|f: PredicateFeatures, n: usize| call_requires(weigh, (f, n)),
            forall|f: PredicateFeatures| call_requires(classify, (f,)),
            forall|k: int|
                0 <= k < i ==> call_ensures(weigh, (features_of(data[k]), n), #[trigger] weights[k]),
            forall|k: int|
                0 <= k < i ==> call_ensures(classify, (features_of(data[k]),), #[trigger] confidences[k]),
        decreases n - i,
    {
        let f = features(&data[i]);
        weights.push(weigh(f, n));
        confidences.push(classify(f));
        i += 1;
    }
    let ghost rows = data@;
    let out = fuse(data, &weights, &confidences);
    assert(is_fused(rows, weights@, confidences@, out@));
    out
}

/// The score budget: predicates are score-kept while the scores before them
/// sum to less than this.
pub const BUDGET: u64 = 60;

/// What was decided of one predicate.
#[derive(Clone, Copy, Debug, PartialEq, Eq, Structural)]
pub struct Decision {
    /// The classifier's confidence is above one half.
    pub classifier_keeps: bool,
    /// The scores of the rows before this one sum to less than the budget.
    pub score_keeps: bool,
    /// The predicate stays.
    pub keep: bool,
}

/// The summed softmax weight of the first `upto` rows.
pub open spec fn softmax_prefix(rows: Seq<ScoredPredicate>, upto: int) -> nat
    decreases upto,
{
    if upto <= 0 {
        0
    } else {
        softmax_prefix(rows, upto - 1) + rows[upto - 1].softmax as nat
    }
}

/// The summed softmax weight of all rows.
pub open spec fn softmax_total(rows: Seq<ScoredPredicate>) -> nat {
    softmax_prefix(rows, rows.len() as int)
}

/// Whether row `i` is score-kept: the scores of the rows before it, each
/// one hundred times the row's share of the total weight, sum to less than
/// the budget. Where all weights are zero, all scores are zero and every
/// row is score-kept.
pub open spec fn score_keeps(rows: Seq<ScoredPredicate>, i: int) -> bool {
    softmax_total(rows) == 0 || 100 * softmax_prefix(rows, i) < BUDGET * softmax_total(rows)
}

/// The summed weight of the score-kept rows among the first `upto`.
pub open spec fn passed_weight(rows: Seq<ScoredPredicate>, upto: int) -> nat
    decreases upto,
{
    if upto <= 0 {
        0
    } else {
        passed_weight(rows, upto - 1) + if score_keeps(rows, upto - 1) {
            rows[upto - 1].softmax as nat
        } else {
            0
        }
    }
}

/// The number of score-kept rows among the first `upto`.
pub open spec fn passed_count(rows: Seq<ScoredPredicate>, upto: int) -> nat
    decreases upto,
{
    if upto <= 0 {
        0
    } else {
        passed_count(rows, upto - 1) + if score_keeps(rows, upto - 1) {
            1nat
        } else {
            0nat
        }
    }
}

/// Whether the classifier keeps a row: its confidence is above one half.
pub open spec fn classifier_keeps(row: ScoredPredicate) -> bool {
    2 * row.confidence > SCALE
}

/// Whether the hybrid value of row `i` reaches one half. The hybrid value
/// is the confidence `c` plus `c` times the row's score over the mean score
/// of the score-kept rows; with `p` the summed weight of the `n` score-kept
/// rows and `w` the row's weight it is `c * (p + w * n) / p`. Where `p` is
/// zero there is no mean and the value reaches nothing.
pub open spec fn hybrid_keeps(rows: Seq<ScoredPredicate>, i: int) -> bool {
    let p = passed_weight(rows, rows.len() as int);
    let n = passed_count(rows, rows.len() as int);
    p > 0 && 2 * rows[i].confidence * (p + rows[i].softmax * n) >= SCALE * p
}

/// The decision on row `i`: a row that the classifier keeps stays; a row
/// that only its score keeps stays if its hybrid value reaches one half;
/// a row that neither keeps goes.
pub open spec fn decision(rows: Seq<ScoredPredicate>, i: int) -> Decision {
    Decision {
        classifier_keeps: classifier_keeps(rows[i]),
        score_keeps: score_keeps(rows, i),
        keep: classifier_keeps(rows[i]) || (score_keeps(rows, i) && hybrid_keeps(rows, i)),
    }
}

proof fn lemma_softmax_prefix_bound(rows: Seq<ScoredPredicate>, upto: int)
    requires
        0 <= upto,
    ensures
        softmax_prefix(rows, upto) <= upto * u32::MAX,
    decreases upto,
{
    if upto > 0 {
        lemma_softmax_prefix_bound(rows, upto - 1);
        assert((upto - 1) * u32::MAX + u32::MAX == upto * u32::MAX) by (nonlinear_arith);
    }
}

/// Decides for every row whether its predicate stays.
pub fn decide(rows: &Vec<ScoredPredicate>) -> (out: Vec<Decision>)
    requires
        rows.len() <= u32::MAX,
    ensures
        out.len() == rows.len(),
        forall|i: int| 0 <= i < rows.len() ==> #[trigger] out[i] == decision(rows@, i),
{
    let n = rows.len();
    let mut total: u64 = 0;
    let mut i: usize = 0;
    while i < n
        invariant
            i <= n,
            n == rows.len(),
            n <= u32::MAX,
            total == softmax_prefix(rows@, i as int),
            total <= i * u32::MAX,
        decreases n - i,
    {
        assert(i * u32::MAX + u32::MAX == (i + 1) * u32::MAX) by (nonlinear_arith);
        assert((i + 1) * u32::MAX <= u32::MAX * u32::MAX) by (nonlinear_arith)
            requires
                i + 1 <= u32::MAX,
        ;
        total = total + rows[i].softmax as u64;
        i += 1;
    }
    // which rows the budget keeps, and their summed weight and number
    let mut budget_keeps: Vec<bool> = Vec::new();
    let mut before: u64 = 0;
    let mut passed: u64 = 0;
    let mut count: u64 = 0;
    let mut i: usize = 0;
    while i < n
        invariant
            i <= n,
            n == rows.len(),
            n <= u32::MAX,
            total == softmax_total(rows@),
            before == softmax_prefix(rows@, i as int),
            before <= i * u32::MAX,
            passed == passed_weight(rows@, i as int),
            passed <= i * u32::MAX,
            count == passed_count(rows@, i as int),
            count <= i,
            budget_keeps.len() == i,
            forall|k: int| 0 <= k < i ==> budget_keeps[k] == score_keeps(rows@, k),
        decreases n - i,
    {
        assert(i * u32::MAX + u32::MAX == (i + 1) * u32::MAX) by (nonlinear_arith);
        assert((i + 1) * u32::MAX <= u32::MAX * u32::MAX) by (nonlinear_arith)
            requires
                i + 1 <= u32::MAX,
        ;
        assert(i * u32::MAX <= u32::MAX * u32::MAX) by (nonlinear_arith)
            requires
                i <= u32::MAX,
        ;
        proof {
            lemma_softmax_prefix_bound(rows@, n as int);
            assert(n * u32::MAX <= u32::MAX * u32::MAX) by (nonlinear_arith)
                requires
                    n <= u32::MAX,
            ;
        }
        assert(BUDGET * total <= 60 * u64::MAX) by (nonlinear_arith)
            requires
                BUDGET == 60,
                0 <= total <= u64::MAX,
        ;
        let kept = total == 0 || 100 * (before as u128) < (BUDGET as u128) * (total as u128);
        budget_keeps.push(kept);
        if kept {
            passed = passed + rows[i].softmax as u64;
            count = count + 1;
        }
        before = before + rows[i].softmax as u64;
        i += 1;
    }
    let mut out: Vec<Decision> = Vec::new();
    let mut i: usize = 0;
    while i < n
        invariant
            i <= n,
            n == rows.len(),
            n <= u32::MAX,
            passed == passed_weight(rows@, n as int),
            passed <= n * u32::MAX,
            count == passed_count(rows@, n as int),
            count <= n,
            budget_keeps.len() == n,
            forall|k: int| 0 <= k < n ==> budget_keeps[k] == score_keeps(rows@, k),
            out.len() == i,
            forall|k: int| 0 <= k < i ==> #[trigger] out[k] == decision(rows@, k),
        decreases n - i,
    {
        let row = &rows[i];
        let by_classifier = 2 * (row.confidence as u64) > SCALE;
        let by_score = budget_keeps[i];
        assert(n * u32::MAX <= u32::MAX * u32::MAX) by (nonlinear_arith)
            requires
                n <= u32::MAX,
        ;
        assert(row.softmax * count <= u32::MAX * u32::MAX) by (nonlinear_arith)
            requires
                row.softmax <= u32::MAX,
                count <= u32::MAX,
        ;
        let reach: u128 = passed as u128 + (row.softmax as u128) * (count as u128);
        assert(2 * row.confidence * reach <= (2 * u32::MAX) * (2 * (u32::MAX * u32::MAX))) by (nonlinear_arith)
            requires
                0 <= row.confidence <= u32::MAX,
                0 <= reach <= 2 * (u32::MAX * u32::MAX),
        ;
        assert(SCALE * passed <= SCALE * (u32::MAX * u32::MAX)) by (nonlinear_arith)
            requires
                0 <= passed <= u32::MAX * u32::MAX,
        ;
        let by_hybrid = passed > 0 && 2 * (row.confidence as u128) * reach >= (SCALE as u128) * (
        passed as u128);
        out.push(
            Decision {
                classifier_keeps: by_classifier,
                score_keeps: by_score,
                keep: by_classifier || (by_score && by_hybrid),
            },
        );
        i += 1;
    }
    out
}

/// The softmax weight that the first `upto` rows give to `predicate`: that
/// of the last of them with this name, and zero where there is none.
pub open spec fn weight_of(rows: Seq<ScoredPredicate>, predicate: Seq<char>, upto: int) -> u32
    decreases upto,
{
    if upto <= 0 {
        0
    } else if rows[upto - 1].stats.predicate@ == predicate {
        rows[upto - 1].softmax
    } else {
        weight_of(rows, predicate, upto - 1)
    }
}

/// The summed weight of the first `upto` predicates of an entity.
pub open spec fn entity_weight(rows: Seq<ScoredPredicate>, predicates: Seq<String>, upto: int) -> nat
    decreases upto,
{
    if upto <= 0 {
        0
    } else {
        entity_weight(rows, predicates, upto - 1) + weight_of(
            rows,
            predicates[upto - 1]@,
            rows.len() as int,
        ) as nat
    }
}

/// Whether an entity with these predicates is a good one: the scores of its
/// predicates sum to more than half of all scores.
pub open spec fn is_good(rows: Seq<ScoredPredicate>, predicates: Seq<String>) -> bool {
    2 * entity_weight(rows, predicates, predicates.len() as int) > softmax_total(rows)
}

/// The number of good entities among the first `upto`.
pub open spec fn good_count(rows: Seq<ScoredPredicate>, entities: Seq<Vec<String>>, upto: int) -> nat
    decreases upto,
{
    if upto <= 0 {
        0
    } else {
        good_count(rows, entities, upto - 1) + if is_good(rows, entities[upto - 1]@) {
            1nat
        } else {
            0nat
        }
    }
}

/// The softmax weight of `predicate` among `rows`.
fn find_weight(rows: &Vec<ScoredPredicate>, predicate: &str) -> (w: u32)
    ensures
        w == weight_of(rows@, predicate@, rows.len() as int),
{
    let wanted = chars_of(predicate);
    let mut i: usize = rows.len();
    while i > 0
        invariant
            i <= rows.len(),
            wanted@ == predicate@,
            weight_of(rows@, predicate@, rows.len() as int) == weight_of(rows@, predicate@, i as int),
        decreases i,
    {
        if same_chars(&chars_of(rows[i - 1].stats.predicate.as_str()), &wanted) {
            return rows[i - 1].softmax;
        }
        i -= 1;
    }
    0
}

impl KG {
    /// Counts the good entities of a class: those whose predicates' scores
    /// sum to more than half of the scores of all predicates of the class.
    /// `entities` lists, for each entity, the predicates it carries.
    pub fn analyse_objects(&self, rows: &Vec<ScoredPredicate>, entities: &Vec<Vec<String>>) -> (count:
        usize)
        ensures
            count == good_count(rows@, entities@, entities.len() as int),
    {
        let mut total: u128 = 0;
        let mut i: usize = 0;
        while i < rows.len()
            invariant
                i <= rows.len(),
                total == softmax_prefix(rows@, i as int),
                total <= i * u32::MAX,
            decreases rows.len() - i,
        {
            assert(i * u32::MAX + u32::MAX == (i + 1) * u32::MAX) by (nonlinear_arith);
            assert((i + 1) * u32::MAX <= usize::MAX * u32::MAX) by (nonlinear_arith)
                requires
                    i + 1 <= usize::MAX,
            ;
            total = total + rows[i].softmax as u128;
            i += 1;
        }
        let mut count: usize = 0;
        let mut e: usize = 0;
        while e < entities.len()
            invariant
                e <= entities.len(),
                total == softmax_total(rows@),
                count == good_count(rows@, entities@, e as int),
                count <= e,
            decreases entities.len() - e,
        {
            let predicates = &entities[e];
            let mut weight: u128 = 0;
            let mut p: usize = 0;
            while p < predicates.len()
                invariant
                    p <= predicates.len(),
                    weight == entity_weight(rows@, predicates@, p as int),
                    weight <= p * u32::MAX,
                decreases predicates.len() - p,
            {
                assert(p * u32::MAX + u32::MAX == (p + 1) * u32::MAX) by (nonlinear_arith);
                assert((p + 1) * u32::MAX <= usize::MAX * u32::MAX) by (nonlinear_arith)
                    requires
                        p + 1 <= usize::MAX,
                ;
                weight = weight + find_weight(rows, predicates[p].as_str()) as u128;
                p += 1;
            }
            assert(predicates.len() * u32::MAX <= usize::MAX * u32::MAX) by (nonlinear_arith)
                requires
                    predicates.len() <= usize::MAX,
            ;
            if 2 * weight > total {
                count += 1;
            }
            e += 1;
        }
        count
    }
}

} // verus!
