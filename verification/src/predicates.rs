//! Per-predicate statistics of a class: measuring, filtering, attaching the
//! edge rank and scaling the entropy and quality columns.
//!
//! Frequencies, uniqueness and edge ranks are exact fractions. Entropy,
//! quality and confidences are fixed-point numbers: an integer `x` stands
//! for `x / SCALE`.

use vstd::prelude::*;
use crate::builder::TYPE_PREDICATE;
use crate::graph::{ClassGraph, GraphModel, Ratio};
use crate::store::KG;
use crate::text::{chars_of, same_chars};
use crate::walk::{balanced, sum_upto, RankTables};

verus! {

/// The integer that stands for the number one in fixed-point values.
pub const SCALE: u64 = 1000000000;

/// The statistics of one predicate on the instances of one class.
#[derive(Debug)]
pub struct PredicateStats {
    pub predicate: String,
    /// Instances that have the predicate, over all instances of the class.
    pub frequency: Ratio,
    /// Distinct objects, over all uses of the predicate.
    pub uniqueness: Ratio,
    /// Entropy of the object values, fixed-point.
    pub entropy: u64,
    /// Co-occurrence quality, fixed-point.
    pub quality: u64,
    /// The share of the edge traversals that followed this predicate from
    /// the class.
    pub edge_rank: Ratio,
}

/// A column of the statistics that can be scaled.
#[derive(Clone, Copy, Debug, PartialEq, Eq, Structural)]
pub enum Column {
    Entropy,
    Quality,
}

/// The value of `row` in column `col`.
pub open spec fn cell(row: PredicateStats, col: Column) -> u64 {
    match col {
        Column::Entropy => row.entropy,
        Column::Quality => row.quality,
    }
}

/// `row` with `v` in column `col`.
pub open spec fn with_cell(row: PredicateStats, col: Column, v: u64) -> PredicateStats {
    match col {
        Column::Entropy => PredicateStats { entropy: v, ..row },
        Column::Quality => PredicateStats { quality: v, ..row },
    }
}

/// The least value of column `col` among the first `upto` rows.
pub open spec fn column_min(data: Seq<PredicateStats>, col: Column, upto: int) -> u64
    decreases upto,
{
    if upto <= 1 {
        cell(data[0], col)
    } else if cell(data[upto - 1], col) < column_min(data, col, upto - 1) {
        cell(data[upto - 1], col)
    } else {
        column_min(data, col, upto - 1)
    }
}

/// The greatest value of column `col` among the first `upto` rows.
pub open spec fn column_max(data: Seq<PredicateStats>, col: Column, upto: int) -> u64
    decreases upto,
{
    if upto <= 1 {
        cell(data[0], col)
    } else if cell(data[upto - 1], col) > column_max(data, col, upto - 1) {
        cell(data[upto - 1], col)
    } else {
        column_max(data, col, upto - 1)
    }
}

/// The value `x` scaled into the range from zero to `SCALE`, where `lo`
/// becomes zero and `hi` becomes `SCALE`. A column whose values are all the
/// same becomes zero.
pub open spec fn scaled(x: u64, lo: u64, hi: u64) -> u64 {
    if hi <= lo {
        0
    } else {
        (((x - lo) * SCALE) / (hi - lo)) as u64
    }
}

/// Row `i` after column `col` of `data` was scaled.
pub open spec fn normalized_row(data: Seq<PredicateStats>, col: Column, i: int) -> PredicateStats {
    with_cell(
        data[i],
        col,
        scaled(
            cell(data[i], col),
            column_min(data, col, data.len() as int),
            column_max(data, col, data.len() as int),
        ),
    )
}

/// `data` after column `col` was scaled.
pub open spec fn normalized(data: Seq<PredicateStats>, col: Column) -> Seq<PredicateStats> {
    Seq::new(data.len(), |i: int| normalized_row(data, col, i))
}

/// The least and the greatest value bound every value of the column.
proof fn lemma_column_bounds(data: Seq<PredicateStats>, col: Column, upto: int, i: int)
    requires
        0 <= i < upto <= data.len(),
    ensures
        column_min(data, col, upto) <= cell(data[i], col) <= column_max(data, col, upto),
    decreases upto,
{
    if upto > 1 && i < upto - 1 {
        lemma_column_bounds(data, col, upto - 1, i);
    }
}

/// A scaled value lies between zero and `SCALE`; the least value becomes
/// zero and, unless the column is constant, the greatest becomes `SCALE`.
pub proof fn lemma_scaled_range(x: u64, lo: u64, hi: u64)
    requires
        lo <= x <= hi,
    ensures
        scaled(x, lo, hi) <= SCALE,
        scaled(lo, lo, hi) == 0,
        lo < hi ==> scaled(hi, lo, hi) == SCALE,
{
    if lo < hi {
        let d = (hi - lo) as int;
        let n = (x - lo) as int;
        assert((n * SCALE) / d <= SCALE) by (nonlinear_arith)
            requires
                0 <= n <= d,
                d > 0,
        ;
        assert((n * SCALE) / d >= 0) by (nonlinear_arith)
            requires
                0 <= n,
                d > 0,
        ;
        assert((0 * SCALE) / d == 0) by (nonlinear_arith)
            requires
                d > 0,
        ;
        assert((d * SCALE) / d == SCALE) by (nonlinear_arith)
            requires
                d > 0,
        ;
    }
}

/// Reads column `col` of `row`.
fn read_cell(row: &PredicateStats, col: Column) -> (v: u64)
    ensures
        v == cell(*row, col),
{
    match col {
        Column::Entropy => row.entropy,
        Column::Quality => row.quality,
    }
}

/// Scales column `col` of `data` into the range from zero to `SCALE`: the
/// least value becomes zero, the greatest `SCALE`, and the others keep
/// their place between them. A column whose values are all the same
/// becomes zero.
pub fn normalize_column(data: &mut Vec<PredicateStats>, col: Column)
    ensures
        final(data)@ == normalized(old(data)@, col),
{
    let n = data.len();
    if n == 0 {
        assert(data@ =~= normalized(old(data)@, col));
        return;
    }
    let mut lo: u64 = read_cell(&data[0], col);
    let mut hi: u64 = lo;
    let mut i: usize = 1;
    while i < n
        invariant
            1 <= i <= n,
            n == data.len(),
            data@ == old(data)@,
            lo == column_min(data@, col, i as int),
            hi == column_max(data@, col, i as int),
        decreases n - i,
    {
        let v = read_cell(&data[i], col);
        if v < lo {
            lo = v;
        }
        if v > hi {
            hi = v;
        }
        i += 1;
    }
    let ghost start = data@;
    let mut i: usize = 0;
    while i < n
        invariant
            i <= n,
            n == data.len(),
            n == start.len(),
            start == old(data)@,
            lo == column_min(start, col, n as int),
            hi == column_max(start, col, n as int),
            forall|k: int| 0 <= k < i ==> data[k] == normalized_row(start, col, k),
            forall|k: int| i <= k < n ==> data[k] == start[k],
        decreases n - i,
    {
        let v = read_cell(&data[i], col);
        proof {
            lemma_column_bounds(start, col, n as int, i as int);
            lemma_scaled_range(v, lo, hi);
        }
        let scaled_value: u64 = if hi <= lo {
            0
        } else {
            (((v - lo) as u128 * SCALE as u128) / ((hi - lo) as u128)) as u64
        };
        let mut row = PredicateStats {
            predicate: String::new(),
            frequency: data[i].frequency,
            uniqueness: data[i].uniqueness,
            entropy: data[i].entropy,
            quality: data[i].quality,
            edge_rank: data[i].edge_rank,
        };
        match col {
            Column::Entropy => {
                row.entropy = scaled_value;
            },
            Column::Quality => {
                row.quality = scaled_value;
            },
        }
        row.predicate = data[i].predicate.clone();
        data.set(i, row);
        i += 1;
    }
    assert(data@ =~= normalized(start, col));
}

/// The summed quality of the first `upto` subjects: each adds the number of
/// predicates of the class over the number of other predicates it carries,
/// in fixed-point and rounded down.
pub open spec fn quality_sum(total_predicates: u64, others: Seq<u64>, upto: int) -> nat
    decreases upto,
{
    if upto <= 0 {
        0
    } else {
        quality_sum(total_predicates, others, upto - 1) + ((total_predicates * SCALE) / (
        others[upto - 1] as int)) as nat
    }
}

/// The quality of a predicate: the sum over the subjects that have it of
/// the class's predicate count over the number of other predicates on the
/// subject. `None` when the sum does not fit into 64 bits.
pub fn quality_of(total_predicates: u64, others: &Vec<u64>) -> (q: Option<u64>)
    requires
        forall|i: int| 0 <= i < others.len() ==> others[i] > 0,
    ensures
        q is None <==> quality_sum(total_predicates, others@, others.len() as int) > u64::MAX,
        q matches Some(v) ==> v == quality_sum(total_predicates, others@, others.len() as int),
{
    let mut sum: u64 = 0;
    let mut i: usize = 0;
    while i < others.len()
        invariant
            i <= others.len(),
            forall|k: int| 0 <= k < others.len() ==> others[k] > 0,
            sum == quality_sum(total_predicates, others@, i as int),
        decreases others.len() - i,
    {
        assert(total_predicates * SCALE <= u64::MAX * SCALE) by (nonlinear_arith)
            requires
                total_predicates <= u64::MAX,
        ;
        let term: u128 = (total_predicates as u128 * SCALE as u128) / (others[i] as u128);
        if term > (u64::MAX - sum) as u128 {
            proof {
                lemma_quality_monotone(total_predicates, others@, i + 1, others.len() as int);
            }
            return None;
        }
        sum = sum + term as u64;
        i += 1;
    }
    Some(sum)
}

proof fn lemma_quality_monotone(total_predicates: u64, others: Seq<u64>, a: int, b: int)
    requires
        a <= b,
    ensures
        quality_sum(total_predicates, others, a) <= quality_sum(total_predicates, others, b),
    decreases b - a,
{
    if a < b {
        lemma_quality_monotone(total_predicates, others, a, b - 1);
    }
}

/// The sum, over the first `upto` groups, of the group's size times the
/// negative logarithm of its share.
pub open spec fn entropy_sum(groups: Seq<u64>, logs: Seq<u64>, upto: int) -> nat
    decreases upto,
{
    if upto <= 0 {
        0
    } else {
        entropy_sum(groups, logs, upto - 1) + (groups[upto - 1] * logs[upto - 1]) as nat
    }
}

/// The entropy of the groups of equal objects of a predicate: the sum over
/// the groups of the group's share of the uses times the negative binary
/// logarithm of that share, in fixed-point and rounded down. There is no
/// entropy without uses, and none that is beyond 64 bits.
pub open spec fn entropy_value(groups: Seq<u64>, logs: Seq<u64>, total_uses: u64) -> Option<u64> {
    if total_uses == 0 || entropy_sum(groups, logs, groups.len() as int) / (total_uses as nat)
        > u64::MAX {
        None
    } else {
        Some((entropy_sum(groups, logs, groups.len() as int) / (total_uses as nat)) as u64)
    }
}

proof fn lemma_entropy_sum_monotone(groups: Seq<u64>, logs: Seq<u64>, a: int, b: int)
    requires
        a <= b,
    ensures
        entropy_sum(groups, logs, a) <= entropy_sum(groups, logs, b),
    decreases b - a,
{
    if a < b {
        lemma_entropy_sum_monotone(groups, logs, a, b - 1);
    }
}

/// The entropy of groups of the given sizes, where `logs` holds for each
/// group the negative binary logarithm of its share, in fixed-point.
pub fn entropy_from(groups: &Vec<u64>, logs: &Vec<u64>, total_uses: u64) -> (r: Option<u64>)
    requires
        logs.len() == groups.len(),
    ensures
        r == entropy_value(groups@, logs@, total_uses),
{
    if total_uses == 0 {
        return None;
    }
    let bound: u128 = (u64::MAX as u128) * (total_uses as u128) + (total_uses as u128 - 1);
    assert(bound == u64::MAX * total_uses + total_uses - 1);
    let mut sum: u128 = 0;
    let mut i: usize = 0;
    while i < groups.len()
        invariant
            i <= groups.len(),
            logs.len() == groups.len(),
            total_uses > 0,
            bound == u64::MAX * total_uses + total_uses - 1,
            sum == entropy_sum(groups@, logs@, i as int),
            sum <= bound,
        decreases groups.len() - i,
    {
        assert(groups[i as int] * logs[i as int] <= u64::MAX * u64::MAX) by (nonlinear_arith)
            requires
                0 <= groups[i as int] <= u64::MAX,
                0 <= logs[i as int] <= u64::MAX,
        ;
        let term: u128 = (groups[i] as u128) * (logs[i] as u128);
        if term > bound - sum {
            proof {
                lemma_entropy_sum_monotone(groups@, logs@, i + 1, groups.len() as int);
                let all = entropy_sum(groups@, logs@, groups.len() as int);
                assert(all > bound);
                assert(all / (total_uses as nat) > u64::MAX) by (nonlinear_arith)
                    requires
                        all >= u64::MAX * total_uses + total_uses,
                        total_uses > 0,
                ;
            }
            return None;
        }
        sum = sum + term;
        i += 1;
    }
    assert(sum / (total_uses as u128) <= u64::MAX) by (nonlinear_arith)
        requires
            sum <= u64::MAX * total_uses + total_uses - 1,
            total_uses > 0,
    ;
    Some((sum / (total_uses as u128)) as u64)
}

/// Measures the entropy of a predicate from the sizes of the groups of
/// equal objects. `neg_log2` gives, for a group size and the number of
/// uses, the negative binary logarithm of the group's share in fixed-point;
/// an empty group adds nothing and is not asked about.
pub fn entropy_of<L: Fn(u64, u64) -> u64>(groups: &Vec<u64>, total_uses: u64, neg_log2: L) -> (r: Option<u64>)
    requires
        forall|n: u64, total: u64| call_requires(neg_log2, (n, total)),
    ensures
        exists|logs: Seq<u64>|
            {
                &&& logs.len() == groups.len()
                &&& forall|i: int|
                    0 <= i < groups.len() ==> if groups[i] == 0 {
                        #[trigger] logs[i] == 0
                    } else {
                        call_ensures(neg_log2, (groups[i], total_uses), logs[i])
                    }
                &&& r == entropy_value(groups@, logs, total_uses)
            },
{
    let mut logs: Vec<u64> = Vec::new();
    let mut i: usize = 0;
    while i < groups.len()
        invariant
            i <= groups.len(),
            logs.len() == i,
            forall|n: u64, total: u64| call_requires(neg_log2, (n, total)),
            forall|k: int|
                0 <= k < i ==> if groups[k] == 0 {
                    #[trigger] logs[k] == 0
                } else {
                    call_ensures(neg_log2, (groups[k], total_uses), logs[k])
                },
        decreases groups.len() - i,
    {
        let l: u64 = if groups[i] == 0 {
            0
        } else {
            neg_log2(groups[i], total_uses)
        };
        logs.push(l);
        i += 1;
    }
    entropy_from(groups, &logs, total_uses)
}

/// Whether every object of the predicate is used once only: such a
/// predicate identifies its subject and says nothing of the class.
pub open spec fn is_identifier(row: PredicateStats) -> bool {
    row.uniqueness.num as int == row.uniqueness.den as int
}

/// Whether a row says something of the class: it is not the row of the
/// type predicate, which every instance carries, and not an identifier.
pub open spec fn says_something(row: PredicateStats) -> bool {
    row.predicate@ != TYPE_PREDICATE@ && !is_identifier(row)
}

/// Those of the first `upto` rows that say something of the class, in
/// order.
pub open spec fn informative(data: Seq<PredicateStats>, upto: int) -> Seq<PredicateStats>
    decreases upto,
{
    if upto <= 0 {
        Seq::empty()
    } else if says_something(data[upto - 1]) {
        informative(data, upto - 1).push(data[upto - 1])
    } else {
        informative(data, upto - 1)
    }
}

/// Those of the first `upto` predicates that are to be measured: all but
/// the type predicate, in order.
pub open spec fn measurable(predicates: Seq<String>, upto: int) -> Seq<Seq<char>>
    decreases upto,
{
    if upto <= 0 {
        Seq::empty()
    } else if predicates[upto - 1]@ == TYPE_PREDICATE@ {
        measurable(predicates, upto - 1)
    } else {
        measurable(predicates, upto - 1).push(predicates[upto - 1]@)
    }
}

/// The predicates of a class that are to be measured: all but the type
/// predicate.
pub fn predicates_to_measure(predicates: &Vec<String>) -> (out: Vec<String>)
    ensures
        Seq::new(out.len() as nat, |i: int| out[i]@) == measurable(predicates@, predicates.len() as int),
{
    let type_predicate = chars_of(TYPE_PREDICATE);
    let mut out: Vec<String> = Vec::new();
    let mut i: usize = 0;
    assert(Seq::new(out.len() as nat, |k: int| out[k]@) =~= measurable(predicates@, 0));
    while i < predicates.len()
        invariant
            i <= predicates.len(),
            type_predicate@ == TYPE_PREDICATE@,
            Seq::new(out.len() as nat, |k: int| out[k]@) == measurable(predicates@, i as int),
        decreases predicates.len() - i,
    {
        let ghost before = Seq::new(out.len() as nat, |k: int| out[k]@);
        if !same_chars(&chars_of(predicates[i].as_str()), &type_predicate) {
            out.push(predicates[i].clone());
            assert(Seq::new(out.len() as nat, |k: int| out[k]@) =~= before.push(predicates[i as int]@));
        }
        i += 1;
    }
    out
}

/// How often walks left `class` over one of the first `upto` edges that
/// carry `predicate`.
pub open spec fn predicate_visits(
    m: GraphModel,
    visits: Seq<u64>,
    class: int,
    predicate: Seq<char>,
    upto: int,
) -> nat
    decreases upto,
{
    if upto <= 0 {
        0
    } else {
        predicate_visits(m, visits, class, predicate, upto - 1) + if m.edges[upto - 1].source == class
            && m.edges[upto - 1].predicate == predicate {
            visits[upto - 1] as nat
        } else {
            0
        }
    }
}

/// The edge rank of `predicate` on `class`: the traversals of the class's
/// edges with this predicate, over all traversals.
pub open spec fn edge_rank(m: GraphModel, t: RankTables, class: int, predicate: Seq<char>) -> Ratio {
    Ratio {
        num: predicate_visits(m, t.edge_visits@, class, predicate, m.edges.len() as int) as u64,
        den: t.total_edge_visits as u128,
    }
}

proof fn lemma_predicate_visits_bound(
    m: GraphModel,
    t: RankTables,
    class: int,
    predicate: Seq<char>,
    upto: int,
)
    requires
        0 <= upto <= t.edge_visits.len(),
    ensures
        predicate_visits(m, t.edge_visits@, class, predicate, upto) <= sum_upto(t@.edge_visits, upto),
    decreases upto,
{
    if upto > 0 {
        lemma_predicate_visits_bound(m, t, class, predicate, upto - 1);
    }
}

/// Computes the edge rank of `predicate` on `class` from the counts of a
/// ranking.
pub fn edge_rank_of(graph: &ClassGraph, tables: &RankTables, class: usize, predicate: &str) -> (r: Ratio)
    requires
        graph.wf(),
        balanced(graph@, tables@),
    ensures
        r == edge_rank(graph@, *tables, class as int, predicate@),
        r.num <= r.den,
{
    let wanted = chars_of(predicate);
    let edges = graph.edge_count();
    let mut sum: u64 = 0;
    let mut e: usize = 0;
    proof {
        lemma_predicate_visits_bound(graph@, *tables, class as int, predicate@, edges as int);
    }
    while e < edges
        invariant
            graph.wf(),
            balanced(graph@, tables@),
            edges == graph@.edges.len(),
            e <= edges,
            wanted@ == predicate@,
            sum == predicate_visits(graph@, tables.edge_visits@, class as int, predicate@, e as int),
        decreases edges - e,
    {
        proof {
            lemma_predicate_visits_bound(graph@, *tables, class as int, predicate@, e + 1);
            lemma_sum_monotone(tables@.edge_visits, e + 1, edges as int);
        }
        if graph.edge_source(e) == class && same_chars(
            &chars_of(graph.edge_predicate(e).as_str()),
            &wanted,
        ) {
            sum = sum + tables.edge_visits[e];
        }
        e += 1;
    }
    Ratio { num: sum, den: tables.total_edge_visits as u128 }
}

proof fn lemma_sum_monotone(s: Seq<nat>, a: int, b: int)
    requires
        a <= b,
    ensures
        sum_upto(s, a) <= sum_upto(s, b),
    decreases b - a,
{
    if a < b {
        lemma_sum_monotone(s, a, b - 1);
    }
}

/// `rows` with the edge rank of each row's predicate on `class` attached.
pub open spec fn ranked_rows(rows: Seq<PredicateStats>, m: GraphModel, t: RankTables, class: int) -> Seq<
    PredicateStats,
> {
    Seq::new(
        rows.len(),
        |i: int| PredicateStats { edge_rank: edge_rank(m, t, class, rows[i].predicate@), ..rows[i] },
    )
}

/// What the analysis of a class makes of the measured rows: the rows that
/// are no identifiers, each with its edge rank, the entropy column scaled
/// and then the quality column scaled.
pub open spec fn analysed(measured: Seq<PredicateStats>, m: GraphModel, t: RankTables, class: int) -> Seq<
    PredicateStats,
> {
    normalized(
        normalized(
            ranked_rows(informative(measured, measured.len() as int), m, t, class),
            Column::Entropy,
        ),
        Column::Quality,
    )
}

impl KG {
    /// The statistics of one predicate from what was counted: the instances
    /// that have it over the instances of the class, its distinct objects
    /// over its uses, the entropy of the groups of equal objects, and the
    /// quality summed over its subjects.
    ///
    /// `groups` holds the sizes of the groups of equal objects and
    /// `neg_log2` gives, for a group size and the number of uses, the
    /// negative binary logarithm of the group's share in fixed-point. A
    /// predicate without uses, or with an entropy beyond 64 bits, has the
    /// entropy zero. `None` when the quality does not fit into 64 bits.
    pub fn stat_anal_single_predicate<L: Fn(u64, u64) -> u64>(
        &self,
        predicate: &str,
        total_predicates: u64,
        object_count: u64,
        predicate_used: u64,
        distinct_objects: u64,
        total_uses: u64,
        groups: &Vec<u64>,
        neg_log2: L,
        others: &Vec<u64>,
    ) -> (r: Option<PredicateStats>)
        requires
            forall|i: int| 0 <= i < others.len() ==> others[i] > 0,
            forall|n: u64, t: u64| call_requires(neg_log2, (n, t)),
        ensures
            r is None <==> quality_sum(total_predicates, others@, others.len() as int) > u64::MAX,
            r matches Some(row) ==> {
                &&& row.predicate@ == predicate@
                &&& row.frequency == (Ratio { num: predicate_used, den: object_count as u128 })
                &&& row.uniqueness == (Ratio { num: distinct_objects, den: total_uses as u128 })
                &&& exists|logs: Seq<u64>|
                    {
                        &&& logs.len() == groups.len()
                        &&& forall|i: int|
                            0 <= i < groups.len() ==> if groups[i] == 0 {
                                #[trigger] logs[i] == 0
                            } else {
                                call_ensures(neg_log2, (groups[i], total_uses), logs[i])
                            }
                        &&& row.entropy == match entropy_value(groups@, logs, total_uses) {
                            Some(v) => v,
                            None => 0,
                        }
                    }
                &&& row.quality == quality_sum(total_predicates, others@, others.len() as int)
                &&& row.edge_rank == (Ratio { num: 0, den: 1 })
            },
    {
        let entropy = match entropy_of(groups, total_uses, neg_log2) {
            Some(v) => v,
            None => 0,
        };
        match quality_of(total_predicates, others) {
            None => None,
            Some(quality) => Some(
                PredicateStats {
                    predicate: predicate.to_string(),
                    frequency: Ratio { num: predicate_used, den: object_count as u128 },
                    uniqueness: Ratio { num: distinct_objects, den: total_uses as u128 },
                    entropy,
                    quality,
                    edge_rank: Ratio { num: 0, den: 1 },
                },
            ),
        }
    }

    /// The analysis of a class.
    ///
    /// A cached analysis is used if and only if it was computed at
    /// `current_version`. Otherwise `measure` is asked for the measured
    /// rows of the class's predicates, and the analysis is built from what
    /// it returns and from nothing else: the row of the type predicate and
    /// the rows of identifier predicates are dropped, every other row gets
    /// its edge rank, and the entropy and quality columns are scaled. Such
    /// an analysis is to be stored under `current_version`. `None` when no
    /// measured row is left.
    pub fn stat_anal_predicates<M: FnOnce() -> Vec<PredicateStats>>(
        &self,
        cached: Option<CachedAnalysis>,
        current_version: usize,
        graph: &ClassGraph,
        tables: &RankTables,
        class: usize,
        measure: M,
    ) -> (r: Option<Analysis>)
        requires
            graph.wf(),
            balanced(graph@, tables@),
            call_requires(measure, ()),
        ensures
            is_usable(cached, current_version) ==> (r matches Some(a) && a.rows == cached->0.rows
                && a.store_as is None),
            !is_usable(cached, current_version) ==> exists|measured: Vec<PredicateStats>|
                {
                    &&& call_ensures(measure, (), measured)
                    &&& r is None <==> informative(measured@, measured.len() as int).len() == 0
                    &&& r matches Some(a) ==> (a.store_as == Some(current_version) && a.rows@ == analysed(
                        measured@,
                        graph@,
                        *tables,
                        class as int,
                    ))
                },
    {
        match cached {
            Some(c) => {
                if c.version == current_version {
                    return Some(Analysis { rows: c.rows, store_as: None });
                }
            },
            None => {},
        }
        let measured = measure();
        match self.analyse_measured(graph, tables, class, &measured) {
            Some(rows) => Some(Analysis { rows, store_as: Some(current_version) }),
            None => None,
        }
    }

    /// The analysis of a class from the measured rows of its predicates:
    /// the row of the type predicate and the rows of identifier predicates
    /// are dropped, every other row gets its edge rank, and the entropy and
    /// quality columns are scaled. `None` when no row is left.
    pub fn analyse_measured(
        &self,
        graph: &ClassGraph,
        tables: &RankTables,
        class: usize,
        measured: &Vec<PredicateStats>,
    ) -> (r: Option<Vec<PredicateStats>>)
        requires
            graph.wf(),
            balanced(graph@, tables@),
        ensures
            r is None <==> informative(measured@, measured.len() as int).len() == 0,
            r matches Some(rows) ==> rows@ == analysed(measured@, graph@, *tables, class as int),
    {
        let type_predicate = chars_of(TYPE_PREDICATE);
        let mut rows: Vec<PredicateStats> = Vec::new();
        let mut i: usize = 0;
        while i < measured.len()
            invariant
                graph.wf(),
                balanced(graph@, tables@),
                i <= measured.len(),
                type_predicate@ == TYPE_PREDICATE@,
                rows@ == ranked_rows(informative(measured@, i as int), graph@, *tables, class as int),
            decreases measured.len() - i,
        {
            let row = &measured[i];
            if row.uniqueness.num as u128 != row.uniqueness.den && !same_chars(
                &chars_of(row.predicate.as_str()),
                &type_predicate,
            ) {
                let rank = edge_rank_of(graph, tables, class, row.predicate.as_str());
                rows.push(
                    PredicateStats {
                        predicate: row.predicate.clone(),
                        frequency: row.frequency,
                        uniqueness: row.uniqueness,
                        entropy: row.entropy,
                        quality: row.quality,
                        edge_rank: rank,
                    },
                );
                assert(rows@ =~= ranked_rows(
                    informative(measured@, i + 1),
                    graph@,
                    *tables,
                    class as int,
                ));
            }
            i += 1;
        }
        if rows.len() == 0 {
            return None;
        }
        normalize_column(&mut rows, Column::Entropy);
        normalize_column(&mut rows, Column::Quality);
        Some(rows)
    }
}

/// An analysis as the cache holds it: the rows, and the version of the
/// mutation log they were computed at.
#[derive(Debug)]
pub struct CachedAnalysis {
    pub version: usize,
    pub rows: Vec<PredicateStats>,
}

/// An analysis and, where it was computed anew, the version under which it
/// is to be stored.
#[derive(Debug)]
pub struct Analysis {
    pub rows: Vec<PredicateStats>,
    pub store_as: Option<usize>,
}

/// Whether a cached analysis can be used at `current_version`: there is
/// one, and it was computed at that version.
pub open spec fn is_usable(cached: Option<CachedAnalysis>, current_version: usize) -> bool {
    cached matches Some(c) && c.version == current_version
}

} // verus!
