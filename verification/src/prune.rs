//! Iterative pruning of the class graph: in each round the classes are
//! weighed, the heaviest are kept until their weight exceeds a
//! round-dependent share of the total weight, and the others leave the
//! graph.

use vstd::prelude::*;
use crate::graph::{ClassGraph, EdgeModel, GraphModel, Ratio};
use crate::order::{is_ranking, key_above, rank_desc, SortKey};
use crate::probability::{calculate_probabilities_for_graph, node_totals, out_total, with_probabilities};
use crate::reach::{
    is_order_from, lemma_order_avoids_sink, lemma_root_is_no_sink, remove_disconnected, root_name,
    ReachabilityRecord,
};
use crate::store::KG;
use crate::walk::{start_weights, walks, Direction, RankTables, STEPS, WALKS};

verus! {

/// The ranking keys of class weights: the weight alone.
pub open spec fn weight_keys(weights: Seq<u32>) -> Seq<SortKey> {
    Seq::new(weights.len(), |i: int| SortKey { major: 0, minor: weights[i] as u64 })
}

/// The summed weight of the first `upto` entries.
pub open spec fn weight_sum(weights: Seq<u32>, upto: int) -> nat
    decreases upto,
{
    if upto <= 0 {
        0
    } else {
        weight_sum(weights, upto - 1) + weights[upto - 1] as nat
    }
}

/// The summed weight of the first `upto` classes of the ranking `perm`.
pub open spec fn ranked_prefix(weights: Seq<u32>, perm: Seq<usize>, upto: int) -> nat
    decreases upto,
{
    if upto <= 0 {
        0
    } else {
        ranked_prefix(weights, perm, upto - 1) + weights[perm[upto - 1] as int] as nat
    }
}

/// Whether the class at position `a` of the ranking is kept under the limit
/// `num / den`: the classes before it do not hold more than that share of
/// the total weight. Classes are kept until the kept weight exceeds the
/// limit.
pub open spec fn keeps_at(weights: Seq<u32>, perm: Seq<usize>, a: int, num: u32, den: u32) -> bool {
    ranked_prefix(weights, perm, a) * den <= num * ranked_prefix(weights, perm, perm.len() as int)
}

/// Whether `kept` is what the limit `num / den` keeps of the ranking `perm`:
/// its positions in ranking order, as long as the weight before a position
/// does not exceed the limit.
pub open spec fn is_kept(weights: Seq<u32>, perm: Seq<usize>, kept: Seq<usize>, num: u32, den: u32) -> bool {
    &&& kept.len() <= perm.len()
    &&& kept == perm.take(kept.len() as int)
    &&& forall|a: int| 0 <= a < perm.len() ==> (#[trigger] keeps_at(weights, perm, a, num, den) <==> a < kept.len())
}

proof fn lemma_ranked_prefix_monotone(weights: Seq<u32>, perm: Seq<usize>, a: int, b: int)
    requires
        a <= b,
    ensures
        ranked_prefix(weights, perm, a) <= ranked_prefix(weights, perm, b),
    decreases b - a,
{
    if a < b {
        lemma_ranked_prefix_monotone(weights, perm, a, b - 1);
    }
}

/// The heaviest class survives every round: whatever the limit is, the
/// first class of the ranking is kept.
pub proof fn lemma_heaviest_is_kept(
    weights: Seq<u32>,
    perm: Seq<usize>,
    kept: Seq<usize>,
    num: u32,
    den: u32,
)
    requires
        is_kept(weights, perm, kept, num, den),
        perm.len() > 0,
    ensures
        kept.len() > 0,
        kept[0] == perm[0],
{
    let total = ranked_prefix(weights, perm, perm.len() as int);
    assert(num * total >= 0) by (nonlinear_arith)
        requires
            num >= 0,
            total >= 0,
    ;
    assert(ranked_prefix(weights, perm, 0) == 0);
    assert(0 * den == 0);
    assert(keeps_at(weights, perm, 0, num, den));
}

/// No class that is dropped is heavier than a class that is kept.
pub proof fn lemma_kept_are_heaviest(
    weights: Seq<u32>,
    perm: Seq<usize>,
    kept: Seq<usize>,
    num: u32,
    den: u32,
)
    requires
        is_ranking(weight_keys(weights), perm),
        is_kept(weights, perm, kept, num, den),
    ensures
        forall|a: int, b: int|
            0 <= a < kept.len() <= b < perm.len() ==> weights[#[trigger] perm[a] as int]
                >= weights[#[trigger] perm[b] as int],
{
    let keys = weight_keys(weights);
    assert forall|a: int, b: int| 0 <= a < kept.len() <= b < perm.len() implies weights[#[trigger] perm[a] as int]
        >= weights[#[trigger] perm[b] as int] by {
        assert(crate::order::ranks_before(keys, perm[a] as int, perm[b] as int));
    }
}

/// What is kept reaches the limit and does not overshoot it by more than
/// one class: the kept classes without the last of them hold no more than
/// the limit's share of the total weight, and all kept classes together
/// hold more than it unless every class is kept.
pub proof fn lemma_kept_meets_the_limit(
    weights: Seq<u32>,
    perm: Seq<usize>,
    kept: Seq<usize>,
    num: u32,
    den: u32,
)
    requires
        is_kept(weights, perm, kept, num, den),
    ensures
        kept.len() > 0 ==> ranked_prefix(weights, perm, kept.len() - 1) * den <= num * ranked_prefix(
            weights,
            perm,
            perm.len() as int,
        ),
        kept.len() < perm.len() ==> ranked_prefix(weights, perm, kept.len() as int) * den > num
            * ranked_prefix(weights, perm, perm.len() as int),
{
    if kept.len() > 0 {
        assert(keeps_at(weights, perm, kept.len() - 1, num, den));
    }
    if kept.len() < perm.len() {
        assert(!keeps_at(weights, perm, kept.len() as int, num, den));
    }
}

/// The summed weight of the classes in ranking order.
fn ranked_total(weights: &Vec<u32>, perm: &Vec<usize>) -> (total: u128)
    requires
        perm.len() == weights.len(),
        forall|a: int| 0 <= a < perm.len() ==> (#[trigger] perm[a]) < weights.len(),
    ensures
        total == ranked_prefix(weights@, perm@, perm.len() as int),
        total <= perm.len() * u32::MAX,
{
    let mut total: u128 = 0;
    let mut a: usize = 0;
    while a < perm.len()
        invariant
            a <= perm.len(),
            perm.len() == weights.len(),
            forall|b: int| 0 <= b < perm.len() ==> (#[trigger] perm[b]) < weights.len(),
            total == ranked_prefix(weights@, perm@, a as int),
            total <= a * u32::MAX,
        decreases perm.len() - a,
    {
        assert(a * u32::MAX + u32::MAX == (a + 1) * u32::MAX) by (nonlinear_arith);
        assert((a + 1) * u32::MAX <= usize::MAX * u32::MAX) by (nonlinear_arith)
            requires
                a + 1 <= usize::MAX,
        ;
        total = total + weights[perm[a]] as u128;
        a += 1;
    }
    total
}

impl KG {
    /// Ranks the classes by weight and keeps them from the top until the
    /// weight of the classes kept exceeds `limit_num / limit_den` of the
    /// total weight. Returns the kept classes, heaviest first; classes of
    /// equal weight keep the order they came in.
    pub fn rank(&self, weights: &Vec<u32>, limit_num: u32, limit_den: u32) -> (kept: Vec<usize>)
        ensures
            exists|perm: Seq<usize>|
                #[trigger] is_ranking(weight_keys(weights@), perm) && is_kept(
                    weights@,
                    perm,
                    kept@,
                    limit_num,
                    limit_den,
                ),
    {
        let mut keys: Vec<SortKey> = Vec::new();
        let mut i: usize = 0;
        while i < weights.len()
            invariant
                i <= weights.len(),
                keys.len() == i,
                forall|k: int| 0 <= k < i ==> keys[k] == weight_keys(weights@)[k],
            decreases weights.len() - i,
        {
            keys.push(SortKey { major: 0, minor: weights[i] as u64 });
            i += 1;
        }
        assert(keys@ =~= weight_keys(weights@));
        let perm = rank_desc(&keys);
        let total = ranked_total(weights, &perm);
        let n = perm.len();
        assert(n * u32::MAX <= usize::MAX * u32::MAX) by (nonlinear_arith)
            requires
                n <= usize::MAX,
        ;
        assert(limit_num * total <= u32::MAX * (usize::MAX * u32::MAX)) by (nonlinear_arith)
            requires
                0 <= total <= usize::MAX * u32::MAX,
                0 <= limit_num <= u32::MAX,
        ;
        let bound: u128 = limit_num as u128 * total;
        let mut kept: Vec<usize> = Vec::new();
        let mut before: u128 = 0;
        let mut a: usize = 0;
        assert(0 * limit_den == 0);
        while a < n && before * (limit_den as u128) <= bound
            invariant
                a <= n,
                n == perm.len(),
                perm.len() == weights.len(),
                forall|b: int| 0 <= b < perm.len() ==> (#[trigger] perm[b]) < weights.len(),
                total == ranked_prefix(weights@, perm@, n as int),
                bound == limit_num * total,
                before == ranked_prefix(weights@, perm@, a as int),
                before <= total,
                total <= usize::MAX * u32::MAX,
                before * limit_den <= (usize::MAX * u32::MAX) * u32::MAX,
                (usize::MAX * u32::MAX) * u32::MAX <= u128::MAX,
                kept@ == perm@.take(a as int),
                forall|b: int| 0 <= b < a ==> keeps_at(weights@, perm@, b, limit_num, limit_den),
            decreases n - a,
        {
            proof {
                lemma_ranked_prefix_monotone(weights@, perm@, a + 1, n as int);
                assert(before * limit_den <= (usize::MAX * u32::MAX) * u32::MAX) by (nonlinear_arith)
                    requires
                        before <= usize::MAX * u32::MAX,
                        limit_den <= u32::MAX,
                ;
            }
            kept.push(perm[a]);
            before = before + weights[perm[a]] as u128;
            a += 1;
            assert(kept@ =~= perm@.take(a as int));
            assert(before * limit_den <= (usize::MAX * u32::MAX) * u32::MAX) by (nonlinear_arith)
                requires
                    before <= usize::MAX * u32::MAX,
                    limit_den <= u32::MAX,
            ;
        }
        proof {
            assert forall|b: int| 0 <= b < perm.len() implies (#[trigger] keeps_at(
                weights@,
                perm@,
                b,
                limit_num,
                limit_den,
            ) <==> b < kept.len()) by {
                if b >= a {
                    lemma_ranked_prefix_monotone(weights@, perm@, a as int, b);
                    let pa = ranked_prefix(weights@, perm@, a as int);
                    let pb = ranked_prefix(weights@, perm@, b);
                    assert(pa * limit_den <= pb * limit_den) by (nonlinear_arith)
                        requires
                            pa <= pb,
                    ;
                }
            }
            assert(is_kept(weights@, perm@, kept@, limit_num, limit_den));
        }
        kept
    }
}

/// Whether both ends of an edge are alive.
pub open spec fn edge_alive(e: EdgeModel, alive: Seq<bool>) -> bool {
    alive[e.source] && alive[e.target]
}

/// Those of the first `upto` edges whose ends are both alive, in order.
pub open spec fn surviving(edges: Seq<EdgeModel>, alive: Seq<bool>, upto: int) -> Seq<EdgeModel>
    decreases upto,
{
    if upto <= 0 {
        Seq::empty()
    } else if edge_alive(edges[upto - 1], alive) {
        surviving(edges, alive, upto - 1).push(edges[upto - 1])
    } else {
        surviving(edges, alive, upto - 1)
    }
}

/// The graph without the edges that touch a dead node.
pub open spec fn restricted(m: GraphModel, alive: Seq<bool>) -> GraphModel {
    GraphModel { edges: surviving(m.edges, alive, m.edges.len() as int), ..m }
}

proof fn lemma_surviving_len(edges: Seq<EdgeModel>, alive: Seq<bool>, upto: int)
    requires
        0 <= upto,
    ensures
        surviving(edges, alive, upto).len() <= upto,
    decreases upto,
{
    if upto > 0 {
        lemma_surviving_len(edges, alive, upto - 1);
    }
}

/// Every surviving edge is an edge of the graph whose ends are alive.
proof fn lemma_surviving_member(edges: Seq<EdgeModel>, alive: Seq<bool>, upto: int, k: int)
    requires
        0 <= upto <= edges.len(),
        0 <= k < surviving(edges, alive, upto).len(),
    ensures
        exists|e: int|
            0 <= e < upto && #[trigger] edges[e] == surviving(edges, alive, upto)[k] && edge_alive(
                edges[e],
                alive,
            ),
    decreases upto,
{
    if upto > 0 {
        let rest = surviving(edges, alive, upto - 1);
        if edge_alive(edges[upto - 1], alive) && k == rest.len() {
            assert(edges[upto - 1] == surviving(edges, alive, upto)[k]);
        } else {
            lemma_surviving_member(edges, alive, upto - 1, k);
        }
    }
}

/// A snapshot of `graph` that keeps every node and those edges whose ends
/// are both alive. A dead node stays as a node without edges.
pub fn restrict(graph: &ClassGraph, alive: &Vec<bool>) -> (g: ClassGraph)
    requires
        graph.wf(),
        alive.len() == graph@.nodes.len(),
    ensures
        g.wf(),
        g@ == restricted(graph@, alive@),
{
    let nodes = graph.node_count();
    let edges = graph.edge_count();
    let mut g = ClassGraph::new();
    let mut n: usize = 1;
    while n < nodes
        invariant
            graph.wf(),
            g.wf(),
            nodes == graph@.nodes.len(),
            1 <= n <= nodes,
            g@.nodes == graph@.nodes.take(n as int),
            g@.edges == Seq::<EdgeModel>::empty(),
        decreases nodes - n,
    {
        let name = graph.node_name(n).clone();
        g.add_class(name);
        n += 1;
        assert(g@.nodes =~= graph@.nodes.take(n as int));
    }
    assert(graph@.nodes.take(nodes as int) =~= graph@.nodes);
    let mut e: usize = 0;
    while e < edges
        invariant
            graph.wf(),
            g.wf(),
            alive.len() == graph@.nodes.len(),
            edges == graph@.edges.len(),
            e <= edges,
            g@.nodes == graph@.nodes,
            g@.edges == surviving(graph@.edges, alive@, e as int),
        decreases edges - e,
    {
        let source = graph.edge_source(e);
        let target = graph.edge_target(e);
        proof {
            lemma_surviving_len(graph@.edges, alive@, e as int);
        }
        if alive[source] && alive[target] {
            let predicate = graph.edge_predicate(e).clone();
            let added = g.add_relation(source, target, predicate, graph.edge_weight(e));
            g.set_probabilities(added, graph.edge_forward(e), graph.edge_backward(e));
            assert(g@.edges =~= surviving(graph@.edges, alive@, e as int).push(graph@.edges[e as int]));
        }
        e += 1;
    }
    g
}

/// The rank of one class in one direction: its share of the visits is
/// `(visits + sink_hits / sink_den) / total_visits`.
#[derive(Clone, Copy, Debug, PartialEq, Eq, Structural)]
pub struct NodeRank {
    pub visits: u64,
    pub sink_hits: u128,
    pub sink_den: u128,
    pub total_visits: u64,
}

/// What is known of a class when it is weighed in a round.
#[derive(Clone, Copy, Debug, PartialEq, Eq, Structural)]
pub struct ClassStats {
    pub node: usize,
    pub entity_count: u64,
    /// The summed entity count of the classes weighed in this round.
    pub total_entity_count: u128,
    /// The distance from the root; the depth score is `1 / (1 + depth)`.
    pub depth: u64,
    pub forward: NodeRank,
    pub backward: NodeRank,
}

/// The state of a class after the last round that weighed it.
#[derive(Clone, Copy, Debug, PartialEq, Eq, Structural)]
pub struct ClassRoundRecord {
    pub node: usize,
    pub entity_count: u64,
    pub depth: u64,
    pub forward: NodeRank,
    pub backward: NodeRank,
    pub round: u32,
    pub kept: bool,
    /// The class's share of the round's total weight, zero if it was not
    /// kept.
    pub score: Ratio,
}

/// What happened in one round.
pub struct RoundLog {
    /// The classes that were weighed, in traversal order.
    pub classes: Vec<usize>,
    /// What was known of each class when it was weighed.
    pub stats: Vec<ClassStats>,
    /// The weight that each class got.
    pub weights: Vec<u32>,
    /// The places, in `classes`, of the classes that were kept, heaviest
    /// first.
    pub kept: Vec<usize>,
    /// The ranking of the round along the edges.
    pub forward: RankTables,
    /// The ranking of the round against the edges.
    pub backward: RankTables,
}

/// What pruning returns.
pub struct PruneResult {
    /// One record per class of the traversal order, later rounds first and
    /// higher scores first within a round.
    pub records: Vec<ClassRoundRecord>,
    /// What happened in each round.
    pub rounds: Vec<RoundLog>,
    /// The classes that survived every round.
    pub keep: Vec<usize>,
    /// The graph restricted to the surviving classes and the sink.
    pub graph: ClassGraph,
}

/// The key by which the records are listed: the round, then the score's
/// numerator (the scores of one round share their denominator).
pub open spec fn record_key(r: ClassRoundRecord) -> SortKey {
    SortKey { major: r.round as u64, minor: r.score.num }
}

/// Whether `order` can be pruned on `m`: its classes are nodes of the
/// graph other than the sink, and none occurs twice.
pub open spec fn prunable(m: GraphModel, order: Seq<ReachabilityRecord>) -> bool {
    &&& forall|k: int|
        0 <= k < order.len() ==> (#[trigger] order[k]).node < m.nodes.len() && order[k].node
            != m.literal
    &&& forall|i: int, j: int|
        0 <= i < j < order.len() ==> (#[trigger] order[i]).node != (#[trigger] order[j]).node
}

/// The classes of a traversal order.
pub open spec fn nodes_of(order: Seq<ReachabilityRecord>) -> Seq<usize> {
    Seq::new(order.len(), |k: int| order[k].node)
}

/// Those of the first `upto` classes whose place is one of `kept`, in
/// order.
pub open spec fn survivors(classes: Seq<usize>, kept: Seq<usize>, upto: int) -> Seq<usize>
    decreases upto,
{
    if upto <= 0 {
        Seq::empty()
    } else if kept.contains((upto - 1) as usize) {
        survivors(classes, kept, upto - 1).push(classes[upto - 1])
    } else {
        survivors(classes, kept, upto - 1)
    }
}

/// Whether the round of `log` kept the class `n`.
pub open spec fn keeps_class(log: RoundLog, n: int) -> bool {
    exists|k: int|
        0 <= k < log.classes.len() && log.kept@.contains(k as usize) && #[trigger] log.classes[k] == n
}

/// The nodes that are alive after the round of `log`: the sink and the
/// classes that the round kept.
pub open spec fn alive_of(m: GraphModel, log: RoundLog) -> Seq<bool> {
    Seq::new(m.nodes.len(), |n: int| n == m.literal || keeps_class(log, n))
}

/// The graph before round `r`: the graph that pruning started on, and
/// after each round the graph of the round, with its probabilities,
/// restricted to what the round left alive.
pub open spec fn graph_before(m: GraphModel, rounds: Seq<RoundLog>, r: int) -> GraphModel
    decreases r,
{
    if r <= 0 {
        m
    } else {
        restricted(with_probabilities(graph_before(m, rounds, r - 1)), alive_of(m, rounds[r - 1]))
    }
}

/// The entity counts before round `r`: the counts that pruning started
/// with, and after each round zero for every node that the round did not
/// leave alive.
pub open spec fn counts_before(counts: Seq<u64>, m: GraphModel, rounds: Seq<RoundLog>, r: int) -> Seq<u64>
    decreases r,
{
    if r <= 0 {
        counts
    } else {
        Seq::new(
            counts.len(),
            |n: int|
                if alive_of(m, rounds[r - 1])[n] {
                    counts_before(counts, m, rounds, r - 1)[n]
                } else {
                    0
                },
        )
    }
}

/// The summed entity count of the first `upto` classes.
pub open spec fn entity_total(classes: Seq<usize>, counts: Seq<u64>, upto: int) -> nat
    decreases upto,
{
    if upto <= 0 {
        0
    } else {
        entity_total(classes, counts, upto - 1) + counts[classes[upto - 1] as int] as nat
    }
}

/// The rank of `node` as the tables `t` of a ranking on `g` give it.
pub open spec fn rank_of(t: RankTables, g: GraphModel, node: int) -> NodeRank {
    NodeRank {
        visits: t.visits[node],
        sink_hits: t.sink_hits[node],
        sink_den: out_total(g, node) as u128,
        total_visits: t.total_visits,
    }
}

/// Whether `t` holds the counts of `WALKS` walks on `g` in the given
/// direction, started in proportion to `counts`, for some random words.
pub open spec fn ranked_by(t: RankTables, g: GraphModel, counts: Seq<u64>, outgoing: bool) -> bool {
    exists|draws: Seq<u128>|
        draws.len() == WALKS * (STEPS + 1) && #[trigger] walks(
            g,
            outgoing,
            start_weights(g, counts),
            draws,
            WALKS as nat,
        ) == t@
}

/// Whether the traversal order lists `node` at depth `depth`.
pub open spec fn listed_at(order: Seq<ReachabilityRecord>, node: usize, depth: u64) -> bool {
    exists|j: int| 0 <= j < order.len() && #[trigger] order[j] == (ReachabilityRecord { node: node, depth: depth })
}

/// What is known of the class at place `k` of a round on the graph `g`
/// with the entity counts `counts`: its entity count, the summed entity
/// count of the round's classes, its depth, and its ranks in both
/// directions.
pub open spec fn known_of(log: RoundLog, g: GraphModel, counts: Seq<u64>, k: int) -> ClassStats {
    ClassStats {
        node: log.classes[k],
        entity_count: counts[log.classes[k] as int],
        total_entity_count: entity_total(log.classes@, counts, log.classes.len() as int) as u128,
        depth: log.stats[k].depth,
        forward: rank_of(log.forward, g, log.classes[k] as int),
        backward: rank_of(log.backward, g, log.classes[k] as int),
    }
}

/// Whether the log of round `round` is in order. The round ran on the
/// graph `g` with the entity counts `counts`: its two rankings are walks
/// on `g`, every class was weighed by `weigh` on what was known of it, and
/// the classes kept are those that the round's limit keeps of the ranking
/// by weight.
pub open spec fn round_ok<F: Fn(ClassStats) -> u32>(
    weigh: F,
    log: RoundLog,
    round: u32,
    levels: u32,
    order: Seq<ReachabilityRecord>,
    g: GraphModel,
    counts: Seq<u64>,
) -> bool {
    &&& log.stats.len() == log.classes.len()
    &&& log.weights.len() == log.classes.len()
    &&& ranked_by(log.forward, g, counts, true)
    &&& ranked_by(log.backward, g, counts, false)
    &&& forall|k: int|
        0 <= k < log.classes.len() ==> (#[trigger] log.stats[k]) == known_of(log, g, counts, k)
            && listed_at(order, log.classes[k], log.stats[k].depth) && call_ensures(
            weigh,
            (log.stats[k],),
            log.weights[k],
        )
    &&& exists|perm: Seq<usize>|
        #[trigger] is_ranking(weight_keys(log.weights@), perm) && is_kept(
            log.weights@,
            perm,
            log.kept@,
            (round + 1) as u32,
            (levels + 1) as u32,
        )
}

/// Whether `r` records what the round `round` made of the class at place
/// `k`: what was known of the class, whether it was kept, and its share of
/// the round's weight if it was.
pub open spec fn recorded_by(
    classes: Seq<usize>,
    stats: Seq<ClassStats>,
    weights: Seq<u32>,
    kept: Seq<usize>,
    k: int,
    round: u32,
    r: ClassRoundRecord,
) -> bool {
    &&& r.node == classes[k]
    &&& r.depth == stats[k].depth
    &&& r.forward == stats[k].forward
    &&& r.backward == stats[k].backward
    &&& r.round == round
    &&& r.kept == kept.contains(k as usize)
    &&& r.score == (Ratio {
        num: if r.kept {
            weights[k] as u64
        } else {
            0
        },
        den: weight_sum(weights, weights.len() as int) as u128,
    })
}

/// Whether the record `r` is what the log of its round says of its class.
pub open spec fn has_log(rounds: Seq<RoundLog>, r: ClassRoundRecord) -> bool {
    r.round < rounds.len() && exists|k: int|
        0 <= k < rounds[r.round as int].classes.len() && #[trigger] recorded_by(
            rounds[r.round as int].classes@,
            rounds[r.round as int].stats@,
            rounds[r.round as int].weights@,
            rounds[r.round as int].kept@,
            k,
            r.round,
            r,
        )
}

/// Whether the rounds follow each other: the first weighs the classes of
/// the traversal order, each further round those that the round before
/// kept, and the classes that the last round kept are the keep-set.
pub open spec fn rounds_chain(order: Seq<ReachabilityRecord>, rounds: Seq<RoundLog>, keep: Seq<usize>) -> bool {
    &&& rounds.len() > 0
    &&& rounds[0].classes@ == nodes_of(order)
    &&& forall|i: int|
        0 <= i < rounds.len() - 1 ==> (#[trigger] rounds[i + 1]).classes@ == survivors(
            rounds[i].classes@,
            rounds[i].kept@,
            rounds[i].classes.len() as int,
        )
    &&& keep == survivors(
        rounds[rounds.len() - 1].classes@,
        rounds[rounds.len() - 1].kept@,
        rounds[rounds.len() - 1].classes.len() as int,
    )
}

/// Whether `records` holds the record of the class `entry` with entity count
/// `count`.
pub open spec fn has_record(records: Seq<ClassRoundRecord>, entry: ReachabilityRecord, count: u64) -> bool {
    exists|a: int|
        0 <= a < records.len() && (#[trigger] records[a]).node == entry.node && records[a].depth
            == entry.depth && records[a].entity_count == count
}

/// Whether the class `node` is one of `order`.
pub open spec fn in_order(order: Seq<ReachabilityRecord>, node: usize) -> bool {
    exists|k: int| 0 <= k < order.len() && (#[trigger] order[k]).node == node
}

/// What pruning promises of its result.
pub open spec fn pruned<F: Fn(ClassStats) -> u32>(
    weigh: F,
    m: GraphModel,
    order: Seq<ReachabilityRecord>,
    counts: Seq<u64>,
    levels: u32,
    r: PruneResult,
) -> bool {
    if levels == 0 {
        // without a round nothing is recorded and every class stays
        r.graph@ == m && r.records.len() == 0 && r.rounds.len() == 0 && r.keep@ == nodes_of(order)
    } else {
        pruned_in_rounds(weigh, m, order, counts, levels, r)
    }
}

/// What pruning promises of its result after at least one round.
pub open spec fn pruned_in_rounds<F: Fn(ClassStats) -> u32>(
    weigh: F,
    m: GraphModel,
    order: Seq<ReachabilityRecord>,
    counts: Seq<u64>,
    levels: u32,
    r: PruneResult,
) -> bool {
    &&& r.graph.wf()
    &&& r.graph@.nodes == m.nodes
    &&& r.records.len() == order.len()
    // every round weighed and kept as its log says
    &&& r.rounds.len() == levels
    &&& forall|i: int|
        0 <= i < r.rounds.len() ==> round_ok(
            weigh,
            #[trigger] r.rounds[i],
            i as u32,
            levels,
            order,
            with_probabilities(graph_before(m, r.rounds@, i)),
            counts_before(counts, m, r.rounds@, i),
        )
    &&& rounds_chain(order, r.rounds@, r.keep@)
    // the graph that is left is the graph after the last round
    &&& r.graph@ == graph_before(m, r.rounds@, levels as int)
    // every record is what the log of its round says
    &&& forall|a: int| 0 <= a < r.records.len() ==> has_log(r.rounds@, #[trigger] r.records[a])
    // every class of the order has its record
    &&& forall|k: int|
        0 <= k < order.len() ==> has_record(
            r.records@,
            #[trigger] order[k],
            counts[order[k].node as int],
        )
    // later rounds first, and higher scores first within a round
    &&& forall|a: int, b: int|
        0 <= a < b < r.records.len() ==> !key_above(
            record_key(#[trigger] r.records[b]),
            record_key(#[trigger] r.records[a]),
        )
    // a class is kept if and only if it came through the last round
    &&& forall|a: int|
        0 <= a < r.records.len() ==> (#[trigger] r.records[a]).round < levels && (r.records[a].kept
            ==> r.records[a].round == levels - 1)
    &&& forall|a: int|
        0 <= a < r.records.len() ==> ((#[trigger] r.records[a]).kept <==> r.keep@.contains(
            r.records[a].node,
        ))
    &&& forall|i: int| 0 <= i < r.keep.len() ==> in_order(order, #[trigger] r.keep[i])
    // no edge of the final graph touches a class that was removed
    &&& forall|e: int|
        0 <= e < r.graph@.edges.len() ==> {
            &&& r.keep@.contains((#[trigger] r.graph@.edges[e]).source as usize)
            &&& (r.graph@.edges[e].target == m.literal || r.keep@.contains(
                r.graph@.edges[e].target as usize,
            ))
        }
}

/// The rank of node `n` in `tables`, with `sink_den` the node's outgoing
/// weight.
fn node_rank(tables: &RankTables, n: usize, sink_den: u128) -> (r: NodeRank)
    requires
        n < tables.visits.len(),
        n < tables.sink_hits.len(),
    ensures
        r == (NodeRank {
            visits: tables.visits[n as int],
            sink_hits: tables.sink_hits[n as int],
            sink_den: sink_den,
            total_visits: tables.total_visits,
        }),
{
    NodeRank {
        visits: tables.visits[n],
        sink_hits: tables.sink_hits[n],
        sink_den,
        total_visits: tables.total_visits,
    }
}

/// For each of `n` positions, whether `chosen` lists it.
fn flags_of(n: usize, chosen: &Vec<usize>) -> (flags: Vec<bool>)
    requires
        forall|a: int| 0 <= a < chosen.len() ==> (#[trigger] chosen[a]) < n,
    ensures
        flags.len() == n,
        forall|k: int| 0 <= k < n ==> (#[trigger] flags[k] <==> chosen@.contains(k as usize)),
{
    let mut flags: Vec<bool> = Vec::new();
    let mut k: usize = 0;
    while k < n
        invariant
            k <= n,
            flags.len() == k,
            forall|j: int| 0 <= j < k ==> !flags[j],
        decreases n - k,
    {
        flags.push(false);
        k += 1;
    }
    let mut a: usize = 0;
    while a < chosen.len()
        invariant
            a <= chosen.len(),
            flags.len() == n,
            forall|b: int| 0 <= b < chosen.len() ==> (#[trigger] chosen[b]) < n,
            forall|j: int|
                0 <= j < n ==> (#[trigger] flags[j] <==> exists|b: int|
                    0 <= b < a && chosen[b] == j),
        decreases chosen.len() - a,
    {
        let ghost before = flags@;
        flags.set(chosen[a], true);
        a += 1;
        assert forall|j: int| 0 <= j < n implies (#[trigger] flags[j] <==> exists|b: int|
            0 <= b < a && chosen[b] == j) by {
            if j == chosen[a - 1] {
                assert(chosen[a - 1] == j);
            } else {
                assert(flags[j] == before[j]);
            }
        }
    }
    assert forall|k: int| 0 <= k < n implies (#[trigger] flags[k] <==> chosen@.contains(k as usize)) by {
        if chosen@.contains(k as usize) {
            let b = choose|b: int| 0 <= b < chosen@.len() && chosen@[b] == k as usize;
            assert(chosen[b] == k);
        }
    }
    flags
}

proof fn lemma_before_prefix(m: GraphModel, counts: Seq<u64>, a: Seq<RoundLog>, b: Seq<RoundLog>, r: int)
    requires
        0 <= r <= a.len(),
        r <= b.len(),
        forall|i: int| 0 <= i < r ==> a[i] == b[i],
    ensures
        graph_before(m, a, r) == graph_before(m, b, r),
        counts_before(counts, m, a, r) == counts_before(counts, m, b, r),
    decreases r,
{
    if r > 0 {
        lemma_before_prefix(m, counts, a, b, r - 1);
        assert(a[r - 1] == b[r - 1]);
        assert(counts_before(counts, m, a, r) =~= counts_before(counts, m, b, r));
    }
}

impl KG {
    /// Prunes the classes of `order` in `levels` rounds.
    ///
    /// Each round computes the edge probabilities, ranks the classes by
    /// random walks in both directions, has `weigh` turn what is known of
    /// each class into a weight, and keeps the heaviest classes until their
    /// weight exceeds the share `(round + 1) / (levels + 1)` of the total
    /// weight. The others,
    /// and in the first round every class outside `order`, lose their edges
    /// and their entity count and are not weighed again.
    #[verifier::rlimit(100)]
    #[verifier::spinoff_prover]
    pub fn prune<F: Fn(ClassStats) -> u32>(
        &self,
        graph: ClassGraph,
        order: Vec<ReachabilityRecord>,
        node_counts: Vec<u64>,
        levels: u32,
        weigh: F,
    ) -> (r: PruneResult)
        requires
            graph.wf(),
            node_counts.len() == graph@.nodes.len(),
            prunable(graph@, order@),
            levels < u32::MAX,
            forall|s: ClassStats| call_requires(weigh, (s,)),
        ensures
            pruned(weigh, graph@, order@, node_counts@, levels, r),
    {
        if levels == 0 {
            let mut keep: Vec<usize> = Vec::new();
            let mut k: usize = 0;
            while k < order.len()
                invariant
                    k <= order.len(),
                    keep.len() == k,
                    forall|j: int| 0 <= j < k ==> keep[j] == order[j].node,
                decreases order.len() - k,
            {
                keep.push(order[k].node);
                k += 1;
            }
            assert(keep@ =~= nodes_of(order@));
            return PruneResult { records: Vec::new(), rounds: Vec::new(), keep, graph };
        }
        let ghost m0 = graph@;
        let ghost order0 = order@;
        let ghost counts0 = node_counts@;
        let nodes = graph.node_count();
        let literal = graph.literal();
        let n0 = order.len();
        let mut graph = graph;
        let mut counts = node_counts;
        let mut current = order;
        let mut slots: Vec<usize> = Vec::new();
        let mut records: Vec<ClassRoundRecord> = Vec::new();
        let blank = NodeRank { visits: 0, sink_hits: 0, sink_den: 0, total_visits: 0 };
        let mut k: usize = 0;
        while k < n0
            invariant
                k <= n0,
                n0 == current.len(),
                current@ == order0,
                counts@ == counts0,
                counts.len() == m0.nodes.len(),
                prunable(m0, order0),
                slots.len() == k,
                records.len() == k,
                forall|j: int| 0 <= j < k ==> slots[j] == j,
                forall|j: int|
                    0 <= j < k ==> (#[trigger] records[j]).node == order0[j].node && records[j].depth
                        == order0[j].depth && records[j].entity_count == counts0[order0[j].node as int]
                        && records[j].round == 0,
            decreases n0 - k,
        {
            let entry = current[k];
            slots.push(k);
            records.push(
                ClassRoundRecord {
                    node: entry.node,
                    entity_count: counts[entry.node],
                    depth: entry.depth,
                    forward: blank,
                    backward: blank,
                    round: 0,
                    kept: false,
                    score: Ratio { num: 0, den: 0 },
                },
            );
            k += 1;
        }
        let mut rounds: Vec<RoundLog> = Vec::new();
        let mut round: u32 = 0;
        while round < levels
            invariant
                round <= levels,
                levels < u32::MAX,
                rounds.len() == round,
                counts0.len() == m0.nodes.len(),
                graph@ == graph_before(m0, rounds@, round as int),
                counts@ == counts_before(counts0, m0, rounds@, round as int),
                forall|i: int|
                    0 <= i < rounds.len() ==> round_ok(
                        weigh,
                        #[trigger] rounds[i],
                        i as u32,
                        levels,
                        order0,
                        with_probabilities(graph_before(m0, rounds@, i)),
                        counts_before(counts0, m0, rounds@, i),
                    ),
                round > 0 ==> rounds[0].classes@ == nodes_of(order0),
                forall|i: int|
                    0 <= i < rounds.len() - 1 ==> (#[trigger] rounds[i + 1]).classes@ == survivors(
                        rounds[i].classes@,
                        rounds[i].kept@,
                        rounds[i].classes.len() as int,
                    ),
                round > 0 ==> forall|j: int| 0 <= j < n0 ==> has_log(rounds@, #[trigger] records[j]),
                round == 0 ==> nodes_of(current@) == nodes_of(order0),
                round > 0 ==> nodes_of(current@) == survivors(
                    rounds[round - 1].classes@,
                    rounds[round - 1].kept@,
                    rounds[round - 1].classes.len() as int,
                ),
                graph.wf(),
                graph@.nodes == m0.nodes,
                nodes == m0.nodes.len(),
                literal == m0.literal,
                literal == graph@.literal,
                counts.len() == m0.nodes.len(),
                prunable(m0, order0),
                n0 == order0.len(),
                records.len() == n0,
                forall|s: ClassStats| call_requires(weigh, (s,)),
                current.len() == slots.len(),
                forall|k: int|
                    0 <= k < slots.len() ==> (#[trigger] slots[k]) < n0 && current[k] == order0[slots[k] as int],
                forall|a: int, b: int| 0 <= a < b < slots.len() ==> (#[trigger] slots[a]) < (#[trigger] slots[b]),
                forall|k: int|
                    0 <= k < current.len() ==> (#[trigger] current[k]).node < m0.nodes.len()
                        && current[k].node != m0.literal,
                forall|j: int|
                    0 <= j < n0 ==> (#[trigger] records[j]).node == order0[j].node && records[j].depth
                        == order0[j].depth && records[j].entity_count == counts0[order0[j].node as int],
                round == 0 ==> forall|j: int| 0 <= j < n0 ==> (#[trigger] records[j]).round == 0,
                round == 0 ==> slots.len() == n0 && forall|j: int| 0 <= j < n0 ==> slots[j] == j,
                round > 0 ==> forall|j: int|
                    0 <= j < n0 ==> (#[trigger] records[j]).round < round && (records[j].kept
                        ==> records[j].round == round - 1) && (records[j].kept <==> slots@.contains(
                        j as usize,
                    )),
                round > 0 ==> forall|e: int|
                    0 <= e < graph@.edges.len() ==> {
                        &&& exists|k: int|
                            0 <= k < current.len() && (#[trigger] current[k]).node == (
                            #[trigger] graph@.edges[e]).source
                        &&& (graph@.edges[e].target == m0.literal || exists|k: int|
                            0 <= k < current.len() && (#[trigger] current[k]).node
                                == graph@.edges[e].target)
                    },
            decreases levels - round,
        {
            let ghost round_counts = counts@;
            calculate_probabilities_for_graph(&mut graph);
            let ghost g = graph@;
            assert(g == with_probabilities(graph_before(m0, rounds@, round as int)));
            let forward = self.page_rank(&graph, &counts, Direction::Outgoing);
            let backward = self.page_rank(&graph, &counts, Direction::Incoming);
            assert(ranked_by(forward, g, round_counts, true));
            assert(ranked_by(backward, g, round_counts, false));
            let out = node_totals(&graph, true);
            assert forall|n: int| 0 <= n < out.len() implies #[trigger] out[n] == out_total(g, n) as u128 by {}
            let len = current.len();
            // the entity count of the classes weighed in this round
            let mut total_entities: u128 = 0;
            let mut k: usize = 0;
            while k < len
                invariant
                    k <= len,
                    len == current.len(),
                    counts.len() == m0.nodes.len(),
                    forall|j: int| 0 <= j < len ==> (#[trigger] current[j]).node < m0.nodes.len(),
                    total_entities == entity_total(nodes_of(current@), counts@, k as int),
                    total_entities <= k * u64::MAX,
                decreases len - k,
            {
                assert(k * u64::MAX + u64::MAX == (k + 1) * u64::MAX) by (nonlinear_arith);
                assert((k + 1) * u64::MAX <= usize::MAX * u64::MAX) by (nonlinear_arith)
                    requires
                        k + 1 <= usize::MAX,
                ;
                total_entities = total_entities + counts[current[k].node] as u128;
                k += 1;
            }
            let mut weights: Vec<u32> = Vec::new();
            let mut stats: Vec<ClassStats> = Vec::new();
            let mut classes: Vec<usize> = Vec::new();
            let mut k: usize = 0;
            while k < len
                invariant
                    k <= len,
                    len == current.len(),
                    classes.len() == k,
                    forall|j: int| 0 <= j < k ==> #[trigger] classes[j] == current[j].node,
                    forall|j: int| 0 <= j < k ==> (#[trigger] stats[j]).node == classes[j] && stats[j].depth
                        == current[j].depth,
                    forall|j: int| 0 <= j < k ==> call_ensures(weigh, (stats[j],), #[trigger] weights[j]),
                    counts@ == round_counts,
                    graph@ == g,
                    total_entities == entity_total(nodes_of(current@), round_counts, len as int),
                    forall|n: int| 0 <= n < out.len() ==> #[trigger] out[n] == out_total(g, n) as u128,
                    forall|j: int|
                        0 <= j < k ==> #[trigger] stats[j] == (ClassStats {
                            node: current[j].node,
                            entity_count: round_counts[current[j].node as int],
                            total_entity_count: total_entities,
                            depth: current[j].depth,
                            forward: rank_of(forward, g, current[j].node as int),
                            backward: rank_of(backward, g, current[j].node as int),
                        }),
                    counts.len() == m0.nodes.len(),
                    forward.visits.len() == m0.nodes.len(),
                    forward.sink_hits.len() == m0.nodes.len(),
                    backward.visits.len() == m0.nodes.len(),
                    backward.sink_hits.len() == m0.nodes.len(),
                    out.len() == m0.nodes.len(),
                    forall|j: int| 0 <= j < len ==> (#[trigger] current[j]).node < m0.nodes.len(),
                    forall|s: ClassStats| call_requires(weigh, (s,)),
                    weights.len() == k,
                    stats.len() == k,
                decreases len - k,
            {
                let entry = current[k];
                let s = ClassStats {
                    node: entry.node,
                    entity_count: counts[entry.node],
                    total_entity_count: total_entities,
                    depth: entry.depth,
                    forward: node_rank(&forward, entry.node, out[entry.node]),
                    backward: node_rank(&backward, entry.node, out[entry.node]),
                };
                let w = weigh(s);
                weights.push(w);
                stats.push(s);
                classes.push(entry.node);
                assert(stats[k as int] == s && weights[k as int] == w && classes[k as int] == entry.node);
                k += 1;
            }
            assert(classes@ =~= nodes_of(current@));
            let total_weight = sum32(&weights);
            let chosen = self.rank(&weights, round + 1, levels + 1);
            proof {
                let perm = choose|perm: Seq<usize>|
                    #[trigger] is_ranking(weight_keys(weights@), perm) && is_kept(
                        weights@,
                        perm,
                        chosen@,
                        (round + 1) as u32,
                        (levels + 1) as u32,
                    );
                assert forall|a: int| 0 <= a < chosen.len() implies (#[trigger] chosen[a]) < len by {
                    assert(chosen[a] == perm[a]);
                }
            }
            let flags = flags_of(len, &chosen);
            let mut alive: Vec<bool> = Vec::new();
            let mut n: usize = 0;
            while n < nodes
                invariant
                    n <= nodes,
                    alive.len() == n,
                    forall|j: int| 0 <= j < n ==> (#[trigger] alive[j] <==> j == literal),
                decreases nodes - n,
            {
                alive.push(n == literal);
                n += 1;
            }
            let ghost before_records = records@;
            let ghost before_slots = slots@;
            let ghost before_current = current@;
            let mut next_order: Vec<ReachabilityRecord> = Vec::new();
            let mut next_slots: Vec<usize> = Vec::new();
            let mut k: usize = 0;
            while k < len
                invariant
                    k <= len,
                    len == current.len(),
                    len == slots.len(),
                    len == flags.len(),
                    len == weights.len(),
                    len == stats.len(),
                    round < levels,
                    nodes == m0.nodes.len(),
                    literal == m0.literal,
                    n0 == order0.len(),
                    records.len() == n0,
                    prunable(m0, order0),
                    alive.len() == nodes,
                    current@ == before_current,
                    slots@ == before_slots,
                    forall|j: int|
                        0 <= j < len ==> (#[trigger] slots[j]) < n0 && current[j] == order0[slots[j] as int],
                    forall|a: int, b: int| 0 <= a < b < len ==> (#[trigger] slots[a]) < (#[trigger] slots[b]),
                    forall|j: int|
                        0 <= j < n0 ==> (#[trigger] records[j]).node == order0[j].node && records[j].depth
                            == order0[j].depth && records[j].entity_count
                            == counts0[order0[j].node as int],
                    // records of the classes handled so far
                    forall|j: int|
                        0 <= j < k ==> (#[trigger] records[slots[j] as int]).round == round
                            && records[slots[j] as int].kept == flags[j],
                    // the other records are untouched
                    forall|j: int|
                        0 <= j < n0 && (forall|i: int| 0 <= i < k ==> slots[i] != j) ==> (
                        #[trigger] records[j]) == before_records[j],
                    // the next order holds the kept classes handled so far
                    next_order.len() == next_slots.len(),
                    next_slots.len() <= k,
                    forall|a: int|
                        0 <= a < next_slots.len() ==> (#[trigger] next_slots[a]) < n0 && next_order[a]
                            == order0[next_slots[a] as int] && exists|j: int|
                            0 <= j < k && slots[j] == next_slots[a] && flags[j],
                    forall|a: int, b: int|
                        0 <= a < b < next_slots.len() ==> (#[trigger] next_slots[a]) < (
                        #[trigger] next_slots[b]),
                    forall|a: int| 0 <= a < next_slots.len() && k < len ==> (#[trigger] next_slots[a]) < slots[k as int],
                    forall|j: int| 0 <= j < k && flags[j] ==> next_slots@.contains(#[trigger] slots[j]),
                    classes@ == nodes_of(before_current),
                    total_weight == weight_sum(weights@, weights.len() as int),
                    forall|j: int| 0 <= j < len ==> (#[trigger] stats[j]).node == classes[j] && stats[j].depth
                        == current[j].depth,
                    forall|j: int| 0 <= j < len ==> (#[trigger] flags[j] <==> chosen@.contains(j as usize)),
                    forall|j: int|
                        0 <= j < k ==> recorded_by(
                            classes@,
                            stats@,
                            weights@,
                            chosen@,
                            j,
                            round,
                            #[trigger] records[slots[j] as int],
                        ),
                    nodes_of(next_order@) == survivors(classes@, chosen@, k as int),
                    // alive marks the sink and the kept classes handled so far
                    forall|x: int|
                        0 <= x < nodes ==> (#[trigger] alive[x] <==> (x == literal || exists|j: int|
                            0 <= j < k && flags[j] && current[j].node == x)),
                decreases len - k,
            {
                let entry = current[k];
                let slot = slots[k];
                let keep_it = flags[k];
                let ghost records_before = records@;
                let ghost alive_before = alive@;
                let ghost next_before = next_slots@;
                records.set(
                    slot,
                    ClassRoundRecord {
                        node: entry.node,
                        entity_count: records[slot].entity_count,
                        depth: entry.depth,
                        forward: stats[k].forward,
                        backward: stats[k].backward,
                        round,
                        kept: keep_it,
                        score: Ratio {
                            num: if keep_it {
                                weights[k] as u64
                            } else {
                                0
                            },
                            den: total_weight,
                        },
                    },
                );
                let ghost next_nodes = nodes_of(next_order@);
                if keep_it {
                    alive.set(entry.node, true);
                    next_order.push(entry);
                    next_slots.push(slot);
                    assert(nodes_of(next_order@) =~= next_nodes.push(entry.node));
                }
                k += 1;
                proof {
                    assert forall|j: int| 0 <= j < k implies (#[trigger] records[slots[j] as int]).round
                        == round && records[slots[j] as int].kept == flags[j] by {
                        if j < k - 1 {
                            assert(slots[j] < slots[k - 1]);
                            assert(records[slots[j] as int] == records_before[slots[j] as int]);
                        }
                    }
                    assert forall|j: int| 0 <= j < k implies recorded_by(
                        classes@,
                        stats@,
                        weights@,
                        chosen@,
                        j,
                        round,
                        #[trigger] records[slots[j] as int],
                    ) by {
                        if j < k - 1 {
                            assert(slots[j] < slots[k - 1]);
                            assert(records[slots[j] as int] == records_before[slots[j] as int]);
                        } else {
                            assert(stats[j].node == classes[j]);
                        }
                    }
                    assert forall|x: int| 0 <= x < nodes implies (#[trigger] alive[x] <==> (x == literal
                        || exists|j: int| 0 <= j < k && flags[j] && current[j].node == x)) by {
                        if keep_it && x == entry.node {
                            assert(flags[k - 1] && current[k - 1].node == x);
                        } else {
                            assert(alive[x] == alive_before[x]);
                            if alive_before[x] && x != literal {
                                let j = choose|j: int|
                                    0 <= j < k - 1 && flags[j] && current[j].node == x;
                                assert(0 <= j < k && flags[j] && current[j].node == x);
                            }
                        }
                    }
                    assert forall|j: int| 0 <= j < k && flags[j] implies next_slots@.contains(
                        #[trigger] slots[j],
                    ) by {
                        if j < k - 1 {
                            assert(next_before.contains(slots[j]));
                            let a = choose|a: int| 0 <= a < next_before.len() && next_before[a] == slots[j];
                            assert(next_slots@[a] == slots[j]);
                        } else {
                            assert(next_slots@[next_slots.len() - 1] == slots[j]);
                        }
                    }
                    assert forall|a: int| 0 <= a < next_slots.len() && k < len implies (
                    #[trigger] next_slots[a]) < slots[k as int] by {
                        assert(slots[k - 1] < slots[k as int]);
                    }
                }
            }
            // the classes that lost lose their entity count and their edges
            let mut n: usize = 0;
            while n < nodes
                invariant
                    n <= nodes,
                    nodes == counts.len(),
                    nodes == alive.len(),
                    nodes == round_counts.len(),
                    forall|j: int|
                        0 <= j < n ==> #[trigger] counts[j] == if alive[j] {
                            round_counts[j]
                        } else {
                            0
                        },
                    forall|j: int| n <= j < nodes ==> #[trigger] counts[j] == round_counts[j],
                decreases nodes - n,
            {
                if !alive[n] {
                    counts.set(n, 0);
                }
                n += 1;
            }
            let ghost before_graph = graph@;
            graph = restrict(&graph, &alive);
            assert(graph@ == restricted(g, alive@));
            proof {
                assert forall|e: int| 0 <= e < graph@.edges.len() implies {
                    &&& exists|k: int|
                        0 <= k < next_order.len() && (#[trigger] next_order[k]).node == (
                        #[trigger] graph@.edges[e]).source
                    &&& (graph@.edges[e].target == m0.literal || exists|k: int|
                        0 <= k < next_order.len() && (#[trigger] next_order[k]).node
                            == graph@.edges[e].target)
                } by {
                    lemma_surviving_member(
                        before_graph.edges,
                        alive@,
                        before_graph.edges.len() as int,
                        e,
                    );
                    let x = choose|x: int|
                        0 <= x < before_graph.edges.len() && #[trigger] before_graph.edges[x]
                            == graph@.edges[e] && edge_alive(before_graph.edges[x], alive@);
                    let src = before_graph.edges[x].source;
                    let tgt = before_graph.edges[x].target;
                    assert(alive[src] && src != literal);
                    let j = choose|j: int| 0 <= j < len && flags[j] && current[j].node == src;
                    assert(next_slots@.contains(slots[j]));
                    let a = choose|a: int| 0 <= a < next_slots.len() && next_slots@[a] == slots[j];
                    assert(next_order[a].node == src);
                    if tgt != literal {
                        let j2 = choose|j: int| 0 <= j < len && flags[j] && current[j].node == tgt;
                        assert(next_slots@.contains(slots[j2]));
                        let a2 = choose|a: int|
                            0 <= a < next_slots.len() && next_slots@[a] == slots[j2];
                        assert(next_order[a2].node == tgt);
                    }
                }
                assert forall|j: int| 0 <= j < n0 implies (#[trigger] records[j]).round < round + 1 && (
                records[j].kept ==> records[j].round == round) && (records[j].kept
                    <==> next_slots@.contains(j as usize)) by {
                    if exists|i: int| 0 <= i < len && slots[i] == j {
                        let i = choose|i: int| 0 <= i < len && slots[i] == j;
                        assert(records[slots[i] as int].round == round);
                        if flags[i] {
                            assert(next_slots@.contains(slots[i]));
                        }
                        if next_slots@.contains(j as usize) {
                            let a = choose|a: int| 0 <= a < next_slots.len() && next_slots@[a] == j as usize;
                            let i2 = choose|i2: int| 0 <= i2 < len && slots[i2] == next_slots[a] && flags[i2];
                            if i2 < i {
                                assert(slots[i2] < slots[i]);
                            }
                            if i < i2 {
                                assert(slots[i] < slots[i2]);
                            }
                        }
                    } else {
                        assert(forall|i: int| 0 <= i < len ==> slots[i] != j);
                        assert(records[j] == before_records[j]);
                        if round == 0 {
                            assert(slots[j] == j);
                        }
                        if before_slots.contains(j as usize) {
                            let i = choose|i: int| 0 <= i < before_slots.len() && before_slots[i] == j as usize;
                            assert(slots[i] == j);
                        }
                        if next_slots@.contains(j as usize) {
                            let a = choose|a: int| 0 <= a < next_slots.len() && next_slots@[a] == j as usize;
                            let i2 = choose|i2: int| 0 <= i2 < len && slots[i2] == next_slots[a] && flags[i2];
                            assert(false);
                        }
                    }
                }
            }
            proof {
                assert forall|k: int| 0 <= k < next_order.len() implies (#[trigger] next_order[k]).node
                    < m0.nodes.len() && next_order[k].node != m0.literal by {
                    assert(next_order[k] == order0[next_slots[k] as int]);
                }
            }
            let ghost logged = rounds@;
            rounds.push(RoundLog { classes, stats, weights, kept: chosen, forward, backward });
            proof {
                let log = rounds[round as int];
                assert(log.stats.len() == log.classes.len());
                assert(log.weights.len() == log.classes.len());
                lemma_before_prefix(m0, counts0, rounds@, logged, round as int);
                let gi = with_probabilities(graph_before(m0, rounds@, round as int));
                let ci = counts_before(counts0, m0, rounds@, round as int);
                assert(gi == g);
                assert(ci == round_counts);
                assert forall|k: int| 0 <= k < log.classes.len() implies (#[trigger] log.stats[k]) == known_of(
                    log,
                    gi,
                    ci,
                    k,
                ) && listed_at(order0, log.classes[k], log.stats[k].depth) && call_ensures(
                    weigh,
                    (log.stats[k],),
                    log.weights[k],
                ) by {
                    assert(call_ensures(weigh, (log.stats[k],), log.weights[k]));
                    assert(log.classes[k] == before_current[k].node);
                    assert(before_current[k] == order0[before_slots[k] as int]);
                    assert(order0[before_slots[k] as int] == (ReachabilityRecord {
                        node: log.classes[k],
                        depth: log.stats[k].depth,
                    }));
                }
                // what is alive after the round, its counts and its graph
                assert(alive@ =~= alive_of(m0, log)) by {
                    assert forall|x: int| 0 <= x < nodes implies alive@[x] == alive_of(m0, log)[x] by {
                        if keeps_class(log, x) {
                            let k = choose|k: int|
                                0 <= k < log.classes.len() && log.kept@.contains(k as usize)
                                    && #[trigger] log.classes[k] == x;
                            assert(flags[k] && before_current[k].node == x);
                        }
                        if alive@[x] && x != literal {
                            let j = choose|j: int| 0 <= j < len && flags[j] && before_current[j].node == x;
                            assert(log.kept@.contains(j as usize) && log.classes[j] == x);
                        }
                    }
                }
                assert(counts@ =~= counts_before(counts0, m0, rounds@, round + 1));
                assert(graph@ == graph_before(m0, rounds@, round + 1));
                assert(exists|perm: Seq<usize>|
                    #[trigger] is_ranking(weight_keys(log.weights@), perm) && is_kept(
                        log.weights@,
                        perm,
                        log.kept@,
                        (round + 1) as u32,
                        (levels + 1) as u32,
                    ));
                assert(round_ok(weigh, log, round, levels, order0, gi, ci));
                assert forall|i: int| 0 <= i < rounds.len() implies round_ok(
                    weigh,
                    #[trigger] rounds[i],
                    i as u32,
                    levels,
                    order0,
                    with_probabilities(graph_before(m0, rounds@, i)),
                    counts_before(counts0, m0, rounds@, i),
                ) by {
                    if i < round {
                        assert(rounds[i] == logged[i]);
                        lemma_before_prefix(m0, counts0, rounds@, logged, i);
                    }
                }
                assert forall|i: int| 0 <= i < rounds.len() - 1 implies (#[trigger] rounds[i + 1]).classes@
                    == survivors(rounds[i].classes@, rounds[i].kept@, rounds[i].classes.len() as int) by {
                    assert(rounds[i] == logged[i]);
                    if i + 1 < round {
                        assert(rounds[i + 1] == logged[i + 1]);
                    }
                }
                if round > 0 {
                    assert(rounds[0] == logged[0]);
                }
                assert forall|j: int| 0 <= j < n0 implies has_log(rounds@, #[trigger] records[j]) by {
                    if exists|i: int| 0 <= i < len && slots[i] == j {
                        let i = choose|i: int| 0 <= i < len && slots[i] == j;
                        assert(recorded_by(
                            classes@,
                            stats@,
                            weights@,
                            chosen@,
                            i,
                            round,
                            records[slots[i] as int],
                        ));
                        assert(recorded_by(
                            log.classes@,
                            log.stats@,
                            log.weights@,
                            log.kept@,
                            i,
                            round,
                            records[j],
                        ));
                    } else {
                        assert(forall|i: int| 0 <= i < len ==> slots[i] != j);
                        assert(records[j] == before_records[j]);
                        if round == 0 {
                            assert(before_slots[j] == j);
                        }
                        assert(has_log(logged, before_records[j]));
                        let old_round = before_records[j].round as int;
                        assert(rounds[old_round] == logged[old_round]);
                        let k0 = choose|k: int|
                            0 <= k < logged[old_round].classes.len() && #[trigger] recorded_by(
                                logged[old_round].classes@,
                                logged[old_round].stats@,
                                logged[old_round].weights@,
                                logged[old_round].kept@,
                                k,
                                before_records[j].round,
                                before_records[j],
                            );
                        assert(recorded_by(
                            rounds[old_round].classes@,
                            rounds[old_round].stats@,
                            rounds[old_round].weights@,
                            rounds[old_round].kept@,
                            k0,
                            records[j].round,
                            records[j],
                        ));
                    }
                }
            }
            current = next_order;
            slots = next_slots;
            round += 1;
        }
        // the records, later rounds first and higher scores first
        let mut keys: Vec<SortKey> = Vec::new();
        let mut k: usize = 0;
        while k < n0
            invariant
                k <= n0,
                n0 == records.len(),
                keys.len() == k,
                forall|j: int| 0 <= j < k ==> keys[j] == record_key(records[j]),
            decreases n0 - k,
        {
            keys.push(SortKey { major: records[k].round as u64, minor: records[k].score.num });
            k += 1;
        }
        let perm = rank_desc(&keys);
        let mut listed: Vec<ClassRoundRecord> = Vec::new();
        let mut a: usize = 0;
        while a < n0
            invariant
                a <= n0,
                n0 == records.len(),
                n0 == perm.len(),
                is_ranking(keys@, perm@),
                listed.len() == a,
                forall|b: int| 0 <= b < a ==> listed[b] == records[perm[b] as int],
            decreases n0 - a,
        {
            listed.push(records[perm[a]]);
            a += 1;
        }
        let mut keep: Vec<usize> = Vec::new();
        let mut k: usize = 0;
        while k < current.len()
            invariant
                k <= current.len(),
                keep.len() == k,
                forall|j: int| 0 <= j < k ==> keep[j] == current[j].node,
            decreases current.len() - k,
        {
            keep.push(current[k].node);
            k += 1;
        }
        assert(keep@ =~= nodes_of(current@));
        let r = PruneResult { records: listed, rounds, keep, graph };
        proof {
            assert(r.graph.wf());
            assert(r.graph@.nodes == m0.nodes);
            assert(r.records.len() == order0.len());
            assert forall|a: int| 0 <= a < r.records.len() implies (#[trigger] r.records[a]).round < levels
                && (r.records[a].kept ==> r.records[a].round == levels - 1) by {
                assert(r.records[a] == records[perm[a] as int]);
            }
            assert forall|a: int| 0 <= a < r.records.len() implies has_log(
                r.rounds@,
                #[trigger] r.records[a],
            ) by {
                assert(r.records[a] == records[perm[a] as int]);
            }
            assert forall|k: int| 0 <= k < order0.len() implies has_record(
                r.records@,
                #[trigger] order0[k],
                counts0[order0[k].node as int],
            ) by {
                assert(crate::order::occurs(perm@, k));
                let a = choose|a: int| 0 <= a < perm.len() && #[trigger] perm[a] == k;
                assert(r.records[a] == records[k]);
            }
            assert forall|a: int, b: int| 0 <= a < b < r.records.len() implies !key_above(
                record_key(#[trigger] r.records[b]),
                record_key(#[trigger] r.records[a]),
            ) by {
                assert(crate::order::ranks_before(keys@, perm[a] as int, perm[b] as int));
                assert(keys[perm[a] as int] == record_key(records[perm[a] as int]));
                assert(keys[perm[b] as int] == record_key(records[perm[b] as int]));
            }
            assert forall|a: int| 0 <= a < r.records.len() implies ((#[trigger] r.records[a]).kept
                <==> r.keep@.contains(r.records[a].node)) by {
                let j = perm[a] as int;
                assert(r.records[a] == records[j]);
                if records[j].kept {
                    assert(slots@.contains(j as usize));
                    let i = choose|i: int| 0 <= i < slots.len() && slots@[i] == j as usize;
                    assert(r.keep@[i] == current[i].node);
                }
                if r.keep@.contains(records[j].node) {
                    let i = choose|i: int| 0 <= i < r.keep@.len() && r.keep@[i] == records[j].node;
                    assert(current[i] == order0[slots[i] as int]);
                    assert(order0[slots[i] as int].node == order0[j].node);
                    assert(slots[i] == j);
                    assert(slots@[i] == j as usize);
                }
            }
            assert forall|i: int| 0 <= i < r.keep.len() implies in_order(order0, #[trigger] r.keep[i]) by {
                assert(order0[slots[i] as int].node == r.keep[i]);
            }
            assert forall|e: int| 0 <= e < r.graph@.edges.len() implies {
                &&& r.keep@.contains((#[trigger] r.graph@.edges[e]).source as usize)
                &&& (r.graph@.edges[e].target == m0.literal || r.keep@.contains(
                    r.graph@.edges[e].target as usize,
                ))
            } by {
                let k = choose|k: int|
                    0 <= k < current.len() && (#[trigger] current[k]).node == r.graph@.edges[e].source;
                assert(r.keep@[k] == current[k].node);
                if r.graph@.edges[e].target != m0.literal {
                    let k2 = choose|k: int|
                        0 <= k < current.len() && (#[trigger] current[k]).node
                            == r.graph@.edges[e].target;
                    assert(r.keep@[k2] == current[k2].node);
                }
            }
        }
        r
    }
}

/// The number of pruning rounds of a class analysis.
pub const LEVELS: u32 = 3;

/// Whether `root` is the first node of `m` that carries the name of the
/// class `start_with`.
pub open spec fn is_root(m: GraphModel, start_with: Seq<char>, root: int) -> bool {
    &&& 0 <= root < m.nodes.len()
    &&& m.nodes[root] == root_name(start_with)
    &&& forall|k: int| 0 <= k < root ==> m.nodes[k] != root_name(start_with)
}

impl KG {
    /// The class analysis: orders the classes that can be reached from the
    /// class `start_with` and prunes them in `LEVELS` rounds. Returns `None`
    /// when the graph holds no class of that name.
    pub fn stat_anal_types<F: Fn(ClassStats) -> u32>(
        &self,
        graph: ClassGraph,
        start_with: &str,
        node_counts: Vec<u64>,
        weigh: F,
    ) -> (r: Option<PruneResult>)
        requires
            graph.wf(),
            node_counts.len() == graph@.nodes.len(),
            forall|s: ClassStats| call_requires(weigh, (s,)),
        ensures
            r is None <==> forall|k: int|
                0 <= k < graph@.nodes.len() ==> graph@.nodes[k] != root_name(start_with@),
            r matches Some(result) ==> exists|root: int, order: Seq<ReachabilityRecord>|
                #![trigger is_order_from(graph@, root, order)]
                is_root(graph@, start_with@, root) && is_order_from(graph@, root, order) && pruned(
                    weigh,
                    graph@,
                    order,
                    node_counts@,
                    LEVELS,
                    result,
                ),
    {
        match remove_disconnected(&graph, start_with) {
            None => None,
            Some(order) => {
                let ghost m = graph@;
                let ghost listed = order@;
                proof {
                    let root = choose|root: int|
                        {
                            &&& 0 <= root < m.nodes.len()
                            &&& m.nodes[root] == root_name(start_with@)
                            &&& forall|k: int| 0 <= k < root ==> m.nodes[k] != root_name(start_with@)
                            &&& is_order_from(m, root, listed)
                        };
                    lemma_root_is_no_sink(start_with@);
                    lemma_order_avoids_sink(m, root, listed);
                    assert(is_root(m, start_with@, root));
                }
                let result = self.prune(graph, order, node_counts, LEVELS, weigh);
                Some(result)
            },
        }
    }
}

/// The summed weight of `weights`.
pub fn sum32(weights: &Vec<u32>) -> (total: u128)
    ensures
        total == weight_sum(weights@, weights.len() as int),
{
    let mut total: u128 = 0;
    let mut i: usize = 0;
    while i < weights.len()
        invariant
            i <= weights.len(),
            total == weight_sum(weights@, i as int),
            total <= i * u32::MAX,
        decreases weights.len() - i,
    {
        assert(i * u32::MAX + u32::MAX == (i + 1) * u32::MAX) by (nonlinear_arith);
        assert((i + 1) * u32::MAX <= usize::MAX * u32::MAX) by (nonlinear_arith)
            requires
                i + 1 <= usize::MAX,
        ;
        total = total + weights[i] as u128;
        i += 1;
    }
    total
}

/// Whether `node` is the heaviest class of every round that weighs it: it
/// got more weight than every other class of the round.
pub open spec fn dominates(rounds: Seq<RoundLog>, node: usize) -> bool {
    forall|i: int, k: int, j: int|
        0 <= i < rounds.len() && 0 <= k < rounds[i].classes.len() && 0 <= j < rounds[i].classes.len()
            && j != k && #[trigger] rounds[i].classes[k] == node ==> rounds[i].weights[k]
            > #[trigger] rounds[i].weights[j]
}

proof fn lemma_survivors_hold(classes: Seq<usize>, kept: Seq<usize>, k: int, upto: int)
    requires
        0 <= k < upto <= classes.len(),
        kept.contains(k as usize),
    ensures
        survivors(classes, kept, upto).contains(classes[k]),
    decreases upto,
{
    if k == upto - 1 {
        let s = survivors(classes, kept, upto);
        assert(s[s.len() - 1] == classes[k]);
    } else {
        lemma_survivors_hold(classes, kept, k, upto - 1);
        let before = survivors(classes, kept, upto - 1);
        let at = choose|a: int| 0 <= a < before.len() && before[a] == classes[k];
        assert(survivors(classes, kept, upto)[at] == classes[k]);
    }
}

proof fn lemma_strictly_heaviest_is_first(weights: Seq<u32>, perm: Seq<usize>, k: int)
    requires
        is_ranking(weight_keys(weights), perm),
        0 <= k < weights.len(),
        forall|j: int| 0 <= j < weights.len() && j != k ==> weights[k] > #[trigger] weights[j],
    ensures
        perm[0] == k,
{
    let keys = weight_keys(weights);
    assert(crate::order::occurs(perm, k));
    let a = choose|a: int| 0 <= a < perm.len() && #[trigger] perm[a] == k;
    if a > 0 {
        assert(crate::order::ranks_before(keys, perm[0] as int, perm[a] as int));
        assert(weights[k] > weights[perm[0] as int]);
    }
}

proof fn lemma_dominant_is_weighed<F: Fn(ClassStats) -> u32>(
    weigh: F,
    m: GraphModel,
    order: Seq<ReachabilityRecord>,
    counts: Seq<u64>,
    levels: u32,
    r: PruneResult,
    node: usize,
    i: int,
)
    requires
        levels > 0,
        pruned(weigh, m, order, counts, levels, r),
        in_order(order, node),
        dominates(r.rounds@, node),
        0 <= i < levels,
    ensures
        r.rounds[i].classes@.contains(node),
        survivors(r.rounds[i].classes@, r.rounds[i].kept@, r.rounds[i].classes.len() as int).contains(
            node,
        ),
    decreases i,
{
    let log = r.rounds[i];
    if i == 0 {
        let j = choose|j: int| 0 <= j < order.len() && (#[trigger] order[j]).node == node;
        assert(nodes_of(order)[j] == node);
    } else {
        lemma_dominant_is_weighed(weigh, m, order, counts, levels, r, node, i - 1);
        assert(r.rounds@[i - 1 + 1].classes@ == survivors(
            r.rounds@[i - 1].classes@,
            r.rounds@[i - 1].kept@,
            r.rounds@[i - 1].classes.len() as int,
        ));
    }
    let k = choose|k: int| 0 <= k < log.classes@.len() && log.classes@[k] == node;
    assert(round_ok(
        weigh,
        log,
        i as u32,
        levels,
        order,
        with_probabilities(graph_before(m, r.rounds@, i)),
        counts_before(counts, m, r.rounds@, i),
    ));
    let perm = choose|perm: Seq<usize>|
        #[trigger] is_ranking(weight_keys(log.weights@), perm) && is_kept(
            log.weights@,
            perm,
            log.kept@,
            (i as u32 + 1) as u32,
            (levels + 1) as u32,
        );
    assert forall|j: int| 0 <= j < log.weights@.len() && j != k implies log.weights@[k]
        > #[trigger] log.weights@[j] by {
        assert(r.rounds@[i].classes[k] == node);
    }
    lemma_strictly_heaviest_is_first(log.weights@, perm, k);
    lemma_heaviest_is_kept(log.weights@, perm, log.kept@, (i as u32 + 1) as u32, (levels + 1) as u32);
    assert(log.kept@[0] == k as usize);
    lemma_survivors_hold(log.classes@, log.kept@, k, log.classes@.len() as int);
}

/// A class that in every round gets more weight than every other class of
/// the round is kept to the end: pruning never removes the class that
/// dominates.
pub proof fn lemma_dominant_class_survives<F: Fn(ClassStats) -> u32>(
    weigh: F,
    m: GraphModel,
    order: Seq<ReachabilityRecord>,
    counts: Seq<u64>,
    levels: u32,
    r: PruneResult,
    node: usize,
)
    requires
        pruned(weigh, m, order, counts, levels, r),
        in_order(order, node),
        dominates(r.rounds@, node),
    ensures
        r.keep@.contains(node),
{
    if levels == 0 {
        let j = choose|j: int| 0 <= j < order.len() && (#[trigger] order[j]).node == node;
        assert(nodes_of(order)[j] == node);
    } else {
        lemma_dominant_is_weighed(weigh, m, order, counts, levels, r, node, levels - 1);
    }
}

} // verus!
