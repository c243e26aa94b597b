//! Weighted choice and the random-walk ranker: visit counts of classes and
//! traversal counts of edges over many short walks through the class graph.

use vstd::prelude::*;
use rand::Rng;
use crate::graph::{ClassGraph, EdgeModel, GraphModel};
use crate::probability::endpoint;
use crate::store::KG;

verus! {

/// The number of walks of one ranking.
pub const WALKS: usize = 10000;

/// The largest number of edges that one walk follows.
pub const STEPS: usize = 10;

/// Along which side of the edges a walk moves.
#[derive(Clone, Copy, Debug, PartialEq, Eq, Structural)]
pub enum Direction {
    Outgoing,
    Incoming,
}

/// The summed weight of the first `upto` entries.
pub open spec fn prefix_weight(w: Seq<u64>, upto: int) -> nat
    decreases upto,
{
    if upto <= 0 {
        0
    } else {
        prefix_weight(w, upto - 1) + w[upto - 1] as nat
    }
}

/// The summed weight of all entries.
pub open spec fn total_weight(w: Seq<u64>) -> nat {
    prefix_weight(w, w.len() as int)
}

/// Whether the point `r` of the line `0 .. total_weight(w)` falls into the
/// stretch of entry `i`, where the entries' stretches follow each other in
/// index order and each is as long as the entry's weight.
pub open spec fn picks(w: Seq<u64>, r: nat, i: int) -> bool {
    0 <= i < w.len() && prefix_weight(w, i) <= r < prefix_weight(w, i + 1)
}

/// The entry into whose stretch the point `r` falls.
pub open spec fn slot(w: Seq<u64>, r: nat) -> int {
    choose|i: int| picks(w, r, i)
}

/// The entry that the random word `draw` selects: the word is reduced modulo
/// the total weight and the entry is the one into whose stretch it falls.
/// Nothing is selected from weights that sum to zero.
pub open spec fn selected(w: Seq<u64>, draw: u128) -> Option<int> {
    if total_weight(w) == 0 {
        None
    } else {
        Some(slot(w, (draw as nat) % total_weight(w)))
    }
}

proof fn lemma_prefix_monotone(w: Seq<u64>, a: int, b: int)
    requires
        a <= b,
    ensures
        prefix_weight(w, a) <= prefix_weight(w, b),
    decreases b - a,
{
    if a < b {
        lemma_prefix_monotone(w, a, b - 1);
    }
}

/// A point falls into the stretch of one entry only.
proof fn lemma_picks_unique(w: Seq<u64>, r: nat, i: int, j: int)
    requires
        picks(w, r, i),
        picks(w, r, j),
    ensures
        i == j,
{
    if i < j {
        lemma_prefix_monotone(w, i + 1, j);
    }
    if j < i {
        lemma_prefix_monotone(w, j + 1, i);
    }
}

/// The summed weight of `weights`.
pub fn sum_weights(weights: &Vec<u64>) -> (total: u128)
    ensures
        total == total_weight(weights@),
{
    let mut total: u128 = 0;
    let mut i: usize = 0;
    while i < weights.len()
        invariant
            i <= weights.len(),
            total == prefix_weight(weights@, i as int),
            total <= i * u64::MAX,
        decreases weights.len() - i,
    {
        assert(i * u64::MAX + u64::MAX == (i + 1) * u64::MAX) by (nonlinear_arith);
        assert((i + 1) * u64::MAX <= usize::MAX * u64::MAX) by (nonlinear_arith)
            requires
                i + 1 <= usize::MAX,
        ;
        total = total + weights[i] as u128;
        i += 1;
    }
    total
}

/// Selects an entry of `weights` from the random word `draw`: each entry
/// owns a stretch as long as its weight, and the entry is returned into
/// whose stretch `draw` modulo the total weight falls.
pub fn pick_weighted(weights: &Vec<u64>, draw: u128) -> (r: Option<usize>)
    ensures
        r is None <==> total_weight(weights@) == 0,
        r matches Some(i) ==> selected(weights@, draw) == Some(i as int) && picks(
            weights@,
            (draw as nat) % total_weight(weights@),
            i as int,
        ),
{
    let total = sum_weights(weights);
    if total == 0 {
        return None;
    }
    let point: u128 = draw % total;
    let mut acc: u128 = 0;
    let mut i: usize = 0;
    while i < weights.len()
        invariant
            i <= weights.len(),
            acc == prefix_weight(weights@, i as int),
            acc <= point,
            point < total,
            total == total_weight(weights@),
            point == draw % total,
        decreases weights.len() - i,
    {
        proof {
            lemma_prefix_monotone(weights@, i + 1, weights.len() as int);
        }
        let next: u128 = acc + weights[i] as u128;
        if point < next {
            proof {
                assert(picks(weights@, point as nat, i as int));
                let other = slot(weights@, point as nat);
                lemma_picks_unique(weights@, point as nat, i as int, other);
                assert(point as nat == (draw as nat) % total_weight(weights@));
                assert(selected(weights@, draw) == Some(i as int));
            }
            return Some(i);
        }
        acc = next;
        i += 1;
    }
    proof {
        assert(false);
    }
    None
}

/// One uniformly distributed 128-bit word from the thread's generator
/// (`rand::rng()` and `Rng::random`). Nothing is promised of its value.
#[verifier::external_body]
fn random_word() -> u128 {
    rand::rng().random()
}

/// Chooses an entry at random, each with a chance proportional to its
/// weight. Nothing is chosen from weights that sum to zero, and an entry of
/// weight zero is never chosen.
pub fn choice(weights: &Vec<u64>) -> (r: Option<usize>)
    ensures
        r is None <==> total_weight(weights@) == 0,
        r matches Some(i) ==> i < weights.len() && weights[i as int] > 0,
{
    pick_weighted(weights, random_word())
}

/// Visit and traversal counts of a ranking, as contracts see them.
pub struct RankModel {
    /// Per node: how often a walk started at or moved to the node.
    pub visits: Seq<nat>,
    /// Per node: the summed forward numerators of the edges over which
    /// walks left the node into the sink. All of them share the node's
    /// forward denominator.
    pub sink_hits: Seq<nat>,
    /// Per edge: how often a walk followed the edge.
    pub edge_visits: Seq<nat>,
    pub total_visits: nat,
    pub total_edge_visits: nat,
}

/// Visit and traversal counts of a ranking.
///
/// The rank of a node is `(visits + sink_hits / d) / total_visits`, where
/// `d` is the summed count of the edges that leave the node; the rank of an
/// edge is `edge_visits / total_edge_visits`.
#[derive(Debug)]
pub struct RankTables {
    pub visits: Vec<u64>,
    pub sink_hits: Vec<u128>,
    pub edge_visits: Vec<u64>,
    pub total_visits: u64,
    pub total_edge_visits: u64,
}

impl View for RankTables {
    type V = RankModel;

    open spec fn view(&self) -> RankModel {
        RankModel {
            visits: Seq::new(self.visits@.len(), |i: int| self.visits@[i] as nat),
            sink_hits: Seq::new(self.sink_hits@.len(), |i: int| self.sink_hits@[i] as nat),
            edge_visits: Seq::new(self.edge_visits@.len(), |i: int| self.edge_visits@[i] as nat),
            total_visits: self.total_visits as nat,
            total_edge_visits: self.total_edge_visits as nat,
        }
    }
}

/// The numerator of the probability that edge `e` has in a direction, zero
/// when it is unset.
pub open spec fn directed_weight(e: EdgeModel, outgoing: bool) -> u64 {
    match if outgoing {
        e.forward
    } else {
        e.backward
    } {
        Some(r) => r.num,
        None => 0,
    }
}

/// The weights among which a walk at `cur` chooses: per edge, the
/// directional probability's numerator if the walk can leave `cur` over the
/// edge, and zero otherwise.
pub open spec fn leaving_weights(m: GraphModel, cur: int, outgoing: bool) -> Seq<u64> {
    Seq::new(
        m.edges.len(),
        |e: int|
            if endpoint(m.edges[e], outgoing) == cur {
                directed_weight(m.edges[e], outgoing)
            } else {
                0
            },
    )
}

/// The weights among which a walk chooses its start: the entity count of
/// each class, and zero for the sink.
pub open spec fn start_weights(m: GraphModel, counts: Seq<u64>) -> Seq<u64> {
    Seq::new(
        m.nodes.len(),
        |n: int|
            if n == m.literal {
                0
            } else {
                counts[n]
            },
    )
}

/// Counts before any walk.
pub open spec fn zero_ranks(m: GraphModel) -> RankModel {
    RankModel {
        visits: Seq::new(m.nodes.len(), |i: int| 0nat),
        sink_hits: Seq::new(m.nodes.len(), |i: int| 0nat),
        edge_visits: Seq::new(m.edges.len(), |i: int| 0nat),
        total_visits: 0,
        total_edge_visits: 0,
    }
}

/// `t` after one more visit of node `n`.
pub open spec fn visit(t: RankModel, n: int) -> RankModel {
    RankModel { visits: t.visits.update(n, t.visits[n] + 1), total_visits: t.total_visits + 1, ..t }
}

/// `t` after a walk at `cur` followed edge `e`: the edge is counted; if it
/// leads into the sink, its forward numerator is added to the sink hits of
/// `cur`, and otherwise the node it leads to is visited.
pub open spec fn follow(m: GraphModel, outgoing: bool, t: RankModel, cur: int, e: int) -> RankModel {
    let counted = RankModel {
        edge_visits: t.edge_visits.update(e, t.edge_visits[e] + 1),
        total_edge_visits: t.total_edge_visits + 1,
        ..t
    };
    if m.enters(e, outgoing) == m.literal {
        RankModel {
            sink_hits: counted.sink_hits.update(
                cur,
                counted.sink_hits[cur] + directed_weight(m.edges[e], true) as nat,
            ),
            ..counted
        }
    } else {
        visit(counted, m.enters(e, outgoing))
    }
}

/// `t` after a walk that stands at `cur` took up to `left` more steps,
/// choosing with the words of `draws` from position `at` on. The walk ends
/// early where no edge can be chosen and where it enters the sink.
pub open spec fn walk_on(
    m: GraphModel,
    outgoing: bool,
    t: RankModel,
    cur: int,
    draws: Seq<u128>,
    at: int,
    left: nat,
) -> RankModel
    decreases left,
{
    if left == 0 {
        t
    } else {
        match selected(leaving_weights(m, cur, outgoing), draws[at]) {
            None => t,
            Some(e) => {
                let next = follow(m, outgoing, t, cur, e);
                if m.enters(e, outgoing) == m.literal {
                    next
                } else {
                    walk_on(m, outgoing, next, m.enters(e, outgoing), draws, at + 1, (left - 1) as nat)
                }
            },
        }
    }
}

/// `t` after one whole walk that reads its words from position `base` on:
/// the first selects the start among `starts`, the others the edges.
pub open spec fn one_walk(
    m: GraphModel,
    outgoing: bool,
    starts: Seq<u64>,
    t: RankModel,
    draws: Seq<u128>,
    base: int,
) -> RankModel {
    match selected(starts, draws[base]) {
        None => t,
        Some(s) => walk_on(m, outgoing, visit(t, s), s, draws, base + 1, STEPS as nat),
    }
}

/// The counts after the first `n` walks. Walk `k` reads the words
/// `draws[k * (STEPS + 1) ..]`.
pub open spec fn walks(
    m: GraphModel,
    outgoing: bool,
    starts: Seq<u64>,
    draws: Seq<u128>,
    n: nat,
) -> RankModel
    decreases n,
{
    if n == 0 {
        zero_ranks(m)
    } else {
        one_walk(
            m,
            outgoing,
            starts,
            walks(m, outgoing, starts, draws, (n - 1) as nat),
            draws,
            (n - 1) * (STEPS + 1),
        )
    }
}

/// The sum of the first `upto` entries.
pub open spec fn sum_upto(s: Seq<nat>, upto: int) -> nat
    decreases upto,
{
    if upto <= 0 {
        0
    } else {
        sum_upto(s, upto - 1) + s[upto - 1]
    }
}

/// What holds of the counts at every moment of a ranking: the tables have
/// the graph's sizes, the node visits add up to the total of visits, and
/// the edge visits to the total of edge visits.
pub open spec fn balanced(m: GraphModel, t: RankModel) -> bool {
    &&& t.visits.len() == m.nodes.len()
    &&& t.sink_hits.len() == m.nodes.len()
    &&& t.edge_visits.len() == m.edges.len()
    &&& sum_upto(t.visits, t.visits.len() as int) == t.total_visits
    &&& sum_upto(t.edge_visits, t.edge_visits.len() as int) == t.total_edge_visits
}

proof fn lemma_sum_update(s: Seq<nat>, i: int, v: nat, upto: int)
    requires
        0 <= i < s.len(),
        0 <= upto <= s.len(),
    ensures
        sum_upto(s.update(i, v), upto) == if i < upto {
            sum_upto(s, upto) - s[i] + v
        } else {
            sum_upto(s, upto) as int
        },
    decreases upto,
{
    if upto > 0 {
        lemma_sum_update(s, i, v, upto - 1);
    }
}

proof fn lemma_sum_zero(s: Seq<nat>, upto: int)
    requires
        0 <= upto <= s.len(),
        forall|i: int| 0 <= i < s.len() ==> s[i] == 0,
    ensures
        sum_upto(s, upto) == 0,
    decreases upto,
{
    if upto > 0 {
        lemma_sum_zero(s, upto - 1);
    }
}

/// An entry is at most the sum of all entries.
proof fn lemma_entry_le_sum(s: Seq<nat>, i: int, upto: int)
    requires
        0 <= i < upto <= s.len(),
    ensures
        s[i] <= sum_upto(s, upto),
    decreases upto,
{
    if i < upto - 1 {
        lemma_entry_le_sum(s, i, upto - 1);
    }
}

proof fn lemma_selected_in_range(w: Seq<u64>, draw: u128)
    ensures
        selected(w, draw) matches Some(i) ==> picks(w, (draw as nat) % total_weight(w), i),
{
    if total_weight(w) > 0 {
        let r = (draw as nat) % total_weight(w);
        assert(r < total_weight(w)) by (nonlinear_arith)
            requires
                r == (draw as nat) % total_weight(w),
                total_weight(w) > 0,
        ;
        lemma_point_is_picked(w, r, w.len() as int);
    }
}

proof fn lemma_point_is_picked(w: Seq<u64>, r: nat, upto: int)
    requires
        0 <= upto <= w.len(),
        r < prefix_weight(w, upto),
    ensures
        exists|i: int| picks(w, r, i),
    decreases upto,
{
    if upto > 0 {
        if r >= prefix_weight(w, upto - 1) {
            assert(picks(w, r, upto - 1));
        } else {
            lemma_point_is_picked(w, r, upto - 1);
        }
    }
}

proof fn lemma_visit_balanced(m: GraphModel, t: RankModel, n: int)
    requires
        balanced(m, t),
        0 <= n < m.nodes.len(),
    ensures
        balanced(m, visit(t, n)),
{
    lemma_sum_update(t.visits, n, t.visits[n] + 1, t.visits.len() as int);
}

proof fn lemma_follow_balanced(m: GraphModel, outgoing: bool, t: RankModel, cur: int, e: int)
    requires
        m.wf(),
        balanced(m, t),
        0 <= cur < m.nodes.len(),
        0 <= e < m.edges.len(),
    ensures
        balanced(m, follow(m, outgoing, t, cur, e)),
{
    lemma_sum_update(t.edge_visits, e, t.edge_visits[e] + 1, t.edge_visits.len() as int);
    let counted = RankModel {
        edge_visits: t.edge_visits.update(e, t.edge_visits[e] + 1),
        total_edge_visits: t.total_edge_visits + 1,
        ..t
    };
    assert(balanced(m, counted));
    if m.enters(e, outgoing) != m.literal {
        lemma_visit_balanced(m, counted, m.enters(e, outgoing));
    }
}

proof fn lemma_walk_on_balanced(
    m: GraphModel,
    outgoing: bool,
    t: RankModel,
    cur: int,
    draws: Seq<u128>,
    at: int,
    left: nat,
)
    requires
        m.wf(),
        balanced(m, t),
        0 <= cur < m.nodes.len(),
    ensures
        balanced(m, walk_on(m, outgoing, t, cur, draws, at, left)),
    decreases left,
{
    if left > 0 {
        let w = leaving_weights(m, cur, outgoing);
        lemma_selected_in_range(w, draws[at]);
        match selected(w, draws[at]) {
            None => {},
            Some(e) => {
                lemma_follow_balanced(m, outgoing, t, cur, e);
                if m.enters(e, outgoing) != m.literal {
                    lemma_walk_on_balanced(
                        m,
                        outgoing,
                        follow(m, outgoing, t, cur, e),
                        m.enters(e, outgoing),
                        draws,
                        at + 1,
                        (left - 1) as nat,
                    );
                }
            },
        }
    }
}

/// Whatever the random words are, the counts of a ranking are balanced: the
/// visits of the nodes add up to the total of visits and the visits of the
/// edges to the total of edge visits. So every node's share of the visits
/// and every edge's share of the traversals lies between zero and one, and
/// the shares of each kind add up to one.
pub proof fn lemma_walks_balanced(
    m: GraphModel,
    outgoing: bool,
    starts: Seq<u64>,
    draws: Seq<u128>,
    n: nat,
)
    requires
        m.wf(),
        starts.len() == m.nodes.len(),
    ensures
        balanced(m, walks(m, outgoing, starts, draws, n)),
        forall|i: int|
            0 <= i < m.nodes.len() ==> (#[trigger] walks(m, outgoing, starts, draws, n).visits[i])
                <= walks(m, outgoing, starts, draws, n).total_visits,
        forall|e: int|
            0 <= e < m.edges.len() ==> (#[trigger] walks(m, outgoing, starts, draws, n).edge_visits[e])
                <= walks(m, outgoing, starts, draws, n).total_edge_visits,
    decreases n,
{
    lemma_walks_sum(m, outgoing, starts, draws, n);
    let t = walks(m, outgoing, starts, draws, n);
    assert forall|i: int| 0 <= i < m.nodes.len() implies (#[trigger] t.visits[i]) <= t.total_visits by {
        lemma_entry_le_sum(t.visits, i, t.visits.len() as int);
    }
    assert forall|e: int| 0 <= e < m.edges.len() implies (#[trigger] t.edge_visits[e])
        <= t.total_edge_visits by {
        lemma_entry_le_sum(t.edge_visits, e, t.edge_visits.len() as int);
    }
}

proof fn lemma_walks_sum(m: GraphModel, outgoing: bool, starts: Seq<u64>, draws: Seq<u128>, n: nat)
    requires
        m.wf(),
        starts.len() == m.nodes.len(),
    ensures
        balanced(m, walks(m, outgoing, starts, draws, n)),
    decreases n,
{
    if n == 0 {
        let z = zero_ranks(m);
        lemma_sum_zero(z.visits, z.visits.len() as int);
        lemma_sum_zero(z.edge_visits, z.edge_visits.len() as int);
    } else {
        let before = walks(m, outgoing, starts, draws, (n - 1) as nat);
        lemma_walks_sum(m, outgoing, starts, draws, (n - 1) as nat);
        let base = (n - 1) * (STEPS + 1);
        lemma_selected_in_range(starts, draws[base]);
        match selected(starts, draws[base]) {
            None => {},
            Some(s) => {
                lemma_visit_balanced(m, before, s);
                lemma_walk_on_balanced(m, outgoing, visit(before, s), s, draws, base + 1, STEPS as nat);
            },
        }
    }
}

impl Direction {
    /// Whether walks in this direction follow edges from source to target.
    pub open spec fn outgoing(self) -> bool {
        self == Direction::Outgoing
    }
}

impl RankTables {
    /// The tables' sizes fit the graph, no visit count exceeds `v`, no edge
    /// count exceeds `ev`, and no sink count exceeds `s`.
    pub open spec fn bounded(&self, m: GraphModel, v: int, ev: int, s: int) -> bool {
        &&& self.visits.len() == m.nodes.len()
        &&& self.sink_hits.len() == m.nodes.len()
        &&& self.edge_visits.len() == m.edges.len()
        &&& self.total_visits <= v
        &&& self.total_edge_visits <= ev
        &&& forall|i: int| 0 <= i < self.visits.len() ==> #[trigger] self.visits[i] <= v
        &&& forall|i: int| 0 <= i < self.edge_visits.len() ==> #[trigger] self.edge_visits[i] <= ev
        &&& forall|i: int| 0 <= i < self.sink_hits.len() ==> #[trigger] self.sink_hits[i] <= s
    }

    /// Tables for a graph of `nodes` nodes and `edges` edges, all counts zero.
    fn zero(graph: &ClassGraph) -> (t: RankTables)
        ensures
            t@ == zero_ranks(graph@),
            t.bounded(graph@, 0, 0, 0),
    {
        let nodes = graph.node_count();
        let edges = graph.edge_count();
        let mut visits: Vec<u64> = Vec::new();
        let mut sink_hits: Vec<u128> = Vec::new();
        let mut edge_visits: Vec<u64> = Vec::new();
        let mut i: usize = 0;
        while i < nodes
            invariant
                i <= nodes,
                visits.len() == i,
                sink_hits.len() == i,
                forall|k: int| 0 <= k < i ==> visits[k] == 0 && sink_hits[k] == 0,
            decreases nodes - i,
        {
            visits.push(0);
            sink_hits.push(0);
            i += 1;
        }
        let mut e: usize = 0;
        while e < edges
            invariant
                e <= edges,
                edge_visits.len() == e,
                forall|k: int| 0 <= k < e ==> edge_visits[k] == 0,
            decreases edges - e,
        {
            edge_visits.push(0);
            e += 1;
        }
        let t = RankTables { visits, sink_hits, edge_visits, total_visits: 0, total_edge_visits: 0 };
        assert(t@.visits =~= zero_ranks(graph@).visits);
        assert(t@.sink_hits =~= zero_ranks(graph@).sink_hits);
        assert(t@.edge_visits =~= zero_ranks(graph@).edge_visits);
        t
    }

    /// Counts one visit of node `n`.
    fn count_visit(&mut self, n: usize, Ghost(m): Ghost<GraphModel>, Ghost(v): Ghost<int>, Ghost(ev): Ghost<int>, Ghost(s): Ghost<int>)
        requires
            old(self).bounded(m, v, ev, s),
            n < m.nodes.len(),
            v < u64::MAX,
        ensures
            final(self)@ == visit(old(self)@, n as int),
            final(self).bounded(m, v + 1, ev, s),
    {
        let seen = self.visits[n];
        self.visits.set(n, seen + 1);
        self.total_visits = self.total_visits + 1;
        assert(self@.visits =~= old(self)@.visits.update(n as int, old(self)@.visits[n as int] + 1));
        assert(self@.sink_hits =~= old(self)@.sink_hits);
        assert(self@.edge_visits =~= old(self)@.edge_visits);
    }

    /// Counts that a walk at `cur` followed edge `e`.
    fn count_follow(
        &mut self,
        graph: &ClassGraph,
        direction: Direction,
        cur: usize,
        e: usize,
        Ghost(v): Ghost<int>,
        Ghost(ev): Ghost<int>,
        Ghost(s): Ghost<int>,
    ) -> (next: Option<usize>)
        requires
            graph.wf(),
            old(self).bounded(graph@, v, ev, s),
            cur < graph@.nodes.len(),
            e < graph@.edges.len(),
            v < u64::MAX,
            ev < u64::MAX,
            s + u64::MAX <= u128::MAX,
        ensures
            final(self)@ == follow(graph@, direction.outgoing(), old(self)@, cur as int, e as int),
            next is None <==> graph@.enters(e as int, direction.outgoing()) == graph@.literal,
            next matches Some(n) ==> n == graph@.enters(e as int, direction.outgoing()) && n
                < graph@.nodes.len() && final(self).bounded(graph@, v + 1, ev + 1, s),
            next is None ==> final(self).bounded(graph@, v, ev + 1, s + u64::MAX),
    {
        let ghost m = graph@;
        let taken = self.edge_visits[e];
        self.edge_visits.set(e, taken + 1);
        self.total_edge_visits = self.total_edge_visits + 1;
        let ghost counted = self@;
        assert(counted.edge_visits =~= old(self)@.edge_visits.update(
            e as int,
            old(self)@.edge_visits[e as int] + 1,
        ));
        assert(counted.visits =~= old(self)@.visits);
        assert(counted.sink_hits =~= old(self)@.sink_hits);
        let next = match direction {
            Direction::Outgoing => graph.edge_target(e),
            Direction::Incoming => graph.edge_source(e),
        };
        if next == graph.literal() {
            let mass: u64 = match graph.edge_forward(e) {
                Some(r) => r.num,
                None => 0,
            };
            let had = self.sink_hits[cur];
            self.sink_hits.set(cur, had + mass as u128);
            assert(self@.sink_hits =~= counted.sink_hits.update(
                cur as int,
                counted.sink_hits[cur as int] + directed_weight(m.edges[e as int], true) as nat,
            ));
            assert(self@.visits =~= counted.visits);
            assert(self@.edge_visits =~= counted.edge_visits);
            None
        } else {
            self.count_visit(next, Ghost(m), Ghost(v), Ghost(ev + 1), Ghost(s));
            Some(next)
        }
    }
}

/// The weights among which a walk at `cur` chooses.
fn weights_at(graph: &ClassGraph, cur: usize, direction: Direction) -> (w: Vec<u64>)
    requires
        graph.wf(),
    ensures
        w@ == leaving_weights(graph@, cur as int, direction.outgoing()),
{
    let edges = graph.edge_count();
    let mut w: Vec<u64> = Vec::new();
    let mut e: usize = 0;
    while e < edges
        invariant
            graph.wf(),
            e <= edges,
            edges == graph@.edges.len(),
            w.len() == e,
            forall|k: int|
                0 <= k < e ==> w[k] == leaving_weights(graph@, cur as int, direction.outgoing())[k],
        decreases edges - e,
    {
        let (end, probability) = match direction {
            Direction::Outgoing => (graph.edge_source(e), graph.edge_forward(e)),
            Direction::Incoming => (graph.edge_target(e), graph.edge_backward(e)),
        };
        let weight: u64 = if end == cur {
            match probability {
                Some(r) => r.num,
                None => 0,
            }
        } else {
            0
        };
        w.push(weight);
        e += 1;
    }
    assert(w@ =~= leaving_weights(graph@, cur as int, direction.outgoing()));
    w
}

/// The weights among which a walk chooses its start.
fn starts_of(graph: &ClassGraph, node_counts: &Vec<u64>) -> (w: Vec<u64>)
    requires
        graph.wf(),
        node_counts.len() == graph@.nodes.len(),
    ensures
        w@ == start_weights(graph@, node_counts@),
{
    let nodes = graph.node_count();
    let literal = graph.literal();
    let mut w: Vec<u64> = Vec::new();
    let mut n: usize = 0;
    while n < nodes
        invariant
            n <= nodes,
            nodes == graph@.nodes.len(),
            nodes == node_counts.len(),
            literal == graph@.literal,
            w.len() == n,
            forall|k: int| 0 <= k < n ==> w[k] == start_weights(graph@, node_counts@)[k],
        decreases nodes - n,
    {
        let weight: u64 = if n == literal {
            0
        } else {
            node_counts[n]
        };
        w.push(weight);
        n += 1;
    }
    assert(w@ =~= start_weights(graph@, node_counts@));
    w
}

/// Ranks the classes and edges of `graph` by `walks` walks that are driven
/// by the random words in `draws`.
///
/// Walk `k` reads the words from `draws[k * (STEPS + 1)]` on. Its first word
/// selects the start among the classes, in proportion to their entity
/// counts; each further word selects the edge to follow, in proportion to
/// the edges' probabilities in the walk's direction. A walk ends after
/// `STEPS` edges, where it can choose no edge, and where it enters the sink.
pub fn walk_ranks(
    graph: &ClassGraph,
    node_counts: &Vec<u64>,
    direction: Direction,
    walks: usize,
    draws: &Vec<u128>,
) -> (t: RankTables)
    requires
        graph.wf(),
        node_counts.len() == graph@.nodes.len(),
        draws.len() >= walks * (STEPS + 1),
    ensures
        t@ == self::walks(
            graph@,
            direction.outgoing(),
            start_weights(graph@, node_counts@),
            draws@,
            walks as nat,
        ),
        balanced(graph@, t@),
{
    let ghost m = graph@;
    let ghost out = direction.outgoing();
    let starts = starts_of(graph, node_counts);
    let mut t = RankTables::zero(graph);
    let mut w: usize = 0;
    while w < walks
        invariant
            graph.wf(),
            m == graph@,
            out == direction.outgoing(),
            starts@ == start_weights(m, node_counts@),
            w <= walks,
            draws.len() >= walks * (STEPS + 1),
            t@ == self::walks(m, out, starts@, draws@, w as nat),
            t.bounded(m, w * (STEPS + 1), w * STEPS, w * u64::MAX),
        decreases walks - w,
    {
        assert((w + 1) * (STEPS + 1) <= walks * (STEPS + 1)) by (nonlinear_arith)
            requires
                w + 1 <= walks,
        ;
        assert((w + 1) * u64::MAX <= usize::MAX * u64::MAX) by (nonlinear_arith)
            requires
                w + 1 <= usize::MAX,
        ;
        assert((w + 1) * u64::MAX == w * u64::MAX + u64::MAX) by (nonlinear_arith);
        assert((w + 1) * STEPS == w * STEPS + STEPS) by (nonlinear_arith);
        assert((w + 1) * (STEPS + 1) == w * (STEPS + 1) + STEPS + 1) by (nonlinear_arith);
        assert(w * STEPS <= w * (STEPS + 1)) by (nonlinear_arith);
        let base: usize = w * (STEPS + 1);
        let ghost before = t@;
        let ghost goal = one_walk(m, out, starts@, before, draws@, base as int);
        match pick_weighted(&starts, draws[base]) {
            None => {},
            Some(start) => {
                t.count_visit(
                    start,
                    Ghost(m),
                    Ghost((w * (STEPS + 1)) as int),
                    Ghost((w * STEPS) as int),
                    Ghost((w * u64::MAX) as int),
                );
                let mut cur: usize = start;
                let mut step: usize = 0;
                let mut done: bool = false;
                while step < STEPS && !done
                    invariant
                        graph.wf(),
                        m == graph@,
                        out == direction.outgoing(),
                        step <= STEPS,
                        cur < m.nodes.len(),
                        base == w * (STEPS + 1),
                        base + STEPS + 1 <= draws.len(),
                        w * STEPS <= base,
                        (w + 1) * u64::MAX <= usize::MAX * u64::MAX,
                        (w + 1) * u64::MAX == w * u64::MAX + u64::MAX,
                        goal == if done {
                            t@
                        } else {
                            walk_on(m, out, t@, cur as int, draws@, base + 1 + step, (STEPS - step) as nat)
                        },
                        t.bounded(
                            m,
                            w * (STEPS + 1) + 1 + step,
                            w * STEPS + step,
                            if done {
                                w * u64::MAX + u64::MAX
                            } else {
                                (w * u64::MAX) as int
                            },
                        ),
                    decreases STEPS - step,
                {
                    let weights = weights_at(graph, cur, direction);
                    match pick_weighted(&weights, draws[base + 1 + step]) {
                        None => {
                            done = true;
                        },
                        Some(e) => {
                            let next = t.count_follow(
                                graph,
                                direction,
                                cur,
                                e,
                                Ghost((w * (STEPS + 1) + 1 + step) as int),
                                Ghost((w * STEPS + step) as int),
                                Ghost((w * u64::MAX) as int),
                            );
                            match next {
                                Some(n) => {
                                    cur = n;
                                },
                                None => {
                                    done = true;
                                },
                            }
                        },
                    }
                    step += 1;
                }
            },
        }
        w += 1;
    }
    proof {
        lemma_walks_balanced(m, out, starts@, draws@, walks as nat);
    }
    t
}

impl KG {
    /// Ranks the classes and edges of `graph` by `WALKS` random walks in the
    /// given direction.
    ///
    /// The counts returned are those of [`walk_ranks`] for some sequence of
    /// random words, so they are balanced whatever the generator gave.
    pub fn page_rank(&self, graph: &ClassGraph, node_counts: &Vec<u64>, direction: Direction) -> (t:
        RankTables)
        requires
            graph.wf(),
            node_counts.len() == graph@.nodes.len(),
        ensures
            exists|draws: Seq<u128>|
                draws.len() == WALKS * (STEPS + 1) && #[trigger] walks(
                    graph@,
                    direction.outgoing(),
                    start_weights(graph@, node_counts@),
                    draws,
                    WALKS as nat,
                ) == t@,
            balanced(graph@, t@),
    {
        let mut draws: Vec<u128> = Vec::new();
        let mut i: usize = 0;
        while i < WALKS * (STEPS + 1)
            invariant
                i <= WALKS * (STEPS + 1),
                draws.len() == i,
            decreases WALKS * (STEPS + 1) - i,
        {
            draws.push(random_word());
            i += 1;
        }
        walk_ranks(graph, node_counts, direction, WALKS, &draws)
    }
}

} // verus!
