//! Directional edge probabilities: for every node, each outgoing edge gets
//! its share of the node's outgoing weight, and each incoming edge its share
//! of the node's incoming weight.

use vstd::prelude::*;
use crate::graph::{ClassGraph, EdgeModel, GraphModel, Ratio};

verus! {

/// The end of `e` that counts for a direction: its source for outgoing
/// edges, its target for incoming ones.
pub open spec fn endpoint(e: EdgeModel, outgoing: bool) -> int {
    if outgoing {
        e.source
    } else {
        e.target
    }
}

/// The summed count of the first `upto` edges that leave (`outgoing`) or
/// reach (`!outgoing`) node `n`.
pub open spec fn side_total(edges: Seq<EdgeModel>, n: int, outgoing: bool, upto: int) -> nat
    decreases upto,
{
    if upto <= 0 {
        0
    } else {
        side_total(edges, n, outgoing, upto - 1) + if endpoint(edges[upto - 1], outgoing) == n {
            edges[upto - 1].count as nat
        } else {
            0
        }
    }
}

/// The summed count of all edges that leave node `n`.
pub open spec fn out_total(m: GraphModel, n: int) -> nat {
    side_total(m.edges, n, true, m.edges.len() as int)
}

/// The summed count of all edges that reach node `n`.
pub open spec fn in_total(m: GraphModel, n: int) -> nat {
    side_total(m.edges, n, false, m.edges.len() as int)
}

/// The share `count / total`, unset when the total is zero.
pub open spec fn share(count: u64, total: nat) -> Option<Ratio> {
    if total > 0 {
        Some(Ratio { num: count, den: total as u128 })
    } else {
        None
    }
}

/// Edge `e` of `m` with both probabilities computed.
pub open spec fn edge_with_probabilities(m: GraphModel, e: int) -> EdgeModel {
    EdgeModel {
        forward: share(m.edges[e].count, out_total(m, m.edges[e].source)),
        backward: share(m.edges[e].count, in_total(m, m.edges[e].target)),
        ..m.edges[e]
    }
}

/// `m` with the probabilities of every edge computed.
pub open spec fn with_probabilities(m: GraphModel) -> GraphModel {
    GraphModel {
        edges: Seq::new(m.edges.len(), |e: int| edge_with_probabilities(m, e)),
        ..m
    }
}

/// The summed forward numerators of the first `upto` edges that leave `n`.
pub open spec fn forward_numerators(edges: Seq<EdgeModel>, n: int, upto: int) -> nat
    decreases upto,
{
    if upto <= 0 {
        0
    } else {
        forward_numerators(edges, n, upto - 1) + if edges[upto - 1].source == n {
            match edges[upto - 1].forward {
                Some(r) => r.num as nat,
                None => 0,
            }
        } else {
            0
        }
    }
}

/// The summed backward numerators of the first `upto` edges that reach `n`.
pub open spec fn backward_numerators(edges: Seq<EdgeModel>, n: int, upto: int) -> nat
    decreases upto,
{
    if upto <= 0 {
        0
    } else {
        backward_numerators(edges, n, upto - 1) + if edges[upto - 1].target == n {
            match edges[upto - 1].backward {
                Some(r) => r.num as nat,
                None => 0,
            }
        } else {
            0
        }
    }
}

/// A side total never exceeds the largest count times the number of edges
/// looked at.
proof fn lemma_side_total_bound(edges: Seq<EdgeModel>, n: int, outgoing: bool, upto: int)
    requires
        0 <= upto <= edges.len(),
    ensures
        side_total(edges, n, outgoing, upto) <= upto * u64::MAX,
    decreases upto,
{
    if upto > 0 {
        lemma_side_total_bound(edges, n, outgoing, upto - 1);
        assert(side_total(edges, n, outgoing, upto) <= (upto - 1) * u64::MAX + u64::MAX);
        assert((upto - 1) * u64::MAX + u64::MAX == upto * u64::MAX) by (nonlinear_arith);
    }
}

proof fn lemma_forward_numerators(m: GraphModel, n: int, upto: int)
    requires
        0 <= upto <= m.edges.len(),
        out_total(m, n) > 0,
    ensures
        forward_numerators(with_probabilities(m).edges, n, upto) == side_total(
            m.edges,
            n,
            true,
            upto,
        ),
    decreases upto,
{
    if upto > 0 {
        lemma_forward_numerators(m, n, upto - 1);
    }
}

proof fn lemma_backward_numerators(m: GraphModel, n: int, upto: int)
    requires
        0 <= upto <= m.edges.len(),
        in_total(m, n) > 0,
    ensures
        backward_numerators(with_probabilities(m).edges, n, upto) == side_total(
            m.edges,
            n,
            false,
            upto,
        ),
    decreases upto,
{
    if upto > 0 {
        lemma_backward_numerators(m, n, upto - 1);
    }
}

/// After the probabilities are computed, the forward probabilities of the
/// edges that leave a node sum to exactly one: they share one denominator,
/// the node's outgoing weight, and their numerators add up to it. This holds
/// for every node whose outgoing weight is positive; the probabilities of a
/// node whose outgoing edges all count zero stay unset.
pub proof fn lemma_forward_probabilities_sum_to_one(m: GraphModel, n: int)
    requires
        out_total(m, n) > 0,
        m.edges.len() <= u32::MAX,
    ensures
        forall|e: int|
            0 <= e < m.edges.len() && (#[trigger] with_probabilities(m).edges[e]).source == n
                ==> with_probabilities(m).edges[e].forward is Some && with_probabilities(
                m,
            ).edges[e].forward->0.den == out_total(m, n),
        forward_numerators(with_probabilities(m).edges, n, m.edges.len() as int) == out_total(
            m,
            n,
        ),
{
    lemma_forward_numerators(m, n, m.edges.len() as int);
    lemma_side_total_bound(m.edges, n, true, m.edges.len() as int);
    assert(m.edges.len() * u64::MAX <= u32::MAX * u64::MAX) by (nonlinear_arith)
        requires
            m.edges.len() <= u32::MAX,
    ;
}

/// The same for incoming edges: the backward probabilities of the edges that
/// reach a node with positive incoming weight sum to exactly one.
pub proof fn lemma_backward_probabilities_sum_to_one(m: GraphModel, n: int)
    requires
        in_total(m, n) > 0,
        m.edges.len() <= u32::MAX,
    ensures
        forall|e: int|
            0 <= e < m.edges.len() && (#[trigger] with_probabilities(m).edges[e]).target == n
                ==> with_probabilities(m).edges[e].backward is Some && with_probabilities(
                m,
            ).edges[e].backward->0.den == in_total(m, n),
        backward_numerators(with_probabilities(m).edges, n, m.edges.len() as int) == in_total(
            m,
            n,
        ),
{
    lemma_backward_numerators(m, n, m.edges.len() as int);
    lemma_side_total_bound(m.edges, n, false, m.edges.len() as int);
    assert(m.edges.len() * u64::MAX <= u32::MAX * u64::MAX) by (nonlinear_arith)
        requires
            m.edges.len() <= u32::MAX,
    ;
}

/// The outgoing (`outgoing`) or incoming weight of every node of `g`.
pub fn node_totals(g: &ClassGraph, outgoing: bool) -> (totals: Vec<u128>)
    requires
        g.wf(),
    ensures
        totals.len() == g@.nodes.len(),
        forall|n: int|
            0 <= n < totals.len() ==> totals[n] == side_total(
                g@.edges,
                n,
                outgoing,
                g@.edges.len() as int,
            ),
{
    let nodes = g.node_count();
    let edges = g.edge_count();
    let mut totals: Vec<u128> = Vec::new();
    let mut n: usize = 0;
    while n < nodes
        invariant
            n <= nodes,
            totals.len() == n,
            forall|k: int| 0 <= k < n ==> totals[k] == 0,
        decreases nodes - n,
    {
        totals.push(0);
        n += 1;
    }
    let mut e: usize = 0;
    while e < edges
        invariant
            g.wf(),
            e <= edges,
            edges == g@.edges.len(),
            totals.len() == g@.nodes.len(),
            forall|k: int|
                0 <= k < totals.len() ==> totals[k] == side_total(g@.edges, k, outgoing, e as int)
                    && totals[k] <= e * u64::MAX,
        decreases edges - e,
    {
        let end = if outgoing {
            g.edge_source(e)
        } else {
            g.edge_target(e)
        };
        let c = g.edge_weight(e);
        assert(e * u64::MAX + u64::MAX == (e + 1) * u64::MAX) by (nonlinear_arith);
        assert((e + 1) * u64::MAX <= u32::MAX * u64::MAX) by (nonlinear_arith)
            requires
                e + 1 <= u32::MAX,
        ;
        let old_total = totals[end];
        totals.set(end, old_total + c as u128);
        e += 1;
    }
    totals
}

/// Computes both probabilities of every edge: its count over the summed
/// count of the edges that leave its source, and over the summed count of
/// the edges that reach its target. A probability whose total is zero is
/// left unset.
pub fn calculate_probabilities_for_graph(graph: &mut ClassGraph)
    requires
        old(graph).wf(),
    ensures
        final(graph).wf(),
        final(graph)@ == with_probabilities(old(graph)@),
{
    let out = node_totals(graph, true);
    let inc = node_totals(graph, false);
    let edges = graph.edge_count();
    let ghost start = graph@;
    let mut e: usize = 0;
    while e < edges
        invariant
            graph.wf(),
            start == old(graph)@,
            e <= edges,
            edges == start.edges.len(),
            graph@.nodes == start.nodes,
            graph@.literal == start.literal,
            graph@.edges.len() == start.edges.len(),
            out.len() == start.nodes.len(),
            inc.len() == start.nodes.len(),
            forall|n: int| 0 <= n < out.len() ==> out[n] == out_total(start, n),
            forall|n: int| 0 <= n < inc.len() ==> inc[n] == in_total(start, n),
            forall|k: int| 0 <= k < e ==> graph@.edges[k] == edge_with_probabilities(start, k),
            forall|k: int| e <= k < edges ==> graph@.edges[k] == start.edges[k],
        decreases edges - e,
    {
        let source = graph.edge_source(e);
        let target = graph.edge_target(e);
        let c = graph.edge_weight(e);
        let forward = if out[source] > 0 {
            Some(Ratio { num: c, den: out[source] })
        } else {
            None
        };
        let backward = if inc[target] > 0 {
            Some(Ratio { num: c, den: inc[target] })
        } else {
            None
        };
        graph.set_probabilities(e, forward, backward);
        e += 1;
    }
    assert(graph@.edges =~= with_probabilities(start).edges);
}

} // verus!
