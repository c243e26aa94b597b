//! Which classes can be reached from a root class, how far away they are,
//! and in which order a breadth-first traversal meets them.

use vstd::prelude::*;
use crate::graph::{ClassGraph, GraphModel};
use crate::text::{append_chars, chars_of, string_of};

verus! {

/// A class met by the traversal and its distance from the root.
#[derive(Clone, Copy, Debug, PartialEq, Eq, Structural)]
pub struct ReachabilityRecord {
    pub node: usize,
    pub depth: u64,
}

/// Whether an edge leads from `u` to `v` and `v` is not the sink.
pub open spec fn step(m: GraphModel, u: int, v: int) -> bool {
    exists|e: int|
        0 <= e < m.edges.len() && (#[trigger] m.edges[e]).source == u && m.edges[e].target == v
            && v != m.literal
}

/// Whether `n` can be reached from `root` along at most `d` edges, never
/// entering the sink.
pub open spec fn within(m: GraphModel, root: int, n: int, d: nat) -> bool
    decreases d,
{
    n == root || (d > 0 && exists|u: int| within(m, root, u, (d - 1) as nat) && #[trigger] step(m, u, n))
}

/// Whether `n` can be reached from `root` at all.
pub open spec fn reachable(m: GraphModel, root: int, n: int) -> bool {
    exists|d: nat| within(m, root, n, d)
}

/// Whether the shortest way from `root` to `n` has exactly `d` edges.
pub open spec fn distance_is(m: GraphModel, root: int, n: int, d: nat) -> bool {
    within(m, root, n, d) && (d == 0 || !within(m, root, n, (d - 1) as nat))
}

/// What can be reached along at most `a` edges can be reached along at most
/// `b >= a` edges.
pub proof fn lemma_within_monotone(m: GraphModel, root: int, n: int, a: nat, b: nat)
    requires
        within(m, root, n, a),
        a <= b,
    ensures
        within(m, root, n, b),
    decreases a,
{
    if n != root {
        let u = choose|u: int| within(m, root, u, (a - 1) as nat) && #[trigger] step(m, u, n);
        lemma_within_monotone(m, root, u, (a - 1) as nat, (b - 1) as nat);
    }
}

/// The number of `false` entries among the first `upto` of `seen`.
spec fn unseen(seen: Seq<bool>, upto: int) -> nat
    decreases upto,
{
    if upto <= 0 {
        0
    } else {
        unseen(seen, upto - 1) + if seen[upto - 1] {
            0nat
        } else {
            1nat
        }
    }
}

proof fn lemma_unseen_mark(seen: Seq<bool>, v: int, upto: int)
    requires
        0 <= v < seen.len(),
        0 <= upto <= seen.len(),
        !seen[v],
    ensures
        unseen(seen.update(v, true), upto) + (if v < upto {
            1nat
        } else {
            0nat
        }) == unseen(seen, upto),
    decreases upto,
{
    if upto > 0 {
        lemma_unseen_mark(seen, v, upto - 1);
    }
}

proof fn lemma_unseen_all(seen: Seq<bool>, upto: int)
    requires
        0 <= upto <= seen.len(),
        forall|k: int| 0 <= k < seen.len() ==> !seen[k],
    ensures
        unseen(seen, upto) == upto,
    decreases upto,
{
    if upto > 0 {
        lemma_unseen_all(seen, upto - 1);
    }
}

/// What a traversal has discovered: the classes in discovery order, and
/// for every node whether it is among them.
pub struct Discovery {
    pub found: Seq<ReachabilityRecord>,
    pub seen: Seq<bool>,
}

/// The discovery after edge `e` was looked at from the class at place
/// `head`: if the edge leaves that class and leads to a class that is
/// neither the sink nor discovered yet, that class is discovered, one step
/// deeper.
pub open spec fn look_at(m: GraphModel, d: Discovery, head: int, e: int) -> Discovery {
    let target = m.edges[e].target;
    if m.edges[e].source == d.found[head].node && target != m.literal && !d.seen[target] {
        Discovery {
            found: d.found.push(
                ReachabilityRecord { node: target as usize, depth: (d.found[head].depth + 1) as u64 },
            ),
            seen: d.seen.update(target, true),
        }
    } else {
        d
    }
}

/// The discovery after the edges below `e` were looked at from the class
/// at place `head`, from the newest to the oldest.
pub open spec fn look_from(m: GraphModel, d: Discovery, head: int, e: int) -> Discovery
    decreases e,
{
    if e <= 0 {
        d
    } else {
        look_from(m, look_at(m, d, head, e - 1), head, e - 1)
    }
}

/// The discovery after the classes from place `head` on were handled, one
/// after the other, at most `left` of them.
pub open spec fn explore(m: GraphModel, d: Discovery, head: int, left: nat) -> Discovery
    decreases left,
{
    if left == 0 || head >= d.found.len() {
        d
    } else {
        explore(m, look_from(m, d, head, m.edges.len() as int), head + 1, (left - 1) as nat)
    }
}

/// The classes that a breadth-first traversal from `root` discovers, in
/// the order in which it discovers them, each with its depth.
pub open spec fn discovered(m: GraphModel, root: int) -> Seq<ReachabilityRecord> {
    explore(m, start(m, root), 0, m.nodes.len()).found
}

/// The discovery at the start of a traversal: the root alone, at depth
/// zero.
pub open spec fn start(m: GraphModel, root: int) -> Discovery {
    Discovery {
        found: seq![ReachabilityRecord { node: root as usize, depth: 0 }],
        seen: Seq::new(m.nodes.len(), |n: int| n == root),
    }
}

/// The state of a traversal: what was discovered, in discovery order, and
/// the marks that say which nodes that covers.
spec fn traversal_ok(
    m: GraphModel,
    root: int,
    found: Seq<ReachabilityRecord>,
    seen: Seq<bool>,
    place: Seq<int>,
) -> bool {
    &&& seen.len() == m.nodes.len()
    &&& place.len() == m.nodes.len()
    &&& found.len() > 0
    &&& found[0] == (ReachabilityRecord { node: root as usize, depth: 0 })
    &&& found.len() + unseen(seen, seen.len() as int) == m.nodes.len()
    &&& forall|n: int|
        0 <= n < seen.len() ==> if seen[n] {
            0 <= #[trigger] place[n] < found.len()
        } else {
            place[n] == -1
        }
    &&& forall|n: int|
        0 <= n < seen.len() && seen[n] ==> found[#[trigger] place[n]].node == n
    &&& forall|i: int|
        0 <= i < found.len() ==> {
            &&& 0 <= (#[trigger] found[i]).node < m.nodes.len()
            &&& place[found[i].node as int] == i
            &&& found[i].depth <= i
            &&& distance_is(m, root, found[i].node as int, found[i].depth as nat)
        }
    &&& forall|i: int, j: int|
        0 <= i <= j < found.len() ==> (#[trigger] found[i]).depth <= (#[trigger] found[j]).depth
}

/// Every edge that leaves one of the first `head` discovered nodes, and
/// every edge above `above` that leaves the node at `head`, ends in the sink
/// or in a discovered node.
spec fn closed_upto(
    m: GraphModel,
    found: Seq<ReachabilityRecord>,
    seen: Seq<bool>,
    place: Seq<int>,
    head: int,
    above: int,
) -> bool {
    forall|e: int|
        0 <= e < m.edges.len() && (#[trigger] m.edges[e]).target != m.literal && seen[m.edges[e].source]
            && (place[m.edges[e].source] < head || (place[m.edges[e].source] == head && e
            >= above)) ==> seen[m.edges[e].target]
}

/// Everything within `d` edges of the root is discovered.
spec fn covers_within(m: GraphModel, root: int, seen: Seq<bool>, d: nat) -> bool {
    forall|n: int| 0 <= n < m.nodes.len() && #[trigger] within(m, root, n, d) ==> seen[n]
}

proof fn lemma_within_in_range(m: GraphModel, root: int, n: int, d: nat)
    requires
        m.wf(),
        0 <= root < m.nodes.len(),
        within(m, root, n, d),
    ensures
        0 <= n < m.nodes.len(),
{
    if n != root {
        let u = choose|u: int| within(m, root, u, (d - 1) as nat) && #[trigger] step(m, u, n);
        let e = choose|e: int|
            0 <= e < m.edges.len() && (#[trigger] m.edges[e]).source == u && m.edges[e].target == n
                && n != m.literal;
    }
}

/// Once every discovered node has been handled, everything reachable is
/// discovered.
proof fn lemma_closed_covers(
    m: GraphModel,
    root: int,
    found: Seq<ReachabilityRecord>,
    seen: Seq<bool>,
    place: Seq<int>,
    n: int,
    d: nat,
)
    requires
        m.wf(),
        0 <= root < m.nodes.len(),
        traversal_ok(m, root, found, seen, place),
        closed_upto(m, found, seen, place, found.len() as int, 0),
        within(m, root, n, d),
    ensures
        0 <= n < m.nodes.len(),
        seen[n],
    decreases d,
{
    lemma_within_in_range(m, root, n, d);
    if n == root {
        assert(place[found[0].node as int] == 0);
    } else {
        let u = choose|u: int| within(m, root, u, (d - 1) as nat) && #[trigger] step(m, u, n);
        lemma_closed_covers(m, root, found, seen, place, u, (d - 1) as nat);
        let e = choose|e: int|
            0 <= e < m.edges.len() && (#[trigger] m.edges[e]).source == u && m.edges[e].target == n
                && n != m.literal;
        assert(place[m.edges[e].source] < found.len());
    }
}

/// When the nodes before `head` are handled and everything within `d` edges
/// is discovered at a place before `head`, everything within `d + 1` edges
/// is discovered.
proof fn lemma_next_level(
    m: GraphModel,
    root: int,
    found: Seq<ReachabilityRecord>,
    seen: Seq<bool>,
    place: Seq<int>,
    head: int,
    d: nat,
)
    requires
        m.wf(),
        0 <= root < m.nodes.len(),
        traversal_ok(m, root, found, seen, place),
        0 < head <= found.len(),
        closed_upto(m, found, seen, place, head, m.edges.len() as int),
        covers_within(m, root, seen, d),
        forall|i: int| 0 <= i < found.len() && (#[trigger] found[i]).depth <= d ==> i < head,
    ensures
        covers_within(m, root, seen, d + 1),
{
    let d1: nat = d + 1;
    assert forall|n: int| 0 <= n < m.nodes.len() && #[trigger] within(m, root, n, d1) implies seen[n] by {
        if n == root {
            assert(place[found[0].node as int] == 0);
        } else {
            assert(exists|u: int| within(m, root, u, (d1 - 1) as nat) && #[trigger] step(m, u, n));
            let u = choose|u: int| within(m, root, u, (d1 - 1) as nat) && #[trigger] step(m, u, n);
            assert(within(m, root, u, d));
            lemma_within_in_range(m, root, u, d);
            assert(seen[u]);
            let i = place[u];
            assert(found[i].node == u);
            if found[i].depth > d {
                lemma_within_monotone(m, root, u, d, (found[i].depth - 1) as nat);
            }
            let e = choose|e: int|
                0 <= e < m.edges.len() && (#[trigger] m.edges[e]).source == u && m.edges[e].target
                    == n && n != m.literal;
            assert(place[m.edges[e].source] < head);
        }
    }
}

/// The classes that can be reached from `root`, each with its distance,
/// the most recently discovered first. The traversal is breadth-first; at a
/// node it follows the edges from the newest to the oldest and never enters
/// the sink.
pub fn reachable_order(graph: &ClassGraph, root: usize) -> (order: Vec<ReachabilityRecord>)
    requires
        graph.wf(),
        root < graph@.nodes.len(),
    ensures
        is_order_from(graph@, root as int, order@),
{
    let nodes = graph.node_count();
    let edges = graph.edge_count();
    let literal = graph.literal();
    let mut seen: Vec<bool> = Vec::new();
    let mut k: usize = 0;
    while k < nodes
        invariant
            k <= nodes,
            seen.len() == k,
            forall|j: int| 0 <= j < k ==> !seen[j],
        decreases nodes - k,
    {
        seen.push(false);
        k += 1;
    }
    let ghost m = graph@;
    let ghost r = root as int;
    let ghost mut place: Seq<int> = Seq::new(nodes as nat, |n: int| -1);
    proof {
        lemma_unseen_all(seen@, nodes as int);
        lemma_unseen_mark(seen@, r, nodes as int);
        place = place.update(r, 0);
    }
    seen.set(root, true);
    let mut found: Vec<ReachabilityRecord> = Vec::new();
    found.push(ReachabilityRecord { node: root, depth: 0 });
    let mut head: usize = 0;
    assert(traversal_ok(m, r, found@, seen@, place));
    assert(covers_within(m, r, seen@, 0));
    assert(seen@ =~= start(m, r).seen);
    assert(found@ =~= start(m, r).found);
    while head < found.len()
        invariant
            graph.wf(),
            m == graph@,
            r == root,
            explore(m, Discovery { found: found@, seen: seen@ }, head as int, (nodes - head) as nat).found
                == discovered(m, r),
            0 <= r < m.nodes.len(),
            nodes == m.nodes.len(),
            edges == m.edges.len(),
            literal == m.literal,
            head <= found.len(),
            traversal_ok(m, r, found@, seen@, place),
            closed_upto(m, found@, seen@, place, head as int, edges as int),
            head < found.len() ==> covers_within(m, r, seen@, found[head as int].depth as nat),
            head < found.len() ==> forall|i: int|
                0 <= i < found.len() ==> (#[trigger] found[i]).depth <= found[head as int].depth + 1,
        decreases nodes - head,
    {
        let here = found[head];
        let ghost scanned = look_from(
            m,
            Discovery { found: found@, seen: seen@ },
            head as int,
            edges as int,
        );
        let mut e: usize = edges;
        while e > 0
            invariant
                graph.wf(),
                m == graph@,
                look_from(m, Discovery { found: found@, seen: seen@ }, head as int, e as int) == scanned,
                r == root,
                0 <= r < m.nodes.len(),
                nodes == m.nodes.len(),
                edges == m.edges.len(),
                literal == m.literal,
                head < found.len(),
                here == found[head as int],
                e <= edges,
                traversal_ok(m, r, found@, seen@, place),
                closed_upto(m, found@, seen@, place, head as int, e as int),
                covers_within(m, r, seen@, here.depth as nat),
                forall|i: int| 0 <= i < found.len() ==> (#[trigger] found[i]).depth <= here.depth + 1,
            decreases e,
        {
            e -= 1;
            let source = graph.edge_source(e);
            let target = graph.edge_target(e);
            if source == here.node && target != literal && !seen[target] {
                let ghost before_found = found@;
                let ghost before_seen = seen@;
                let ghost before_place = place;
                let next = ReachabilityRecord { node: target, depth: here.depth + 1 };
                proof {
                    lemma_unseen_mark(seen@, target as int, nodes as int);
                    place = place.update(target as int, found.len() as int);
                    // the new node lies exactly one edge further than `here`
                    assert(m.edges[e as int].source == here.node);
                    assert(step(m, here.node as int, target as int));
                    let deeper: nat = (here.depth + 1) as nat;
                    assert(within(m, r, here.node as int, (deeper - 1) as nat));
                    assert(within(m, r, target as int, deeper));
                    assert(!within(m, r, target as int, here.depth as nat));
                }
                seen.set(target, true);
                found.push(next);
                proof {
                    assert forall|i: int| 0 <= i < found@.len() implies {
                        &&& 0 <= (#[trigger] found@[i]).node < m.nodes.len()
                        &&& place[found@[i].node as int] == i
                        &&& found@[i].depth <= i
                        &&& distance_is(m, r, found@[i].node as int, found@[i].depth as nat)
                    } by {
                        if i < before_found.len() {
                            assert(found@[i] == before_found[i]);
                            assert(before_seen[before_found[i].node as int]);
                        }
                    }
                    assert forall|i: int, j: int| 0 <= i <= j < found@.len() implies (
                    #[trigger] found@[i]).depth <= (#[trigger] found@[j]).depth by {
                        if j < before_found.len() {
                            assert(found@[i] == before_found[i]);
                            assert(found@[j] == before_found[j]);
                        } else if i < before_found.len() {
                            assert(found@[i] == before_found[i]);
                            if i <= head {
                                assert(before_found[i].depth <= before_found[head as int].depth);
                            } else {
                                assert(before_found[head as int].depth <= before_found[i].depth);
                                assert(before_found[i].depth <= here.depth + 1);
                                // a node after `head` that is no deeper than
                                // `here` would still be no deeper than the
                                // new node
                            }
                        }
                    }
                    assert(traversal_ok(m, r, found@, seen@, place));
                    assert(closed_upto(m, found@, seen@, place, head as int, e as int)) by {
                        assert forall|x: int|
                            0 <= x < m.edges.len() && (#[trigger] m.edges[x]).target != m.literal
                                && seen@[m.edges[x].source] && (place[m.edges[x].source] < head || (
                            place[m.edges[x].source] == head && x >= e)) implies seen@[m.edges[x].target] by {
                            if m.edges[x].source == target {
                                assert(place[target as int] == before_found.len());
                            } else {
                                assert(before_seen[m.edges[x].source]);
                                assert(before_place[m.edges[x].source] == place[m.edges[x].source]);
                                if x > e {
                                    assert(before_seen[m.edges[x].target]);
                                }
                            }
                        }
                    }
                }
            } else {
                proof {
                    assert(closed_upto(m, found@, seen@, place, head as int, e as int)) by {
                        assert forall|x: int|
                            0 <= x < m.edges.len() && (#[trigger] m.edges[x]).target != m.literal
                                && seen@[m.edges[x].source] && (place[m.edges[x].source] < head || (
                            place[m.edges[x].source] == head && x >= e)) implies seen@[m.edges[x].target] by {
                            if x == e && place[m.edges[x].source] == head {
                                assert(found@[head as int].node == m.edges[x].source);
                            }
                        }
                    }
                }
            }
        }
        proof {
            assert(closed_upto(m, found@, seen@, place, head + 1, edges as int)) by {
                assert forall|x: int|
                    0 <= x < m.edges.len() && (#[trigger] m.edges[x]).target != m.literal
                        && seen@[m.edges[x].source] && (place[m.edges[x].source] < head + 1 || (
                    place[m.edges[x].source] == head + 1 && x >= edges)) implies seen@[m.edges[x].target] by {
                    assert(place[m.edges[x].source] < head || (place[m.edges[x].source] == head
                        && x >= 0));
                }
            }
        }
        head += 1;
        proof {
            if head < found.len() {
                let d = found[head as int].depth;
                if d > here.depth {
                    assert(d == here.depth + 1);
                    assert forall|i: int| 0 <= i < found@.len() && (#[trigger] found@[i]).depth
                        <= here.depth implies i < head by {
                        if i >= head {
                            assert(found@[head as int].depth <= found@[i].depth);
                        }
                    }
                    lemma_next_level(m, r, found@, seen@, place, head as int, here.depth as nat);
                } else {
                    assert(found@[head - 1].depth <= found@[head as int].depth);
                }
                assert forall|i: int| 0 <= i < found@.len() implies (#[trigger] found@[i]).depth <= d
                    + 1 by {
                    assert(found@[head - 1].depth <= d);
                }
            }
        }
    }
    let mut order: Vec<ReachabilityRecord> = Vec::new();
    let mut i: usize = found.len();
    while i > 0
        invariant
            i <= found.len(),
            order.len() == found.len() - i,
            forall|k: int| 0 <= k < order.len() ==> order[k] == found[found.len() - 1 - k],
        decreases i,
    {
        i -= 1;
        order.push(found[i]);
    }
    proof {
        assert(found@ == discovered(m, r));
        assert(order@ =~= found@.reverse());
        assert forall|a: int, b: int| 0 <= a < b < order.len() implies (#[trigger] order[a]).node != (
        #[trigger] order[b]).node by {
            let x = found.len() - 1 - a;
            let y = found.len() - 1 - b;
            assert(place[found@[x].node as int] == x);
            assert(place[found@[y].node as int] == y);
        }
        assert forall|n: int| reachable(m, r, n) implies exists|i: int|
            0 <= i < order.len() && (#[trigger] order[i]).node == n by {
            let d = choose|d: nat| within(m, r, n, d);
            lemma_closed_covers(m, r, found@, seen@, place, n, d);
            let p = place[n];
            assert(found@[p].node == n);
            assert(order[found.len() - 1 - p] == found@[p]);
        }
    }
    order
}

/// The name under which the dataset knows the class `start_with`.
pub open spec fn root_name(start_with: Seq<char>) -> Seq<char> {
    "<http://schema.org/"@ + start_with + ">"@
}

/// The traversal order from the class that `start_with` names, or `None`
/// when the graph holds no such class.
pub fn remove_disconnected(graph: &ClassGraph, start_with: &str) -> (r: Option<
    Vec<ReachabilityRecord>,
>)
    requires
        graph.wf(),
    ensures
        r is None <==> forall|k: int|
            0 <= k < graph@.nodes.len() ==> graph@.nodes[k] != root_name(start_with@),
        r matches Some(order) ==> exists|root: int|
            {
                &&& 0 <= root < graph@.nodes.len()
                &&& graph@.nodes[root] == root_name(start_with@)
                &&& forall|k: int| 0 <= k < root ==> graph@.nodes[k] != root_name(start_with@)
                &&& is_order_from(graph@, root, order@)
            },
{
    let mut name: Vec<char> = chars_of("<http://schema.org/");
    append_chars(&mut name, &chars_of(start_with));
    append_chars(&mut name, &chars_of(">"));
    let name = string_of(&name);
    assert(name@ =~= root_name(start_with@));
    match graph.find_node(name.as_str()) {
        Some(root) => {
            let order = reachable_order(graph, root);
            Some(order)
        },
        None => None,
    }
}

/// What [`reachable_order`] promises of its result.
pub open spec fn is_order_from(m: GraphModel, root: int, order: Seq<ReachabilityRecord>) -> bool {
    &&& order.len() > 0
    &&& order[order.len() - 1] == (ReachabilityRecord { node: root as usize, depth: 0 })
    &&& forall|i: int|
        0 <= i < order.len() ==> (#[trigger] order[i]).node < m.nodes.len() && distance_is(
            m,
            root,
            order[i].node as int,
            order[i].depth as nat,
        )
    &&& forall|i: int, j: int|
        0 <= i < j < order.len() ==> (#[trigger] order[i]).node != (#[trigger] order[j]).node
    &&& forall|i: int, j: int|
        0 <= i <= j < order.len() ==> (#[trigger] order[i]).depth >= (#[trigger] order[j]).depth
    &&& forall|n: int|
        reachable(m, root, n) ==> exists|i: int| 0 <= i < order.len() && (#[trigger] order[i]).node == n
    &&& order == discovered(m, root).reverse()
}

/// The name of a root class is not the name of the sink.
pub proof fn lemma_root_is_no_sink(start_with: Seq<char>)
    ensures
        root_name(start_with) != crate::graph::literal_name(),
{
    reveal_strlit("<http://schema.org/");
    reveal_strlit("Literal");
    assert(root_name(start_with)[0] == '<');
    assert(crate::graph::literal_name()[0] == 'L');
}

/// A traversal from a class never lists the sink.
pub proof fn lemma_order_avoids_sink(m: GraphModel, root: int, order: Seq<ReachabilityRecord>)
    requires
        is_order_from(m, root, order),
        root != m.literal,
    ensures
        forall|i: int| 0 <= i < order.len() ==> (#[trigger] order[i]).node != m.literal,
{
    assert forall|i: int| 0 <= i < order.len() implies (#[trigger] order[i]).node != m.literal by {
        let n = order[i].node as int;
        let d = order[i].depth as nat;
        assert(within(m, root, n, d));
        if n != root {
            let u = choose|u: int| within(m, root, u, (d - 1) as nat) && #[trigger] step(m, u, n);
        }
    }
}

} // verus!
