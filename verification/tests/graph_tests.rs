use kg_explorer::graph::{ClassGraph, Ratio};
use kg_explorer::probability::calculate_probabilities_for_graph;
use kg_explorer::reach::{reachable_order, remove_disconnected, ReachabilityRecord};
use kg_explorer::store::KG;
use kg_explorer::walk::{choice, pick_weighted, walk_ranks, Direction, STEPS, WALKS};

fn kg() -> KG {
    KG { dataset: "books".to_string(), nb_parts: 1, history_path: String::new() }
}

fn book_graph() -> (ClassGraph, usize, usize) {
    let mut g = ClassGraph::new();
    let book = g.add_class("<http://schema.org/Book>".to_string());
    let person = g.add_class("<http://schema.org/Person>".to_string());
    g.add_relation(book, person, "<http://schema.org/author>".to_string(), 100);
    (g, book, person)
}

#[test]
fn new_graph_holds_the_sink() {
    let g = ClassGraph::new();
    assert_eq!(g.node_count(), 1);
    assert_eq!(g.edge_count(), 0);
    assert_eq!(g.literal(), 0);
    assert_eq!(g.node_name(0), "Literal");
}

#[test]
fn forward_probabilities_share_the_outgoing_weight() {
    let mut g = ClassGraph::new();
    let a = g.add_class("<a>".to_string());
    let b = g.add_class("<b>".to_string());
    let e0 = g.add_relation(a, b, "<p>".to_string(), 1);
    let e1 = g.add_relation(a, 0, "<q>".to_string(), 3);
    let e2 = g.add_relation(b, 0, "<q>".to_string(), 4);
    calculate_probabilities_for_graph(&mut g);
    assert_eq!(g.edge_forward(e0), Some(Ratio { num: 1, den: 4 }));
    assert_eq!(g.edge_forward(e1), Some(Ratio { num: 3, den: 4 }));
    assert_eq!(g.edge_forward(e2), Some(Ratio { num: 4, den: 4 }));
    assert_eq!(g.edge_backward(e0), Some(Ratio { num: 1, den: 1 }));
    assert_eq!(g.edge_backward(e1), Some(Ratio { num: 3, den: 7 }));
    assert_eq!(g.edge_backward(e2), Some(Ratio { num: 4, den: 7 }));
    let sum: u64 = [e0, e1].iter().map(|e| g.edge_forward(*e).unwrap().num).sum();
    assert_eq!(sum as u128, g.edge_forward(e0).unwrap().den);
}

#[test]
fn zero_weight_leaves_probabilities_unset() {
    let mut g = ClassGraph::new();
    let a = g.add_class("<a>".to_string());
    let e = g.add_relation(a, 0, "<p>".to_string(), 0);
    calculate_probabilities_for_graph(&mut g);
    assert_eq!(g.edge_forward(e), None);
    assert_eq!(g.edge_backward(e), None);
}

#[test]
fn traversal_lists_deepest_first_and_skips_the_sink() {
    let mut g = ClassGraph::new();
    let a = g.add_class("<http://schema.org/A>".to_string());
    let b = g.add_class("<http://schema.org/B>".to_string());
    let c = g.add_class("<http://schema.org/C>".to_string());
    let d = g.add_class("<http://schema.org/D>".to_string());
    g.add_relation(a, b, "<p>".to_string(), 1);
    g.add_relation(a, c, "<p>".to_string(), 1);
    g.add_relation(b, c, "<p>".to_string(), 1);
    g.add_relation(c, 0, "<p>".to_string(), 1);
    g.add_relation(d, a, "<p>".to_string(), 1);
    let order = reachable_order(&g, a);
    assert_eq!(
        order,
        vec![
            ReachabilityRecord { node: b, depth: 1 },
            ReachabilityRecord { node: c, depth: 1 },
            ReachabilityRecord { node: a, depth: 0 },
        ]
    );
    assert_eq!(remove_disconnected(&g, "A"), Some(order));
    assert_eq!(remove_disconnected(&g, "Z"), None);
}

#[test]
fn weighted_pick_follows_the_stretches() {
    let w = vec![2u64, 0, 3];
    assert_eq!(pick_weighted(&w, 0), Some(0));
    assert_eq!(pick_weighted(&w, 1), Some(0));
    assert_eq!(pick_weighted(&w, 2), Some(2));
    assert_eq!(pick_weighted(&w, 4), Some(2));
    assert_eq!(pick_weighted(&w, 5), Some(0));
    assert_eq!(pick_weighted(&vec![0u64, 0], 7), None);
    assert_eq!(pick_weighted(&Vec::new(), 7), None);
}

#[test]
fn choice_never_returns_a_weightless_entry() {
    let w = vec![0u64, 5, 0];
    for _ in 0..50 {
        assert_eq!(choice(&w), Some(1));
    }
    assert_eq!(choice(&vec![0u64]), None);
}

#[test]
fn book_author_person_scenario() {
    let (mut g, book, person) = book_graph();
    calculate_probabilities_for_graph(&mut g);
    let counts = vec![0u64, 100, 0];
    let t = kg().page_rank(&g, &counts, Direction::Outgoing);
    // every walk starts at Book and reaches Person in one hop
    assert_eq!(t.visits[book], WALKS as u64);
    assert_eq!(t.visits[person], WALKS as u64);
    assert_eq!(t.total_visits, 2 * WALKS as u64);
    assert_eq!(t.edge_visits, vec![WALKS as u64]);
    assert_eq!(t.total_edge_visits, WALKS as u64);
    // the share of the walks that reach Person
    let reached = t.visits[person] as f64 / WALKS as f64;
    assert!((reached - 1.0).abs() < 0.02);
    // Book and Person divide the visits between them
    let rank = t.visits[person] as f64 / t.total_visits as f64;
    assert!((rank - 0.5).abs() < 0.02);
}

#[test]
fn walks_follow_the_given_words() {
    let mut g = ClassGraph::new();
    let a = g.add_class("<a>".to_string());
    let b = g.add_class("<b>".to_string());
    g.add_relation(a, b, "<p>".to_string(), 1);
    g.add_relation(a, 0, "<q>".to_string(), 3);
    calculate_probabilities_for_graph(&mut g);
    let counts = vec![0u64, 1, 1];
    let mut draws = vec![0u128; 2 * (STEPS + 1)];
    // walk 0 starts at a (word 0), follows edge 1 into the sink (word 1)
    draws[0] = 0;
    draws[1] = 1;
    // walk 1 starts at b (word 1) and finds no edge
    draws[STEPS + 1] = 1;
    let t = walk_ranks(&g, &counts, Direction::Outgoing, 2, &draws);
    assert_eq!(t.visits, vec![0, 1, 1]);
    assert_eq!(t.sink_hits, vec![0, 3, 0]);
    assert_eq!(t.edge_visits, vec![0, 1]);
    assert_eq!(t.total_visits, 2);
    assert_eq!(t.total_edge_visits, 1);
    let backward = walk_ranks(&g, &counts, Direction::Incoming, 2, &draws);
    assert_eq!(backward.visits, vec![0, 2, 1]);
    assert_eq!(backward.edge_visits, vec![1, 0]);
}
