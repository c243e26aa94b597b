use kg_explorer::graph::{ClassGraph, Ratio};
use kg_explorer::prune::{restrict, ClassStats, LEVELS};
use kg_explorer::reach::ReachabilityRecord;
use kg_explorer::store::KG;

fn kg() -> KG {
    KG { dataset: "books".to_string(), nb_parts: 1, history_path: String::new() }
}

#[test]
fn rank_keeps_up_to_the_limit() {
    // ranking: 50 (item 1), 30 (item 2), 20 (item 0); total 100
    let weights = vec![20u32, 50, 30];
    // limit 1/4: the first class alone, 50, exceeds 25
    assert_eq!(kg().rank(&weights, 1, 4), vec![1]);
    // limit 1/2: 50 does not exceed 50, so the second class is kept too
    assert_eq!(kg().rank(&weights, 1, 2), vec![1, 2]);
    // limit 3/4: 50 does not exceed 75, 80 does
    assert_eq!(kg().rank(&weights, 3, 4), vec![1, 2]);
    // limit 1: nothing before the last class exceeds 100
    assert_eq!(kg().rank(&weights, 1, 1), vec![1, 2, 0]);
    // the heaviest class is kept whatever the limit is
    assert_eq!(kg().rank(&weights, 0, 4), vec![1]);
    assert_eq!(kg().rank(&Vec::new(), 1, 4), Vec::<usize>::new());
}

#[test]
fn rank_keeps_until_the_limit_is_exceeded() {
    // four classes of equal weight under the limit 1/4: the first holds
    // exactly the limit, so the second is kept as well
    assert_eq!(kg().rank(&vec![7u32, 7, 7, 7], 1, 4), vec![0, 1]);
    assert_eq!(kg().rank(&vec![7u32, 7, 7, 7], 1, 5), vec![0]);
    assert_eq!(kg().rank(&vec![7u32, 7, 7, 7], 1, 2), vec![0, 1, 2]);
}

#[test]
fn rank_keeps_equal_weights_in_their_order() {
    let weights = vec![5u32, 9, 5, 9];
    assert_eq!(kg().rank(&weights, 1, 1), vec![1, 3, 0, 2]);
}

#[test]
fn restrict_drops_the_edges_of_dead_nodes() {
    let mut g = ClassGraph::new();
    let a = g.add_class("<a>".to_string());
    let b = g.add_class("<b>".to_string());
    let c = g.add_class("<c>".to_string());
    g.add_relation(a, b, "<p>".to_string(), 1);
    g.add_relation(b, c, "<q>".to_string(), 2);
    g.add_relation(a, 0, "<r>".to_string(), 3);
    g.add_relation(c, a, "<s>".to_string(), 4);
    g.set_probabilities(2, Some(Ratio { num: 3, den: 4 }), None);
    let r = restrict(&g, &vec![true, true, false, true]);
    assert_eq!(r.node_count(), 4);
    assert_eq!(r.node_name(b), "<b>");
    assert_eq!(r.edge_count(), 2);
    assert_eq!((r.edge_source(0), r.edge_target(0), r.edge_weight(0)), (a, 0, 3));
    assert_eq!(r.edge_predicate(0), "<r>");
    assert_eq!(r.edge_forward(0), Some(Ratio { num: 3, den: 4 }));
    assert_eq!((r.edge_source(1), r.edge_target(1), r.edge_weight(1)), (c, a, 4));
    assert_eq!(r.edge_forward(1), None);
}

fn star_graph() -> (ClassGraph, Vec<ReachabilityRecord>, Vec<u64>) {
    let mut g = ClassGraph::new();
    let root = g.add_class("<http://schema.org/Book>".to_string());
    let mut order = Vec::new();
    let mut counts = vec![0u64, 1000];
    for i in 0..5 {
        let n = g.add_class(format!("<http://schema.org/C{}>", i));
        g.add_relation(root, n, format!("<http://schema.org/p{}>", i), 10);
        g.add_relation(n, 0, "<http://schema.org/name>".to_string(), 10);
        order.push(ReachabilityRecord { node: n, depth: 1 });
        counts.push(10);
    }
    order.push(ReachabilityRecord { node: root, depth: 0 });
    // a class that cannot be reached from the root
    let lost = g.add_class("<http://schema.org/Lost>".to_string());
    g.add_relation(lost, root, "<http://schema.org/q>".to_string(), 1);
    counts.push(5);
    (g, order, counts)
}

#[test]
fn dominant_class_survives_every_round() {
    let (g, order, counts) = star_graph();
    let root = 1usize;
    // the root's entity count and depth score are far above the others'
    let weigh = |s: ClassStats| -> u32 {
        if s.entity_count >= 1000 && s.depth == 0 {
            1_000_000
        } else {
            1
        }
    };
    let r = kg().prune(g, order, counts, LEVELS, weigh);
    assert_eq!(r.keep, vec![root]);
    assert_eq!(r.records.len(), 6);
    assert_eq!(r.records[0].node, root);
    assert!(r.records[0].kept);
    assert_eq!(r.records[0].round, LEVELS - 1);
    assert_eq!(r.records[0].score, Ratio { num: 1_000_000, den: 1_000_000 });
    assert_eq!(r.records[0].entity_count, 1000);
    assert_eq!(r.records[0].depth, 0);
    for rec in &r.records[1..] {
        assert!(!rec.kept);
        assert_eq!(rec.round, 0);
        assert_eq!(rec.score.num, 0);
    }
    // only the sink can still be reached from the root
    assert_eq!(r.graph.node_count(), 8);
    assert_eq!(r.graph.edge_count(), 0);
    // every round weighed what the round before kept
    assert_eq!(r.rounds.len(), 3);
    assert_eq!(r.rounds[0].classes, vec![2, 3, 4, 5, 6, 1]);
    assert_eq!(r.rounds[0].weights, vec![1, 1, 1, 1, 1, 1_000_000]);
    assert_eq!(r.rounds[0].kept, vec![5]);
    assert_eq!(r.rounds[0].stats[5].entity_count, 1000);
    assert_eq!(r.rounds[0].stats[5].total_entity_count, 1050);
    assert_eq!(r.rounds[1].classes, vec![1]);
    assert_eq!(r.rounds[2].classes, vec![1]);
    assert_eq!(r.rounds[2].kept, vec![0]);
}

#[test]
fn equal_weights_shrink_round_by_round() {
    let (g, order, counts) = star_graph();
    let r = kg().prune(g, order, counts, 3, |_s: ClassStats| -> u32 { 10 });
    // round 0 keeps 2 of 6 (limit 1/4: one class holds 1/6, two hold 1/3);
    // rounds 1 and 2 keep both of the two that are left (limits 2/4 and
    // 3/4: one class holds exactly 1/2, which exceeds neither)
    assert_eq!(r.keep, vec![2, 3]);
    let rounds: Vec<u32> = r.records.iter().map(|rec| rec.round).collect();
    assert_eq!(rounds, vec![2, 2, 0, 0, 0, 0]);
    let kept: Vec<bool> = r.records.iter().map(|rec| rec.kept).collect();
    assert_eq!(kept, vec![true, true, false, false, false, false]);
    assert_eq!(r.records[0].node, 2);
    assert_eq!(r.records[0].score, Ratio { num: 10, den: 20 });
    assert_eq!(r.records[1].node, 3);
    assert_eq!(r.records[2].score, Ratio { num: 0, den: 60 });
    assert_eq!(r.rounds[0].kept, vec![0, 1]);
    assert_eq!(r.rounds[1].classes, vec![2, 3]);
    assert_eq!(r.rounds[1].kept, vec![0, 1]);
    assert_eq!(r.rounds[2].classes, vec![2, 3]);
    // what the weigher was told of a class
    let told = &r.rounds[1].stats[0];
    assert_eq!((told.node, told.entity_count, told.total_entity_count, told.depth), (2, 10, 20, 1));
    assert_eq!(told.forward.total_visits, r.rounds[1].forward.total_visits);
    assert_eq!(told.forward.visits, r.rounds[1].forward.visits[2]);
    assert_eq!(told.backward.visits, r.rounds[1].backward.visits[2]);
    assert_eq!(told.forward.sink_den, 10);
    // the classes that lost are not started from any more
    assert_eq!(r.rounds[1].forward.visits[1], 0);
    assert_eq!(r.rounds[1].forward.visits[7], 0);
}

#[test]
fn class_analysis_needs_the_root() {
    let (g, _, counts) = star_graph();
    assert!(kg().stat_anal_types(g, "Nothing", counts, |_s: ClassStats| -> u32 { 1 }).is_none());
    let (g, _, counts) = star_graph();
    let r = kg().stat_anal_types(g, "Book", counts, |s: ClassStats| -> u32 {
        if s.depth == 0 {
            100
        } else {
            1
        }
    });
    let r = r.unwrap();
    assert_eq!(r.keep, vec![1]);
    assert_eq!(r.records.len(), 6);
}

#[test]
fn without_rounds_every_class_stays() {
    let (g, order, counts) = star_graph();
    let edges = g.edge_count();
    let r = kg().prune(g, order, counts, 0, |_s: ClassStats| -> u32 { 1 });
    assert_eq!(r.keep, vec![2, 3, 4, 5, 6, 1]);
    assert!(r.records.is_empty());
    assert!(r.rounds.is_empty());
    assert_eq!(r.graph.edge_count(), edges);
}

#[test]
fn the_heaviest_class_is_kept_under_any_positive_limit() {
    let weights = vec![3u32, 900, 7, 900, 1];
    for (num, den) in [(1u32, 4u32), (1, 1000), (3, 4), (1, 1), (5, 1)] {
        let kept = kg().rank(&weights, num, den);
        assert_eq!(kept[0], 1);
    }
}
