use kg_explorer::graph::{ClassGraph, Ratio};
use kg_explorer::predicates::{
    edge_rank_of, entropy_from, entropy_of, normalize_column, predicates_to_measure, quality_of,
    CachedAnalysis, Column, PredicateStats, SCALE,
};
use kg_explorer::probability::calculate_probabilities_for_graph;
use kg_explorer::store::KG;
use kg_explorer::walk::{walk_ranks, Direction, STEPS};

fn kg() -> KG {
    KG { dataset: "books".to_string(), nb_parts: 1, history_path: String::new() }
}

fn row(name: &str, entropy: u64, quality: u64) -> PredicateStats {
    PredicateStats {
        predicate: name.to_string(),
        frequency: Ratio { num: 1, den: 2 },
        uniqueness: Ratio { num: 1, den: 3 },
        entropy,
        quality,
        edge_rank: Ratio { num: 0, den: 1 },
    }
}

#[test]
fn normalize_column_scales_between_least_and_greatest() {
    let mut data = vec![row("a", 1, 7), row("b", 3, 7), row("c", 5, 7)];
    normalize_column(&mut data, Column::Entropy);
    let entropy: Vec<u64> = data.iter().map(|r| r.entropy).collect();
    assert_eq!(entropy, vec![0, SCALE / 2, SCALE]);
    let quality: Vec<u64> = data.iter().map(|r| r.quality).collect();
    assert_eq!(quality, vec![7, 7, 7]);
    assert_eq!(data[1].predicate, "b");
    assert_eq!(data[1].frequency, Ratio { num: 1, den: 2 });
}

#[test]
fn normalize_column_zeroes_a_constant_column() {
    let mut data = vec![row("a", 2, 0), row("b", 2, 0), row("c", 2, 0)];
    normalize_column(&mut data, Column::Entropy);
    let entropy: Vec<u64> = data.iter().map(|r| r.entropy).collect();
    assert_eq!(entropy, vec![0, 0, 0]);
    let mut one = vec![row("a", 9, 4)];
    normalize_column(&mut one, Column::Quality);
    assert_eq!(one[0].quality, 0);
    let mut none: Vec<PredicateStats> = Vec::new();
    normalize_column(&mut none, Column::Quality);
    assert!(none.is_empty());
}

#[test]
fn normalize_column_rounds_down() {
    let mut data = vec![row("a", 0, 0), row("b", 1, 0), row("c", 3, 0)];
    normalize_column(&mut data, Column::Entropy);
    assert_eq!(data[1].entropy, 333_333_333);
    let mut big = vec![row("a", 0, 0), row("b", u64::MAX - 1, 0), row("c", u64::MAX, 0)];
    normalize_column(&mut big, Column::Entropy);
    assert_eq!(big[1].entropy, SCALE - 1);
    assert_eq!(big[2].entropy, SCALE);
}

#[test]
fn quality_sums_over_the_subjects() {
    // 4 predicates on the class; subjects with 1, 2 and 3 other predicates
    assert_eq!(quality_of(4, &vec![1, 2, 3]), Some(4 * SCALE + 2 * SCALE + 1_333_333_333));
    assert_eq!(quality_of(4, &Vec::new()), Some(0));
    assert_eq!(quality_of(u64::MAX, &vec![1]), None);
    assert_eq!(quality_of(18_446_744_073, &vec![1]), Some(18_446_744_073 * SCALE));
    assert_eq!(quality_of(18_446_744_074, &vec![1]), None);
    assert_eq!(quality_of(18_446_744_073, &vec![1, u64::MAX]), Some(18_446_744_073 * SCALE));
    assert_eq!(quality_of(3, &vec![2, 3_000_000_000]), Some(1_500_000_000 + 1));
    assert_eq!(quality_of(18_446_744_073, &vec![1, 1]), None);
}

#[test]
fn book_author_statistics() {
    // 100 books, all with an author; 80 distinct persons
    let mut groups = vec![2u64; 20];
    groups.extend(vec![1u64; 60]);
    let r = kg()
        .stat_anal_single_predicate(
            "<http://schema.org/author>",
            3,
            100,
            100,
            80,
            100,
            &groups,
            |_n: u64, _total: u64| -> u64 { 12 },
            &vec![2; 100],
        )
        .unwrap();
    assert_eq!(r.predicate, "<http://schema.org/author>");
    assert_eq!(r.frequency, Ratio { num: 100, den: 100 });
    assert_eq!(r.uniqueness, Ratio { num: 80, den: 100 });
    assert_eq!(r.frequency.num as f64 / r.frequency.den as f64, 1.0);
    assert_eq!(r.uniqueness.num as f64 / r.uniqueness.den as f64, 0.8);
    assert_eq!(r.entropy, 12);
    assert_eq!(r.quality, 150 * SCALE);
    assert!(kg()
        .stat_anal_single_predicate("<p>", u64::MAX, 1, 1, 1, 1, &vec![1], neg_log2, &vec![1])
        .is_none());
}

fn ranked_graph() -> (ClassGraph, kg_explorer::walk::RankTables) {
    let mut g = ClassGraph::new();
    let a = g.add_class("<a>".to_string());
    let b = g.add_class("<b>".to_string());
    g.add_relation(a, b, "<p>".to_string(), 1);
    g.add_relation(a, 0, "<p>".to_string(), 1);
    g.add_relation(a, b, "<q>".to_string(), 2);
    g.add_relation(b, 0, "<p>".to_string(), 4);
    calculate_probabilities_for_graph(&mut g);
    let mut draws = vec![0u128; 4 * (STEPS + 1)];
    // four walks from a over the edges 0, 1, 2, 2; those that reach b go on to the sink
    for (w, word) in [0u128, 1, 2, 3].iter().enumerate() {
        draws[w * (STEPS + 1)] = 0;
        draws[w * (STEPS + 1) + 1] = *word;
    }
    let t = walk_ranks(&g, &vec![0, 1, 0], Direction::Outgoing, 4, &draws);
    (g, t)
}

#[test]
fn edge_rank_adds_the_edges_of_a_predicate() {
    let (g, t) = ranked_graph();
    assert_eq!(t.edge_visits, vec![1, 1, 2, 3]);
    assert_eq!(t.total_edge_visits, 7);
    assert_eq!(edge_rank_of(&g, &t, 1, "<p>"), Ratio { num: 2, den: 7 });
    assert_eq!(edge_rank_of(&g, &t, 1, "<q>"), Ratio { num: 2, den: 7 });
    assert_eq!(edge_rank_of(&g, &t, 2, "<p>"), Ratio { num: 3, den: 7 });
    assert_eq!(edge_rank_of(&g, &t, 2, "<q>"), Ratio { num: 0, den: 7 });
    assert_eq!(edge_rank_of(&g, &t, 1, "<z>"), Ratio { num: 0, den: 7 });
}

#[test]
fn analysis_drops_identifiers_and_scales() {
    let (g, t) = ranked_graph();
    let mut id = row("<id>", 50, 50);
    id.uniqueness = Ratio { num: 9, den: 9 };
    let measured = vec![
        row("<p>", 10, 100),
        id,
        row("<http://www.w3.org/1999/02/22-rdf-syntax-ns#type>", 90, 900),
        row("<q>", 30, 300),
        row("<z>", 20, 100),
    ];
    let rows = kg().analyse_measured(&g, &t, 1, &measured).unwrap();
    let names: Vec<&str> = rows.iter().map(|r| r.predicate.as_str()).collect();
    assert_eq!(names, vec!["<p>", "<q>", "<z>"]);
    let entropy: Vec<u64> = rows.iter().map(|r| r.entropy).collect();
    assert_eq!(entropy, vec![0, SCALE, SCALE / 2]);
    let quality: Vec<u64> = rows.iter().map(|r| r.quality).collect();
    assert_eq!(quality, vec![0, SCALE, 0]);
    let ranks: Vec<Ratio> = rows.iter().map(|r| r.edge_rank).collect();
    assert_eq!(
        ranks,
        vec![Ratio { num: 2, den: 7 }, Ratio { num: 2, den: 7 }, Ratio { num: 0, den: 7 }]
    );
}

#[test]
fn analysis_of_identifiers_only_is_empty() {
    let (g, t) = ranked_graph();
    let mut id = row("<id>", 50, 50);
    id.uniqueness = Ratio { num: 4, den: 4 };
    let mut unused = row("<unused>", 0, 0);
    unused.uniqueness = Ratio { num: 0, den: 0 };
    let type_row = row("<http://www.w3.org/1999/02/22-rdf-syntax-ns#type>", 1, 1);
    assert!(kg().analyse_measured(&g, &t, 1, &vec![id, unused, type_row]).is_none());
    assert!(kg().analyse_measured(&g, &t, 1, &Vec::new()).is_none());
}

#[test]
fn a_fresh_cache_is_used_and_a_stale_one_is_not() {
    let (g, t) = ranked_graph();
    let cached = || CachedAnalysis { version: 5, rows: vec![row("<old>", 1, 1)] };
    // computed at the current version: the cached rows come back
    let fresh = kg()
        .stat_anal_predicates(Some(cached()), 5, &g, &t, 1, || -> Vec<PredicateStats> {
            panic!("a fresh analysis is not measured again")
        })
        .unwrap();
    assert_eq!(fresh.store_as, None);
    assert_eq!(fresh.rows.len(), 1);
    assert_eq!(fresh.rows[0].predicate, "<old>");
    // computed at another version: the rows are measured anew, even if they
    // would be the same, and are to be stored under the current version
    for stale in [Some(cached()), None] {
        let anew = kg()
            .stat_anal_predicates(stale, 6, &g, &t, 1, || vec![row("<p>", 10, 100), row("<q>", 30, 300)])
            .unwrap();
        assert_eq!(anew.store_as, Some(6));
        let names: Vec<&str> = anew.rows.iter().map(|r| r.predicate.as_str()).collect();
        assert_eq!(names, vec!["<p>", "<q>"]);
        assert_eq!(anew.rows[1].edge_rank, Ratio { num: 2, den: 7 });
    }
    let same = kg()
        .stat_anal_predicates(Some(cached()), 6, &g, &t, 1, || vec![row("<old>", 1, 1)])
        .unwrap();
    assert_eq!(same.store_as, Some(6));
    assert_eq!(same.rows[0].edge_rank, Ratio { num: 0, den: 7 });
    // nothing is left of what was measured
    assert!(kg().stat_anal_predicates(Some(cached()), 6, &g, &t, 1, Vec::new).is_none());
}

#[test]
fn the_type_predicate_is_not_measured() {
    let predicates = vec![
        "<p>".to_string(),
        "<http://www.w3.org/1999/02/22-rdf-syntax-ns#type>".to_string(),
        "<q>".to_string(),
    ];
    assert_eq!(predicates_to_measure(&predicates), vec!["<p>".to_string(), "<q>".to_string()]);
    assert!(predicates_to_measure(&Vec::new()).is_empty());
}

fn measured_entropy(groups: Vec<u64>, total_uses: u64) -> u64 {
    kg()
        .stat_anal_single_predicate("<p>", 1, 1, 1, 1, total_uses, &groups, neg_log2, &Vec::new())
        .unwrap()
        .entropy
}

#[test]
fn entropy_of_a_measured_predicate() {
    assert_eq!(measured_entropy(vec![10, 0, 0], 10), 0);
    assert_eq!(measured_entropy(vec![5, 5], 10), SCALE);
    assert_eq!(measured_entropy(vec![1, 1, 1, 1], 4), 2 * SCALE);
    // a predicate without uses has no entropy
    assert_eq!(measured_entropy(Vec::new(), 0), 0);
}

fn neg_log2(n: u64, total: u64) -> u64 {
    (-(n as f64 / total as f64).log2() * SCALE as f64).round() as u64
}

#[test]
fn entropy_of_one_group_is_zero() {
    assert_eq!(entropy_of(&vec![10, 0, 0], 10, neg_log2), Some(0));
}

#[test]
fn entropy_of_an_even_split() {
    assert_eq!(entropy_of(&vec![5, 5], 10, neg_log2), Some(SCALE));
    assert_eq!(entropy_of(&vec![1, 1, 1, 1], 4, neg_log2), Some(2 * SCALE));
}

#[test]
fn entropy_weighs_each_group_by_its_share() {
    // shares 3/4 and 1/4 with logarithms given as 2 and 6
    assert_eq!(entropy_from(&vec![3, 1], &vec![2, 6], 4), Some(3));
    assert_eq!(entropy_from(&vec![3, 1], &vec![2, 7], 4), Some(3));
    assert_eq!(entropy_from(&Vec::new(), &Vec::new(), 4), Some(0));
    assert_eq!(entropy_from(&vec![3, 1], &vec![2, 6], 0), None);
    assert_eq!(entropy_from(&vec![u64::MAX, u64::MAX], &vec![u64::MAX, u64::MAX], 1), None);
    assert_eq!(entropy_from(&vec![u64::MAX], &vec![4], 4), Some(u64::MAX));
    assert_eq!(entropy_from(&vec![u64::MAX], &vec![5], 4), None);
}
