use kg_explorer::graph::Ratio;
use kg_explorer::predicates::{PredicateStats, SCALE};
use kg_explorer::scores::{
    compute_scores, decide, features, fuse, Decision, PredicateFeatures, ScoredPredicate,
};
use kg_explorer::store::KG;

fn kg() -> KG {
    KG { dataset: "books".to_string(), nb_parts: 1, history_path: String::new() }
}

fn row(name: &str, quality: u64) -> PredicateStats {
    PredicateStats {
        predicate: name.to_string(),
        frequency: Ratio { num: 1, den: 2 },
        uniqueness: Ratio { num: 1, den: 3 },
        entropy: 5,
        quality,
        edge_rank: Ratio { num: 1, den: 7 },
    }
}

fn half() -> u32 {
    (SCALE / 2) as u32
}

#[test]
fn fuse_ranks_by_weight_and_scores_out_of_a_hundred() {
    let data = vec![row("<a>", 1), row("<b>", 2), row("<c>", 3), row("<d>", 4)];
    let out = fuse(data, &vec![10, 60, 0, 30], &vec![1, 2, 3, 4]);
    let names: Vec<&str> = out.iter().map(|r| r.stats.predicate.as_str()).collect();
    assert_eq!(names, vec!["<b>", "<d>", "<a>", "<c>"]);
    let scores: Vec<Ratio> = out.iter().map(|r| r.score).collect();
    assert_eq!(
        scores,
        vec![
            Ratio { num: 6000, den: 100 },
            Ratio { num: 3000, den: 100 },
            Ratio { num: 1000, den: 100 },
            Ratio { num: 0, den: 100 },
        ]
    );
    let ratios: Vec<Option<Ratio>> = out.iter().map(|r| r.score_ratio).collect();
    assert_eq!(
        ratios,
        vec![
            Some(Ratio { num: 30, den: 60 }),
            Some(Ratio { num: 10, den: 30 }),
            Some(Ratio { num: 0, den: 10 }),
            None,
        ]
    );
    let confidences: Vec<u32> = out.iter().map(|r| r.confidence).collect();
    assert_eq!(confidences, vec![2, 4, 1, 3]);
    assert_eq!(out[0].stats.quality, 2);
}

#[test]
fn fused_scores_descend_and_ratios_stay_within_one() {
    let data: Vec<PredicateStats> = (0..6).map(|i| row(&format!("<p{}>", i), i)).collect();
    let out = fuse(data, &vec![3, 9, 9, 1, 4, 7], &vec![0; 6]);
    for pair in out.windows(2) {
        assert!(pair[0].score.num >= pair[1].score.num);
        assert_eq!(pair[0].score.den, pair[1].score.den);
        let ratio = pair[0].score_ratio.unwrap();
        assert!(ratio.num > 0 && (ratio.num as u128) <= ratio.den);
    }
    // equal weights keep the order they came in
    assert_eq!(out[0].stats.predicate, "<p1>");
    assert_eq!(out[1].stats.predicate, "<p2>");
}

#[test]
fn fuse_of_weightless_rows_scores_zero() {
    let out = fuse(vec![row("<a>", 1), row("<b>", 2)], &vec![0, 0], &vec![5, 6]);
    assert_eq!(out[0].score, Ratio { num: 0, den: 1 });
    assert_eq!(out[1].score, Ratio { num: 0, den: 1 });
    assert_eq!(out[0].stats.predicate, "<a>");
    assert!(fuse(Vec::new(), &Vec::new(), &Vec::new()).is_empty());
}

#[test]
fn compute_scores_asks_both_sources() {
    let data = vec![row("<a>", 1), row("<b>", 2), row("<c>", 3)];
    let weigh = |f: PredicateFeatures, n: usize| -> u32 { (f.quality as u32) * (n as u32) };
    let classify = |f: PredicateFeatures| -> u32 { 100 + f.quality as u32 };
    let out = compute_scores(data, weigh, classify);
    let names: Vec<&str> = out.iter().map(|r| r.stats.predicate.as_str()).collect();
    assert_eq!(names, vec!["<c>", "<b>", "<a>"]);
    let weights: Vec<u32> = out.iter().map(|r| r.softmax).collect();
    assert_eq!(weights, vec![9, 6, 3]);
    let confidences: Vec<u32> = out.iter().map(|r| r.confidence).collect();
    assert_eq!(confidences, vec![103, 102, 101]);
    assert_eq!(out[0].score, Ratio { num: 900, den: 18 });
    assert_eq!(
        features(&out[0].stats),
        PredicateFeatures {
            frequency: Ratio { num: 1, den: 2 },
            uniqueness: Ratio { num: 1, den: 3 },
            entropy: 5,
            quality: 3,
            edge_rank: Ratio { num: 1, den: 7 },
        }
    );
}

fn scored(weights: &[u32], confidences: &[u32]) -> Vec<ScoredPredicate> {
    let data: Vec<PredicateStats> =
        (0..weights.len()).map(|i| row(&format!("<p{}>", i), i as u64)).collect();
    fuse(data, &weights.to_vec(), &confidences.to_vec())
}

#[test]
fn classifier_decides_where_it_keeps() {
    let rows = scored(&[50, 30, 20], &[half() + 1, half() + 1, half() + 1]);
    let d = decide(&rows);
    assert_eq!(
        d,
        vec![
            Decision { classifier_keeps: true, score_keeps: true, keep: true },
            Decision { classifier_keeps: true, score_keeps: true, keep: true },
            // the scores before the third row sum to 80, beyond the budget of 60
            Decision { classifier_keeps: true, score_keeps: false, keep: true },
        ]
    );
}

#[test]
fn budget_ends_at_sixty() {
    // the scores before the rows sum to 0, 60 and 90
    let rows = scored(&[60, 30, 10], &[0, 0, 0]);
    let d = decide(&rows);
    let by_score: Vec<bool> = d.iter().map(|x| x.score_keeps).collect();
    assert_eq!(by_score, vec![true, false, false]);
    // 59 is still below the budget
    let rows = scored(&[59, 31, 10], &[0, 0, 0]);
    let by_score: Vec<bool> = decide(&rows).iter().map(|x| x.score_keeps).collect();
    assert_eq!(by_score, vec![true, true, false]);
}

#[test]
fn hybrid_value_decides_where_only_the_score_keeps() {
    // score-kept rows: weights 40 and 30 (mean 35); the third row is beyond the budget
    // row 0: hybrid = c * (1 + 40/35) = c * 15/7, which reaches 0.5 from c = 7/30
    let c_low = (SCALE * 7 / 30) as u32;
    let rows = scored(&[40, 30, 30], &[c_low, c_low + 1, half()]);
    let d = decide(&rows);
    assert_eq!(d[0], Decision { classifier_keeps: false, score_keeps: true, keep: false });
    let rows = scored(&[40, 30, 30], &[c_low + 1, 0, half()]);
    let d = decide(&rows);
    assert_eq!(d[0], Decision { classifier_keeps: false, score_keeps: true, keep: true });
    assert_eq!(d[1], Decision { classifier_keeps: false, score_keeps: true, keep: false });
    // a confidence of exactly one half does not make the classifier keep the row,
    // and neither does the score
    assert_eq!(d[2], Decision { classifier_keeps: false, score_keeps: false, keep: false });
}

#[test]
fn weightless_rows_have_no_hybrid_value() {
    let rows = scored(&[0, 0], &[half(), half() + 1]);
    let d = decide(&rows);
    assert_eq!(d[0], Decision { classifier_keeps: false, score_keeps: true, keep: false });
    assert_eq!(d[1], Decision { classifier_keeps: true, score_keeps: true, keep: true });
    assert!(decide(&Vec::new()).is_empty());
}

#[test]
fn good_entities_carry_more_than_half_of_the_score() {
    let rows = scored(&[50, 30, 20], &[0, 0, 0]);
    let names = |v: &[&str]| -> Vec<String> { v.iter().map(|s| s.to_string()).collect() };
    let entities = vec![
        names(&["<p0>", "<p2>"]),         // 70 of 100
        names(&["<p0>"]),                 // 50: not more than half
        names(&["<p1>", "<p2>", "<x>"]),  // 50
        names(&["<p0>", "<p1>", "<p2>"]), // 100
        names(&[]),
    ];
    assert_eq!(kg().analyse_objects(&rows, &entities), 2);
    assert_eq!(kg().analyse_objects(&rows, &Vec::new()), 0);
    assert_eq!(kg().analyse_objects(&Vec::new(), &entities), 0);
}
