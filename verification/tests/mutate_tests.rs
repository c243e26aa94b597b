use kg_explorer::graph::Ratio;
use kg_explorer::mutate::{history_block, is_ratio_above, join, Resolution, CONFLICT_QUERY};
use kg_explorer::store::KG;
use kg_explorer::text::string_of;

fn kg() -> KG {
    KG { dataset: "books".to_string(), nb_parts: 1, history_path: String::new() }
}

#[test]
fn keep_types_lists_the_classes() {
    let keep = vec!["<a>".to_string(), "<b>".to_string()];
    let filter = "<a>,<b>";
    let expected = format!(
        "
DELETE {{
    ?s a ?t .
        }}
WHERE {{
    ?s a ?t .
    FILTER( !(
        ?t IN (
        {filter}
        )
    ))
        }}
        
        "
    );
    assert_eq!(kg().keep_types(&keep), expected);
    assert_eq!(string_of(&join(&keep, ",")), "<a>,<b>");
    assert_eq!(string_of(&join(&Vec::new(), ",")), "");
    assert_eq!(string_of(&join(&vec!["x".to_string()], ", ")), "x");
}

#[test]
fn delete_predicate_names_class_and_predicate() {
    let otype = "<http://schema.org/Book>";
    let pred = "<http://schema.org/isbn>";
    let expected = format!(
        r#"
            DELETE {{
                ?s {pred} ?pval.
            }}
            WHERE {{
                ?s a {otype}.
                ?s {pred} ?pval.
            }}
        
        "#
    );
    assert_eq!(kg().delete_predicate(otype, pred), expected);
}

#[test]
fn history_block_wraps_the_update() {
    assert_eq!(history_block("DELETE {}"), "```sparql\nDELETE {}\n```");
}

#[test]
fn ratios_compare_across_denominators() {
    assert!(is_ratio_above(Ratio { num: 9, den: 10 }, Ratio { num: 4, den: 10 }));
    assert!(is_ratio_above(Ratio { num: 1, den: 2 }, Ratio { num: 1, den: 3 }));
    assert!(!is_ratio_above(Ratio { num: 1, den: 2 }, Ratio { num: 2, den: 4 }));
    assert!(!is_ratio_above(Ratio { num: 1, den: 3 }, Ratio { num: 1, den: 2 }));
    assert!(is_ratio_above(
        Ratio { num: u64::MAX, den: u64::MAX as u128 - 1 },
        Ratio { num: u64::MAX, den: u64::MAX as u128 }
    ));
    assert!(is_ratio_above(
        Ratio { num: u64::MAX, den: u128::MAX - 1 },
        Ratio { num: u64::MAX, den: u128::MAX }
    ));
    assert!(!is_ratio_above(
        Ratio { num: u64::MAX - 1, den: u128::MAX },
        Ratio { num: u64::MAX, den: u128::MAX }
    ));
    assert!(!is_ratio_above(Ratio { num: 0, den: 0 }, Ratio { num: 5, den: 0 }));
}

#[test]
fn duplicate_type_keeps_the_higher_score() {
    // entity typed both A (0.9) and B (0.4)
    let a = ("<A>".to_string(), Ratio { num: 9, den: 10 });
    let b = ("<B>".to_string(), Ratio { num: 4, den: 10 });
    for conflict in [
        (a.0.clone(), a.1, b.0.clone(), b.1),
        (b.0.clone(), b.1, a.0.clone(), a.1),
    ] {
        match kg().fix_types(Some(conflict)) {
            Resolution::Demote { keep, skip, update } => {
                assert_eq!(keep, "<A>");
                assert_eq!(skip, "<B>");
                let expected = format!(
                    r#"
                        DELETE {{
                            ?s a {skip}.
                        }}
                        INSERT {{
                            ?s <http://schema.org/additionaltype> {skip}.
                        }}
                        WHERE {{
                            ?s a {skip}.
                            ?s a {keep}.
                        }}
                    
                    "#
                );
                assert_eq!(update, expected);
            }
            Resolution::Settled => panic!("a conflict was given"),
        }
    }
    // once no entity carries two types, the dataset is settled
    assert!(matches!(kg().fix_types(None), Resolution::Settled));
}

#[test]
fn equal_scores_keep_the_second_type() {
    let r = kg().fix_types(Some((
        "<A>".to_string(),
        Ratio { num: 1, den: 2 },
        "<B>".to_string(),
        Ratio { num: 2, den: 4 },
    )));
    match r {
        Resolution::Demote { keep, skip, .. } => {
            assert_eq!(keep, "<B>");
            assert_eq!(skip, "<A>");
        }
        Resolution::Settled => panic!("a conflict was given"),
    }
}

#[test]
fn conflict_query_asks_for_one_pair() {
    let expected = "
        SELECT DISTINCT ?t1 ?t2  {{
            ?s a ?t1.
            ?s a ?t2.
            FILTER (?t1!=?t2)
        }}
        LIMIT 1
        ";
    assert_eq!(CONFLICT_QUERY, expected);
}
