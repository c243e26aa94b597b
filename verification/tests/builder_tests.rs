use kg_explorer::builder::{class_relation_insert, relations_of, EdgeRow, Relation};
use kg_explorer::store::KG;

fn kg() -> KG {
    KG { dataset: "books".to_string(), nb_parts: 1, history_path: String::new() }
}

fn relation(source: &str, predicate: &str, target: &str, count: u64) -> Relation {
    Relation {
        source: source.to_string(),
        predicate: predicate.to_string(),
        target: target.to_string(),
        count,
    }
}

#[test]
fn rows_become_relations() {
    let rows = vec![
        EdgeRow { predicate: "<author>".to_string(), target: Some("<Person>".to_string()), count: 100 },
        EdgeRow {
            predicate: "<http://www.w3.org/1999/02/22-rdf-syntax-ns#type>".to_string(),
            target: None,
            count: 100,
        },
        EdgeRow { predicate: "<name>".to_string(), target: None, count: 90 },
    ];
    let out = relations_of("<Book>", &rows);
    assert_eq!(out.len(), 2);
    assert_eq!(
        (out[0].source.as_str(), out[0].predicate.as_str(), out[0].target.as_str(), out[0].count),
        ("<Book>", "<author>", "<Person>", 100)
    );
    assert_eq!(
        (out[1].source.as_str(), out[1].predicate.as_str(), out[1].target.as_str(), out[1].count),
        ("<Book>", "<name>", "Literal", 90)
    );
}

#[test]
fn class_relations_are_recorded_but_for_literals() {
    let r = relation("<Book>", "<author>", "<Person>", 100);
    let expected = format!(
        r#"
INSERT DATA {{   
    GRAPH <urn:class_relations> {{
        {} {} {}.
    }}
}}"#,
        "<Book>", "<author>", "<Person>"
    );
    assert_eq!(class_relation_insert(&r), Some(expected));
    assert_eq!(class_relation_insert(&relation("<Book>", "<name>", "Literal", 1)), None);
}

#[test]
fn graph_is_built_from_classes_and_relations() {
    let types = vec!["<Book>".to_string(), "<Person>".to_string()];
    let type_predicate = "<http://www.w3.org/1999/02/22-rdf-syntax-ns#type>";
    let adj = vec![
        relation("<Book>", type_predicate, "<Nowhere>", 100),
        relation("<Book>", "<author>", "<Person>", 100),
        relation("<Book>", "<name>", "Literal", 90),
        relation("<Person>", type_predicate, "Literal", 80),
        relation("<Person>", "<name>", "Literal", 80),
    ];
    let g = kg().calculate_class_relations_graph(&types, &adj).unwrap();
    assert_eq!(g.node_count(), 3);
    assert_eq!(g.node_name(0), "Literal");
    assert_eq!(g.node_name(1), "<Book>");
    assert_eq!(g.node_name(2), "<Person>");
    assert_eq!(g.edge_count(), 3);
    assert_eq!((g.edge_source(0), g.edge_target(0), g.edge_weight(0)), (1, 2, 100));
    assert_eq!(g.edge_predicate(0), "<author>");
    assert_eq!((g.edge_source(1), g.edge_target(1), g.edge_weight(1)), (1, 0, 90));
    assert_eq!((g.edge_source(2), g.edge_target(2), g.edge_weight(2)), (2, 0, 80));
    assert_eq!(g.edge_forward(0), None);
    assert_eq!(g.find_node("<Person>"), Some(2));
    assert_eq!(g.find_node("<Nobody>"), None);
}

#[test]
fn unknown_classes_cannot_be_placed() {
    let types = vec!["<Book>".to_string()];
    assert!(kg()
        .calculate_class_relations_graph(&types, &vec![relation("<Book>", "<p>", "<Person>", 1)])
        .is_none());
    assert!(kg()
        .calculate_class_relations_graph(&types, &vec![relation("<Person>", "<p>", "<Book>", 1)])
        .is_none());
    assert!(kg()
        .calculate_class_relations_graph(&types, &vec![relation("Literal", "<p>", "<Book>", 1)])
        .is_none());
    let empty = kg().calculate_class_relations_graph(&Vec::new(), &Vec::new()).unwrap();
    assert_eq!(empty.node_count(), 1);
}
