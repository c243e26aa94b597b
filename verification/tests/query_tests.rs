use kg_explorer::queries::{
    class_connections_query, class_count_query, complex_connections_query, description_query, distinct_count_query, distinct_objects_query, entities_query, entropy_query, frequency_query, image_address_query, images_query, instance_count_query, name_query, objects_query, outgoing_edges_query, predicates_query, quality_query, references_query, simple_connections_query, statements_query, subject_predicates_query, types_query, uses_query, plan_merge, CLASSES_QUERY, CLASS_COUNTS_QUERY, COUNT_LINES_QUERY, MERGE_UPDATE,
};

#[test]
fn objects_query_text() {
    let expected = format!(
        r##"
            SELECT DISTINCT ?obj WHERE {{
                ?obj a {}.
            }}
            LIMIT {}
            OFFSET {}
        "##,
        "<http://schema.org/Book>", 50, 100
    );
    assert_eq!(objects_query("<http://schema.org/Book>", 50, 100), expected);
}

#[test]
fn types_query_text() {
    let expected = format!(
        r##"
        SELECT ?otype WHERE {{
            {} a ?otype .
        }}
    "##,
        "<http://x/e>"
    );
    assert_eq!(types_query("<http://x/e>"), expected);
}

#[test]
fn name_query_text() {
    let expected = format!(
        r##"
            SELECT ?name WHERE {{
                {} <http://schema.org/name> ?name .
            }}
            LIMIT 1
        "##,
        "<http://x/e>"
    );
    assert_eq!(name_query("<http://x/e>"), expected);
}

#[test]
fn description_query_text() {
    let expected = format!(
        r##"
            SELECT ?description WHERE {{
                {} <http://schema.org/description> ?description .
            
            }}
            LIMIT 1
        "##,
        "<http://x/e>"
    );
    assert_eq!(description_query("<http://x/e>"), expected);
}

#[test]
fn image_address_query_text() {
    let expected = format!(
        r##"
            SELECT ?img WHERE {{
        {0} <http://schema.org/url> ?img .
            }}
                
                "##,
        "<http://x/e>"
    );
    assert_eq!(image_address_query("<http://x/e>"), expected);
}

#[test]
fn images_query_text() {
    let expected = format!(
        r##"
        SELECT ?img WHERE {{
          {{
            {0} <http://schema.org/image> ?img .
          }}
          UNION {{
            {0} <http://schema.org/photo> ?img .
          }}
          UNION {{
            {0} <http://schema.org/logo> ?img .
          }}
          UNION {{
            {0} <http://xmlns.com/foaf/0.1/depiction> ?img .
          }}
        }} 
    "##,
        "<http://x/e>"
    );
    assert_eq!(images_query("<http://x/e>"), expected);
}

#[test]
fn predicates_query_text() {
    let expected = format!(
        r##"
SELECT DISTINCT ?p WHERE {{
    ?s a {0}.
    ?s ?p ?o.
}}
"##,
        "<T>"
    );
    assert_eq!(predicates_query("<T>"), expected);
}

#[test]
fn class_count_query_text() {
    let expected = format!(
        r##"
SELECT (COUNT (DISTINCT ?s) as ?cnt)
WHERE {{
        ?s a {0}.
}}
"##,
        "<T>"
    );
    assert_eq!(class_count_query("<T>"), expected);
}

#[test]
fn frequency_query_text() {
    let expected = format!(
        r##"
SELECT (COUNT(DISTINCT ?s) as ?cnt)
WHERE {{
        ?s a {0};
        {1} ?o.
}}
        "##,
        "<T>", "<p>"
    );
    assert_eq!(frequency_query("<T>", "<p>"), expected);
}

#[test]
fn distinct_objects_query_text() {
    let expected = format!(
        r##"
SELECT (COUNT(DISTINCT ?o) as ?cnt){{
        ?s a {0};
        {1} ?o.
}}        
"##,
        "<T>", "<p>"
    );
    assert_eq!(distinct_objects_query("<T>", "<p>"), expected);
}

#[test]
fn entropy_query_text() {
    let expected = format!(
        r##"
SELECT (COUNT(?s) AS ?cnt) 
WHERE {{
    ?s a {0}.
    ?s {1} ?v.
}} 
GROUP BY ?v
            
            "##,
        "<T>", "<p>"
    );
    assert_eq!(entropy_query("<T>", "<p>"), expected);
}

#[test]
fn uses_query_text() {
    let expected = format!(
        r##"
SELECT (COUNT(?o) AS ?cnt) 
WHERE {{
    ?s a {0}.
    ?s {1} ?o.
}}
            
            "##,
        "<T>", "<p>"
    );
    assert_eq!(uses_query("<T>", "<p>"), expected);
}

#[test]
fn quality_query_text() {
    let expected = format!(
        r##"
        SELECT (COUNT(DISTINCT ?p2) as ?cnt) WHERE {{
            ?s a {0}.
            ?s {1} ?o1.
            ?s ?p2 ?o2.
            FILTER(?p2!={1})
        }}
        GROUP BY ?s
        "##,
        "<T>", "<p>"
    );
    assert_eq!(quality_query("<T>", "<p>"), expected);
}

#[test]
fn instance_count_query_text() {
    let expected = format!(
        r##"
            SELECT (COUNT(?s) as ?cnt) WHERE {{
                ?s a {0}.
            }}
            "##,
        "<T>"
    );
    assert_eq!(instance_count_query("<T>"), expected);
}

#[test]
fn outgoing_edges_query_text() {
    let expected = format!(
        r##"
SELECT ?p ?t2 (COUNT(?o) as ?cnt) WHERE {{
    ?s ?p ?o.
    ?s a {0}.
    OPTIONAL {{?o a ?t2}}
}}
GROUP BY ?p ?t2
            "##,
        "<T>"
    );
    assert_eq!(outgoing_edges_query("<T>"), expected);
}

#[test]
fn entities_query_text() {
    let expected = format!(
        r##"
        SELECT ?s {{
            ?s a {0}
        }}
        "##,
        "<T>"
    );
    assert_eq!(entities_query("<T>"), expected);
}

#[test]
fn subject_predicates_query_text() {
    let expected = format!(
        r##"
                        SELECT DISTINCT ?p WHERE {{
                            {0} ?p ?v.
                        }}
                    "##,
        "<http://x/e>"
    );
    assert_eq!(subject_predicates_query("<http://x/e>"), expected);
}

#[test]
fn statements_query_text() {
    let expected = format!(
        r##"
      SELECT ?pred ?obj WHERE {{
        {0} ?pred ?obj .
      }}
      "##,
        "<http://x/e>"
    );
    assert_eq!(statements_query("<http://x/e>"), expected);
}

#[test]
fn references_query_text() {
    let expected = format!(
        r##"
      SELECT ?sub ?pred WHERE {{
        ?sub ?pred {0} .
      }}
      "##,
        "<http://x/e>"
    );
    assert_eq!(references_query("<http://x/e>"), expected);
}

#[test]
fn simple_connections_query_text() {
    let expected = format!(
        r##"PREFIX schema: <http://schema.org/>
                    SELECT DISTINCT ?predicate ?object
                    WHERE {{
                {0} ?predicate ?object .
                    FILTER NOT EXISTS {{
                        ?object ?otherPredicate ?otherSubject .
                }}
                }}"##,
        "<http://x/e>"
    );
    assert_eq!(simple_connections_query("<http://x/e>"), expected);
}

#[test]
fn complex_connections_query_text() {
    let expected = format!(
        r##"PREFIX schema: <http://schema.org/>
                    SELECT DISTINCT ?predicate ?object
                    WHERE {{
                        {0} ?predicate ?object .
                        ?object ?p ?oo .
                }}"##,
        "<http://x/e>"
    );
    assert_eq!(complex_connections_query("<http://x/e>"), expected);
}

#[test]
fn class_connections_query_text() {
    let expected = format!(
        r##"PREFIX schema: <http://schema.org/>
                    SELECT DISTINCT ?predicate ?object
                    FROM <urn:class_relations>
                    WHERE {{
                        {0} ?predicate ?object .
                        ?object ?p ?oo .
                }}"##,
        "<T>"
    );
    assert_eq!(class_connections_query("<T>"), expected);
}

#[test]
fn distinct_count_query_text() {
    let expected = format!(
        r##"
SELECT (COUNT(DISTINCT ?s) as ?cnt)
WHERE {{
    ?s a {0}.

}}    
"##,
        "<T>"
    );
    assert_eq!(distinct_count_query("<T>"), expected);
}

#[test]
fn merge_plan() {
    let ent = "<T>";
    let merge_using = vec!["<p>".to_string(), "<q>".to_string()];
    let mut criteres = String::new();
    for (i, m) in merge_using.iter().enumerate() {
        criteres += &format!("?s1 {m} ?o{i}. ?s2 {m} ?o{i}.");
    }
    let q = format!(
        r#"SELECT ?s1 ?s2 WHERE  {{
    ?s1 a {0}.
    ?s2 a {0}.
    {criteres}
    FILTER(STR(?s1) < STR(?s2))
}}
        "#,
        ent
    );
    let update = r#"DELETE { ?sub ?pred {{s2}} }
INSERT { ?sub ?pred {{s1}} }
WHERE  { ?sub ?pred {{s2}} };
DELETE { {{s2}} ?p ?o }
INSERT { {{s1}} ?p ?o }
WHERE  { {{s2}} ?p ?o }
        "#;
    let history = format!(
        "```sparql\n{}\n#\n{}```",
        q,
        r#"
DELETE { ?sub ?pred {{s2}} }
INSERT { ?sub ?pred {{s1}} }
WHERE  { ?sub ?pred {{s2}} };
DELETE { {{s2}} ?p ?o }
INSERT { {{s1}} ?p ?o }
WHERE  { {{s2}} ?p ?o }
        "#
    );
    let m = plan_merge(ent, &merge_using);
    let kg = kg_explorer::store::KG::from_wdc("Book", 1);
    assert_eq!(kg.merge_entities(ent.to_string(), merge_using.clone()).select, q);
    assert_eq!(m.select, q);
    assert_eq!(m.update, update);
    assert_eq!(m.update, MERGE_UPDATE);
    assert_eq!(m.history, history);
}

#[test]
fn fixed_queries() {
    assert_eq!(COUNT_LINES_QUERY, "SELECT (COUNT(*) as ?count) WHERE { ?s ?p ?o }");
    assert_eq!(
        CLASSES_QUERY,
        "SELECT DISTINCT ?t WHERE {
            ?s a ?t.
        }"
    );
    assert_eq!(
        CLASS_COUNTS_QUERY,
        r#"
SELECT ?t (COUNT(?s) AS ?count)
WHERE {
    ?s a ?t .
}
GROUP BY ?t
ORDER BY DESC(?count)
"#
    );
}
