use kg_explorer::item::{extract_literal, format_json, Connection, Item, Term};
use kg_explorer::web_ui::views::{
    class_edges, class_nodes, entity_edges, entity_image, headers_js, history_cards, query_message,
    references_table, rows_js, run_results, statements_table, type_links, RunFailure,
};

fn named(iri: &str) -> Term {
    Term::NamedNode(iri.to_string())
}

fn literal(value: &str) -> Term {
    Term::Literal { value: value.to_string(), written: format!("\"{}\"", value) }
}

#[test]
fn terms_are_written_as_the_store_writes_them() {
    assert_eq!(named("http://x/a").to_text(), "<http://x/a>");
    assert_eq!(Term::BlankNode("b0".to_string()).to_text(), "_:b0");
    assert_eq!(literal("v").to_text(), "\"v\"");
    assert_eq!(Term::Triple("<< a b c >>".to_string()).to_text(), "<< a b c >>");
}

#[test]
fn literals_and_names_are_extracted() {
    assert_eq!(extract_literal(Some(&literal("12"))), Some("12".to_string()));
    assert_eq!(extract_literal(Some(&named("http://x/a"))), Some("http://x/a".to_string()));
    assert_eq!(extract_literal(Some(&Term::BlankNode("b".to_string()))), None);
    assert_eq!(extract_literal(None), None);
}

#[test]
fn item_cards_and_descriptions() {
    let item = Item::new(
        named("http://x/a#b"),
        vec![named("http://x/T")],
        Some("A".to_string()),
        None,
        vec!["i.png".to_string(), "j.png".to_string()],
    );
    assert!(item.is_presentable());
    assert_eq!(
        item.html_rep("[[id]]|[[image]]|[[name]]|[[description]]"),
        "http://x/a%23b|i.png|A|No description available"
    );
    assert_eq!(
        item.describe(),
        "-------------------------\nA Node <http://x/a#b>,\nhas name: A,\nNo description available\n-------------------------------"
    );
    let bare = Item::new(Term::BlankNode("b1".to_string()), Vec::new(), None, None, Vec::new());
    assert_eq!(bare.html_rep("[[id]]|[[image]]|[[name]]"), "b1||Unknown");
    assert!(!Item::new(literal("x"), Vec::new(), None, None, Vec::new()).is_presentable());
}

#[test]
fn json_node_of_an_entity() {
    let props = vec![
        Connection { predicate: named("http://schema.org/name"), object: literal("It's") },
        Connection {
            predicate: named("http://www.w3.org/1999/02/22-rdf-syntax-ns#type"),
            object: named("http://schema.org/ImageObject"),
        },
    ];
    let entity = "<http://x/a>".to_string();
    let name = "It\\'s";
    let imagerow = "image: \"http://x/a\",";
    let inside = "[\":name\",  '\\\"It\\'s\\\"'],[\"type\",  '&lt;http://schema.org/ImageObject&gt;'],";
    let expected = format!(
        r#"
        {{
            id: "{entity}",
            name: "{name}",
            {imagerow}
            url: "/entity/{entity}",
            attributes: [
                {inside}
            ]
    }},
    
    "#
    );
    assert_eq!(format_json(entity.clone(), props), expected);
    let plain = format_json(entity.clone(), Vec::new());
    assert!(plain.contains("name: \"<http://x/a>\","));
    assert!(!plain.contains("image:"));
}

#[test]
fn tables_and_links() {
    let rows = vec![(named("http://x/p"), named("http://x/o")), (named("http://x/q"), literal("v"))];
    let row = |a: &str, b: &str| {
        format!(
            "<tr>
          <td>{}</td>
          <td>{}</td>
        </tr>",
            a, b
        )
    };
    let link = "<a href=\"/entity/<http://x/o>\">&lt;http://x/o&gt;</a>";
    assert_eq!(
        statements_table(&rows),
        format!("{}{}", row("&lt;http://x/p&gt;", link), row("&lt;http://x/q&gt;", "\"v\""))
    );
    let refs = vec![(named("http://x/o"), named("http://x/p"))];
    assert_eq!(references_table(&refs), row(link, "&lt;http://x/p&gt;"));
    assert_eq!(
        type_links(&vec![named("http://x/T")]),
        "<a href=\"/explore?id=<http://x/T>\">&lt;http://x/T&gt;</a>"
    );
    assert_eq!(entity_image(&Vec::new(), "n"), "");
    assert_eq!(
        entity_image(&vec!["a.png".to_string(), "b.png".to_string()], "n"),
        "<img src=\"a.png\" alt=\"n\"  class=\"object-fit-cover d-block mx-auto\" style=\"
          height: 200px;
        \" />"
    );
    assert_eq!(
        query_message("danger", "bad"),
        "<div class=\"alert alert-danger\" role=\"alert\"> bad </div>"
    );
}

#[test]
fn drawing_lists() {
    let cons = vec![("a".to_string(), "b".to_string(), "p".to_string())];
    assert_eq!(entity_edges(&cons), "{source: \"a\", target: \"b\", label: \"p\"},");
    assert_eq!(class_edges(&cons), "{from: \"a\", to: \"b\", label: \"p\"},");
    assert_eq!(
        class_nodes(&vec!["x".to_string(), "y".to_string()]),
        "{id: \"x\", label: \"x\"},{id: \"y\", label: \"y\"},"
    );
}

#[test]
fn result_table_for_the_script() {
    let table = vec![
        vec!["<a>".to_string(), "say \"hi\"".to_string()],
        vec!["back\\slash".to_string()],
        Vec::new(),
    ];
    assert_eq!(rows_js(&table), "[\"<a>\",\"say \\\"hi\\\"\"],[\"back\\\\slash\"],[],");
    assert_eq!(headers_js(&vec!["s".to_string(), "p".to_string()]), "\"s\",\"p\"");
    assert_eq!(headers_js(&Vec::new()), "");
}

#[test]
fn history_becomes_cards() {
    let history = "```sparql\nDELETE { <a> ?p ?o }\n```\ngeneral.sparql::Clean up\nDumping store to ./data/books/version_1.nt\nnote\n";
    let expected = format!(
        "{}{}{}",
        format!(
            "{}{}{}",
            r#"<div class="card mb-3 shadow-sm">
          <div class="card-header bg-light text-dark">SPARQL Script</div>
          <div class="card-body">
            <pre class="bg-dark border p-3"><code>"#,
            "DELETE { &lt;a&gt; ?p ?o }\n",
            "</code></pre>\n  </div>\n</div>\n"
        ),
        format!(
            r#"<div class="card mb-3 shadow-sm">
          <div class="card-header bg-secondary text-white">{}</div>
          <div class="card-body">
            <span class="badge bg-info text-dark">Change</span> {}
          </div>
        </div>
        "#,
            "general.sparql", "Clean up"
        ),
        format!(
            r#"<div class="card mb-3 shadow-sm">
          <div class="card-header bg-success text-white">Dump created!</div>
          <div class="card-body">
            <span class="badge bg-info text-dark">Dump file</span> {}
          </div>
          <div class='d-flex justify-content-center py-2'>
          <a href="/restore/{}" class='btn btn-danger'>Revert to this version(all of the following changes and dumps will be lost)</a>
          </div>
        </div>"#,
            " ./data/books/version_1.nt", "version_1.nt"
        )
    );
    assert_eq!(history_cards(history, "books"), expected);
    assert_eq!(history_cards("", "books"), "");
}

#[test]
fn run_results_report_what_changed() {
    let routines = vec!["a::x".to_string(), "b::y".to_string(), "c::z".to_string()];
    let ok = run_results(&routines, None, 10, 25);
    assert!(ok.contains("<p><strong>Inserted:</strong> 15 triples</p>"));
    assert!(ok.contains("<ul><li>a::x</li><li>b::y</li><li>c::z</li></ul>"));
    assert!(ok.contains("<title>Success</title>"));
    let failed = run_results(
        &routines,
        Some(RunFailure { message: "boom".to_string(), count: 2 }),
        25,
        10,
    );
    assert!(failed.contains("<p><strong>Ran successfully:</strong></p>\n          <ul><li>a::x</li></ul>"));
    assert!(failed.contains("<ul><li class=\"text-danger\">b::y</li></ul>"));
    assert!(failed.contains("<p class=\"alert alert-danger\"> boom</p>"));
    assert!(failed.contains("<p><strong>Skipped:</strong></p>\n          <ul><li>b::y</li><li>c::z</li></ul>"));
    assert!(failed.contains("<p><strong>Deleted:</strong> 15 triples</p>"));
    let unknown = run_results(
        &routines,
        Some(RunFailure { message: "boom".to_string(), count: 0 }),
        5,
        5,
    );
    assert!(unknown.contains("<ul><li class=\"text-danger\">Unknown</li></ul>"));
    assert!(unknown.contains("<p><strong>Ran successfully:</strong></p>\n          <ul></ul>"));
    assert!(unknown.contains("<p><strong>Inserted:</strong> 0 triples</p>"));
}
