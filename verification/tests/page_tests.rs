use kg_explorer::web_ui::html_templates::{
    analysis_page, class_analysis_page, class_card, class_relation_graph, entity_page, explore_page,
    history_page, index_page, object_card, predicate_analysis_page, procedure_section, query_page,
    routines_page, script_card,
};

#[test]
fn simple_pages_fill_their_templates() {
    assert_eq!(analysis_page("[[nav]]|[[start_with]]", "N", "Book"), "N|Book");
    assert_eq!(history_page("[[nav]]|[[inside]]", "N", "H".to_string()), "N|H");
    assert_eq!(class_analysis_page("[[class_anal]][[nav]]", "N", "<tr/>"), "<tr/>N");
    assert_eq!(routines_page("[[nav]] [[script_cards]]", "N", "cards"), "N cards");
    assert_eq!(class_relation_graph("[[nodes]];[[edges]];[[nav]]", "N", "n", "e"), "n;e;N");
    assert_eq!(
        object_card("[[id]],[[image]],[[name]],[[description]]", "n", "d", "i", "x"),
        "x,i,n,d"
    );
}

#[test]
fn predicate_page_lists_what_to_delete() {
    let preds = vec![("<A>".to_string(), "<p>".to_string()), ("<B>".to_string(), "<q>".to_string())];
    assert_eq!(
        predicate_analysis_page("[[classes]] [[preds_to_delete]]", "N", "C", preds),
        "C {class: \"<A>\", pred: \"<p>\"},{class: \"<B>\", pred: \"<q>\"},"
    );
}

#[test]
fn class_cards_show_the_short_name() {
    assert_eq!(
        class_card("[[index]] [[name]] [[entity_name]] [[count]]", 3, "<http://schema.org/Book>", 42),
        "3 <http://schema.org/Book> Book 42"
    );
    let counts = vec![("<http://x/A>".to_string(), 7u32), ("<B>".to_string(), 1u32)];
    assert_eq!(
        index_page(
            "[[ds_name]]:[[total_cards]]:[[all_cards]]",
            "N",
            "([[index]],[[entity_name]],[[count]])",
            "Books",
            &counts
        ),
        "books:2:(0,A,7)(1,<B,1)"
    );
}

#[test]
fn explore_page_links_to_its_neighbours() {
    let first = explore_page("[[navigation]]", "N", "<X>", 1, "");
    assert_eq!(
        first,
        "<div class=\"d-flex justify-content-between gap-2 mt-4\"><button class=\"btn btn-outline-secondary\" disabled>Previous</button><p>Page 1</p><a class=\"btn btn-outline-primary\" href=\"/explore?id=<X>&page=2\">Next</a></div>"
    );
    let third = explore_page("[[data]][[navigation]]", "N", "<X>", 3, "D");
    assert_eq!(
        third,
        "D<div class=\"d-flex justify-content-between gap-2 mt-4\"><a class=\"btn btn-outline-primary\" href=\"/explore?id=<X>&page=2\">Previous</a><p>Page 3</p><a class=\"btn btn-outline-primary\" href=\"/explore?id=<X>&page=4\">Next</a></div>"
    );
}

#[test]
fn query_page_embeds_its_script() {
    assert_eq!(
        query_page(
            "[[message]] [[nb_results]] [[js]]",
            "rows=[[table_rows_js_array]];heads=[[table_headers_js_array]];key=[[api_key]]",
            "N",
            "K",
            12,
            "R",
            "H",
            "ok"
        ),
        "ok 12 rows=R;heads=H;key=K"
    );
}

#[test]
fn entity_page_fills_all_fields() {
    assert_eq!(
        entity_page(
            "[[nav]][[image]][[uri]][[otype]][[name]][[description]][[table_1]][[table_2]][[js]][[nodes]][[cons]]",
            "J", "N", "U", "M", "D", "O", "I", "1", "2", "S", "C"
        ),
        "NIUOMD12JSC"
    );
}

#[test]
fn procedure_sections_escape_their_query() {
    let file = "f.sparql";
    let name = "Do it";
    let elem_id = "f.sparql::Do it";
    let query = "a &lt; b";
    let expected = format!(
        r#"<div class="mb-3">
    <div class="form-check">
        <input class="form-check-input file-proc" type="checkbox"
               name="{elem_id}"
               data-file="{file}" data-id="{elem_id}"
               onchange="toggleProcedure(this)">
        <label class="form-check-label fw-bold">{name}</label>
    </div>
    <pre class="bg-body border rounded p-2 mt-2" style="display:none" id="{elem_id}"><code>{query}</code></pre>
</div>"#
    );
    assert_eq!(procedure_section(file, name, "a < b"), expected);
}

#[test]
fn script_cards_list_the_procedures() {
    let content = "### Cleaning  \n## One\nQ1\n## Two\nQ2a\nQ2b\n";
    let body = format!(
        "{}{}",
        procedure_section("f.sparql", "One", "Q1\n"),
        procedure_section("f.sparql", "Two", "Q2a\nQ2b\n")
    );
    let expected = format!(
        r#"<div class="card mb-4">
    <div class="card-header d-flex justify-content-between align-items-center">
        <div>
            <h5 class="mb-0">{}</h5>
            <small class="text-muted">{}</small>
        </div>
        <div>
            <input type="checkbox" class="form-check-input" onchange="toggleFile(this)" data-file="{}">
            <label class="form-check-label ms-1">Run entire file</label>
        </div>
    </div>
    <div class="card-body">{}</div>
</div>"#,
        "f.sparql", "Cleaning", "f.sparql", body
    );
    assert_eq!(script_card("f.sparql", content), expected);
    assert_eq!(script_card("f.sparql", "### Internal @hidden\n## One\nQ\n"), "");
    assert!(script_card("f.sparql", "").contains("<div class=\"card-body\"></div>"));
}
