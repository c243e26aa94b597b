//! The pages of the web interface, each filled into its template text.

use vstd::prelude::*;
use crate::text::{
    after_last, append_chars, chars_of, decimal, decimal_chars, ends_with_chars, has_prefix,
    has_suffix, last_segment, lines, lines_of, replace_chars, replace_seq, starts_with_chars,
    string_of, strip_leading, texts, trim_chars, trimmed, without_leading,
};
use crate::utils::{escape_html, html_escaped};
use crate::web_ui::templetization::{fill, names, pairs, rendered, Pair};

verus! {

/// The pair of `key` and `value`.
pub open spec fn pair(key: &str, value: Seq<char>) -> Pair {
    Pair { key: key@, value: value }
}

/// The analysis start page for the class `start_with`.
pub fn analysis_page(file: &str, nav: &str, start_with: &str) -> (out: String)
    ensures
        out@ == rendered(
            file@,
            seq!["nav"@, "start_with"@],
            seq![pair("nav", nav@), pair("start_with", start_with@)],
            2,
        ),
{
    let keys = ["nav", "start_with"];
    let args = [("nav", nav), ("start_with", start_with)];
    assert(names(keys@) =~= seq!["nav"@, "start_with"@]);
    assert(pairs(args@) =~= seq![pair("nav", nav@), pair("start_with", start_with@)]);
    fill(file, keys.as_slice(), args.as_slice())
}

/// The history page around the rendered history `inside`.
pub fn history_page(file: &str, nav: &str, inside: String) -> (out: String)
    ensures
        out@ == rendered(
            file@,
            seq!["nav"@, "inside"@],
            seq![pair("nav", nav@), pair("inside", inside@)],
            2,
        ),
{
    let keys = ["nav", "inside"];
    let args = [("nav", nav), ("inside", inside.as_str())];
    assert(names(keys@) =~= seq!["nav"@, "inside"@]);
    assert(pairs(args@) =~= seq![pair("nav", nav@), pair("inside", inside@)]);
    fill(file, keys.as_slice(), args.as_slice())
}

/// The class analysis page around the table rows `class_anal`.
pub fn class_analysis_page(file: &str, nav: &str, class_anal: &str) -> (out: String)
    ensures
        out@ == rendered(
            file@,
            seq!["nav"@, "class_anal"@],
            seq![pair("nav", nav@), pair("class_anal", class_anal@)],
            2,
        ),
{
    let keys = ["nav", "class_anal"];
    let args = [("nav", nav), ("class_anal", class_anal)];
    assert(names(keys@) =~= seq!["nav"@, "class_anal"@]);
    assert(pairs(args@) =~= seq![pair("nav", nav@), pair("class_anal", class_anal@)]);
    fill(file, keys.as_slice(), args.as_slice())
}

/// The routines page around the cards of the routine files.
pub fn routines_page(file: &str, nav: &str, script_cards: &str) -> (out: String)
    ensures
        out@ == rendered(
            file@,
            seq!["nav"@, "script_cards"@],
            seq![pair("nav", nav@), pair("script_cards", script_cards@)],
            2,
        ),
{
    let keys = ["nav", "script_cards"];
    let args = [("nav", nav), ("script_cards", script_cards)];
    assert(names(keys@) =~= seq!["nav"@, "script_cards"@]);
    assert(pairs(args@) =~= seq![pair("nav", nav@), pair("script_cards", script_cards@)]);
    fill(file, keys.as_slice(), args.as_slice())
}

/// The page that draws the class-relation graph.
pub fn class_relation_graph(file: &str, nav: &str, nodes: &str, edges: &str) -> (out: String)
    ensures
        out@ == rendered(
            file@,
            seq!["nav"@, "nodes"@, "edges"@],
            seq![pair("nav", nav@), pair("nodes", nodes@), pair("edges", edges@)],
            3,
        ),
{
    let keys = ["nav", "nodes", "edges"];
    let args = [("nav", nav), ("nodes", nodes), ("edges", edges)];
    assert(names(keys@) =~= seq!["nav"@, "nodes"@, "edges"@]);
    assert(pairs(args@) =~= seq![pair("nav", nav@), pair("nodes", nodes@), pair("edges", edges@)]);
    fill(file, keys.as_slice(), args.as_slice())
}

/// One entry of the list of predicates to delete.
pub open spec fn deletion_entry(class: Seq<char>, pred: Seq<char>) -> Seq<char> {
    "{class: \""@ + class + "\", pred: \""@ + pred + "\"},"@
}

/// The list of the first `upto` predicates to delete.
pub open spec fn deletion_list(preds: Seq<(String, String)>, upto: int) -> Seq<char>
    decreases upto,
{
    if upto <= 0 {
        Seq::empty()
    } else {
        deletion_list(preds, upto - 1) + deletion_entry(preds[upto - 1].0@, preds[upto - 1].1@)
    }
}

/// The predicate analysis page: the cards of the classes and the list of
/// the predicates that the analysis would delete.
pub fn predicate_analysis_page(file: &str, nav: &str, classes: &str, preds_to_delete: Vec<(String, String)>) -> (out:
    String)
    ensures
        out@ == rendered(
            file@,
            seq!["nav"@, "classes"@, "preds_to_delete"@],
            seq![
                pair("nav", nav@),
                pair("classes", classes@),
                pair("preds_to_delete", deletion_list(preds_to_delete@, preds_to_delete.len() as int)),
            ],
            3,
        ),
{
    let mut list: Vec<char> = Vec::new();
    let mut i: usize = 0;
    while i < preds_to_delete.len()
        invariant
            i <= preds_to_delete.len(),
            list@ == deletion_list(preds_to_delete@, i as int),
        decreases preds_to_delete.len() - i,
    {
        let ghost before = list@;
        append_chars(&mut list, &chars_of("{class: \""));
        append_chars(&mut list, &chars_of(preds_to_delete[i].0.as_str()));
        append_chars(&mut list, &chars_of("\", pred: \""));
        append_chars(&mut list, &chars_of(preds_to_delete[i].1.as_str()));
        append_chars(&mut list, &chars_of("\"},"));
        i += 1;
        assert(list@ =~= before + deletion_entry(preds_to_delete[i - 1].0@, preds_to_delete[i - 1].1@));
    }
    let preds_list = string_of(&list);
    let keys = ["nav", "classes", "preds_to_delete"];
    let args = [("nav", nav), ("classes", classes), ("preds_to_delete", preds_list.as_str())];
    assert(names(keys@) =~= seq!["nav"@, "classes"@, "preds_to_delete"@]);
    assert(pairs(args@) =~= seq![
        pair("nav", nav@),
        pair("classes", classes@),
        pair("preds_to_delete", deletion_list(preds_to_delete@, preds_to_delete.len() as int)),
    ]);
    fill(file, keys.as_slice(), args.as_slice())
}

/// The card of one entity.
pub fn object_card(file: &str, name: &str, description: &str, image: &str, id: &str) -> (out: String)
    ensures
        out@ == rendered(
            file@,
            seq!["id"@, "image"@, "name"@, "description"@],
            seq![
                pair("id", id@),
                pair("image", image@),
                pair("name", name@),
                pair("description", description@),
            ],
            4,
        ),
{
    let keys = ["id", "image", "name", "description"];
    let args = [("id", id), ("image", image), ("name", name), ("description", description)];
    assert(names(keys@) =~= seq!["id"@, "image"@, "name"@, "description"@]);
    assert(pairs(args@) =~= seq![
        pair("id", id@),
        pair("image", image@),
        pair("name", name@),
        pair("description", description@),
    ]);
    fill(file, keys.as_slice(), args.as_slice())
}

/// The short name of a class: what follows the last `/` of its name,
/// without `>`.
pub open spec fn short_name(name: Seq<char>) -> Seq<char> {
    replace_seq(after_last(name, '/'), ">"@, ""@)
}

/// The values of the card of the class `name`.
pub open spec fn class_card_pairs(index: usize, name: Seq<char>, count: u32) -> Seq<Pair> {
    seq![
        pair("index", decimal(index as nat)),
        pair("name", name),
        pair("entity_name", short_name(name)),
        pair("count", decimal(count as nat)),
    ]
}

/// The card of the class `name` with its number of entities.
pub fn class_card(file: &str, index: usize, name: &str, count: u32) -> (out: String)
    ensures
        out@ == rendered(
            file@,
            seq!["index"@, "name"@, "entity_name"@, "count"@],
            class_card_pairs(index, name@, count),
            4,
        ),
{
    let empty: Vec<char> = Vec::new();
    assert(empty@ =~= ""@) by {
        reveal_strlit("");
    }
    let entity_name = string_of(
        &replace_chars(&last_segment(&chars_of(name), '/'), &chars_of(">"), &empty),
    );
    let count_text = string_of(&decimal_chars(count as u64));
    let index_text = string_of(&decimal_chars(index as u64));
    let keys = ["index", "name", "entity_name", "count"];
    let args = [
        ("index", index_text.as_str()),
        ("name", name),
        ("entity_name", entity_name.as_str()),
        ("count", count_text.as_str()),
    ];
    assert(names(keys@) =~= seq!["index"@, "name"@, "entity_name"@, "count"@]);
    assert(pairs(args@) =~= class_card_pairs(index, name@, count));
    fill(file, keys.as_slice(), args.as_slice())
}

/// The cards of the first `upto` classes, one after the other.
pub open spec fn class_cards(card_file: Seq<char>, class_counts: Seq<(String, u32)>, upto: int) -> Seq<char>
    decreases upto,
{
    if upto <= 0 {
        Seq::empty()
    } else {
        class_cards(card_file, class_counts, upto - 1) + rendered(
            card_file,
            seq!["index"@, "name"@, "entity_name"@, "count"@],
            class_card_pairs((upto - 1) as usize, class_counts[upto - 1].0@, class_counts[upto - 1].1),
            4,
        )
    }
}

/// The lower-case name of the dataset as the start page shows it.
pub open spec fn shown_name(dataset_name: Seq<char>) -> Seq<char> {
    crate::store::lowercased(dataset_name)
}

/// The start page: the dataset's name and a card for each class.
pub fn index_page(file: &str, nav: &str, card_file: &str, dataset_name: &str, class_counts: &[(String, u32)]) -> (out:
    String)
    ensures
        out@ == rendered(
            file@,
            seq!["nav"@, "ds_name"@, "all_cards"@, "total_cards"@],
            seq![
                pair("nav", nav@),
                pair("ds_name", shown_name(dataset_name@)),
                pair("all_cards", class_cards(card_file@, class_counts@, class_counts.len() as int)),
                pair("total_cards", decimal(class_counts.len() as nat)),
            ],
            4,
        ),
{
    let mut cards: Vec<char> = Vec::new();
    let mut i: usize = 0;
    while i < class_counts.len()
        invariant
            i <= class_counts.len(),
            cards@ == class_cards(card_file@, class_counts@, i as int),
        decreases class_counts.len() - i,
    {
        let card = class_card(card_file, i, class_counts[i].0.as_str(), class_counts[i].1);
        append_chars(&mut cards, &chars_of(card.as_str()));
        i += 1;
    }
    let all_cards = string_of(&cards);
    let total_cards = string_of(&decimal_chars(class_counts.len() as u64));
    let ds_low = crate::store::lowercase(dataset_name);
    let keys = ["nav", "ds_name", "all_cards", "total_cards"];
    let args = [
        ("nav", nav),
        ("ds_name", ds_low.as_str()),
        ("all_cards", all_cards.as_str()),
        ("total_cards", total_cards.as_str()),
    ];
    assert(names(keys@) =~= seq!["nav"@, "ds_name"@, "all_cards"@, "total_cards"@]);
    assert(pairs(args@) =~= seq![
        pair("nav", nav@),
        pair("ds_name", shown_name(dataset_name@)),
        pair("all_cards", class_cards(card_file@, class_counts@, class_counts.len() as int)),
        pair("total_cards", decimal(class_counts.len() as nat)),
    ]);
    fill(file, keys.as_slice(), args.as_slice())
}

/// The links to the pages before and after page `page_num` of the entities
/// of the class `id`. The first page has a disabled button in place of the
/// link back.
pub open spec fn navigation(id: Seq<char>, page_num: u32) -> Seq<char> {
    "<div class=\"d-flex justify-content-between gap-2 mt-4\">"@ + (if page_num > 1 {
        "<a class=\"btn btn-outline-primary\" href=\"/explore?id="@ + id + "&page="@ + decimal(
            (page_num - 1) as nat,
        ) + "\">Previous</a>"@
    } else {
        "<button class=\"btn btn-outline-secondary\" disabled>Previous</button>"@
    }) + "<p>Page "@ + decimal(page_num as nat) + "</p>"@
        + "<a class=\"btn btn-outline-primary\" href=\"/explore?id="@ + id + "&page="@ + decimal(
        (page_num + 1) as nat,
    ) + "\">Next</a>"@ + "</div>"@
}

/// The page that lists the entities of the class `id`, fifty to a page.
pub fn explore_page(file: &str, nav: &str, id: &str, page_num: u32, data: &str) -> (out: String)
    ensures
        out@ == rendered(
            file@,
            seq!["nav"@, "navigation"@, "data"@],
            seq![pair("nav", nav@), pair("navigation", navigation(id@, page_num)), pair("data", data@)],
            3,
        ),
{
    let id_chars = chars_of(id);
    let mut text = chars_of("<div class=\"d-flex justify-content-between gap-2 mt-4\">");
    if page_num > 1 {
        append_chars(&mut text, &chars_of("<a class=\"btn btn-outline-primary\" href=\"/explore?id="));
        append_chars(&mut text, &id_chars);
        append_chars(&mut text, &chars_of("&page="));
        append_chars(&mut text, &decimal_chars((page_num - 1) as u64));
        append_chars(&mut text, &chars_of("\">Previous</a>"));
    } else {
        append_chars(
            &mut text,
            &chars_of("<button class=\"btn btn-outline-secondary\" disabled>Previous</button>"),
        );
    }
    append_chars(&mut text, &chars_of("<p>Page "));
    append_chars(&mut text, &decimal_chars(page_num as u64));
    append_chars(&mut text, &chars_of("</p>"));
    append_chars(&mut text, &chars_of("<a class=\"btn btn-outline-primary\" href=\"/explore?id="));
    append_chars(&mut text, &id_chars);
    append_chars(&mut text, &chars_of("&page="));
    append_chars(&mut text, &decimal_chars(page_num as u64 + 1));
    append_chars(&mut text, &chars_of("\">Next</a>"));
    append_chars(&mut text, &chars_of("</div>"));
    assert(text@ =~= navigation(id@, page_num));
    let navigation_text = string_of(&text);
    let keys = ["nav", "navigation", "data"];
    let args = [("nav", nav), ("navigation", navigation_text.as_str()), ("data", data)];
    assert(names(keys@) =~= seq!["nav"@, "navigation"@, "data"@]);
    assert(pairs(args@) =~= seq![
        pair("nav", nav@),
        pair("navigation", navigation(id@, page_num)),
        pair("data", data@),
    ]);
    fill(file, keys.as_slice(), args.as_slice())
}

/// The script of the query page: the result table and the key of the
/// assistant.
pub open spec fn query_script(
    js_file: Seq<char>,
    table_rows_js_array: Seq<char>,
    table_headers_js_array: Seq<char>,
    api_key: Seq<char>,
) -> Seq<char> {
    rendered(
        js_file,
        seq!["table_rows_js_array"@, "table_headers_js_array"@, "api_key"@],
        seq![
            pair("table_rows_js_array", table_rows_js_array),
            pair("table_headers_js_array", table_headers_js_array),
            pair("api_key", api_key),
        ],
        3,
    )
}

/// The query page with the results of a query.
pub fn query_page(
    html_file: &str,
    js_file: &str,
    nav: &str,
    api_key: &str,
    nb_results: usize,
    table_rows_js_array: &str,
    table_headers_js_array: &str,
    message: &str,
) -> (out: String)
    ensures
        out@ == rendered(
            html_file@,
            seq!["nav"@, "message"@, "nb_results"@, "js"@],
            seq![
                pair("nav", nav@),
                pair("message", message@),
                pair("nb_results", decimal(nb_results as nat)),
                pair("js", query_script(js_file@, table_rows_js_array@, table_headers_js_array@, api_key@)),
            ],
            4,
        ),
{
    let js_keys = ["table_rows_js_array", "table_headers_js_array", "api_key"];
    let js_args = [
        ("table_rows_js_array", table_rows_js_array),
        ("table_headers_js_array", table_headers_js_array),
        ("api_key", api_key),
    ];
    assert(names(js_keys@) =~= seq!["table_rows_js_array"@, "table_headers_js_array"@, "api_key"@]);
    assert(pairs(js_args@) =~= seq![
        pair("table_rows_js_array", table_rows_js_array@),
        pair("table_headers_js_array", table_headers_js_array@),
        pair("api_key", api_key@),
    ]);
    let js = fill(js_file, js_keys.as_slice(), js_args.as_slice());
    let count = string_of(&decimal_chars(nb_results as u64));
    let keys = ["nav", "message", "nb_results", "js"];
    let args = [("nav", nav), ("message", message), ("nb_results", count.as_str()), ("js", js.as_str())];
    assert(names(keys@) =~= seq!["nav"@, "message"@, "nb_results"@, "js"@]);
    assert(pairs(args@) =~= seq![
        pair("nav", nav@),
        pair("message", message@),
        pair("nb_results", decimal(nb_results as nat)),
        pair("js", query_script(js_file@, table_rows_js_array@, table_headers_js_array@, api_key@)),
    ]);
    fill(html_file, keys.as_slice(), args.as_slice())
}

/// The section of one procedure of a routine file: a check box to select
/// it and its query, escaped for HTML.
pub open spec fn section_text(file: Seq<char>, name: Seq<char>, query: Seq<char>) -> Seq<char> {
    let elem_id = file + "::"@ + name;
    let query = html_escaped(query);
    "<div class=\"mb-3\">\n    <div class=\"form-check\">\n        <input class=\"form-check-input file-proc\" type=\"checkbox\"\n               name=\""@
        + elem_id
        + "\"\n               data-file=\""@
        + file
        + "\" data-id=\""@
        + elem_id
        + "\"\n               onchange=\"toggleProcedure(this)\">\n        <label class=\"form-check-label fw-bold\">"@
        + name
        + "</label>\n    </div>\n    <pre class=\"bg-body border rounded p-2 mt-2\" style=\"display:none\" id=\""@
        + elem_id
        + "\"><code>"@
        + query
        + "</code></pre>\n</div>"@
}

/// Renders the section of the procedure `name` of the routine file `file`.
pub fn procedure_section(file: &str, name: &str, query: &str) -> (out: String)
    ensures
        out@ == section_text(file@, name@, query@),
{
    let file = chars_of(file);
    let name = chars_of(name);
    let query = chars_of(escape_html(&query.to_string()).as_str());
    let mut elem_id: Vec<char> = Vec::new();
    append_chars(&mut elem_id, &file);
    append_chars(&mut elem_id, &chars_of("::"));
    append_chars(&mut elem_id, &name);
    let mut out = chars_of("<div class=\"mb-3\">\n    <div class=\"form-check\">\n        <input class=\"form-check-input file-proc\" type=\"checkbox\"\n               name=\"");
    append_chars(&mut out, &elem_id);
    append_chars(&mut out, &chars_of("\"\n               data-file=\""));
    append_chars(&mut out, &file);
    append_chars(&mut out, &chars_of("\" data-id=\""));
    append_chars(&mut out, &elem_id);
    append_chars(&mut out, &chars_of("\"\n               onchange=\"toggleProcedure(this)\">\n        <label class=\"form-check-label fw-bold\">"));
    append_chars(&mut out, &name);
    append_chars(&mut out, &chars_of("</label>\n    </div>\n    <pre class=\"bg-body border rounded p-2 mt-2\" style=\"display:none\" id=\""));
    append_chars(&mut out, &elem_id);
    append_chars(&mut out, &chars_of("\"><code>"));
    append_chars(&mut out, &query);
    append_chars(&mut out, &chars_of("</code></pre>\n</div>"));
    string_of(&out)
}

/// What a card knows while it reads the lines of a routine file.
pub struct CardState {
    /// The sections of the procedures that are complete.
    pub body: Seq<char>,
    /// The name of the procedure that is being read.
    pub name: Seq<char>,
    /// The query lines of that procedure so far.
    pub query: Seq<char>,
    /// Whether a procedure is being read.
    pub in_proc: bool,
}

/// The state after one more line: a line that starts with `##` closes the
/// procedure that is being read and opens the one it names; any other line
/// belongs to the query of the procedure that is being read.
pub open spec fn card_step(file: Seq<char>, st: CardState, line: Seq<char>) -> CardState {
    if has_prefix(line, "##"@) {
        CardState {
            body: if st.in_proc {
                st.body + section_text(file, st.name, st.query)
            } else {
                st.body
            },
            name: trimmed(without_leading(line, "##"@)),
            query: if st.in_proc {
                Seq::empty()
            } else {
                st.query
            },
            in_proc: true,
        }
    } else if st.in_proc {
        CardState { query: st.query + line + "\n"@, ..st }
    } else {
        st
    }
}

/// The state after the lines from the second to line `upto`.
pub open spec fn card_state(file: Seq<char>, all: Seq<Seq<char>>, upto: int) -> CardState
    decreases upto,
{
    if upto <= 1 {
        CardState { body: Seq::empty(), name: Seq::empty(), query: Seq::empty(), in_proc: false }
    } else {
        card_step(file, card_state(file, all, upto - 1), all[upto - 1])
    }
}

/// The description of a routine file: its first line without leading `#`
/// marks and surrounding white space.
pub open spec fn card_description(all: Seq<Seq<char>>) -> Seq<char> {
    trimmed(
        without_leading(
            if all.len() > 0 {
                all[0]
            } else {
                Seq::empty()
            },
            "###"@,
        ),
    )
}

/// The sections of all procedures of a routine file.
pub open spec fn card_body(file: Seq<char>, all: Seq<Seq<char>>) -> Seq<char> {
    let st = card_state(file, all, all.len() as int);
    if st.in_proc {
        st.body + section_text(file, st.name, st.query)
    } else {
        st.body
    }
}

/// The card of a routine file: nothing for a file whose description ends
/// with `@hidden`, and else the file's name, its description and the
/// sections of its procedures.
pub open spec fn card_text(file_name: Seq<char>, content: Seq<char>) -> Seq<char> {
    let all = lines(content);
    let description = card_description(all);
    let body = card_body(file_name, all);
    if has_suffix(description, "@hidden"@) {
        Seq::empty()
    } else {
        "<div class=\"card mb-4\">\n    <div class=\"card-header d-flex justify-content-between align-items-center\">\n        <div>\n            <h5 class=\"mb-0\">"@
            + file_name
            + "</h5>\n            <small class=\"text-muted\">"@
            + description
            + "</small>\n        </div>\n        <div>\n            <input type=\"checkbox\" class=\"form-check-input\" onchange=\"toggleFile(this)\" data-file=\""@
            + file_name
            + "\">\n            <label class=\"form-check-label ms-1\">Run entire file</label>\n        </div>\n    </div>\n    <div class=\"card-body\">"@
            + body
            + "</div>\n</div>"@
    }
}

/// Renders the card of the routine file `file_name` with the text
/// `content`.
pub fn script_card(file_name: &str, content: &str) -> (out: String)
    ensures
        out@ == card_text(file_name@, content@),
{
    let all = lines_of(&chars_of(content));
    let ghost listed = lines(content@);
    assert(texts(all@) == listed);
    let first: Vec<char> = if all.len() > 0 {
        assert(texts(all@)[0] == all[0]@);
        strip_leading(&all[0], &chars_of("###"))
    } else {
        let none: Vec<char> = Vec::new();
        assert(none@ =~= Seq::<char>::empty());
        strip_leading(&none, &chars_of("###"))
    };
    let description = trim_chars(&first);
    assert(description@ == card_description(listed));
    if ends_with_chars(&description, &chars_of("@hidden")) {
        return String::new();
    }
    let mut body: Vec<char> = Vec::new();
    let mut name: Vec<char> = Vec::new();
    let mut query: Vec<char> = Vec::new();
    let mut in_proc = false;
    let mut i: usize = 1;
    while i < all.len()
        invariant
            1 <= i,
            i <= all.len() || (all.len() == 0 && i == 1),
            texts(all@) == listed,
            card_state(file_name@, listed, i as int) == (CardState {
                body: body@,
                name: name@,
                query: query@,
                in_proc: in_proc,
            }),
        decreases all.len() - i,
    {
        let line = &all[i];
        assert(texts(all@)[i as int] == line@);
        if starts_with_chars(line, &chars_of("##")) {
            if in_proc {
                let section = procedure_section(
                    file_name,
                    string_of(&name).as_str(),
                    string_of(&query).as_str(),
                );
                append_chars(&mut body, &chars_of(section.as_str()));
                query = Vec::new();
            }
            name = trim_chars(&strip_leading(line, &chars_of("##")));
            in_proc = true;
        } else if in_proc {
            append_chars(&mut query, line);
            append_chars(&mut query, &chars_of("\n"));
        }
        i += 1;
    }
    if in_proc {
        let section = procedure_section(file_name, string_of(&name).as_str(), string_of(&query).as_str());
        append_chars(&mut body, &chars_of(section.as_str()));
    }
    assert(texts(all@).len() == all.len());
    assert(card_state(file_name@, listed, i as int) == card_state(
        file_name@,
        listed,
        listed.len() as int,
    ));
    assert(body@ == card_body(file_name@, listed));
    let file_name = chars_of(file_name);
    let mut out = chars_of("<div class=\"card mb-4\">\n    <div class=\"card-header d-flex justify-content-between align-items-center\">\n        <div>\n            <h5 class=\"mb-0\">");
    append_chars(&mut out, &file_name);
    append_chars(&mut out, &chars_of("</h5>\n            <small class=\"text-muted\">"));
    append_chars(&mut out, &description);
    append_chars(&mut out, &chars_of("</small>\n        </div>\n        <div>\n            <input type=\"checkbox\" class=\"form-check-input\" onchange=\"toggleFile(this)\" data-file=\""));
    append_chars(&mut out, &file_name);
    append_chars(&mut out, &chars_of("\">\n            <label class=\"form-check-label ms-1\">Run entire file</label>\n        </div>\n    </div>\n    <div class=\"card-body\">"));
    append_chars(&mut out, &body);
    append_chars(&mut out, &chars_of("</div>\n</div>"));
    string_of(&out)
}

/// The page of one entity: what is known of it, the two tables of its
/// statements, and the script that draws its neighbourhood.
pub fn entity_page(
    html: &str,
    js: &str,
    nav: &str,
    uri: &str,
    name: &str,
    description: &str,
    otype: &str,
    image: &str,
    table_1: &str,
    table_2: &str,
    jsons: &str,
    cons: &str,
) -> (out: String)
    ensures
        out@ == rendered(
            html@,
            seq!["nav"@, "image"@, "uri"@, "otype"@, "name"@, "description"@, "table_1"@, "table_2"@, "js"@, "nodes"@, "cons"@],
            seq![
                pair("nav", nav@),
                pair("image", image@),
                pair("uri", uri@),
                pair("otype", otype@),
                pair("name", name@),
                pair("description", description@),
                pair("table_1", table_1@),
                pair("table_2", table_2@),
                pair("js", js@),
                pair("nodes", jsons@),
                pair("cons", cons@),
            ],
            11,
        ),
{
    let keys = ["nav", "image", "uri", "otype", "name", "description", "table_1", "table_2", "js", "nodes", "cons"];
    let args = [
        ("nav", nav),
        ("image", image),
        ("uri", uri),
        ("otype", otype),
        ("name", name),
        ("description", description),
        ("table_1", table_1),
        ("table_2", table_2),
        ("js", js),
        ("nodes", jsons),
        ("cons", cons),
    ];
    assert(names(keys@) =~= seq!["nav"@, "image"@, "uri"@, "otype"@, "name"@, "description"@, "table_1"@, "table_2"@, "js"@, "nodes"@, "cons"@]);
    assert(pairs(args@) =~= seq![
        pair("nav", nav@),
        pair("image", image@),
        pair("uri", uri@),
        pair("otype", otype@),
        pair("name", name@),
        pair("description", description@),
        pair("table_1", table_1@),
        pair("table_2", table_2@),
        pair("js", js@),
        pair("nodes", jsons@),
        pair("cons", cons@),
    ]);
    fill(html, keys.as_slice(), args.as_slice())
}

} // verus!
