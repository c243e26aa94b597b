//! The parts of the pages that are built from what the store reports: table
//! rows, lists for the drawing scripts, the history cards and the result
//! page of a run.

use vstd::prelude::*;
use crate::item::{written, Term};
use crate::text::{
    append_chars, chars_of, decimal, decimal_chars, find_from, has_prefix, lines, lines_of,
    matches_at, replace_chars, replace_seq, starts_with_chars, string_of, texts, trim_chars, trimmed,
};
use crate::history::{first_match, lemma_first_match_is};
use crate::utils::{escape_html_chars, html_escaped, link_chars, linked};

verus! {

/// The box that reports how a query went.
pub open spec fn message_box_text(message_type: Seq<char>, message: Seq<char>) -> Seq<char> {
    "<div class=\"alert alert-"@
        + message_type
        + "\" role=\"alert\"> "@
        + message
        + " </div>"@
}

fn message_box(message_type: &Vec<char>, message: &Vec<char>) -> (out: Vec<char>)
    ensures
        out@ == message_box_text(message_type@, message@),
{
    let mut out = chars_of("<div class=\"alert alert-");
    append_chars(&mut out, message_type);
    append_chars(&mut out, &chars_of("\" role=\"alert\"> "));
    append_chars(&mut out, message);
    append_chars(&mut out, &chars_of(" </div>"));
    out
}

/// One row of a table with two cells.
pub open spec fn table_row_text(first: Seq<char>, second: Seq<char>) -> Seq<char> {
    "<tr>\n          <td>"@
        + first
        + "</td>\n          <td>"@
        + second
        + "</td>\n        </tr>"@
}

fn table_row(first: &Vec<char>, second: &Vec<char>) -> (out: Vec<char>)
    ensures
        out@ == table_row_text(first@, second@),
{
    let mut out = chars_of("<tr>\n          <td>");
    append_chars(&mut out, first);
    append_chars(&mut out, &chars_of("</td>\n          <td>"));
    append_chars(&mut out, second);
    append_chars(&mut out, &chars_of("</td>\n        </tr>"));
    out
}

/// The link to the entities of a class.
pub open spec fn type_link_text(address: Seq<char>, label: Seq<char>) -> Seq<char> {
    "<a href=\"/explore?id="@
        + address
        + "\">"@
        + label
        + "</a>"@
}

fn type_link(address: &Vec<char>, label: &Vec<char>) -> (out: Vec<char>)
    ensures
        out@ == type_link_text(address@, label@),
{
    let mut out = chars_of("<a href=\"/explore?id=");
    append_chars(&mut out, address);
    append_chars(&mut out, &chars_of("\">"));
    append_chars(&mut out, label);
    append_chars(&mut out, &chars_of("</a>"));
    out
}

/// The picture of an entity.
pub open spec fn image_tag_text(address: Seq<char>, name: Seq<char>) -> Seq<char> {
    "<img src=\""@
        + address
        + "\" alt=\""@
        + name
        + "\"  class=\"object-fit-cover d-block mx-auto\" style=\"\n          height: 200px;\n        \" />"@
}

fn image_tag(address: &Vec<char>, name: &Vec<char>) -> (out: Vec<char>)
    ensures
        out@ == image_tag_text(address@, name@),
{
    let mut out = chars_of("<img src=\"");
    append_chars(&mut out, address);
    append_chars(&mut out, &chars_of("\" alt=\""));
    append_chars(&mut out, name);
    append_chars(&mut out, &chars_of("\"  class=\"object-fit-cover d-block mx-auto\" style=\"\n          height: 200px;\n        \" />"));
    out
}

/// One node of the class drawing.
pub open spec fn graph_node_text(ent: Seq<char>) -> Seq<char> {
    "{id: \""@
        + ent
        + "\", label: \""@
        + ent
        + "\"},"@
}

fn graph_node(ent: &Vec<char>) -> (out: Vec<char>)
    ensures
        out@ == graph_node_text(ent@),
{
    let mut out = chars_of("{id: \"");
    append_chars(&mut out, ent);
    append_chars(&mut out, &chars_of("\", label: \""));
    append_chars(&mut out, ent);
    append_chars(&mut out, &chars_of("\"},"));
    out
}

/// One edge of the neighbourhood drawing.
pub open spec fn entity_edge_text(source: Seq<char>, target: Seq<char>, label: Seq<char>) -> Seq<char> {
    "{source: \""@
        + source
        + "\", target: \""@
        + target
        + "\", label: \""@
        + label
        + "\"},"@
}

fn entity_edge(source: &Vec<char>, target: &Vec<char>, label: &Vec<char>) -> (out: Vec<char>)
    ensures
        out@ == entity_edge_text(source@, target@, label@),
{
    let mut out = chars_of("{source: \"");
    append_chars(&mut out, source);
    append_chars(&mut out, &chars_of("\", target: \""));
    append_chars(&mut out, target);
    append_chars(&mut out, &chars_of("\", label: \""));
    append_chars(&mut out, label);
    append_chars(&mut out, &chars_of("\"},"));
    out
}

/// One edge of the class drawing.
pub open spec fn class_edge_text(source: Seq<char>, target: Seq<char>, label: Seq<char>) -> Seq<char> {
    "{from: \""@
        + source
        + "\", to: \""@
        + target
        + "\", label: \""@
        + label
        + "\"},"@
}

fn class_edge(source: &Vec<char>, target: &Vec<char>, label: &Vec<char>) -> (out: Vec<char>)
    ensures
        out@ == class_edge_text(source@, target@, label@),
{
    let mut out = chars_of("{from: \"");
    append_chars(&mut out, source);
    append_chars(&mut out, &chars_of("\", to: \""));
    append_chars(&mut out, target);
    append_chars(&mut out, &chars_of("\", label: \""));
    append_chars(&mut out, label);
    append_chars(&mut out, &chars_of("\"},"));
    out
}

/// The card of a routine that was run.
pub open spec fn change_card_text(file: Seq<char>, description: Seq<char>) -> Seq<char> {
    "<div class=\"card mb-3 shadow-sm\">\n          <div class=\"card-header bg-secondary text-white\">"@
        + file
        + "</div>\n          <div class=\"card-body\">\n            <span class=\"badge bg-info text-dark\">Change</span> "@
        + description
        + "\n          </div>\n        </div>\n        "@
}

fn change_card(file: &Vec<char>, description: &Vec<char>) -> (out: Vec<char>)
    ensures
        out@ == change_card_text(file@, description@),
{
    let mut out = chars_of("<div class=\"card mb-3 shadow-sm\">\n          <div class=\"card-header bg-secondary text-white\">");
    append_chars(&mut out, file);
    append_chars(&mut out, &chars_of("</div>\n          <div class=\"card-body\">\n            <span class=\"badge bg-info text-dark\">Change</span> "));
    append_chars(&mut out, description);
    append_chars(&mut out, &chars_of("\n          </div>\n        </div>\n        "));
    out
}

/// The card of a dump, with the link that restores it.
pub open spec fn dump_card_text(file: Seq<char>, version: Seq<char>) -> Seq<char> {
    "<div class=\"card mb-3 shadow-sm\">\n          <div class=\"card-header bg-success text-white\">Dump created!</div>\n          <div class=\"card-body\">\n            <span class=\"badge bg-info text-dark\">Dump file</span> "@
        + file
        + "\n          </div>\n          <div class='d-flex justify-content-center py-2'>\n          <a href=\"/restore/"@
        + version
        + "\" class='btn btn-danger'>Revert to this version(all of the following changes and dumps will be lost)</a>\n          </div>\n        </div>"@
}

fn dump_card(file: &Vec<char>, version: &Vec<char>) -> (out: Vec<char>)
    ensures
        out@ == dump_card_text(file@, version@),
{
    let mut out = chars_of("<div class=\"card mb-3 shadow-sm\">\n          <div class=\"card-header bg-success text-white\">Dump created!</div>\n          <div class=\"card-body\">\n            <span class=\"badge bg-info text-dark\">Dump file</span> ");
    append_chars(&mut out, file);
    append_chars(&mut out, &chars_of("\n          </div>\n          <div class='d-flex justify-content-center py-2'>\n          <a href=\"/restore/"));
    append_chars(&mut out, version);
    append_chars(&mut out, &chars_of("\" class='btn btn-danger'>Revert to this version(all of the following changes and dumps will be lost)</a>\n          </div>\n        </div>"));
    out
}

/// The page that reports a run without failure.
pub open spec fn success_page_text(action: Seq<char>, count: Seq<char>, script_list: Seq<char>) -> Seq<char> {
    "\n    <!DOCTYPE html>\n    <html lang=\"en\" data-bs-theme=\"dark\">\n    <head>\n      <meta charset=\"UTF-8\">\n      <title>Success</title>\n      <link href=\"https://cdn.jsdelivr.net/npm/bootstrap@5.3.0/dist/css/bootstrap.min.css\" rel=\"stylesheet\">\n    </head>\n    <body class=\"d-flex justify-content-center align-items-center vh-100\">\n      <div class=\"text-center\">\n        <h1 class=\"text-success mb-4\">Success!</h1>\n        <div class=\"alert alert-success text-start mx-auto\" style=\"max-width: 500px;\">\n          <p><strong>"@
        + action
        + ":</strong> "@
        + count
        + " triples</p>\n          <p><strong>Scripts executed:</strong></p>\n          <ul>"@
        + script_list
        + "</ul>\n        </div>\n        <a href=\"/routines\" class=\"btn btn-success mt-3\">Return</a>\n      </div>\n    </body>\n    </html>\n    "@
}

fn success_page(action: &Vec<char>, count: &Vec<char>, script_list: &Vec<char>) -> (out: Vec<char>)
    ensures
        out@ == success_page_text(action@, count@, script_list@),
{
    let mut out = chars_of("\n    <!DOCTYPE html>\n    <html lang=\"en\" data-bs-theme=\"dark\">\n    <head>\n      <meta charset=\"UTF-8\">\n      <title>Success</title>\n      <link href=\"https://cdn.jsdelivr.net/npm/bootstrap@5.3.0/dist/css/bootstrap.min.css\" rel=\"stylesheet\">\n    </head>\n    <body class=\"d-flex justify-content-center align-items-center vh-100\">\n      <div class=\"text-center\">\n        <h1 class=\"text-success mb-4\">Success!</h1>\n        <div class=\"alert alert-success text-start mx-auto\" style=\"max-width: 500px;\">\n          <p><strong>");
    append_chars(&mut out, action);
    append_chars(&mut out, &chars_of(":</strong> "));
    append_chars(&mut out, count);
    append_chars(&mut out, &chars_of(" triples</p>\n          <p><strong>Scripts executed:</strong></p>\n          <ul>"));
    append_chars(&mut out, script_list);
    append_chars(&mut out, &chars_of("</ul>\n        </div>\n        <a href=\"/routines\" class=\"btn btn-success mt-3\">Return</a>\n      </div>\n    </body>\n    </html>\n    "));
    out
}

/// The page that reports a run that failed.
pub open spec fn failure_page_text(ran_scripts: Seq<char>, failed_name: Seq<char>, err_message: Seq<char>, skipped_scripts: Seq<char>, action: Seq<char>, count: Seq<char>) -> Seq<char> {
    "\n    <!DOCTYPE html>\n    <html lang=\"en\" data-bs-theme=\"dark\">\n    <head>\n      <meta charset=\"UTF-8\">\n      <title>Error</title>\n      <link href=\"https://cdn.jsdelivr.net/npm/bootstrap@5.3.0/dist/css/bootstrap.min.css\" rel=\"stylesheet\">\n    </head>\n    <body class=\"d-flex justify-content-center align-items-center vh-100\">\n      <div class=\"text-center\">\n        <h1 class=\"text-danger mb-4\">Something went wrong</h1>\n        <div class=\"alert alert-danger text-start mx-auto\" style=\"max-width: 500px;\">\n          <p><strong>Ran successfully:</strong></p>\n          <ul>"@
        + ran_scripts
        + "</ul>\n          <p><strong>Failed on:</strong></p>\n          <ul><li class=\"text-danger\">"@
        + failed_name
        + "</li></ul>\n          <p class=\"alert alert-danger\"> "@
        + err_message
        + "</p>\n          <p><strong>Skipped:</strong></p>\n          <ul>"@
        + skipped_scripts
        + "</ul>\n           <p><strong>"@
        + action
        + ":</strong> "@
        + count
        + " triples</p>\n        </div>\n        <a href=\"/routines\" class=\"btn btn-danger mt-3\">Return</a>\n      </div>\n    </body>\n    </html>\n    "@
}

fn failure_page(ran_scripts: &Vec<char>, failed_name: &Vec<char>, err_message: &Vec<char>, skipped_scripts: &Vec<char>, action: &Vec<char>, count: &Vec<char>) -> (out: Vec<char>)
    ensures
        out@ == failure_page_text(ran_scripts@, failed_name@, err_message@, skipped_scripts@, action@, count@),
{
    let mut out = chars_of("\n    <!DOCTYPE html>\n    <html lang=\"en\" data-bs-theme=\"dark\">\n    <head>\n      <meta charset=\"UTF-8\">\n      <title>Error</title>\n      <link href=\"https://cdn.jsdelivr.net/npm/bootstrap@5.3.0/dist/css/bootstrap.min.css\" rel=\"stylesheet\">\n    </head>\n    <body class=\"d-flex justify-content-center align-items-center vh-100\">\n      <div class=\"text-center\">\n        <h1 class=\"text-danger mb-4\">Something went wrong</h1>\n        <div class=\"alert alert-danger text-start mx-auto\" style=\"max-width: 500px;\">\n          <p><strong>Ran successfully:</strong></p>\n          <ul>");
    append_chars(&mut out, ran_scripts);
    append_chars(&mut out, &chars_of("</ul>\n          <p><strong>Failed on:</strong></p>\n          <ul><li class=\"text-danger\">"));
    append_chars(&mut out, failed_name);
    append_chars(&mut out, &chars_of("</li></ul>\n          <p class=\"alert alert-danger\"> "));
    append_chars(&mut out, err_message);
    append_chars(&mut out, &chars_of("</p>\n          <p><strong>Skipped:</strong></p>\n          <ul>"));
    append_chars(&mut out, skipped_scripts);
    append_chars(&mut out, &chars_of("</ul>\n           <p><strong>"));
    append_chars(&mut out, action);
    append_chars(&mut out, &chars_of(":</strong> "));
    append_chars(&mut out, count);
    append_chars(&mut out, &chars_of(" triples</p>\n        </div>\n        <a href=\"/routines\" class=\"btn btn-danger mt-3\">Return</a>\n      </div>\n    </body>\n    </html>\n    "));
    out
}

/// One entry of a list.
pub open spec fn list_item_text(name: Seq<char>) -> Seq<char> {
    "<li>"@
        + name
        + "</li>"@
}

fn list_item(name: &Vec<char>) -> (out: Vec<char>)
    ensures
        out@ == list_item_text(name@),
{
    let mut out = chars_of("<li>");
    append_chars(&mut out, name);
    append_chars(&mut out, &chars_of("</li>"));
    out
}

/// The box that reports how a query went.
pub fn query_message(message_type: &str, message: &str) -> (out: String)
    ensures
        out@ == message_box_text(message_type@, message@),
{
    string_of(&message_box(&chars_of(message_type), &chars_of(message)))
}

/// The rows of the table of the statements about an entity: the predicate,
/// and the object as a link where it is a name.
pub open spec fn statements_table_upto(items: Seq<(Term, Term)>, upto: int) -> Seq<char>
    decreases upto,
{
    if upto <= 0 {
        Seq::empty()
    } else {
        statements_table_upto(items, upto - 1) + table_row_text(
            html_escaped(written(items[upto - 1].0@)),
            linked(html_escaped(written(items[upto - 1].1@))),
        )
    }
}

/// The rows of the table of the statements about an entity: the predicate,
/// and the object as a link where it is a name.
pub fn statements_table(items: &Vec<(Term, Term)>) -> (out: String)
    ensures
        out@ == statements_table_upto(items@, items.len() as int),
{
    let mut out: Vec<char> = Vec::new();
    let mut i: usize = 0;
    while i < items.len()
        invariant
            i <= items.len(),
            out@ == statements_table_upto(items@, i as int),
        decreases items.len() - i,
    {
        let item = &items[i];
        let first = escape_html_chars(&chars_of(item.0.to_text().as_str()));
        let second = link_chars(&escape_html_chars(&chars_of(item.1.to_text().as_str())));
        let piece = table_row(&first, &second);
        append_chars(&mut out, &piece);
        i += 1;
    }
    string_of(&out)
}

/// The rows of the table of the statements that refer to an entity: the
/// subject as a link where it is a name, and the predicate.
pub open spec fn references_table_upto(items: Seq<(Term, Term)>, upto: int) -> Seq<char>
    decreases upto,
{
    if upto <= 0 {
        Seq::empty()
    } else {
        references_table_upto(items, upto - 1) + table_row_text(
            linked(html_escaped(written(items[upto - 1].0@))),
            html_escaped(written(items[upto - 1].1@)),
        )
    }
}

/// The rows of the table of the statements that refer to an entity: the
/// subject as a link where it is a name, and the predicate.
pub fn references_table(items: &Vec<(Term, Term)>) -> (out: String)
    ensures
        out@ == references_table_upto(items@, items.len() as int),
{
    let mut out: Vec<char> = Vec::new();
    let mut i: usize = 0;
    while i < items.len()
        invariant
            i <= items.len(),
            out@ == references_table_upto(items@, i as int),
        decreases items.len() - i,
    {
        let item = &items[i];
        let first = link_chars(&escape_html_chars(&chars_of(item.0.to_text().as_str())));
        let second = escape_html_chars(&chars_of(item.1.to_text().as_str()));
        let piece = table_row(&first, &second);
        append_chars(&mut out, &piece);
        i += 1;
    }
    string_of(&out)
}

/// The links to the classes of an entity.
pub open spec fn type_links_upto(items: Seq<Term>, upto: int) -> Seq<char>
    decreases upto,
{
    if upto <= 0 {
        Seq::empty()
    } else {
        type_links_upto(items, upto - 1) + type_link_text(
            written(items[upto - 1]@),
            html_escaped(written(items[upto - 1]@)),
        )
    }
}

/// The links to the classes of an entity.
pub fn type_links(items: &Vec<Term>) -> (out: String)
    ensures
        out@ == type_links_upto(items@, items.len() as int),
{
    let mut out: Vec<char> = Vec::new();
    let mut i: usize = 0;
    while i < items.len()
        invariant
            i <= items.len(),
            out@ == type_links_upto(items@, i as int),
        decreases items.len() - i,
    {
        let item = &items[i];
        let shown = chars_of(item.to_text().as_str());
        let piece = type_link(&shown, &escape_html_chars(&shown));
        append_chars(&mut out, &piece);
        i += 1;
    }
    string_of(&out)
}

/// The edges of the neighbourhood drawing: source, target and label of
/// each connection.
pub open spec fn entity_edges_upto(items: Seq<(String, String, String)>, upto: int) -> Seq<char>
    decreases upto,
{
    if upto <= 0 {
        Seq::empty()
    } else {
        entity_edges_upto(items, upto - 1) + entity_edge_text(items[upto - 1].0@, items[upto - 1].1@, items[upto - 1].2@)
    }
}

/// The edges of the neighbourhood drawing: source, target and label of
/// each connection.
pub fn entity_edges(items: &Vec<(String, String, String)>) -> (out: String)
    ensures
        out@ == entity_edges_upto(items@, items.len() as int),
{
    let mut out: Vec<char> = Vec::new();
    let mut i: usize = 0;
    while i < items.len()
        invariant
            i <= items.len(),
            out@ == entity_edges_upto(items@, i as int),
        decreases items.len() - i,
    {
        let item = &items[i];
        let piece = entity_edge(
            &chars_of(item.0.as_str()),
            &chars_of(item.1.as_str()),
            &chars_of(item.2.as_str()),
        );
        append_chars(&mut out, &piece);
        i += 1;
    }
    string_of(&out)
}

/// The edges of the class drawing: source, target and label of each
/// relation.
pub open spec fn class_edges_upto(items: Seq<(String, String, String)>, upto: int) -> Seq<char>
    decreases upto,
{
    if upto <= 0 {
        Seq::empty()
    } else {
        class_edges_upto(items, upto - 1) + class_edge_text(items[upto - 1].0@, items[upto - 1].1@, items[upto - 1].2@)
    }
}

/// The edges of the class drawing: source, target and label of each
/// relation.
pub fn class_edges(items: &Vec<(String, String, String)>) -> (out: String)
    ensures
        out@ == class_edges_upto(items@, items.len() as int),
{
    let mut out: Vec<char> = Vec::new();
    let mut i: usize = 0;
    while i < items.len()
        invariant
            i <= items.len(),
            out@ == class_edges_upto(items@, i as int),
        decreases items.len() - i,
    {
        let item = &items[i];
        let piece = class_edge(
            &chars_of(item.0.as_str()),
            &chars_of(item.1.as_str()),
            &chars_of(item.2.as_str()),
        );
        append_chars(&mut out, &piece);
        i += 1;
    }
    string_of(&out)
}

/// The nodes of the class drawing.
pub open spec fn class_nodes_upto(items: Seq<String>, upto: int) -> Seq<char>
    decreases upto,
{
    if upto <= 0 {
        Seq::empty()
    } else {
        class_nodes_upto(items, upto - 1) + graph_node_text(items[upto - 1]@)
    }
}

/// The nodes of the class drawing.
pub fn class_nodes(items: &Vec<String>) -> (out: String)
    ensures
        out@ == class_nodes_upto(items@, items.len() as int),
{
    let mut out: Vec<char> = Vec::new();
    let mut i: usize = 0;
    while i < items.len()
        invariant
            i <= items.len(),
            out@ == class_nodes_upto(items@, i as int),
        decreases items.len() - i,
    {
        let item = &items[i];
        let piece = graph_node(&chars_of(item.as_str()));
        append_chars(&mut out, &piece);
        i += 1;
    }
    string_of(&out)
}

/// The entries of a list of names.
pub open spec fn list_items_upto(items: Seq<String>, upto: int) -> Seq<char>
    decreases upto,
{
    if upto <= 0 {
        Seq::empty()
    } else {
        list_items_upto(items, upto - 1) + list_item_text(items[upto - 1]@)
    }
}

/// The entries of a list of names.
pub fn list_items(items: &Vec<String>) -> (out: String)
    ensures
        out@ == list_items_upto(items@, items.len() as int),
{
    let mut out: Vec<char> = Vec::new();
    let mut i: usize = 0;
    while i < items.len()
        invariant
            i <= items.len(),
            out@ == list_items_upto(items@, i as int),
        decreases items.len() - i,
    {
        let item = &items[i];
        let piece = list_item(&chars_of(item.as_str()));
        append_chars(&mut out, &piece);
        i += 1;
    }
    string_of(&out)
}

/// The picture of an entity: its first image under its name, and nothing
/// where it has no image.
pub open spec fn entity_image_text(images: Seq<String>, name: Seq<char>) -> Seq<char> {
    if images.len() == 0 {
        Seq::empty()
    } else {
        image_tag_text(images[0]@, name)
    }
}

/// The picture of an entity.
pub fn entity_image(images: &Vec<String>, name: &str) -> (out: String)
    ensures
        out@ == entity_image_text(images@, name@),
{
    if images.len() == 0 {
        String::new()
    } else {
        string_of(&image_tag(&chars_of(images[0].as_str()), &chars_of(name)))
    }
}

/// A cell of the result table as the script reads it: between quotation
/// marks, with backslashes and quotation marks escaped.
pub open spec fn js_cell(cell: Seq<char>) -> Seq<char> {
    "\""@ + replace_seq(replace_seq(cell, "\\"@, "\\\\"@), "\""@, "\\\""@) + "\""@
}

/// The first `upto` cells of a row, with commas between them.
pub open spec fn js_cells(row: Seq<String>, upto: int) -> Seq<char>
    decreases upto,
{
    if upto <= 0 {
        Seq::empty()
    } else if upto == 1 {
        js_cell(row[0]@)
    } else {
        js_cells(row, upto - 1) + ","@ + js_cell(row[upto - 1]@)
    }
}

/// The first `upto` rows of the result table.
pub open spec fn js_rows(table: Seq<Vec<String>>, upto: int) -> Seq<char>
    decreases upto,
{
    if upto <= 0 {
        Seq::empty()
    } else {
        js_rows(table, upto - 1) + "["@ + js_cells(table[upto - 1]@, table[upto - 1].len() as int) + "],"@
    }
}

fn cells_js(row: &Vec<String>) -> (out: Vec<char>)
    ensures
        out@ == js_cells(row@, row.len() as int),
{
    let mut out: Vec<char> = Vec::new();
    let mut i: usize = 0;
    while i < row.len()
        invariant
            i <= row.len(),
            out@ == js_cells(row@, i as int),
        decreases row.len() - i,
    {
        if i > 0 {
            append_chars(&mut out, &chars_of(","));
        }
        let a = replace_chars(&chars_of(row[i].as_str()), &chars_of("\\"), &chars_of("\\\\"));
        let b = replace_chars(&a, &chars_of("\""), &chars_of("\\\""));
        append_chars(&mut out, &chars_of("\""));
        append_chars(&mut out, &b);
        append_chars(&mut out, &chars_of("\""));
        i += 1;
        assert(out@ =~= js_cells(row@, i as int));
    }
    out
}

/// The rows of the result table as the script of the query page reads
/// them.
pub fn rows_js(table: &Vec<Vec<String>>) -> (out: String)
    ensures
        out@ == js_rows(table@, table.len() as int),
{
    let mut out: Vec<char> = Vec::new();
    let mut i: usize = 0;
    while i < table.len()
        invariant
            i <= table.len(),
            out@ == js_rows(table@, i as int),
        decreases table.len() - i,
    {
        let ghost before = out@;
        append_chars(&mut out, &chars_of("["));
        append_chars(&mut out, &cells_js(&table[i]));
        append_chars(&mut out, &chars_of("],"));
        i += 1;
        assert(out@ =~= before + "["@ + js_cells(table[i - 1]@, table[i - 1].len() as int) + "],"@);
    }
    string_of(&out)
}

/// The first `upto` headers, each between quotation marks, with commas
/// between them.
pub open spec fn js_headers(headers: Seq<String>, upto: int) -> Seq<char>
    decreases upto,
{
    if upto <= 0 {
        Seq::empty()
    } else if upto == 1 {
        "\""@ + headers[0]@ + "\""@
    } else {
        js_headers(headers, upto - 1) + ","@ + "\""@ + headers[upto - 1]@ + "\""@
    }
}

/// The headers of the result table as the script of the query page reads
/// them.
pub fn headers_js(headers: &Vec<String>) -> (out: String)
    ensures
        out@ == js_headers(headers@, headers.len() as int),
{
    let mut out: Vec<char> = Vec::new();
    let mut i: usize = 0;
    while i < headers.len()
        invariant
            i <= headers.len(),
            out@ == js_headers(headers@, i as int),
        decreases headers.len() - i,
    {
        if i > 0 {
            append_chars(&mut out, &chars_of(","));
        }
        append_chars(&mut out, &chars_of("\""));
        append_chars(&mut out, &chars_of(headers[i].as_str()));
        append_chars(&mut out, &chars_of("\""));
        i += 1;
        assert(out@ =~= js_headers(headers@, i as int));
    }
    string_of(&out)
}

/// The head of the card of an update block.
pub const SCRIPT_HEAD: &'static str =
    "<div class=\"card mb-3 shadow-sm\">\n          <div class=\"card-header bg-light text-dark\">SPARQL Script</div>\n          <div class=\"card-body\">\n            <pre class=\"bg-dark border p-3\"><code>";

/// The foot of the card of an update block.
pub const SCRIPT_TAIL: &'static str = "</code></pre>\n  </div>\n</div>\n";

/// What the history page knows between two lines.
pub struct CardsState {
    pub in_block: bool,
    pub block: Seq<char>,
    pub inside: Seq<char>,
}

/// The state after one more line of the history: an update block becomes a
/// card when it closes; outside a block, a line with `::` becomes the card
/// of a routine, and a dump record the card of a dump.
pub open spec fn cards_step(name: Seq<char>, st: CardsState, line: Seq<char>) -> CardsState {
    if has_prefix(line, "```sparql"@) {
        CardsState { in_block: true, block: Seq::empty(), inside: st.inside }
    } else if has_prefix(line, "```"@) && st.in_block {
        CardsState {
            in_block: false,
            block: st.block,
            inside: st.inside + SCRIPT_HEAD@ + html_escaped(st.block) + SCRIPT_TAIL@,
        }
    } else if st.in_block {
        CardsState { block: st.block + line + "\n"@, ..st }
    } else if exists|i: int| matches_at(line, "::"@, i) {
        CardsState {
            inside: st.inside + change_card_text(
                html_escaped(line.take(first_match(line, "::"@))),
                html_escaped(line.skip(first_match(line, "::"@) + 2)),
            ),
            ..st
        }
    } else if has_prefix(line, "Dumping"@) {
        CardsState {
            inside: st.inside + dump_card_text(
                replace_seq(line, "Dumping store to"@, ""@),
                replace_seq(line, "Dumping store to ./data/"@ + name + "/"@, ""@),
            ),
            ..st
        }
    } else {
        st
    }
}

/// The state after the first `upto` lines.
pub open spec fn cards_state(name: Seq<char>, all: Seq<Seq<char>>, upto: int) -> CardsState
    decreases upto,
{
    if upto <= 0 {
        CardsState { in_block: false, block: Seq::empty(), inside: Seq::empty() }
    } else {
        cards_step(name, cards_state(name, all, upto - 1), trimmed(all[upto - 1]))
    }
}

/// The cards of the history page for the history of the dataset `name`.
pub fn history_cards(history: &str, name: &str) -> (out: String)
    ensures
        out@ == cards_state(name@, lines(history@), lines(history@).len() as int).inside,
{
    let all = lines_of(&chars_of(history));
    let ghost listed = lines(history@);
    assert(texts(all@).len() == all.len());
    let empty: Vec<char> = Vec::new();
    assert(empty@ =~= ""@) by {
        reveal_strlit("");
    }
    let fence = chars_of("```sparql");
    let close = chars_of("```");
    let dumping = chars_of("Dumping");
    let colons = chars_of("::");
    assert(colons@.len() == 2) by {
        reveal_strlit("::");
    }
    let mut prefix = chars_of("Dumping store to ./data/");
    append_chars(&mut prefix, &chars_of(name));
    append_chars(&mut prefix, &chars_of("/"));
    let mut inside: Vec<char> = Vec::new();
    let mut block: Vec<char> = Vec::new();
    let mut in_block = false;
    let mut i: usize = 0;
    while i < all.len()
        invariant
            i <= all.len(),
            texts(all@) == listed,
            all.len() == listed.len(),
            empty@ == ""@,
            fence@ == "```sparql"@,
            close@ == "```"@,
            dumping@ == "Dumping"@,
            colons@ == "::"@,
            colons@.len() == 2,
            prefix@ == "Dumping store to ./data/"@ + name@ + "/"@,
            cards_state(name@, listed, i as int) == (CardsState {
                in_block: in_block,
                block: block@,
                inside: inside@,
            }),
        decreases all.len() - i,
    {
        assert(texts(all@)[i as int] == all[i as int]@);
        let line = trim_chars(&all[i]);
        if starts_with_chars(&line, &fence) {
            in_block = true;
            block = Vec::new();
        } else if starts_with_chars(&line, &close) && in_block {
            in_block = false;
            append_chars(&mut inside, &chars_of(SCRIPT_HEAD));
            append_chars(&mut inside, &escape_html_chars(&block));
            append_chars(&mut inside, &chars_of(SCRIPT_TAIL));
        } else if in_block {
            append_chars(&mut block, &line);
            append_chars(&mut block, &chars_of("\n"));
        } else {
            match find_from(&line, &colons, 0) {
                Some(at) => {
                    proof {
                        lemma_first_match_is(line@, colons@, at as int);
                    }
                    assert(matches_at(line@, colons@, at as int));
                    assert(at + 2 <= line.len());
                    let file = crate::text::slice_chars(&line, 0, at);
                    let description = crate::text::slice_chars(&line, at + 2, line.len());
                    assert(file@ =~= line@.take(at as int));
                    assert(description@ =~= line@.skip(at + 2));
                    let card = change_card(&escape_html_chars(&file), &escape_html_chars(&description));
                    append_chars(&mut inside, &card);
                },
                None => {
                    assert(!exists|k: int| matches_at(line@, colons@, k));
                    if starts_with_chars(&line, &dumping) {
                        let file = replace_chars(&line, &chars_of("Dumping store to"), &empty);
                        let version = replace_chars(&line, &prefix, &empty);
                        append_chars(&mut inside, &dump_card(&file, &version));
                    }
                },
            }
        }
        i += 1;
    }
    string_of(&inside)
}

/// How a run of routines failed: the message of the store and the number
/// of the routine that failed, counted from one; zero where it is unknown.
#[derive(Debug)]
pub struct RunFailure {
    pub message: String,
    pub count: usize,
}

/// What a run changed: the word for it and the number of statements.
pub open spec fn change_of(initial_count: u64, final_count: u64) -> (Seq<char>, nat) {
    if final_count >= initial_count {
        ("Inserted"@, (final_count - initial_count) as nat)
    } else {
        ("Deleted"@, (initial_count - final_count) as nat)
    }
}

/// The entries of the routines from `from` up to, not including, `to`.
pub open spec fn listed_range(routines: Seq<String>, from: int, to: int) -> Seq<char> {
    list_items_upto(routines.subrange(from, to), to - from)
}

/// The page that reports a run of routines.
pub open spec fn run_results_text(
    routines: Seq<String>,
    failure: Option<RunFailure>,
    initial_count: u64,
    final_count: u64,
) -> Seq<char> {
    let action = change_of(initial_count, final_count).0;
    let count = decimal(change_of(initial_count, final_count).1);
    match failure {
        None => success_page_text(action, count, listed_range(routines, 0, routines.len() as int)),
        Some(f) => {
            let known = 0 < f.count <= routines.len();
            failure_page_text(
                if f.count > 0 {
                    listed_range(routines, 0, f.count - 1)
                } else {
                    Seq::empty()
                },
                if known {
                    routines[f.count - 1]@
                } else {
                    "Unknown"@
                },
                f.message@,
                if known {
                    listed_range(routines, f.count - 1, routines.len() as int)
                } else {
                    listed_range(routines, 0, routines.len() as int)
                },
                action,
                count,
            )
        },
    }
}

fn list_range(routines: &Vec<String>, from: usize, to: usize) -> (out: Vec<char>)
    requires
        from <= to <= routines.len(),
    ensures
        out@ == listed_range(routines@, from as int, to as int),
{
    let mut out: Vec<char> = Vec::new();
    let ghost part = routines@.subrange(from as int, to as int);
    let mut i: usize = from;
    while i < to
        invariant
            from <= i <= to,
            to <= routines.len(),
            part == routines@.subrange(from as int, to as int),
            out@ == list_items_upto(part, i - from),
        decreases to - i,
    {
        assert(part[i - from] == routines[i as int]);
        append_chars(&mut out, &list_item(&chars_of(routines[i].as_str())));
        i += 1;
    }
    out
}

/// Builds the page that reports a run of routines: what was run, what
/// failed and what was skipped, and how many statements the run inserted
/// or deleted.
pub fn run_results(routines: &Vec<String>, failure: Option<RunFailure>, initial_count: u64, final_count: u64) -> (out:
    String)
    requires
        failure matches Some(f) ==> f.count <= routines.len() + 1,
    ensures
        out@ == run_results_text(routines@, failure, initial_count, final_count),
{
    let (action, changed) = if final_count >= initial_count {
        (chars_of("Inserted"), final_count - initial_count)
    } else {
        (chars_of("Deleted"), initial_count - final_count)
    };
    let count = decimal_chars(changed);
    match &failure {
        None => {
            let list = list_range(routines, 0, routines.len());
            string_of(&success_page(&action, &count, &list))
        },
        Some(f) => {
            let known = f.count > 0 && f.count <= routines.len();
            let ran = if f.count > 0 {
                list_range(routines, 0, f.count - 1)
            } else {
                let none: Vec<char> = Vec::new();
                assert(none@ =~= Seq::<char>::empty());
                none
            };
            let failed = if known {
                chars_of(routines[f.count - 1].as_str())
            } else {
                chars_of("Unknown")
            };
            let skipped = if known {
                list_range(routines, f.count - 1, routines.len())
            } else {
                list_range(routines, 0, routines.len())
            };
            string_of(
                &failure_page(&ran, &failed, &chars_of(f.message.as_str()), &skipped, &action, &count),
            )
        },
    }
}

} // verus!
