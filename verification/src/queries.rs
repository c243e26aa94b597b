//! The texts of the queries that the analysis and the pages send to the
//! store.

use vstd::prelude::*;
use crate::store::KG;
use crate::text::{append_chars, chars_of, decimal, decimal_chars, string_of};

verus! {

/// The query for the number of statements.
pub const COUNT_LINES_QUERY: &'static str = "SELECT (COUNT(*) as ?count) WHERE { ?s ?p ?o }";

/// The query for the classes.
pub const CLASSES_QUERY: &'static str = "SELECT DISTINCT ?t WHERE {\n            ?s a ?t.\n        }";

/// The query for the classes with their numbers of instances.
pub const CLASS_COUNTS_QUERY: &'static str =
    "\nSELECT ?t (COUNT(?s) AS ?count)\nWHERE {\n    ?s a ?t .\n}\nGROUP BY ?t\nORDER BY DESC(?count)\n";

/// The update template that merges the second entity of a pair into the
/// first.
pub const MERGE_UPDATE: &'static str =
    "DELETE { ?sub ?pred {{s2}} }\nINSERT { ?sub ?pred {{s1}} }\nWHERE  { ?sub ?pred {{s2}} };\nDELETE { {{s2}} ?p ?o }\nINSERT { {{s1}} ?p ?o }\nWHERE  { {{s2}} ?p ?o }\n        ";

/// The query for one page of the entities of a class: `limit` entities
/// after the first `offset`.
pub open spec fn objects_query_text(object_type: Seq<char>, limit: u32, offset: u32) -> Seq<char> {
    "\n            SELECT DISTINCT ?obj WHERE {\n                ?obj a "@
        + object_type
        + ".\n            }\n            LIMIT "@
        + decimal(limit as nat)
        + "\n            OFFSET "@
        + decimal(offset as nat)
        + "\n        "@
}

/// The query for one page of the entities of a class: `limit` entities
/// after the first `offset`.
pub fn objects_query(object_type: &str, limit: u32, offset: u32) -> (q: String)
    ensures
        q@ == objects_query_text(object_type@, limit, offset),
{
    let mut out = chars_of("\n            SELECT DISTINCT ?obj WHERE {\n                ?obj a ");
    append_chars(&mut out, &chars_of(object_type));
    append_chars(&mut out, &chars_of(".\n            }\n            LIMIT "));
    append_chars(&mut out, &decimal_chars(limit as u64));
    append_chars(&mut out, &chars_of("\n            OFFSET "));
    append_chars(&mut out, &decimal_chars(offset as u64));
    append_chars(&mut out, &chars_of("\n        "));
    string_of(&out)
}

/// The query for the types of an entity.
pub open spec fn types_query_text(object: Seq<char>) -> Seq<char> {
    "\n        SELECT ?otype WHERE {\n            "@
        + object
        + " a ?otype .\n        }\n    "@
}

/// The query for the types of an entity.
pub fn types_query(object: &str) -> (q: String)
    ensures
        q@ == types_query_text(object@),
{
    let mut out = chars_of("\n        SELECT ?otype WHERE {\n            ");
    append_chars(&mut out, &chars_of(object));
    append_chars(&mut out, &chars_of(" a ?otype .\n        }\n    "));
    string_of(&out)
}

/// The query for the name of an entity.
pub open spec fn name_query_text(object: Seq<char>) -> Seq<char> {
    "\n            SELECT ?name WHERE {\n                "@
        + object
        + " <http://schema.org/name> ?name .\n            }\n            LIMIT 1\n        "@
}

/// The query for the name of an entity.
pub fn name_query(object: &str) -> (q: String)
    ensures
        q@ == name_query_text(object@),
{
    let mut out = chars_of("\n            SELECT ?name WHERE {\n                ");
    append_chars(&mut out, &chars_of(object));
    append_chars(&mut out, &chars_of(" <http://schema.org/name> ?name .\n            }\n            LIMIT 1\n        "));
    string_of(&out)
}

/// The query for the description of an entity.
pub open spec fn description_query_text(object: Seq<char>) -> Seq<char> {
    "\n            SELECT ?description WHERE {\n                "@
        + object
        + " <http://schema.org/description> ?description .\n            \n            }\n            LIMIT 1\n        "@
}

/// The query for the description of an entity.
pub fn description_query(object: &str) -> (q: String)
    ensures
        q@ == description_query_text(object@),
{
    let mut out = chars_of("\n            SELECT ?description WHERE {\n                ");
    append_chars(&mut out, &chars_of(object));
    append_chars(&mut out, &chars_of(" <http://schema.org/description> ?description .\n            \n            }\n            LIMIT 1\n        "));
    string_of(&out)
}

/// The query for the address of an entity that is an image.
pub open spec fn image_address_query_text(object: Seq<char>) -> Seq<char> {
    "\n            SELECT ?img WHERE {\n        "@
        + object
        + " <http://schema.org/url> ?img .\n            }\n                \n                "@
}

/// The query for the address of an entity that is an image.
pub fn image_address_query(object: &str) -> (q: String)
    ensures
        q@ == image_address_query_text(object@),
{
    let mut out = chars_of("\n            SELECT ?img WHERE {\n        ");
    append_chars(&mut out, &chars_of(object));
    append_chars(&mut out, &chars_of(" <http://schema.org/url> ?img .\n            }\n                \n                "));
    string_of(&out)
}

/// The query for the images, photos, logos and depictions of an entity.
pub open spec fn images_query_text(object: Seq<char>) -> Seq<char> {
    "\n        SELECT ?img WHERE {\n          {\n            "@
        + object
        + " <http://schema.org/image> ?img .\n          }\n          UNION {\n            "@
        + object
        + " <http://schema.org/photo> ?img .\n          }\n          UNION {\n            "@
        + object
        + " <http://schema.org/logo> ?img .\n          }\n          UNION {\n            "@
        + object
        + " <http://xmlns.com/foaf/0.1/depiction> ?img .\n          }\n        } \n    "@
}

/// The query for the images, photos, logos and depictions of an entity.
pub fn images_query(object: &str) -> (q: String)
    ensures
        q@ == images_query_text(object@),
{
    let mut out = chars_of("\n        SELECT ?img WHERE {\n          {\n            ");
    append_chars(&mut out, &chars_of(object));
    append_chars(&mut out, &chars_of(" <http://schema.org/image> ?img .\n          }\n          UNION {\n            "));
    append_chars(&mut out, &chars_of(object));
    append_chars(&mut out, &chars_of(" <http://schema.org/photo> ?img .\n          }\n          UNION {\n            "));
    append_chars(&mut out, &chars_of(object));
    append_chars(&mut out, &chars_of(" <http://schema.org/logo> ?img .\n          }\n          UNION {\n            "));
    append_chars(&mut out, &chars_of(object));
    append_chars(&mut out, &chars_of(" <http://xmlns.com/foaf/0.1/depiction> ?img .\n          }\n        } \n    "));
    string_of(&out)
}

/// The query for the predicates that the instances of a class carry.
pub open spec fn predicates_query_text(otype: Seq<char>) -> Seq<char> {
    "\nSELECT DISTINCT ?p WHERE {\n    ?s a "@
        + otype
        + ".\n    ?s ?p ?o.\n}\n"@
}

/// The query for the predicates that the instances of a class carry.
pub fn predicates_query(otype: &str) -> (q: String)
    ensures
        q@ == predicates_query_text(otype@),
{
    let mut out = chars_of("\nSELECT DISTINCT ?p WHERE {\n    ?s a ");
    append_chars(&mut out, &chars_of(otype));
    append_chars(&mut out, &chars_of(".\n    ?s ?p ?o.\n}\n"));
    string_of(&out)
}

/// The query for the number of instances of a class.
pub open spec fn class_count_query_text(otype: Seq<char>) -> Seq<char> {
    "\nSELECT (COUNT (DISTINCT ?s) as ?cnt)\nWHERE {\n        ?s a "@
        + otype
        + ".\n}\n"@
}

/// The query for the number of instances of a class.
pub fn class_count_query(otype: &str) -> (q: String)
    ensures
        q@ == class_count_query_text(otype@),
{
    let mut out = chars_of("\nSELECT (COUNT (DISTINCT ?s) as ?cnt)\nWHERE {\n        ?s a ");
    append_chars(&mut out, &chars_of(otype));
    append_chars(&mut out, &chars_of(".\n}\n"));
    string_of(&out)
}

/// The query for the number of instances of a class that carry a
/// predicate.
pub open spec fn frequency_query_text(otype: Seq<char>, predicate: Seq<char>) -> Seq<char> {
    "\nSELECT (COUNT(DISTINCT ?s) as ?cnt)\nWHERE {\n        ?s a "@
        + otype
        + ";\n        "@
        + predicate
        + " ?o.\n}\n        "@
}

/// The query for the number of instances of a class that carry a
/// predicate.
pub fn frequency_query(otype: &str, predicate: &str) -> (q: String)
    ensures
        q@ == frequency_query_text(otype@, predicate@),
{
    let mut out = chars_of("\nSELECT (COUNT(DISTINCT ?s) as ?cnt)\nWHERE {\n        ?s a ");
    append_chars(&mut out, &chars_of(otype));
    append_chars(&mut out, &chars_of(";\n        "));
    append_chars(&mut out, &chars_of(predicate));
    append_chars(&mut out, &chars_of(" ?o.\n}\n        "));
    string_of(&out)
}

/// The query for the number of distinct objects of a predicate on a
/// class.
pub open spec fn distinct_objects_query_text(otype: Seq<char>, predicate: Seq<char>) -> Seq<char> {
    "\nSELECT (COUNT(DISTINCT ?o) as ?cnt){\n        ?s a "@
        + otype
        + ";\n        "@
        + predicate
        + " ?o.\n}        \n"@
}

/// The query for the number of distinct objects of a predicate on a
/// class.
pub fn distinct_objects_query(otype: &str, predicate: &str) -> (q: String)
    ensures
        q@ == distinct_objects_query_text(otype@, predicate@),
{
    let mut out = chars_of("\nSELECT (COUNT(DISTINCT ?o) as ?cnt){\n        ?s a ");
    append_chars(&mut out, &chars_of(otype));
    append_chars(&mut out, &chars_of(";\n        "));
    append_chars(&mut out, &chars_of(predicate));
    append_chars(&mut out, &chars_of(" ?o.\n}        \n"));
    string_of(&out)
}

/// The query for the sizes of the groups of equal objects of a predicate
/// on a class.
pub open spec fn entropy_query_text(otype: Seq<char>, predicate: Seq<char>) -> Seq<char> {
    "\nSELECT (COUNT(?s) AS ?cnt) \nWHERE {\n    ?s a "@
        + otype
        + ".\n    ?s "@
        + predicate
        + " ?v.\n} \nGROUP BY ?v\n            \n            "@
}

/// The query for the sizes of the groups of equal objects of a predicate
/// on a class.
pub fn entropy_query(otype: &str, predicate: &str) -> (q: String)
    ensures
        q@ == entropy_query_text(otype@, predicate@),
{
    let mut out = chars_of("\nSELECT (COUNT(?s) AS ?cnt) \nWHERE {\n    ?s a ");
    append_chars(&mut out, &chars_of(otype));
    append_chars(&mut out, &chars_of(".\n    ?s "));
    append_chars(&mut out, &chars_of(predicate));
    append_chars(&mut out, &chars_of(" ?v.\n} \nGROUP BY ?v\n            \n            "));
    string_of(&out)
}

/// The query for the number of uses of a predicate on a class.
pub open spec fn uses_query_text(otype: Seq<char>, predicate: Seq<char>) -> Seq<char> {
    "\nSELECT (COUNT(?o) AS ?cnt) \nWHERE {\n    ?s a "@
        + otype
        + ".\n    ?s "@
        + predicate
        + " ?o.\n}\n            \n            "@
}

/// The query for the number of uses of a predicate on a class.
pub fn uses_query(otype: &str, predicate: &str) -> (q: String)
    ensures
        q@ == uses_query_text(otype@, predicate@),
{
    let mut out = chars_of("\nSELECT (COUNT(?o) AS ?cnt) \nWHERE {\n    ?s a ");
    append_chars(&mut out, &chars_of(otype));
    append_chars(&mut out, &chars_of(".\n    ?s "));
    append_chars(&mut out, &chars_of(predicate));
    append_chars(&mut out, &chars_of(" ?o.\n}\n            \n            "));
    string_of(&out)
}

/// The query for the number of other predicates on each subject that
/// carries a predicate.
pub open spec fn quality_query_text(otype: Seq<char>, predicate: Seq<char>) -> Seq<char> {
    "\n        SELECT (COUNT(DISTINCT ?p2) as ?cnt) WHERE {\n            ?s a "@
        + otype
        + ".\n            ?s "@
        + predicate
        + " ?o1.\n            ?s ?p2 ?o2.\n            FILTER(?p2!="@
        + predicate
        + ")\n        }\n        GROUP BY ?s\n        "@
}

/// The query for the number of other predicates on each subject that
/// carries a predicate.
pub fn quality_query(otype: &str, predicate: &str) -> (q: String)
    ensures
        q@ == quality_query_text(otype@, predicate@),
{
    let mut out = chars_of("\n        SELECT (COUNT(DISTINCT ?p2) as ?cnt) WHERE {\n            ?s a ");
    append_chars(&mut out, &chars_of(otype));
    append_chars(&mut out, &chars_of(".\n            ?s "));
    append_chars(&mut out, &chars_of(predicate));
    append_chars(&mut out, &chars_of(" ?o1.\n            ?s ?p2 ?o2.\n            FILTER(?p2!="));
    append_chars(&mut out, &chars_of(predicate));
    append_chars(&mut out, &chars_of(")\n        }\n        GROUP BY ?s\n        "));
    string_of(&out)
}

/// The query for the number of type statements of a class.
pub open spec fn instance_count_query_text(node: Seq<char>) -> Seq<char> {
    "\n            SELECT (COUNT(?s) as ?cnt) WHERE {\n                ?s a "@
        + node
        + ".\n            }\n            "@
}

/// The query for the number of type statements of a class.
pub fn instance_count_query(node: &str) -> (q: String)
    ensures
        q@ == instance_count_query_text(node@),
{
    let mut out = chars_of("\n            SELECT (COUNT(?s) as ?cnt) WHERE {\n                ?s a ");
    append_chars(&mut out, &chars_of(node));
    append_chars(&mut out, &chars_of(".\n            }\n            "));
    string_of(&out)
}

/// The query for the predicates that leave the instances of a class, with
/// the class they land on and the number of uses.
pub open spec fn outgoing_edges_query_text(t: Seq<char>) -> Seq<char> {
    "\nSELECT ?p ?t2 (COUNT(?o) as ?cnt) WHERE {\n    ?s ?p ?o.\n    ?s a "@
        + t
        + ".\n    OPTIONAL {?o a ?t2}\n}\nGROUP BY ?p ?t2\n            "@
}

/// The query for the predicates that leave the instances of a class, with
/// the class they land on and the number of uses.
pub fn outgoing_edges_query(t: &str) -> (q: String)
    ensures
        q@ == outgoing_edges_query_text(t@),
{
    let mut out = chars_of("\nSELECT ?p ?t2 (COUNT(?o) as ?cnt) WHERE {\n    ?s ?p ?o.\n    ?s a ");
    append_chars(&mut out, &chars_of(t));
    append_chars(&mut out, &chars_of(".\n    OPTIONAL {?o a ?t2}\n}\nGROUP BY ?p ?t2\n            "));
    string_of(&out)
}

/// The query for the instances of a class.
pub open spec fn entities_query_text(otype: Seq<char>) -> Seq<char> {
    "\n        SELECT ?s {\n            ?s a "@
        + otype
        + "\n        }\n        "@
}

/// The query for the instances of a class.
pub fn entities_query(otype: &str) -> (q: String)
    ensures
        q@ == entities_query_text(otype@),
{
    let mut out = chars_of("\n        SELECT ?s {\n            ?s a ");
    append_chars(&mut out, &chars_of(otype));
    append_chars(&mut out, &chars_of("\n        }\n        "));
    string_of(&out)
}

/// The query for the predicates of one subject.
pub open spec fn subject_predicates_query_text(s: Seq<char>) -> Seq<char> {
    "\n                        SELECT DISTINCT ?p WHERE {\n                            "@
        + s
        + " ?p ?v.\n                        }\n                    "@
}

/// The query for the predicates of one subject.
pub fn subject_predicates_query(s: &str) -> (q: String)
    ensures
        q@ == subject_predicates_query_text(s@),
{
    let mut out = chars_of("\n                        SELECT DISTINCT ?p WHERE {\n                            ");
    append_chars(&mut out, &chars_of(s));
    append_chars(&mut out, &chars_of(" ?p ?v.\n                        }\n                    "));
    string_of(&out)
}

/// The query for the statements about an entity.
pub open spec fn statements_query_text(entity: Seq<char>) -> Seq<char> {
    "\n      SELECT ?pred ?obj WHERE {\n        "@
        + entity
        + " ?pred ?obj .\n      }\n      "@
}

/// The query for the statements about an entity.
pub fn statements_query(entity: &str) -> (q: String)
    ensures
        q@ == statements_query_text(entity@),
{
    let mut out = chars_of("\n      SELECT ?pred ?obj WHERE {\n        ");
    append_chars(&mut out, &chars_of(entity));
    append_chars(&mut out, &chars_of(" ?pred ?obj .\n      }\n      "));
    string_of(&out)
}

/// The query for the statements that refer to an entity.
pub open spec fn references_query_text(entity: Seq<char>) -> Seq<char> {
    "\n      SELECT ?sub ?pred WHERE {\n        ?sub ?pred "@
        + entity
        + " .\n      }\n      "@
}

/// The query for the statements that refer to an entity.
pub fn references_query(entity: &str) -> (q: String)
    ensures
        q@ == references_query_text(entity@),
{
    let mut out = chars_of("\n      SELECT ?sub ?pred WHERE {\n        ?sub ?pred ");
    append_chars(&mut out, &chars_of(entity));
    append_chars(&mut out, &chars_of(" .\n      }\n      "));
    string_of(&out)
}

/// The query for the statements of an entity whose objects have no
/// statements of their own.
pub open spec fn simple_connections_query_text(ent: Seq<char>) -> Seq<char> {
    "PREFIX schema: <http://schema.org/>\n                    SELECT DISTINCT ?predicate ?object\n                    WHERE {\n                "@
        + ent
        + " ?predicate ?object .\n                    FILTER NOT EXISTS {\n                        ?object ?otherPredicate ?otherSubject .\n                }\n                }"@
}

/// The query for the statements of an entity whose objects have no
/// statements of their own.
pub fn simple_connections_query(ent: &str) -> (q: String)
    ensures
        q@ == simple_connections_query_text(ent@),
{
    let mut out = chars_of("PREFIX schema: <http://schema.org/>\n                    SELECT DISTINCT ?predicate ?object\n                    WHERE {\n                ");
    append_chars(&mut out, &chars_of(ent));
    append_chars(&mut out, &chars_of(" ?predicate ?object .\n                    FILTER NOT EXISTS {\n                        ?object ?otherPredicate ?otherSubject .\n                }\n                }"));
    string_of(&out)
}

/// The query for the statements of an entity whose objects have
/// statements of their own.
pub open spec fn complex_connections_query_text(ent: Seq<char>) -> Seq<char> {
    "PREFIX schema: <http://schema.org/>\n                    SELECT DISTINCT ?predicate ?object\n                    WHERE {\n                        "@
        + ent
        + " ?predicate ?object .\n                        ?object ?p ?oo .\n                }"@
}

/// The query for the statements of an entity whose objects have
/// statements of their own.
pub fn complex_connections_query(ent: &str) -> (q: String)
    ensures
        q@ == complex_connections_query_text(ent@),
{
    let mut out = chars_of("PREFIX schema: <http://schema.org/>\n                    SELECT DISTINCT ?predicate ?object\n                    WHERE {\n                        ");
    append_chars(&mut out, &chars_of(ent));
    append_chars(&mut out, &chars_of(" ?predicate ?object .\n                        ?object ?p ?oo .\n                }"));
    string_of(&out)
}

/// The query for the class relations of a class.
pub open spec fn class_connections_query_text(ent: Seq<char>) -> Seq<char> {
    "PREFIX schema: <http://schema.org/>\n                    SELECT DISTINCT ?predicate ?object\n                    FROM <urn:class_relations>\n                    WHERE {\n                        "@
        + ent
        + " ?predicate ?object .\n                        ?object ?p ?oo .\n                }"@
}

/// The query for the class relations of a class.
pub fn class_connections_query(ent: &str) -> (q: String)
    ensures
        q@ == class_connections_query_text(ent@),
{
    let mut out = chars_of("PREFIX schema: <http://schema.org/>\n                    SELECT DISTINCT ?predicate ?object\n                    FROM <urn:class_relations>\n                    WHERE {\n                        ");
    append_chars(&mut out, &chars_of(ent));
    append_chars(&mut out, &chars_of(" ?predicate ?object .\n                        ?object ?p ?oo .\n                }"));
    string_of(&out)
}

/// The query for the number of distinct instances of a class.
pub open spec fn distinct_count_query_text(ent: Seq<char>) -> Seq<char> {
    "\nSELECT (COUNT(DISTINCT ?s) as ?cnt)\nWHERE {\n    ?s a "@
        + ent
        + ".\n\n}    \n"@
}

/// The query for the number of distinct instances of a class.
pub fn distinct_count_query(ent: &str) -> (q: String)
    ensures
        q@ == distinct_count_query_text(ent@),
{
    let mut out = chars_of("\nSELECT (COUNT(DISTINCT ?s) as ?cnt)\nWHERE {\n    ?s a ");
    append_chars(&mut out, &chars_of(ent));
    append_chars(&mut out, &chars_of(".\n\n}    \n"));
    string_of(&out)
}

/// The query for the pairs of entities of a class that agree in the
/// merge criteria.
pub open spec fn merge_select_query_text(ent: Seq<char>, criteres: Seq<char>) -> Seq<char> {
    "SELECT ?s1 ?s2 WHERE  {\n    ?s1 a "@
        + ent
        + ".\n    ?s2 a "@
        + ent
        + ".\n    "@
        + criteres
        + "\n    FILTER(STR(?s1) < STR(?s2))\n}\n        "@
}

/// The query for the pairs of entities of a class that agree in the
/// merge criteria.
pub fn merge_select_query(ent: &str, criteres: &str) -> (q: String)
    ensures
        q@ == merge_select_query_text(ent@, criteres@),
{
    let mut out = chars_of("SELECT ?s1 ?s2 WHERE  {\n    ?s1 a ");
    append_chars(&mut out, &chars_of(ent));
    append_chars(&mut out, &chars_of(".\n    ?s2 a "));
    append_chars(&mut out, &chars_of(ent));
    append_chars(&mut out, &chars_of(".\n    "));
    append_chars(&mut out, &chars_of(criteres));
    append_chars(&mut out, &chars_of("\n    FILTER(STR(?s1) < STR(?s2))\n}\n        "));
    string_of(&out)
}

/// One merge criterion: both entities carry the predicate `m` with the
/// same object.
pub open spec fn criterion(m: Seq<char>, i: nat) -> Seq<char> {
    "?s1 "@ + m + " ?o"@ + decimal(i) + ". ?s2 "@ + m + " ?o"@ + decimal(i) + "."@
}

/// The first `upto` merge criteria.
pub open spec fn criteria(merge_using: Seq<String>, upto: int) -> Seq<char>
    decreases upto,
{
    if upto <= 0 {
        Seq::empty()
    } else {
        criteria(merge_using, upto - 1) + criterion(merge_using[upto - 1]@, (upto - 1) as nat)
    }
}

/// What merging the entities of a class takes.
pub struct MergeModel {
    pub select: Seq<char>,
    pub update: Seq<char>,
    pub history: Seq<char>,
}

/// What merging the entities of a class takes: the selection of the pairs,
/// the update template for each pair, and the history line.
#[derive(Debug)]
pub struct Merge {
    pub select: String,
    pub update: String,
    pub history: String,
}

/// What merging the entities of the class `ent` by the predicates
/// `merge_using` takes.
pub open spec fn merge_of(ent: Seq<char>, merge_using: Seq<String>) -> MergeModel {
    let select = merge_select_query_text(ent, criteria(merge_using, merge_using.len() as int));
    MergeModel {
        select: select,
        update: MERGE_UPDATE@,
        history: "```sparql\n"@ + select + "\n#\n\n"@ + MERGE_UPDATE@ + "```"@,
    }
}

impl KG {
    /// Plans the merge of the entities of the class `ent` that agree in
    /// every predicate of `merge_using`.
    pub fn merge_entities(&self, ent: String, merge_using: Vec<String>) -> (m: Merge)
        ensures
            m.select@ == merge_of(ent@, merge_using@).select,
            m.update@ == merge_of(ent@, merge_using@).update,
            m.history@ == merge_of(ent@, merge_using@).history,
    {
        plan_merge(ent.as_str(), &merge_using)
    }
}

/// Plans the merge of the entities of the class `ent` that agree in every
/// predicate of `merge_using`.
pub fn plan_merge(ent: &str, merge_using: &Vec<String>) -> (m: Merge)
    ensures
        m.select@ == merge_of(ent@, merge_using@).select,
        m.update@ == merge_of(ent@, merge_using@).update,
        m.history@ == merge_of(ent@, merge_using@).history,
{
    let mut list: Vec<char> = Vec::new();
    let mut i: usize = 0;
    while i < merge_using.len()
        invariant
            i <= merge_using.len(),
            list@ == criteria(merge_using@, i as int),
        decreases merge_using.len() - i,
    {
        let ghost before = list@;
        let m = chars_of(merge_using[i].as_str());
        let n = decimal_chars(i as u64);
        append_chars(&mut list, &chars_of("?s1 "));
        append_chars(&mut list, &m);
        append_chars(&mut list, &chars_of(" ?o"));
        append_chars(&mut list, &n);
        append_chars(&mut list, &chars_of(". ?s2 "));
        append_chars(&mut list, &m);
        append_chars(&mut list, &chars_of(" ?o"));
        append_chars(&mut list, &n);
        append_chars(&mut list, &chars_of("."));
        i += 1;
        assert(list@ =~= before + criterion(merge_using[i - 1]@, (i - 1) as nat));
    }
    let select = merge_select_query(ent, string_of(&list).as_str());
    let mut history = chars_of("```sparql\n");
    append_chars(&mut history, &chars_of(select.as_str()));
    append_chars(&mut history, &chars_of("\n#\n\n"));
    append_chars(&mut history, &chars_of(MERGE_UPDATE));
    append_chars(&mut history, &chars_of("```"));
    Merge { select, update: MERGE_UPDATE.to_string(), history: string_of(&history) }
}

} // verus!
