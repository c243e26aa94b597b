//! Building the class graph from what the dataset reports: the classes, and
//! for each class the predicates that leave its instances, with the class
//! they land on and how often.

use vstd::prelude::*;
use crate::graph::{literal_name, ClassGraph, EdgeModel};
use crate::store::KG;
use crate::text::{append_chars, chars_of, same_chars, string_of};

verus! {

/// The predicate that assigns an entity to its class.
pub const TYPE_PREDICATE: &'static str = "<http://www.w3.org/1999/02/22-rdf-syntax-ns#type>";

/// One row of the outgoing-edges query of a class: a predicate, the class
/// of the objects it lands on if they have one, and the number of uses.
#[derive(Debug)]
pub struct EdgeRow {
    pub predicate: String,
    pub target: Option<String>,
    pub count: u64,
}

/// One entry of the adjacency list: `count` uses of `predicate` lead from
/// instances of `source` to instances of `target`, or to literals when the
/// target is the sink.
#[derive(Debug)]
pub struct Relation {
    pub source: String,
    pub predicate: String,
    pub target: String,
    pub count: u64,
}

/// A relation as contracts see it.
pub struct RelationModel {
    pub source: Seq<char>,
    pub predicate: Seq<char>,
    pub target: Seq<char>,
    pub count: u64,
}

impl View for Relation {
    type V = RelationModel;

    open spec fn view(&self) -> RelationModel {
        RelationModel {
            source: self.source@,
            predicate: self.predicate@,
            target: self.target@,
            count: self.count,
        }
    }
}

/// The relation that a row of the class `class` stands for.
pub open spec fn relation_of(class: Seq<char>, row: EdgeRow) -> RelationModel {
    RelationModel {
        source: class,
        predicate: row.predicate@,
        target: match row.target {
            Some(t) => t@,
            None => literal_name(),
        },
        count: row.count,
    }
}

/// The relations of the first `upto` rows. Rows of the type predicate stand
/// for no relation.
pub open spec fn relations(class: Seq<char>, rows: Seq<EdgeRow>, upto: int) -> Seq<RelationModel>
    decreases upto,
{
    if upto <= 0 {
        Seq::empty()
    } else if rows[upto - 1].predicate@ == TYPE_PREDICATE@ {
        relations(class, rows, upto - 1)
    } else {
        relations(class, rows, upto - 1).push(relation_of(class, rows[upto - 1]))
    }
}

/// The views of `list`.
pub open spec fn models(list: Seq<Relation>) -> Seq<RelationModel> {
    Seq::new(list.len(), |i: int| list[i]@)
}

/// The adjacency entries of the class `class` from the rows of its
/// outgoing-edges query: one per row, in order, but none for the type
/// predicate; a row without a target class leads to the sink.
pub fn relations_of(class: &str, rows: &Vec<EdgeRow>) -> (out: Vec<Relation>)
    ensures
        models(out@) == relations(class@, rows@, rows.len() as int),
{
    let type_predicate = chars_of(TYPE_PREDICATE);
    let mut out: Vec<Relation> = Vec::new();
    let mut i: usize = 0;
    while i < rows.len()
        invariant
            i <= rows.len(),
            type_predicate@ == TYPE_PREDICATE@,
            models(out@) == relations(class@, rows@, i as int),
        decreases rows.len() - i,
    {
        let row = &rows[i];
        if !same_chars(&chars_of(row.predicate.as_str()), &type_predicate) {
            let target = match &row.target {
                Some(t) => t.clone(),
                None => "Literal".to_string(),
            };
            let ghost before = out@;
            out.push(
                Relation {
                    source: class.to_string(),
                    predicate: row.predicate.clone(),
                    target,
                    count: row.count,
                },
            );
            assert(models(out@) =~= models(before).push(relation_of(class@, rows[i as int])));
        }
        i += 1;
    }
    out
}

/// The statement that records a relation between two classes in the
/// dataset's own class-relation graph.
pub open spec fn class_relation_text(r: RelationModel) -> Seq<char> {
    "\nINSERT DATA {   \n    GRAPH <urn:class_relations> {\n        "@ + r.source + " "@ + r.predicate
        + " "@ + r.target + ".\n    }\n}"@
}

/// The update that records `relation` in the dataset's own class-relation
/// graph; relations that lead to the sink are not recorded.
pub fn class_relation_insert(relation: &Relation) -> (r: Option<String>)
    ensures
        r is None <==> relation@.target == literal_name(),
        r matches Some(text) ==> text@ == class_relation_text(relation@),
{
    if same_chars(&chars_of(relation.target.as_str()), &chars_of("Literal")) {
        return None;
    }
    let mut out = chars_of("\nINSERT DATA {   \n    GRAPH <urn:class_relations> {\n        ");
    append_chars(&mut out, &chars_of(relation.source.as_str()));
    append_chars(&mut out, &chars_of(" "));
    append_chars(&mut out, &chars_of(relation.predicate.as_str()));
    append_chars(&mut out, &chars_of(" "));
    append_chars(&mut out, &chars_of(relation.target.as_str()));
    append_chars(&mut out, &chars_of(".\n    }\n}"));
    Some(string_of(&out))
}

/// The node names of a graph over the classes `types`: the sink, then the
/// classes.
pub open spec fn node_names(types: Seq<String>) -> Seq<Seq<char>> {
    Seq::new(
        types.len() + 1,
        |i: int|
            if i == 0 {
                literal_name()
            } else {
                types[i - 1]@
            },
    )
}

/// Whether `n` is the first of `names` that equals `name`.
pub open spec fn is_first(names: Seq<Seq<char>>, name: Seq<char>, n: int) -> bool {
    &&& 0 <= n < names.len()
    &&& names[n] == name
    &&& forall|k: int| 0 <= k < n ==> names[k] != name
}

/// Whether `name` is one of `names`.
pub open spec fn is_named(names: Seq<Seq<char>>, name: Seq<char>) -> bool {
    exists|n: int| 0 <= n < names.len() && #[trigger] names[n] == name
}

/// Whether relation `r` can become an edge between nodes of these names:
/// both its classes are named, and it does not start at the sink.
pub open spec fn placeable(names: Seq<Seq<char>>, r: RelationModel) -> bool {
    is_named(names, r.source) && is_named(names, r.target) && r.source != literal_name()
}

/// Those of the first `upto` entries that stand for a relation between
/// classes: all but the entries of the type predicate, in order.
pub open spec fn structural(list: Seq<Relation>, upto: int) -> Seq<RelationModel>
    decreases upto,
{
    if upto <= 0 {
        Seq::empty()
    } else if list[upto - 1].predicate@ == TYPE_PREDICATE@ {
        structural(list, upto - 1)
    } else {
        structural(list, upto - 1).push(list[upto - 1]@)
    }
}

/// Whether a graph can be built: every structural relation can be placed,
/// and nodes and edges can be counted in 32 bits.
pub open spec fn buildable(types: Seq<String>, list: Seq<Relation>) -> bool {
    &&& types.len() < u32::MAX
    &&& list.len() <= u32::MAX
    &&& forall|i: int|
        0 <= i < structural(list, list.len() as int).len() ==> placeable(
            node_names(types),
            #[trigger] structural(list, list.len() as int)[i],
        )
}

/// Whether edge `e` stands for relation `r` between nodes of these names.
pub open spec fn edge_stands_for(names: Seq<Seq<char>>, e: EdgeModel, r: RelationModel) -> bool {
    &&& is_first(names, r.source, e.source)
    &&& is_first(names, r.target, e.target)
    &&& e.predicate == r.predicate
    &&& e.count == r.count
    &&& e.forward is None
    &&& e.backward is None
}

proof fn lemma_structural_len(list: Seq<Relation>, upto: int)
    requires
        0 <= upto,
    ensures
        structural(list, upto).len() <= upto,
    decreases upto,
{
    if upto > 0 {
        lemma_structural_len(list, upto - 1);
    }
}

proof fn lemma_structural_prefix(list: Seq<Relation>, a: int, b: int)
    requires
        0 <= a <= b,
    ensures
        structural(list, a).len() <= structural(list, b).len(),
        forall|i: int| 0 <= i < structural(list, a).len() ==> structural(list, a)[i] == structural(list, b)[i],
    decreases b - a,
{
    if a < b {
        lemma_structural_prefix(list, a, b - 1);
    }
}

impl KG {
    /// The class graph over the classes `types` with one edge per entry of
    /// the adjacency list, in order. Entries of the type predicate stand
    /// for no relation between classes and get no edge. `None` when another
    /// entry names a class that is not among `types`, starts at the sink,
    /// or the graph would grow beyond what 32-bit indices count.
    pub fn calculate_class_relations_graph(&self, types: &Vec<String>, adj_list: &Vec<Relation>) -> (r:
        Option<ClassGraph>)
        ensures
            r is Some <==> buildable(types@, adj_list@),
            r matches Some(g) ==> {
                &&& g.wf()
                &&& g@.nodes == node_names(types@)
                &&& g@.edges.len() == structural(adj_list@, adj_list.len() as int).len()
                &&& forall|i: int|
                    0 <= i < g@.edges.len() ==> edge_stands_for(
                        g@.nodes,
                        #[trigger] g@.edges[i],
                        structural(adj_list@, adj_list.len() as int)[i],
                    )
                &&& forall|e: int| 0 <= e < g@.edges.len() ==> (#[trigger] g@.edges[e]).predicate != TYPE_PREDICATE@
            },
    {
        if types.len() >= u32::MAX as usize || adj_list.len() > u32::MAX as usize {
            return None;
        }
        let type_predicate = chars_of(TYPE_PREDICATE);
        let mut g = ClassGraph::new();
        let mut t: usize = 0;
        while t < types.len()
            invariant
                t <= types.len(),
                types.len() < u32::MAX,
                g.wf(),
                g@.edges == Seq::<EdgeModel>::empty(),
                g@.nodes == node_names(types@).take(t + 1),
            decreases types.len() - t,
        {
            g.add_class(types[t].clone());
            t += 1;
            assert(g@.nodes =~= node_names(types@).take(t + 1));
        }
        assert(node_names(types@).take(types.len() + 1) =~= node_names(types@));
        let ghost names = node_names(types@);
        let ghost all = structural(adj_list@, adj_list.len() as int);
        let mut i: usize = 0;
        while i < adj_list.len()
            invariant
                i <= adj_list.len(),
                adj_list.len() <= u32::MAX,
                type_predicate@ == TYPE_PREDICATE@,
                g.wf(),
                names == node_names(types@),
                all == structural(adj_list@, adj_list.len() as int),
                g@.nodes == names,
                g@.edges.len() == structural(adj_list@, i as int).len(),
                forall|k: int|
                    0 <= k < g@.edges.len() ==> placeable(names, #[trigger] structural(adj_list@, i as int)[k]),
                forall|k: int|
                    0 <= k < g@.edges.len() ==> edge_stands_for(
                        names,
                        #[trigger] g@.edges[k],
                        structural(adj_list@, i as int)[k],
                    ),
                forall|k: int| 0 <= k < g@.edges.len() ==> (#[trigger] g@.edges[k]).predicate != TYPE_PREDICATE@,
            decreases adj_list.len() - i,
        {
            let entry = &adj_list[i];
            proof {
                lemma_structural_len(adj_list@, i as int);
                lemma_structural_prefix(adj_list@, i + 1, adj_list.len() as int);
            }
            if !same_chars(&chars_of(entry.predicate.as_str()), &type_predicate) {
                let ghost at = structural(adj_list@, i as int).len() as int;
                assert(structural(adj_list@, i + 1)[at] == entry@);
                assert(all[at] == entry@);
                let source = g.find_node(entry.source.as_str());
                let target = g.find_node(entry.target.as_str());
                match (source, target) {
                    (Some(s), Some(d)) => {
                        if s == g.literal() {
                            assert(!placeable(names, all[at]));
                            return None;
                        }
                        g.add_relation(s, d, entry.predicate.clone(), entry.count);
                        assert(names[s as int] == entry@.source);
                        assert(names[d as int] == entry@.target);
                    },
                    _ => {
                        assert(!placeable(names, all[at]));
                        return None;
                    },
                }
            }
            i += 1;
        }
        Some(g)
    }
}

} // verus!
