//! Terms and entities as the pages show them.

use vstd::prelude::*;
use crate::text::{append_chars, chars_of, replace_chars, replace_seq, same_chars, string_of};
use crate::utils::{escape_html_chars, escape_js_chars, html_escaped, js_escaped};
use crate::web_ui::html_templates::{object_card, pair};
use crate::web_ui::templetization::rendered;

verus! {

/// A term of the dataset, with what the pages read of it.
#[derive(Clone, Debug, PartialEq, Eq)]
pub enum Term {
    /// A name; the text is the name without angle brackets.
    NamedNode(String),
    /// A blank node; the text is its label without the leading `_:`.
    BlankNode(String),
    /// A literal: its value, and its full written form with quotes and
    /// datatype or language.
    Literal { value: String, written: String },
    /// A quoted statement, in its written form.
    Triple(String),
}

/// A term as contracts see it.
pub enum TermModel {
    NamedNode(Seq<char>),
    BlankNode(Seq<char>),
    Literal { value: Seq<char>, written: Seq<char> },
    Triple(Seq<char>),
}

impl View for Term {
    type V = TermModel;

    open spec fn view(&self) -> TermModel {
        match self {
            Term::NamedNode(n) => TermModel::NamedNode(n@),
            Term::BlankNode(b) => TermModel::BlankNode(b@),
            Term::Literal { value, written } => TermModel::Literal { value: value@, written: written@ },
            Term::Triple(t) => TermModel::Triple(t@),
        }
    }
}

/// The written form of a term: a name between angle brackets, a blank node
/// after `_:`, a literal or a quoted statement as it was written.
pub open spec fn written(t: TermModel) -> Seq<char> {
    match t {
        TermModel::NamedNode(n) => "<"@ + n + ">"@,
        TermModel::BlankNode(b) => "_:"@ + b,
        TermModel::Literal { value, written } => written,
        TermModel::Triple(t) => t,
    }
}

/// What a cell shows of a term: the value of a literal, a name without
/// angle brackets, and nothing of other terms.
pub open spec fn literal_of(t: Option<TermModel>) -> Option<Seq<char>> {
    match t {
        Some(TermModel::Literal { value, written }) => Some(value),
        Some(TermModel::NamedNode(n)) => Some(
            replace_seq(replace_seq("<"@ + n + ">"@, "<"@, ""@), ">"@, ""@),
        ),
        _ => None,
    }
}

impl Term {
    /// The written form of the term.
    pub fn to_text(&self) -> (out: String)
        ensures
            out@ == written(self@),
    {
        match self {
            Term::NamedNode(n) => {
                let mut out = chars_of("<");
                append_chars(&mut out, &chars_of(n.as_str()));
                append_chars(&mut out, &chars_of(">"));
                string_of(&out)
            },
            Term::BlankNode(b) => {
                let mut out = chars_of("_:");
                append_chars(&mut out, &chars_of(b.as_str()));
                string_of(&out)
            },
            Term::Literal { value, written } => written.clone(),
            Term::Triple(t) => t.clone(),
        }
    }
}

/// Extracts the value of a literal or the name of a named node.
pub fn extract_literal(term: Option<&Term>) -> (r: Option<String>)
    ensures
        match r {
            Some(s) => literal_of(
                match term {
                    Some(t) => Some(t@),
                    None => None,
                },
            ) == Some(s@),
            None => literal_of(
                match term {
                    Some(t) => Some(t@),
                    None => None,
                },
            ) is None,
        },
{
    match term {
        Some(Term::Literal { value, written }) => Some(value.clone()),
        Some(Term::NamedNode(n)) => {
            let empty: Vec<char> = Vec::new();
            assert(empty@ =~= ""@) by {
                reveal_strlit("");
            }
            let mut text = chars_of("<");
            append_chars(&mut text, &chars_of(n.as_str()));
            append_chars(&mut text, &chars_of(">"));
            let a = replace_chars(&text, &chars_of("<"), &empty);
            Some(string_of(&replace_chars(&a, &chars_of(">"), &empty)))
        },
        _ => None,
    }
}

/// An entity with what its card shows.
#[derive(Debug)]
pub struct Item {
    pub node: Term,
    pub entity_types: Vec<Term>,
    pub name: Option<String>,
    pub description: Option<String>,
    pub images: Vec<String>,
}

/// The text of `o`, or `default` where there is none.
pub open spec fn text_or(o: Option<String>, default: Seq<char>) -> Seq<char> {
    match o {
        Some(s) => s@,
        None => default,
    }
}

impl Item {
    /// The term that stands for the entity.
    pub open spec fn node(&self) -> TermModel {
        self.node@
    }

    /// Whether the entity can have a card: it is a named or a blank node.
    pub open spec fn presentable(&self) -> bool {
        self.node() is NamedNode || self.node() is BlankNode
    }

    /// The entity's identifier in addresses: its name or label, with `%23`
    /// for each `#`.
    pub open spec fn address_id(&self) -> Seq<char> {
        replace_seq(
            match self.node() {
                TermModel::NamedNode(n) => n,
                TermModel::BlankNode(b) => b,
                _ => Seq::empty(),
            },
            "#"@,
            "%23"@,
        )
    }

    /// The first image of the entity, or nothing.
    pub open spec fn first_image(&self) -> Seq<char> {
        if self.images.len() > 0 {
            self.images[0]@
        } else {
            Seq::empty()
        }
    }

    /// An entity from what the store reports of it.
    pub fn new(
        node: Term,
        types: Vec<Term>,
        name: Option<String>,
        description: Option<String>,
        imgs: Vec<String>,
    ) -> (item: Item)
        ensures
            item.node() == node@,
            item.entity_types == types,
            item.name == name,
            item.description == description,
            item.images == imgs,
    {
        Item { node, entity_types: types, name, description, images: imgs }
    }

    /// Tests whether the entity can have a card.
    pub fn is_presentable(&self) -> (b: bool)
        ensures
            b == self.presentable(),
    {
        match &self.node {
            Term::NamedNode(_) => true,
            Term::BlankNode(_) => true,
            _ => false,
        }
    }

    /// The card of the entity, filled into the card template `file`.
    pub fn html_rep(&self, file: &str) -> (out: String)
        requires
            self.presentable(),
        ensures
            out@ == rendered(
                file@,
                seq!["id"@, "image"@, "name"@, "description"@],
                seq![
                    pair("id", self.address_id()),
                    pair("image", self.first_image()),
                    pair("name", text_or(self.name, "Unknown"@)),
                    pair("description", text_or(self.description, "No description available"@)),
                ],
                4,
            ),
    {
        let image: &str = if self.images.len() > 0 {
            self.images[0].as_str()
        } else {
            proof {
                reveal_strlit("");
            }
            assert(""@ =~= Seq::<char>::empty());
            ""
        };
        let name: &str = match &self.name {
            Some(n) => n.as_str(),
            None => "Unknown",
        };
        let description: &str = match &self.description {
            Some(d) => d.as_str(),
            None => "No description available",
        };
        let raw = match &self.node {
            Term::NamedNode(n) => chars_of(n.as_str()),
            Term::BlankNode(b) => chars_of(b.as_str()),
            _ => Vec::new(),
        };
        let id = string_of(&replace_chars(&raw, &chars_of("#"), &chars_of("%23")));
        object_card(file, name, description, image, id.as_str())
    }

    /// A description of the entity in plain text.
    pub fn describe(&self) -> (out: String)
        ensures
            out@ == "-------------------------\nA Node "@ + written(self.node()) + ",\nhas name: "@
                + text_or(self.name, "No name available"@) + ",\n"@ + text_or(
                self.description,
                "No description available"@,
            ) + "\n-------------------------------"@,
    {
        let mut out = chars_of("-------------------------\nA Node ");
        append_chars(&mut out, &chars_of(self.node.to_text().as_str()));
        append_chars(&mut out, &chars_of(",\nhas name: "));
        match &self.name {
            Some(n) => append_chars(&mut out, &chars_of(n.as_str())),
            None => append_chars(&mut out, &chars_of("No name available")),
        }
        append_chars(&mut out, &chars_of(",\n"));
        match &self.description {
            Some(d) => append_chars(&mut out, &chars_of(d.as_str())),
            None => append_chars(&mut out, &chars_of("No description available")),
        }
        append_chars(&mut out, &chars_of("\n-------------------------------"));
        string_of(&out)
    }
}

/// One statement about an entity: a predicate and an object.
#[derive(Debug)]
pub struct Connection {
    pub predicate: Term,
    pub object: Term,
}

/// The name of the name predicate.
pub const NAME_PREDICATE: &'static str = "<http://schema.org/name>";

/// The name of the type predicate.
pub const RDF_TYPE: &'static str = "<http://www.w3.org/1999/02/22-rdf-syntax-ns#type>";

/// The name of the class of images.
pub const IMAGE_CLASS: &'static str = "<http://schema.org/ImageObject>";

/// What is known of an entity while its statements are read.
pub struct JsonState {
    pub name: Seq<char>,
    pub is_img: bool,
    pub inside: Seq<char>,
}

/// A predicate as the attribute list shows it: `type` for the type
/// predicate, schema.org names after a colon, without the closing bracket.
pub open spec fn short_predicate(p: Seq<char>) -> Seq<char> {
    replace_seq(replace_seq(replace_seq(p, RDF_TYPE@, "type"@), "<http://schema.org/"@, ":"@), ">"@, ""@)
}

/// The entry of one statement in the attribute list.
pub open spec fn attribute(p: Seq<char>, o: Seq<char>) -> Seq<char> {
    "[\""@ + js_escaped(html_escaped(short_predicate(p))) + "\",  '"@ + js_escaped(html_escaped(o))
        + "'],"@
}

/// The state after one more statement: a name statement with a literal
/// names the entity, a type statement with the class of images marks it as
/// an image, and every statement adds its entry.
pub open spec fn json_step(st: JsonState, c: Connection) -> JsonState {
    let p = written(c.predicate@);
    JsonState {
        name: if p == NAME_PREDICATE@ && c.object@ is Literal {
            js_escaped(c.object@->value)
        } else {
            st.name
        },
        is_img: st.is_img || (p == RDF_TYPE@ && c.object@ is NamedNode && written(c.object@)
            == IMAGE_CLASS@),
        inside: st.inside + attribute(p, written(c.object@)),
    }
}

/// The state after the first `upto` statements.
pub open spec fn json_state(entity: Seq<char>, props: Seq<Connection>, upto: int) -> JsonState
    decreases upto,
{
    if upto <= 0 {
        JsonState { name: entity, is_img: false, inside: Seq::empty() }
    } else {
        json_step(json_state(entity, props, upto - 1), props[upto - 1])
    }
}

/// The node of an entity for the neighbourhood drawing.
pub open spec fn json_text(entity: Seq<char>, props: Seq<Connection>) -> Seq<char> {
    let st = json_state(entity, props, props.len() as int);
    let imagerow = if st.is_img {
        "image: \""@ + replace_seq(replace_seq(entity, "<"@, ""@), ">"@, ""@) + "\","@
    } else {
        Seq::empty()
    };
    "\n        {\n            id: \""@ + entity + "\",\n            name: \""@ + st.name
        + "\",\n            "@ + imagerow + "\n            url: \"/entity/"@ + entity
        + "\",\n            attributes: [\n                "@ + st.inside
        + "\n            ]\n    },\n    \n    "@
}

/// Formats the statements about an entity as a node of the neighbourhood
/// drawing: its identifier, name, image, address and attributes.
pub fn format_json(entity: String, props: Vec<Connection>) -> (out: String)
    ensures
        out@ == json_text(entity@, props@),
{
    let empty: Vec<char> = Vec::new();
    assert(empty@ =~= ""@) by {
        reveal_strlit("");
    }
    let ent = chars_of(entity.as_str());
    let name_predicate = chars_of(NAME_PREDICATE);
    let rdf_type = chars_of(RDF_TYPE);
    let image_class = chars_of(IMAGE_CLASS);
    let mut name: Vec<char> = chars_of(entity.as_str());
    let mut inside: Vec<char> = Vec::new();
    let mut is_img = false;
    let mut i: usize = 0;
    while i < props.len()
        invariant
            i <= props.len(),
            empty@ == ""@,
            name_predicate@ == NAME_PREDICATE@,
            rdf_type@ == RDF_TYPE@,
            image_class@ == IMAGE_CLASS@,
            json_state(entity@, props@, i as int) == (JsonState {
                name: name@,
                is_img: is_img,
                inside: inside@,
            }),
        decreases props.len() - i,
    {
        let connection = &props[i];
        let p = chars_of(connection.predicate.to_text().as_str());
        let o = chars_of(connection.object.to_text().as_str());
        if same_chars(&p, &name_predicate) {
            match &connection.object {
                Term::Literal { value, written } => {
                    name = escape_js_chars(&chars_of(value.as_str()));
                },
                _ => {},
            }
        }
        if same_chars(&p, &rdf_type) {
            match &connection.object {
                Term::NamedNode(_) => {
                    if same_chars(&o, &image_class) {
                        is_img = true;
                    }
                },
                _ => {},
            }
        }
        let a = replace_chars(&p, &rdf_type, &chars_of("type"));
        let b = replace_chars(&a, &chars_of("<http://schema.org/"), &chars_of(":"));
        let short = replace_chars(&b, &chars_of(">"), &empty);
        let ghost before = inside@;
        append_chars(&mut inside, &chars_of("[\""));
        append_chars(&mut inside, &escape_js_chars(&escape_html_chars(&short)));
        append_chars(&mut inside, &chars_of("\",  '"));
        append_chars(&mut inside, &escape_js_chars(&escape_html_chars(&o)));
        append_chars(&mut inside, &chars_of("'],"));
        assert(inside@ =~= before + attribute(p@, o@));
        i += 1;
    }
    let mut out = chars_of("\n        {\n            id: \"");
    append_chars(&mut out, &ent);
    append_chars(&mut out, &chars_of("\",\n            name: \""));
    append_chars(&mut out, &name);
    append_chars(&mut out, &chars_of("\",\n            "));
    if is_img {
        let a = replace_chars(&ent, &chars_of("<"), &empty);
        append_chars(&mut out, &chars_of("image: \""));
        append_chars(&mut out, &replace_chars(&a, &chars_of(">"), &empty));
        append_chars(&mut out, &chars_of("\","));
    }
    append_chars(&mut out, &chars_of("\n            url: \"/entity/"));
    append_chars(&mut out, &ent);
    append_chars(&mut out, &chars_of("\",\n            attributes: [\n                "));
    append_chars(&mut out, &inside);
    append_chars(&mut out, &chars_of("\n            ]\n    },\n    \n    "));
    assert(out@ =~= json_text(entity@, props@));
    string_of(&out)
}

} // verus!
