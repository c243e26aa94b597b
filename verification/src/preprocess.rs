//! Cleaning the lines of an N-Quads file into N-Triples: schema.org names
//! are normalised, inline JSON becomes a literal, graph names are removed
//! and blank nodes get skolem names.

use vstd::prelude::*;
use regex::{Captures, NoExpand, Regex};
use crate::store::{lowercase, lowercased};
use crate::text::{
    append_chars, chars_of, contains_chars, contains_seq, replace_chars, replace_seq, same_chars,
    string_of,
};
use crate::utils::{skolemize, skolemized};

verus! {

/// A schema.org name with either scheme.
pub const SCHEMA_PATTERN: &'static str = "<https?:\\/\\/schema\\.org\\/([^>]*)>";

/// A name in angle brackets that holds inline JSON.
pub const INLINE_JSON_PATTERN: &'static str = "<[^>]+\\{(.*)\\}[^>]*>";

/// A name in angle brackets.
pub const NAME_PATTERN: &'static str = "<([^>]+)>";

/// The graph name at the end of a quad.
pub const GRAPH_NAME_PATTERN: &'static str = "<([^>]*)>\\s*\\.\\n";

/// The label of a blank node.
pub const BLANK_NODE_PATTERN: &'static str = "_:([A-Za-z0-9]+)";

/// The publisher whose quads carry their address in the wrong place.
pub const PUBLISHER: &'static str = "https://www.deutscherkunstverlag.de/";

/// The name of the type predicate, without its angle brackets.
pub const TYPE_NAME: &'static str = "http://www.w3.org/1999/02/22-rdf-syntax-ns#type";

/// The first match of a pattern in a text; the outer `None` is for a
/// pattern that does not compile.
pub uninterp spec fn first_found(pattern: Seq<char>, text: Seq<char>) -> Option<Option<Seq<char>>>;

/// All matches of a pattern in a text, from the left; `None` for a pattern
/// that does not compile.
pub uninterp spec fn all_found(pattern: Seq<char>, text: Seq<char>) -> Option<Seq<Seq<char>>>;

/// A text with the first match of a pattern replaced; `None` for a pattern
/// that does not compile.
pub uninterp spec fn first_replaced(pattern: Seq<char>, text: Seq<char>, with: Seq<char>) -> Option<
    Seq<char>,
>;

/// A text with every match of a pattern replaced by the schema.org name of
/// its first group; `None` for a pattern that does not compile.
pub uninterp spec fn schema_rewritten(pattern: Seq<char>, text: Seq<char>) -> Option<Seq<char>>;

/// A text with every match of a pattern replaced by its skolem name;
/// `None` for a pattern that does not compile.
pub uninterp spec fn skolem_rewritten(pattern: Seq<char>, text: Seq<char>) -> Option<Seq<char>>;

/// `Regex::new` and `Regex::find`: the text of the leftmost match.
#[verifier::external_body]
fn regex_find(pattern: &str, text: &str) -> (r: Option<Option<String>>)
    ensures
        match r {
            Some(Some(m)) => first_found(pattern@, text@) == Some(Some(m@)),
            Some(None) => first_found(pattern@, text@) == Some(None::<Seq<char>>),
            None => first_found(pattern@, text@) is None,
        },
{
    match Regex::new(pattern) {
        Ok(re) => Some(re.find(text).map(|m| m.as_str().to_string())),
        Err(_) => None,
    }
}

/// `Regex::new` and `Regex::find_iter`: the texts of the successive
/// matches.
#[verifier::external_body]
fn regex_find_all(pattern: &str, text: &str) -> (r: Option<Vec<String>>)
    ensures
        match r {
            Some(ms) => all_found(pattern@, text@) == Some(Seq::new(ms.len() as nat, |i: int| ms[i]@)),
            None => all_found(pattern@, text@) is None,
        },
{
    match Regex::new(pattern) {
        Ok(re) => Some(re.find_iter(text).map(|m| m.as_str().to_string()).collect()),
        Err(_) => None,
    }
}

/// `Regex::new` and `Regex::replace` with a replacement that is taken as it
/// stands: the text with its leftmost match replaced.
#[verifier::external_body]
fn regex_replace_first(pattern: &str, text: &str, with: &str) -> (r: Option<String>)
    ensures
        match r {
            Some(s) => first_replaced(pattern@, text@, with@) == Some(s@),
            None => first_replaced(pattern@, text@, with@) is None,
        },
{
    match Regex::new(pattern) {
        Ok(re) => Some(re.replace(text, NoExpand(with)).into_owned()),
        Err(_) => None,
    }
}

/// `Regex::new` and `Regex::replace_all`, each match replaced by what
/// `schema_name_of` makes of its first group.
#[verifier::external_body]
fn regex_rewrite_schema(pattern: &str, text: &str) -> (r: Option<String>)
    ensures
        match r {
            Some(s) => schema_rewritten(pattern@, text@) == Some(s@),
            None => schema_rewritten(pattern@, text@) is None,
        },
{
    match Regex::new(pattern) {
        Ok(re) => Some(
            re.replace_all(text, |caps: &Captures| schema_name_of(caps.get(1).map(|m| m.as_str())))
                .into_owned(),
        ),
        Err(_) => None,
    }
}

/// `Regex::new` and `Regex::replace_all`, each match replaced by what
/// `skolem_name_of` makes of it.
#[verifier::external_body]
fn regex_rewrite_skolem(pattern: &str, text: &str) -> (r: Option<String>)
    ensures
        match r {
            Some(s) => skolem_rewritten(pattern@, text@) == Some(s@),
            None => skolem_rewritten(pattern@, text@) is None,
        },
{
    match Regex::new(pattern) {
        Ok(re) => Some(
            re.replace_all(text, |caps: &Captures| skolem_name_of(caps.get(0).map(|m| m.as_str())))
                .into_owned(),
        ),
        Err(_) => None,
    }
}

/// The schema.org name of `name`: lower case, with the `http` scheme.
pub fn schema_name(name: &str) -> (out: String)
    ensures
        out@ == "<http://schema.org/"@ + lowercased(name@) + ">"@,
{
    let mut out = chars_of("<http://schema.org/");
    append_chars(&mut out, &chars_of(lowercase(name).as_str()));
    append_chars(&mut out, &chars_of(">"));
    string_of(&out)
}

/// The schema.org name of a matched group; a group that took no part in
/// the match counts as empty.
pub fn schema_name_of(group: Option<&str>) -> (out: String)
    ensures
        out@ == "<http://schema.org/"@ + lowercased(
            match group {
                Some(g) => g@,
                None => Seq::empty(),
            },
        ) + ">"@,
{
    match group {
        Some(g) => schema_name(g),
        None => {
            proof {
                reveal_strlit("");
            }
            assert(""@ =~= Seq::<char>::empty());
            schema_name("")
        },
    }
}

/// The skolem name of a matched blank-node label.
pub fn skolem_name_of(label: Option<&str>) -> (out: String)
    ensures
        out@ == skolemized(
            match label {
                Some(l) => l@,
                None => Seq::empty(),
            },
        ),
{
    match label {
        Some(l) => skolemize(l.to_string()),
        None => {
            proof {
                reveal_strlit("");
            }
            assert(""@ =~= Seq::<char>::empty());
            skolemize("".to_string())
        },
    }
}

/// Why a line could not be cleaned.
#[derive(Debug, PartialEq, Eq)]
pub enum CleanError {
    /// One of the patterns does not compile.
    Pattern,
    /// A line of the publisher holds fewer than two names.
    TooFewNames,
}

/// `text` with its quotation marks in place of its angle brackets.
pub open spec fn quoted(text: Seq<char>) -> Seq<char> {
    replace_seq(replace_seq(text, "<"@, "\""@), ">"@, "\""@)
}

/// Whether a line is one of the publisher's address lines.
pub open spec fn is_publisher_line(line: Seq<char>) -> bool {
    contains_seq(line, PUBLISHER@) && contains_seq(line, "schema.org/url>"@)
}

/// The line with the last but one of `found`, its names, replaced by the
/// last, where the two differ.
pub open spec fn publisher_fixed(line: Seq<char>, found: Seq<Seq<char>>) -> Seq<char> {
    if found[found.len() - 2] != found[found.len() - 1] {
        replace_seq(line, found[found.len() - 2], found[found.len() - 1])
    } else {
        line
    }
}

/// The line with its inline JSON, if it has any, as a literal.
pub open spec fn json_fixed(line: Seq<char>, found: Option<Seq<char>>) -> Seq<char> {
    match found {
        Some(m) => replace_seq(line, m, quoted(m)),
        None => line,
    }
}

/// The line with the short type name written out.
pub open spec fn type_fixed(line: Seq<char>) -> Seq<char> {
    if contains_seq(line, "<@type:>"@) {
        replace_seq(line, "@type:"@, TYPE_NAME@)
    } else {
        line
    }
}

/// What cleaning makes of a line, step by step: the replacement character
/// goes; schema.org names are normalised; a publisher's address line gets
/// its last name in place of the one before; inline JSON becomes a literal;
/// the short type name is written out; the graph name goes; blank nodes
/// get skolem names.
pub open spec fn cleaned(line: Seq<char>) -> Result<Seq<char>, CleanError> {
    let a = replace_seq(line, "\\uFFFD"@, ""@);
    match schema_rewritten(SCHEMA_PATTERN@, a) {
        None => Err(CleanError::Pattern),
        Some(b) => {
            let names = all_found(NAME_PATTERN@, b);
            if is_publisher_line(b) && names is None {
                Err(CleanError::Pattern)
            } else if is_publisher_line(b) && names->0.len() < 2 {
                Err(CleanError::TooFewNames)
            } else {
                let c = if is_publisher_line(b) {
                    publisher_fixed(b, names->0)
                } else {
                    b
                };
                let json = first_found(INLINE_JSON_PATTERN@, c);
                if contains_seq(c, "}"@) && json is None {
                    Err(CleanError::Pattern)
                } else {
                    let d = if contains_seq(c, "}"@) {
                        json_fixed(c, json->0)
                    } else {
                        c
                    };
                    let e = type_fixed(d);
                    match first_replaced(GRAPH_NAME_PATTERN@, e, "."@) {
                        None => Err(CleanError::Pattern),
                        Some(f) => match skolem_rewritten(BLANK_NODE_PATTERN@, f) {
                            None => Err(CleanError::Pattern),
                            Some(g) => Ok(g),
                        },
                    }
                }
            }
        },
    }
}

/// Cleans one line of an N-Quads file.
pub fn clean_line(line: &str) -> (r: Result<String, CleanError>)
    ensures
        match r {
            Ok(out) => cleaned(line@) == Ok::<Seq<char>, CleanError>(out@),
            Err(e) => cleaned(line@) == Err::<Seq<char>, CleanError>(e),
        },
{
    let empty: Vec<char> = Vec::new();
    assert(empty@ =~= ""@) by {
        reveal_strlit("");
    }
    let a = string_of(&replace_chars(&chars_of(line), &chars_of("\\uFFFD"), &empty));
    let b = match regex_rewrite_schema(SCHEMA_PATTERN, a.as_str()) {
        None => {
            return Err(CleanError::Pattern);
        },
        Some(b) => chars_of(b.as_str()),
    };
    let c = if contains_chars(&b, &chars_of(PUBLISHER)) && contains_chars(
        &b,
        &chars_of("schema.org/url>"),
    ) {
        match regex_find_all(NAME_PATTERN, string_of(&b).as_str()) {
            None => {
                return Err(CleanError::Pattern);
            },
            Some(found) => {
                if found.len() < 2 {
                    return Err(CleanError::TooFewNames);
                }
                let last = chars_of(found[found.len() - 1].as_str());
                let before = chars_of(found[found.len() - 2].as_str());
                if !same_chars(&before, &last) {
                    replace_chars(&b, &before, &last)
                } else {
                    b
                }
            },
        }
    } else {
        b
    };
    let d = if contains_chars(&c, &chars_of("}")) {
        match regex_find(INLINE_JSON_PATTERN, string_of(&c).as_str()) {
            None => {
                return Err(CleanError::Pattern);
            },
            Some(Some(m)) => {
                let m = chars_of(m.as_str());
                let q = replace_chars(&m, &chars_of("<"), &chars_of("\""));
                let q = replace_chars(&q, &chars_of(">"), &chars_of("\""));
                replace_chars(&c, &m, &q)
            },
            Some(None) => c,
        }
    } else {
        c
    };
    let e = if contains_chars(&d, &chars_of("<@type:>")) {
        replace_chars(&d, &chars_of("@type:"), &chars_of(TYPE_NAME))
    } else {
        d
    };
    let f = match regex_replace_first(GRAPH_NAME_PATTERN, string_of(&e).as_str(), ".") {
        None => {
            return Err(CleanError::Pattern);
        },
        Some(f) => f,
    };
    match regex_rewrite_skolem(BLANK_NODE_PATTERN, f.as_str()) {
        None => Err(CleanError::Pattern),
        Some(g) => Ok(g),
    }
}

} // verus!
