//! The dataset handle: how a dataset is named, where its files lie, and the
//! texts of the updates that maintain it.

use vstd::prelude::*;
use crate::text::{
    after_last, append_chars, chars_of, decimal, decimal_chars, find_from, last_segment, matches_at,
    position_of, first_of, replace_chars, replace_seq, same_chars, slice_chars, string_of,
};

verus! {

/// What can go wrong when the store evaluates a query or an update.
#[derive(Debug)]
pub enum StoreError {
    /// The store rejected the text or failed while evaluating it.
    EvaluationError(String),
    /// The query is of a kind whose results are not handled.
    UnsupportedError,
}

/// A knowledge-graph dataset: how it is named and where its history is kept.
#[derive(Debug)]
pub struct KG {
    pub dataset: String,
    pub nb_parts: u32,
    pub history_path: String,
}

/// The formats a dataset file can have.
#[derive(Clone, Copy, Debug, PartialEq, Eq, Structural)]
pub enum SourceFormat {
    Turtle,
    NTriples,
    NQuads,
    /// The file is a store, not a text to load.
    Database,
}

/// The lower-case form of a text.
pub uninterp spec fn lowercased(s: Seq<char>) -> Seq<char>;

/// `str::to_lowercase`: the text with every character in its lower-case
/// form.
#[verifier::external_body]
pub(crate) fn lowercase(s: &str) -> (out: String)
    ensures
        out@ == lowercased(s@),
{
    s.to_lowercase()
}

/// `name` without the file extensions of datasets.
pub open spec fn without_extensions(name: Seq<char>) -> Seq<char> {
    replace_seq(
        replace_seq(replace_seq(replace_seq(name, ".nt"@, ""@), ".ttl"@, ""@), ".db"@, ""@),
        ".nq"@,
        ""@,
    )
}

/// The name of the file at `path`: what follows the last `/`.
pub open spec fn file_name(path: Seq<char>) -> Seq<char> {
    after_last(path, '/')
}

/// The base name of a dataset: the dataset itself where it was downloaded
/// in parts, and else its file name without extensions.
pub open spec fn base_name(dataset: Seq<char>, nb_parts: u32) -> Seq<char> {
    if nb_parts > 0 {
        dataset
    } else {
        without_extensions(file_name(dataset))
    }
}

/// Where the history of the store named `name` is kept.
pub open spec fn history_file(name: Seq<char>) -> Seq<char> {
    "./data/"@ + name + ".db/history.txt"@
}

/// The format that the extension of `file` stands for.
pub open spec fn format_of(file: Seq<char>) -> Option<SourceFormat> {
    let ext = after_last(file, '.');
    if ext == "ttl"@ {
        Some(SourceFormat::Turtle)
    } else if ext == "nt"@ {
        Some(SourceFormat::NTriples)
    } else if ext == "nq"@ {
        Some(SourceFormat::NQuads)
    } else if ext == "db"@ {
        Some(SourceFormat::Database)
    } else {
        None
    }
}

/// The history line that records the dump of version `version`.
pub open spec fn dump_text(name: Seq<char>, version: u32) -> Seq<char> {
    "Dumping store to ./data/"@ + name + "/version_"@ + decimal(version as nat) + ".nt"@
}

/// The history up to the end of the line that holds `record`; `None` where
/// the history does not hold `record` or no line ends after it.
pub open spec fn history_until(content: Seq<char>, record: Seq<char>) -> Option<Seq<char>> {
    if exists|i: int| matches_at(content, record, i) {
        let at = choose|i: int|
            matches_at(content, record, i) && forall|j: int| 0 <= j < i ==> !matches_at(content, record, j);
        let end = at + record.len();
        let line_end = end + first_of(content.skip(end), '\n');
        if line_end < content.len() {
            Some(content.take(line_end + 1))
        } else {
            None
        }
    } else {
        None
    }
}

/// `template` with the placeholder `{{v}}` of each of the first `upto`
/// variables replaced by the variable's value, one variable after the
/// other.
pub open spec fn instantiated(template: Seq<char>, vars: Seq<String>, values: Seq<String>, upto: int) -> Seq<
    char,
>
    decreases upto,
{
    if upto <= 0 {
        template
    } else {
        replace_seq(
            instantiated(template, vars, values, upto - 1),
            "{{"@ + vars[upto - 1]@ + "}}"@,
            values[upto - 1]@,
        )
    }
}

fn strip_extensions(name: &Vec<char>) -> (out: Vec<char>)
    ensures
        out@ == without_extensions(name@),
{
    let empty: Vec<char> = Vec::new();
    assert(empty@ =~= ""@) by {
        reveal_strlit("");
    }
    let a = replace_chars(name, &chars_of(".nt"), &empty);
    let b = replace_chars(&a, &chars_of(".ttl"), &empty);
    let c = replace_chars(&b, &chars_of(".db"), &empty);
    replace_chars(&c, &chars_of(".nq"), &empty)
}

/// The format of a dataset file, by its extension: `ttl`, `nt`, `nq` or
/// `db`.
pub fn source_format(file: &str) -> (r: Option<SourceFormat>)
    ensures
        r == format_of(file@),
{
    let ext = last_segment(&chars_of(file), '.');
    if same_chars(&ext, &chars_of("ttl")) {
        Some(SourceFormat::Turtle)
    } else if same_chars(&ext, &chars_of("nt")) {
        Some(SourceFormat::NTriples)
    } else if same_chars(&ext, &chars_of("nq")) {
        Some(SourceFormat::NQuads)
    } else if same_chars(&ext, &chars_of("db")) {
        Some(SourceFormat::Database)
    } else {
        None
    }
}

/// Cuts the history after the line that holds `record`.
pub fn truncate_history(content: &str, record: &str) -> (r: Option<String>)
    ensures
        match r {
            Some(kept) => history_until(content@, record@) == Some(kept@),
            None => history_until(content@, record@) is None,
        },
{
    let text = chars_of(content);
    let wanted = chars_of(record);
    match find_from(&text, &wanted, 0) {
        None => {
            assert(!exists|i: int| matches_at(content@, record@, i));
            None
        },
        Some(at) => {
            proof {
                let chosen = choose|i: int|
                    matches_at(content@, record@, i) && forall|j: int|
                        0 <= j < i ==> !matches_at(content@, record@, j);
                assert(matches_at(content@, record@, at as int));
                if chosen < at {
                    assert(!matches_at(content@, record@, chosen));
                }
                if at < chosen {
                    assert(!matches_at(content@, record@, at as int));
                }
            }
            assert(matches_at(text@, wanted@, at as int));
            assert(at + wanted.len() <= text.len());
            let end = at + wanted.len();
            let line_end = position_of(&text, '\n', end);
            if line_end < text.len() {
                let kept = slice_chars(&text, 0, line_end + 1);
                assert(kept@ =~= content@.take(line_end + 1));
                Some(string_of(&kept))
            } else {
                None
            }
        },
    }
}

/// Fills an update template: the placeholder `{{v}}` of each variable `v`
/// is replaced by the variable's value in the current row, one variable
/// after the other.
pub fn instantiate(template: &str, vars: &Vec<String>, values: &Vec<String>) -> (out: String)
    requires
        vars.len() == values.len(),
    ensures
        out@ == instantiated(template@, vars@, values@, vars.len() as int),
{
    let mut text = chars_of(template);
    let open = chars_of("{{");
    let close = chars_of("}}");
    let mut i: usize = 0;
    while i < vars.len()
        invariant
            i <= vars.len(),
            vars.len() == values.len(),
            open@ == "{{"@,
            close@ == "}}"@,
            text@ == instantiated(template@, vars@, values@, i as int),
        decreases vars.len() - i,
    {
        let mut mark: Vec<char> = Vec::new();
        append_chars(&mut mark, &open);
        append_chars(&mut mark, &chars_of(vars[i].as_str()));
        append_chars(&mut mark, &close);
        assert(mark@ =~= "{{"@ + vars[i as int]@ + "}}"@);
        text = replace_chars(&text, &mark, &chars_of(values[i].as_str()));
        i += 1;
    }
    string_of(&text)
}

impl KG {
    /// The handle of a dataset that is downloaded in `nb_parts` parts.
    pub fn from_wdc(dataset_name: &str, nb_parts: u32) -> (kg: KG)
        ensures
            kg.dataset@ == dataset_name@,
            kg.nb_parts == nb_parts,
            kg.history_path@ == history_file(lowercased(dataset_name@)),
    {
        let mut path = chars_of("./data/");
        append_chars(&mut path, &chars_of(lowercase(dataset_name).as_str()));
        append_chars(&mut path, &chars_of(".db/history.txt"));
        KG { dataset: dataset_name.to_string(), nb_parts, history_path: string_of(&path) }
    }

    /// The handle of a dataset that is loaded from the file at
    /// `dataset_path`, with the file's format. `None` where the file's
    /// extension stands for no format. A store file keeps no history.
    pub fn from_file(dataset_path: &str) -> (r: Option<(KG, SourceFormat)>)
        ensures
            r is None <==> format_of(file_name(dataset_path@)) is None,
            r matches Some(pair) ==> {
                &&& Some(pair.1) == format_of(file_name(dataset_path@))
                &&& pair.0.dataset@ == dataset_path@
                &&& pair.0.nb_parts == 0
                &&& pair.0.history_path@ == if pair.1 == SourceFormat::Database {
                    Seq::<char>::empty()
                } else {
                    history_file(file_name(dataset_path@))
                }
            },
    {
        let name = last_segment(&chars_of(dataset_path), '/');
        let name_text = string_of(&name);
        match source_format(name_text.as_str()) {
            None => None,
            Some(format) => {
                let history_path = if format == SourceFormat::Database {
                    String::new()
                } else {
                    let mut path = chars_of("./data/");
                    append_chars(&mut path, &name);
                    append_chars(&mut path, &chars_of(".db/history.txt"));
                    string_of(&path)
                };
                Some((KG { dataset: dataset_path.to_string(), nb_parts: 0, history_path }, format))
            },
        }
    }

    /// The base name of the dataset.
    pub fn get_name(&self) -> (name: String)
        ensures
            name@ == base_name(self.dataset@, self.nb_parts),
    {
        if self.nb_parts > 0 {
            self.dataset.clone()
        } else {
            let file = last_segment(&chars_of(self.dataset.as_str()), '/');
            string_of(&strip_extensions(&file))
        }
    }

    /// The history line that records the dump of version `version`.
    pub fn dump_record(&self, version: u32) -> (line: String)
        ensures
            line@ == dump_text(without_extensions(file_name(self.dataset@)), version),
    {
        let file = last_segment(&chars_of(self.dataset.as_str()), '/');
        let mut out = chars_of("Dumping store to ./data/");
        append_chars(&mut out, &strip_extensions(&file));
        append_chars(&mut out, &chars_of("/version_"));
        append_chars(&mut out, &decimal_chars(version as u64));
        append_chars(&mut out, &chars_of(".nt"));
        string_of(&out)
    }
}

} // verus!
