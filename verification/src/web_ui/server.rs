//! What a request asks for: the request target is read into a request
//! that names the page to show or the change to make.

use vstd::prelude::*;
use crate::history::{first_match, lemma_first_match_is};
use crate::text::{
    append_chars, chars_of, decimal, decimal_chars, find_from, first_of, has_prefix, is_whitespace,
    matches_at, number_of, parse_number, pieces, position_of, replace_chars, replace_seq, same_chars,
    slice_chars, split_chars, starts_with_chars, string_of, texts, trim_chars, trimmed, white_space,
};
use crate::utils::{extract_query_param, param_of, url_decode_chars, url_decoded, QueryError};

verus! {

/// What a request asks for.
#[derive(Debug, PartialEq, Eq)]
pub enum Request {
    Index,
    Query { query: Option<String>, mode: Option<String>, secondary: Option<String> },
    Explore { id: String, page: u32 },
    Entity(String),
    Merge { entity: String, merge_by: Vec<String> },
    Run(Vec<String>),
    Scripts,
    Dump,
    DeletePredicate { otype: String, pred: String },
    History,
    Restore(u32),
    ReplayHistory,
    Analysis { page: i32, start_with: String },
    /// The page needs a parameter that the request does not give.
    BadRequest,
    /// No page has this address.
    NotFound,
    /// The request cannot be read: a parameter that must be there is
    /// missing, does not decode, or is no number.
    Malformed,
}

/// A request as contracts see it.
pub enum RequestModel {
    Index,
    Query { query: Option<Seq<char>>, mode: Option<Seq<char>>, secondary: Option<Seq<char>> },
    Explore { id: Seq<char>, page: u32 },
    Entity(Seq<char>),
    Merge { entity: Seq<char>, merge_by: Seq<Seq<char>> },
    Run(Seq<Seq<char>>),
    Scripts,
    Dump,
    DeletePredicate { otype: Seq<char>, pred: Seq<char> },
    History,
    Restore(u32),
    ReplayHistory,
    Analysis { page: i32, start_with: Seq<char> },
    BadRequest,
    NotFound,
    Malformed,
}

/// The text of `o`, if any.
pub open spec fn text_of(o: Option<String>) -> Option<Seq<char>> {
    match o {
        Some(s) => Some(s@),
        None => None,
    }
}

/// The texts of `v`.
pub open spec fn strings(v: Seq<String>) -> Seq<Seq<char>> {
    Seq::new(v.len(), |i: int| v[i]@)
}

impl View for Request {
    type V = RequestModel;

    open spec fn view(&self) -> RequestModel {
        match self {
            Request::Index => RequestModel::Index,
            Request::Query { query, mode, secondary } => RequestModel::Query {
                query: text_of(*query),
                mode: text_of(*mode),
                secondary: text_of(*secondary),
            },
            Request::Explore { id, page } => RequestModel::Explore { id: id@, page: *page },
            Request::Entity(e) => RequestModel::Entity(e@),
            Request::Merge { entity, merge_by } => RequestModel::Merge {
                entity: entity@,
                merge_by: strings(merge_by@),
            },
            Request::Run(r) => RequestModel::Run(strings(r@)),
            Request::Scripts => RequestModel::Scripts,
            Request::Dump => RequestModel::Dump,
            Request::DeletePredicate { otype, pred } => RequestModel::DeletePredicate {
                otype: otype@,
                pred: pred@,
            },
            Request::History => RequestModel::History,
            Request::Restore(v) => RequestModel::Restore(*v),
            Request::ReplayHistory => RequestModel::ReplayHistory,
            Request::Analysis { page, start_with } => RequestModel::Analysis {
                page: *page,
                start_with: start_with@,
            },
            Request::BadRequest => RequestModel::BadRequest,
            Request::NotFound => RequestModel::NotFound,
            Request::Malformed => RequestModel::Malformed,
        }
    }
}

/// The procedure that one pair of a query string selects: the pair's name,
/// where it has the form `file::procedure`, with both parts decoded.
pub open spec fn selection(pair: Seq<char>) -> Option<Seq<char>> {
    let eq = first_of(pair, '=');
    let key = pair.take(eq);
    if 0 <= eq < pair.len() && exists|i: int| matches_at(key, "::"@, i) {
        Some(
            url_decoded(key.take(first_match(key, "::"@))) + "::"@ + url_decoded(
                key.skip(first_match(key, "::"@) + 2),
            ),
        )
    } else {
        None
    }
}

/// The procedures that the first `upto` pairs select.
pub open spec fn selections(all: Seq<Seq<char>>, upto: int) -> Seq<Seq<char>>
    decreases upto,
{
    if upto <= 0 {
        Seq::empty()
    } else {
        match selection(all[upto - 1]) {
            Some(s) => selections(all, upto - 1).push(s),
            None => selections(all, upto - 1),
        }
    }
}

/// The procedures that a query string selects.
pub open spec fn procedures(query_string: Seq<char>) -> Seq<Seq<char>> {
    let all = pieces(url_decoded(query_string), '&');
    selections(all, all.len() as int)
}

/// Reads the procedures that the check boxes of the routines page select.
pub fn parse_procedures(query_string: &str) -> (out: Vec<String>)
    ensures
        strings(out@) == procedures(query_string@),
{
    let decoded = url_decode_chars(&chars_of(query_string));
    let all = split_chars(&decoded, '&');
    assert(texts(all@).len() == all.len());
    let colons = chars_of("::");
    assert(colons@.len() == 2) by {
        reveal_strlit("::");
    }
    let mut out: Vec<String> = Vec::new();
    let mut i: usize = 0;
    assert(strings(out@) =~= Seq::<Seq<char>>::empty());
    while i < all.len()
        invariant
            i <= all.len(),
            texts(all@) == pieces(url_decoded(query_string@), '&'),
            colons@ == "::"@,
            colons@.len() == 2,
            strings(out@) == selections(texts(all@), i as int),
        decreases all.len() - i,
    {
        let pair = &all[i];
        assert(texts(all@)[i as int] == pair@);
        assert(pair@.skip(0) =~= pair@);
        let ghost before = strings(out@);
        let eq = position_of(pair, '=', 0);
        if eq < pair.len() {
            let key = slice_chars(pair, 0, eq);
            assert(key@ =~= pair@.take(eq as int));
            match find_from(&key, &colons, 0) {
                Some(at) => {
                    proof {
                        lemma_first_match_is(key@, colons@, at as int);
                    }
                    assert(matches_at(key@, colons@, at as int));
                    assert(at + 2 <= key.len());
                    let file = slice_chars(&key, 0, at);
                    let procedure = slice_chars(&key, at + 2, key.len());
                    assert(file@ =~= key@.take(at as int));
                    assert(procedure@ =~= key@.skip(at + 2));
                    let mut name = url_decode_chars(&file);
                    append_chars(&mut name, &colons);
                    append_chars(&mut name, &url_decode_chars(&procedure));
                    out.push(string_of(&name));
                    assert(strings(out@) =~= before.push(selection(pair@)->0));
                },
                None => {
                    assert(!exists|k: int| matches_at(key@, colons@, k));
                },
            }
        }
        i += 1;
    }
    out
}

/// The second word of a request line, and `/` where the line has none.
pub open spec fn target_of(first_line: Seq<char>) -> Seq<char> {
    let rest = crate::text::trim_start(word_end(crate::text::trim_start(first_line)));
    if word(rest).len() == 0 {
        "/"@
    } else {
        word(rest)
    }
}

/// What is left of `s` after its first word.
pub open spec fn word_end(s: Seq<char>) -> Seq<char>
    decreases s.len(),
{
    if s.len() > 0 && !white_space(s[0]) {
        word_end(s.skip(1))
    } else {
        s
    }
}

/// The first word of `s`: its characters up to the first white space.
pub open spec fn word(s: Seq<char>) -> Seq<char>
    decreases s.len(),
{
    if s.len() > 0 && !white_space(s[0]) {
        seq![s[0]] + word(s.skip(1))
    } else {
        Seq::empty()
    }
}

/// Reads the target of a request from its first line.
pub fn request_target(first_line: &str) -> (out: String)
    ensures
        out@ == target_of(first_line@),
{
    let s = chars_of(first_line);
    let mut i: usize = 0;
    assert(s@.skip(0) =~= s@);
    while i < s.len() && is_whitespace(s[i])
        invariant
            i <= s.len(),
            crate::text::trim_start(s@) == crate::text::trim_start(s@.skip(i as int)),
        decreases s.len() - i,
    {
        assert(s@.skip(i as int).skip(1) =~= s@.skip(i + 1));
        i += 1;
    }
    let ghost first = s@.skip(i as int);
    while i < s.len() && !is_whitespace(s[i])
        invariant
            i <= s.len(),
            word_end(first) == word_end(s@.skip(i as int)),
        decreases s.len() - i,
    {
        assert(s@.skip(i as int).skip(1) =~= s@.skip(i + 1));
        i += 1;
    }
    let ghost after = s@.skip(i as int);
    while i < s.len() && is_whitespace(s[i])
        invariant
            i <= s.len(),
            crate::text::trim_start(after) == crate::text::trim_start(s@.skip(i as int)),
        decreases s.len() - i,
    {
        assert(s@.skip(i as int).skip(1) =~= s@.skip(i + 1));
        i += 1;
    }
    let ghost rest = s@.skip(i as int);
    let mut out: Vec<char> = Vec::new();
    while i < s.len() && !is_whitespace(s[i])
        invariant
            i <= s.len(),
            out@ + word(s@.skip(i as int)) == word(rest),
        decreases s.len() - i,
    {
        let ghost here = s@.skip(i as int);
        let ghost before = out@;
        out.push(s[i]);
        assert(here.skip(1) =~= s@.skip(i + 1));
        assert(out@ + word(s@.skip(i + 1)) =~= before + (seq![here[0]] + word(here.skip(1))));
        i += 1;
    }
    assert(out@ + word(s@.skip(i as int)) =~= out@);
    if out.len() == 0 {
        return "/".to_string();
    }
    string_of(&out)
}

/// The page of the analysis that a page name stands for.
pub open spec fn analysis_code(name: Seq<char>) -> i32 {
    if name == "graph"@ {
        1
    } else if name == "classes"@ {
        2
    } else if name == "predicates"@ {
        3
    } else {
        0
    }
}

/// The list of predicates to merge by: the parts between commas, without
/// surrounding white space.
pub open spec fn merge_list(param: Seq<char>) -> Seq<Seq<char>> {
    Seq::new(pieces(param, ',').len(), |i: int| trimmed(pieces(param, ',')[i]))
}

/// The page of an entity list that the parameter `page` names: its number,
/// and one where there is no such parameter or it is no number.
pub open spec fn page_number(p: Option<Seq<char>>) -> u32 {
    match p {
        Some(text) => match number_of(text) {
            Some(n) => n,
            None => 1,
        },
        None => 1,
    }
}

/// What the request for `route` with the query string `qs` asks for, where
/// the request has a query string.
pub open spec fn routed_with(full_path: Seq<char>, route: Seq<char>, qs: Seq<char>) -> RequestModel {
    if route == "/query"@ {
        match (param_of(qs, "query"@), param_of(qs, "mode"@), param_of(qs, "secondary"@)) {
            (Ok(query), Ok(mode), Ok(secondary)) => RequestModel::Query { query, mode, secondary },
            _ => RequestModel::Malformed,
        }
    } else if route == "/explore"@ {
        match (param_of(qs, "id"@), param_of(qs, "page"@)) {
            (Ok(Some(id)), Ok(p)) => RequestModel::Explore { id: id, page: page_number(p) },
            (Ok(None), _) => RequestModel::BadRequest,
            _ => RequestModel::Malformed,
        }
    } else if route == "/routines"@ {
        if has_prefix(qs, "entity"@) {
            match (param_of(qs, "entity"@), param_of(qs, "mergeby"@)) {
                (Ok(Some(entity)), Ok(Some(by))) => RequestModel::Merge {
                    entity: entity,
                    merge_by: merge_list(by),
                },
                _ => RequestModel::Malformed,
            }
        } else {
            RequestModel::Run(procedures(qs))
        }
    } else if route == "/delete_predicate"@ {
        match (param_of(qs, "otype"@), param_of(qs, "pred"@)) {
            (Ok(Some(otype)), Ok(Some(pred))) => RequestModel::DeletePredicate { otype: otype, pred: pred },
            _ => RequestModel::Malformed,
        }
    } else if route == "/analysis"@ {
        match (param_of(qs, "page"@), param_of(qs, "start_with"@)) {
            (Ok(page), Ok(Some(start_with))) => RequestModel::Analysis {
                page: analysis_code(
                    match page {
                        Some(p) => p,
                        None => Seq::empty(),
                    },
                ),
                start_with: start_with,
            },
            _ => RequestModel::Malformed,
        }
    } else {
        routed_plain(full_path, route, true)
    }
}

/// The entity that the address `full_path` of an entity page names.
pub open spec fn entity_of(full_path: Seq<char>) -> Seq<char> {
    let decoded = url_decoded(full_path);
    let name = if decoded.len() >= 8 {
        decoded.skip(8)
    } else {
        Seq::empty()
    };
    replace_seq(replace_seq(name, "%3C"@, "<"@), "%3E"@, ">"@)
}

/// The version that the address `route` of a restore request names.
pub open spec fn restored_version(route: Seq<char>) -> Option<u32> {
    number_of(replace_seq(replace_seq(route, "/restore/version_"@, ""@), ".nt"@, ""@))
}

/// What the request for `route` asks for where the query string plays no
/// part: `has_query` says whether there is one.
pub open spec fn routed_plain(full_path: Seq<char>, route: Seq<char>, has_query: bool) -> RequestModel {
    if route == "/"@ {
        RequestModel::Index
    } else if route == "/query"@ {
        RequestModel::Query { query: None, mode: None, secondary: None }
    } else if route == "/explore"@ || route == "/delete_predicate"@ || route == "/analysis"@ {
        RequestModel::BadRequest
    } else if has_prefix(route, "/entity/"@) {
        RequestModel::Entity(entity_of(full_path))
    } else if route == "/routines"@ {
        RequestModel::Scripts
    } else if route == "/dump"@ {
        RequestModel::Dump
    } else if route == "/history"@ {
        RequestModel::History
    } else if has_prefix(route, "/restore/"@) {
        match restored_version(route) {
            Some(v) => RequestModel::Restore(v),
            None => RequestModel::Malformed,
        }
    } else if route == "/replay_history"@ {
        RequestModel::ReplayHistory
    } else {
        RequestModel::NotFound
    }
}

/// What the request for the target `full_path` asks for. The target is cut
/// at its first `?` into the route and the query string.
pub open spec fn routed(full_path: Seq<char>) -> RequestModel {
    let cut = first_of(full_path, '?');
    if 0 <= cut < full_path.len() {
        routed_with(full_path, full_path.take(cut), full_path.skip(cut + 1))
    } else {
        routed_plain(full_path, full_path, false)
    }
}

fn route_plain(full_path: &Vec<char>, route: &Vec<char>, has_query: bool) -> (r: Request)
    ensures
        r@ == routed_plain(full_path@, route@, has_query),
{
    let empty: Vec<char> = Vec::new();
    assert(empty@ =~= ""@) by {
        reveal_strlit("");
    }
    if same_chars(route, &chars_of("/")) {
        Request::Index
    } else if same_chars(route, &chars_of("/query")) {
        Request::Query { query: None, mode: None, secondary: None }
    } else if same_chars(route, &chars_of("/explore")) || same_chars(
        route,
        &chars_of("/delete_predicate"),
    ) || same_chars(route, &chars_of("/analysis")) {
        Request::BadRequest
    } else if starts_with_chars(route, &chars_of("/entity/")) {
        let decoded = url_decode_chars(full_path);
        let name = if decoded.len() >= 8 {
            let n = slice_chars(&decoded, 8, decoded.len());
            assert(n@ =~= decoded@.skip(8));
            n
        } else {
            let n: Vec<char> = Vec::new();
            assert(n@ =~= Seq::<char>::empty());
            n
        };
        let a = replace_chars(&name, &chars_of("%3C"), &chars_of("<"));
        Request::Entity(string_of(&replace_chars(&a, &chars_of("%3E"), &chars_of(">"))))
    } else if same_chars(route, &chars_of("/routines")) {
        Request::Scripts
    } else if same_chars(route, &chars_of("/dump")) {
        Request::Dump
    } else if same_chars(route, &chars_of("/history")) {
        Request::History
    } else if starts_with_chars(route, &chars_of("/restore/")) {
        let a = replace_chars(route, &chars_of("/restore/version_"), &empty);
        match parse_number(&replace_chars(&a, &chars_of(".nt"), &empty)) {
            Some(v) => Request::Restore(v),
            None => Request::Malformed,
        }
    } else if same_chars(route, &chars_of("/replay_history")) {
        Request::ReplayHistory
    } else {
        Request::NotFound
    }
}

/// Reads the parameter `key` of `qs`.
fn read_param(qs: &str, key: &str) -> (r: Result<Option<String>, QueryError>)
    ensures
        match r {
            Ok(v) => param_of(qs@, key@) == Ok::<Option<Seq<char>>, QueryError>(text_of(v)),
            Err(e) => param_of(qs@, key@) == Err::<Option<Seq<char>>, QueryError>(e),
        },
{
    extract_query_param(qs, key)
}

fn route_with(full_path: &Vec<char>, route: &Vec<char>, qs: &str) -> (r: Request)
    ensures
        r@ == routed_with(full_path@, route@, qs@),
{
    if same_chars(route, &chars_of("/query")) {
        match (read_param(qs, "query"), read_param(qs, "mode"), read_param(qs, "secondary")) {
            (Ok(query), Ok(mode), Ok(secondary)) => Request::Query { query, mode, secondary },
            _ => Request::Malformed,
        }
    } else if same_chars(route, &chars_of("/explore")) {
        match (read_param(qs, "id"), read_param(qs, "page")) {
            (Ok(Some(id)), Ok(p)) => {
                let page = match p {
                    Some(text) => match parse_number(&chars_of(text.as_str())) {
                        Some(n) => n,
                        None => 1,
                    },
                    None => 1,
                };
                Request::Explore { id, page }
            },
            (Ok(None), _) => Request::BadRequest,
            _ => Request::Malformed,
        }
    } else if same_chars(route, &chars_of("/routines")) {
        if starts_with_chars(&chars_of(qs), &chars_of("entity")) {
            match (read_param(qs, "entity"), read_param(qs, "mergeby")) {
                (Ok(Some(entity)), Ok(Some(by))) => {
                    let parts = split_chars(&chars_of(by.as_str()), ',');
                    assert(texts(parts@).len() == parts.len());
                    let mut merge_by: Vec<String> = Vec::new();
                    let mut i: usize = 0;
                    while i < parts.len()
                        invariant
                            i <= parts.len(),
                            texts(parts@) == pieces(by@, ','),
                            merge_by.len() == i,
                            forall|k: int| 0 <= k < i ==> (#[trigger] merge_by[k])@ == trimmed(pieces(by@, ',')[k]),
                        decreases parts.len() - i,
                    {
                        assert(texts(parts@)[i as int] == parts[i as int]@);
                        merge_by.push(string_of(&trim_chars(&parts[i])));
                        i += 1;
                    }
                    assert(strings(merge_by@) =~= merge_list(by@));
                    Request::Merge { entity, merge_by }
                },
                _ => Request::Malformed,
            }
        } else {
            Request::Run(parse_procedures(qs))
        }
    } else if same_chars(route, &chars_of("/delete_predicate")) {
        match (read_param(qs, "otype"), read_param(qs, "pred")) {
            (Ok(Some(otype)), Ok(Some(pred))) => Request::DeletePredicate { otype, pred },
            _ => Request::Malformed,
        }
    } else if same_chars(route, &chars_of("/analysis")) {
        match (read_param(qs, "page"), read_param(qs, "start_with")) {
            (Ok(page), Ok(Some(start_with))) => {
                let name = match page {
                    Some(p) => chars_of(p.as_str()),
                    None => Vec::new(),
                };
                let code: i32 = if same_chars(&name, &chars_of("graph")) {
                    1
                } else if same_chars(&name, &chars_of("classes")) {
                    2
                } else if same_chars(&name, &chars_of("predicates")) {
                    3
                } else {
                    0
                };
                Request::Analysis { page: code, start_with }
            },
            _ => Request::Malformed,
        }
    } else {
        route_plain(full_path, route, true)
    }
}

/// Reads what the request for the target `full_path` asks for.
pub fn route(full_path: &str) -> (r: Request)
    ensures
        r@ == routed(full_path@),
{
    let path = chars_of(full_path);
    assert(path@.skip(0) =~= path@);
    let cut = position_of(&path, '?', 0);
    if cut < path.len() {
        let route = slice_chars(&path, 0, cut);
        let qs = slice_chars(&path, cut + 1, path.len());
        assert(route@ =~= path@.take(cut as int));
        assert(qs@ =~= path@.skip(cut + 1));
        route_with(&path, &route, string_of(&qs).as_str())
    } else {
        route_plain(&path, &path, false)
    }
}

/// The status line of the answer to a request.
pub open spec fn status_of(r: RequestModel) -> Seq<char> {
    match r {
        RequestModel::BadRequest => "HTTP/1.1 400 BAD REQUEST"@,
        RequestModel::NotFound => "HTTP/1.1 404 NOT FOUND"@,
        _ => "HTTP/1.1 200 OK"@,
    }
}

/// The status line of the answer to `request`.
pub fn status_line(request: &Request) -> (line: &'static str)
    ensures
        line@ == status_of(request@),
{
    match request {
        Request::BadRequest => "HTTP/1.1 400 BAD REQUEST",
        Request::NotFound => "HTTP/1.1 404 NOT FOUND",
        _ => "HTTP/1.1 200 OK",
    }
}

/// The answer to a request: the status line, the headers with the length
/// of the contents in bytes, and the contents.
pub open spec fn response_text(status: Seq<char>, contents: &str) -> Seq<char> {
    status + "\r\nContent-Type: text/html; charset=UTF-8\r\nContent-Length: "@ + decimal(
        contents.len() as nat,
    ) + "\r\nConnection: close\r\n\r\n"@ + contents@
}

/// Builds the answer to a request.
pub fn response(status: &str, contents: &str) -> (out: String)
    ensures
        out@ == response_text(status@, contents),
{
    let mut out = chars_of(status);
    append_chars(&mut out, &chars_of("\r\nContent-Type: text/html; charset=UTF-8\r\nContent-Length: "));
    append_chars(&mut out, &decimal_chars(contents.len() as u64));
    append_chars(&mut out, &chars_of("\r\nConnection: close\r\n\r\n"));
    append_chars(&mut out, &chars_of(contents));
    string_of(&out)
}

} // verus!
