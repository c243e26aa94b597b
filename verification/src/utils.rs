//! Text helpers of the web interface: escaping, links, blank-node names and
//! the decoding of query strings.

use vstd::prelude::*;
use crate::text::{
    append_chars, chars_of, ends_with_chars, first_of, has_prefix, has_suffix, position_of,
    replace_chars, replace_seq, same_chars, slice_chars, starts_with_chars, string_of,
};

verus! {

/// `blank_node` as a skolem name: between angle brackets, each `_`
/// replaced by `urn:skolem`.
pub open spec fn skolemized(blank_node: Seq<char>) -> Seq<char> {
    "<"@ + replace_seq(blank_node, "_"@, "urn:skolem"@) + ">"@
}

/// Turns a blank-node label such as `_:b0` into the skolem name
/// `<urn:skolem:b0>`.
pub fn skolemize(blank_node: String) -> (out: String)
    ensures
        out@ == skolemized(blank_node@),
{
    let inner = replace_chars(&chars_of(blank_node.as_str()), &chars_of("_"), &chars_of("urn:skolem"));
    let mut out = chars_of("<");
    append_chars(&mut out, &inner);
    append_chars(&mut out, &chars_of(">"));
    string_of(&out)
}

/// `data` with `&`, `<` and `>` replaced by their entities, in this order.
pub open spec fn html_escaped(data: Seq<char>) -> Seq<char> {
    replace_seq(replace_seq(replace_seq(data, "&"@, "&amp;"@), "<"@, "&lt;"@), ">"@, "&gt;"@)
}

pub(crate) fn escape_html_chars(data: &Vec<char>) -> (out: Vec<char>)
    ensures
        out@ == html_escaped(data@),
{
    let a = replace_chars(data, &chars_of("&"), &chars_of("&amp;"));
    let b = replace_chars(&a, &chars_of("<"), &chars_of("&lt;"));
    replace_chars(&b, &chars_of(">"), &chars_of("&gt;"))
}

/// Escapes the characters that are special in HTML.
pub fn escape_html(data: &String) -> (out: String)
    ensures
        out@ == html_escaped(data@),
{
    string_of(&escape_html_chars(&chars_of(data.as_str())))
}

/// `data` with quotes, line feeds and tabs escaped for a JavaScript string.
pub open spec fn js_escaped(data: Seq<char>) -> Seq<char> {
    replace_seq(
        replace_seq(replace_seq(replace_seq(data, "'"@, "\\'"@), "\""@, "\\\""@), "\n"@, "\\n"@),
        "\t"@,
        "\\t"@,
    )
}

pub(crate) fn escape_js_chars(data: &Vec<char>) -> (out: Vec<char>)
    ensures
        out@ == js_escaped(data@),
{
    let a = replace_chars(data, &chars_of("'"), &chars_of("\\'"));
    let b = replace_chars(&a, &chars_of("\""), &chars_of("\\\""));
    let c = replace_chars(&b, &chars_of("\n"), &chars_of("\\n"));
    replace_chars(&c, &chars_of("\t"), &chars_of("\\t"))
}

/// Escapes a text for embedding in a JavaScript string.
pub fn escape_js(data: String) -> (out: String)
    ensures
        out@ == js_escaped(data@),
{
    string_of(&escape_js_chars(&chars_of(data.as_str())))
}

/// Whether `data` is an escaped name: it starts with `&lt;` and ends with
/// `&gt;`.
pub open spec fn is_escaped_name(data: Seq<char>) -> bool {
    has_prefix(data, "&lt;"@) && has_suffix(data, "&gt;"@)
}

/// The address of the entity page of the escaped name `data`.
pub open spec fn entity_address(data: Seq<char>) -> Seq<char> {
    replace_seq(replace_seq(replace_seq(data, "&lt;"@, "/entity/<"@), "&gt;"@, ">"@), "#"@, "%23"@)
}

/// What `to_link` makes of `data`.
pub open spec fn linked(data: Seq<char>) -> Seq<char> {
    if is_escaped_name(data) {
        "<a href=\""@ + entity_address(data) + "\">"@ + data + "</a>"@
    } else {
        data
    }
}

pub(crate) fn link_chars(text: &Vec<char>) -> (out: Vec<char>)
    ensures
        out@ == linked(text@),
{
    if starts_with_chars(text, &chars_of("&lt;")) && ends_with_chars(text, &chars_of("&gt;")) {
        let a = replace_chars(text, &chars_of("&lt;"), &chars_of("/entity/<"));
        let b = replace_chars(&a, &chars_of("&gt;"), &chars_of(">"));
        let link = replace_chars(&b, &chars_of("#"), &chars_of("%23"));
        let mut out = chars_of("<a href=\"");
        append_chars(&mut out, &link);
        append_chars(&mut out, &chars_of("\">"));
        append_chars(&mut out, text);
        append_chars(&mut out, &chars_of("</a>"));
        out
    } else {
        let mut out: Vec<char> = Vec::new();
        append_chars(&mut out, text);
        assert(out@ =~= text@);
        out
    }
}

/// Renders an escaped entity name as a link to its entity page; any other
/// text is returned as it is.
pub fn to_link(data: String) -> (out: String)
    ensures
        out@ == linked(data@),
{
    string_of(&link_chars(&chars_of(data.as_str())))
}

/// `data` without angle brackets.
pub open spec fn unbracketed(data: Seq<char>) -> Seq<char> {
    replace_seq(replace_seq(data, "<"@, ""@), ">"@, ""@)
}

/// What `external_link` makes of `data`.
pub open spec fn externally_linked(data: Seq<char>) -> Seq<char> {
    if has_prefix(data, "<http"@) {
        "<a href=\""@ + unbracketed(data) + "\">"@ + html_escaped(data) + "</a>"@
    } else {
        html_escaped(data)
    }
}

/// Renders a name that starts with `<http` as a link to the resource it
/// names; any other text is escaped for HTML.
pub fn external_link(data: &str) -> (out: String)
    ensures
        out@ == externally_linked(data@),
{
    let text = chars_of(data);
    let escaped = escape_html_chars(&text);
    if starts_with_chars(&text, &chars_of("<http")) {
        let empty: Vec<char> = Vec::new();
        assert(empty@ =~= ""@) by {
            reveal_strlit("");
        }
        let a = replace_chars(&text, &chars_of("<"), &empty);
        let address = replace_chars(&a, &chars_of(">"), &empty);
        let mut out = chars_of("<a href=\"");
        append_chars(&mut out, &address);
        append_chars(&mut out, &chars_of("\">"));
        append_chars(&mut out, &escaped);
        append_chars(&mut out, &chars_of("</a>"));
        string_of(&out)
    } else {
        string_of(&escaped)
    }
}

/// The value of a hexadecimal digit.
pub open spec fn hex_digit(c: char) -> Option<u8> {
    if '0' <= c <= '9' {
        Some((c as u8 - '0' as u8) as u8)
    } else if 'a' <= c <= 'f' {
        Some((c as u8 - 'a' as u8 + 10) as u8)
    } else if 'A' <= c <= 'F' {
        Some((c as u8 - 'A' as u8 + 10) as u8)
    } else {
        None
    }
}

/// The byte that the two characters after a `%` stand for: two hexadecimal
/// digits, or a plus sign and one hexadecimal digit.
pub open spec fn hex_byte(h1: char, h2: char) -> Option<u8> {
    match (hex_digit(h1), hex_digit(h2)) {
        (Some(a), Some(b)) => Some((16 * a + b) as u8),
        (None, Some(b)) => if h1 == '+' {
            Some(b)
        } else {
            None
        },
        _ => None,
    }
}

/// `s` decoded: each `+` becomes a space; a `%` and the two characters
/// after it become the character of the byte they stand for, or nothing
/// when they stand for none; a `%` with fewer than two characters after it
/// ends the text.
pub open spec fn url_decoded(s: Seq<char>) -> Seq<char>
    decreases s.len(),
{
    if s.len() == 0 {
        s
    } else if s[0] == '+' {
        seq![' '] + url_decoded(s.skip(1))
    } else if s[0] == '%' {
        if s.len() < 3 {
            Seq::empty()
        } else {
            match hex_byte(s[1], s[2]) {
                Some(b) => seq![b as char] + url_decoded(s.skip(3)),
                None => url_decoded(s.skip(3)),
            }
        }
    } else {
        seq![s[0]] + url_decoded(s.skip(1))
    }
}

/// Reads a hexadecimal digit.
fn read_hex_digit(c: char) -> (r: Option<u8>)
    ensures
        r == hex_digit(c),
{
    if c >= '0' && c <= '9' {
        Some(c as u8 - '0' as u8)
    } else if c >= 'a' && c <= 'f' {
        Some(c as u8 - 'a' as u8 + 10)
    } else if c >= 'A' && c <= 'F' {
        Some(c as u8 - 'A' as u8 + 10)
    } else {
        None
    }
}

/// Reads the byte that two characters after a `%` stand for.
fn read_hex_byte(h1: char, h2: char) -> (r: Option<u8>)
    ensures
        r == hex_byte(h1, h2),
{
    match (read_hex_digit(h1), read_hex_digit(h2)) {
        (Some(a), Some(b)) => Some(16 * a + b),
        (None, Some(b)) => if h1 == '+' {
            Some(b)
        } else {
            None
        },
        _ => None,
    }
}

pub(crate) fn url_decode_chars(s: &Vec<char>) -> (out: Vec<char>)
    ensures
        out@ == url_decoded(s@),
{
    let mut out: Vec<char> = Vec::new();
    let mut i: usize = 0;
    assert(s@.skip(0) =~= s@);
    while i < s.len()
        invariant
            i <= s.len(),
            out@ + url_decoded(s@.skip(i as int)) == url_decoded(s@),
        decreases s.len() - i,
    {
        let ghost rest = s@.skip(i as int);
        let ghost before = out@;
        let c = s[i];
        assert(rest[0] == c);
        if c == '+' {
            out.push(' ');
            i += 1;
            assert(rest.skip(1) =~= s@.skip(i as int));
            assert(out@ + url_decoded(s@.skip(i as int)) =~= before + (seq![' '] + url_decoded(
                rest.skip(1),
            )));
        } else if c == '%' {
            if s.len() - i < 3 {
                assert(url_decoded(rest) =~= Seq::<char>::empty());
                assert(out@ =~= url_decoded(s@));
                return out;
            }
            assert(rest[1] == s[i + 1] && rest[2] == s[i + 2]);
            match read_hex_byte(s[i + 1], s[i + 2]) {
                Some(b) => {
                    out.push(b as char);
                    i += 3;
                    assert(rest.skip(3) =~= s@.skip(i as int));
                    assert(out@ + url_decoded(s@.skip(i as int)) =~= before + (seq![b as char]
                        + url_decoded(rest.skip(3))));
                },
                None => {
                    i += 3;
                    assert(rest.skip(3) =~= s@.skip(i as int));
                },
            }
        } else {
            out.push(c);
            i += 1;
            assert(rest.skip(1) =~= s@.skip(i as int));
            assert(out@ + url_decoded(s@.skip(i as int)) =~= before + (seq![c] + url_decoded(
                rest.skip(1),
            )));
        }
    }
    assert(s@.skip(s.len() as int).len() == 0);
    assert(out@ + url_decoded(s@.skip(i as int)) =~= out@);
    out
}

/// Decodes a form-encoded text: `+` to a space and `%HH` to the character
/// of the byte `HH`.
pub fn url_decode(input: &str) -> (out: String)
    ensures
        out@ == url_decoded(input@),
{
    string_of(&url_decode_chars(&chars_of(input)))
}

/// What percent-decoding makes of a text, `None` where the decoded bytes
/// are no UTF-8.
pub uninterp spec fn percent_decoded(input: Seq<char>) -> Option<Seq<char>>;

/// `percent_encoding::percent_decode_str` followed by `decode_utf8`: the
/// text with every `%HH` replaced by the byte `HH`, read as UTF-8.
#[verifier::external_body]
fn percent_decode(input: &str) -> (r: Option<String>)
    ensures
        match r {
            Some(s) => percent_decoded(input@) == Some(s@),
            None => percent_decoded(input@) is None,
        },
{
    match percent_encoding::percent_decode_str(input).decode_utf8() {
        Ok(s) => Some(s.into_owned()),
        Err(_) => None,
    }
}

/// A parameter value as it is handed out: `+` and `%20` become spaces and
/// `%23` disappears.
pub open spec fn cleaned_value(v: Seq<char>) -> Seq<char> {
    replace_seq(replace_seq(replace_seq(v, "+"@, " "@), "%20"@, " "@), "%23"@, ""@)
}

/// A query string could not be searched.
#[derive(Debug, PartialEq, Eq)]
pub enum QueryError {
    /// A pair that had to be read does not decode to UTF-8.
    Undecodable,
}

/// The value of `key` in `query`.
///
/// The pairs of `query`, separated by `&`, are read from the left. Each is
/// percent-decoded and split at its first `=`. The search ends at the first
/// pair whose name is `key`, with the pair's cleaned value; it also ends,
/// with nothing, at a pair that has no `=`. A pair that cannot be decoded
/// is an error.
pub open spec fn param_of(query: Seq<char>, key: Seq<char>) -> Result<Option<Seq<char>>, QueryError>
    decreases query.len(),
{
    let cut = first_of(query, '&');
    match percent_decoded(query.take(cut)) {
        None => Err(QueryError::Undecodable),
        Some(pair) => {
            let eq = first_of(pair, '=');
            if eq >= pair.len() {
                Ok(None)
            } else if pair.take(eq) == key {
                Ok(Some(cleaned_value(pair.skip(eq + 1))))
            } else if cut < 0 || cut >= query.len() {
                Ok(None)
            } else {
                param_of(query.skip(cut + 1), key)
            }
        },
    }
}

/// Retrieves the value of the parameter `key` from a query string such as
/// `a=1&b=2`.
pub fn extract_query_param(query: &str, key: &str) -> (r: Result<Option<String>, QueryError>)
    ensures
        match r {
            Ok(Some(v)) => param_of(query@, key@) == Ok::<Option<Seq<char>>, QueryError>(Some(v@)),
            Ok(None) => param_of(query@, key@) == Ok::<Option<Seq<char>>, QueryError>(None),
            Err(e) => param_of(query@, key@) == Err::<Option<Seq<char>>, QueryError>(e),
        },
{
    let text = chars_of(query);
    let wanted = chars_of(key);
    let mut from: usize = 0;
    assert(text@.skip(0) =~= text@);
    loop
        invariant
            from <= text.len(),
            text@ == query@,
            wanted@ == key@,
            param_of(query@, key@) == param_of(text@.skip(from as int), key@),
        decreases text.len() - from,
    {
        let ghost rest = text@.skip(from as int);
        let cut = position_of(&text, '&', from);
        let raw = string_of(&slice_chars(&text, from, cut));
        assert(raw@ =~= rest.take(cut - from));
        match percent_decode(raw.as_str()) {
            None => {
                return Err(QueryError::Undecodable);
            },
            Some(decoded) => {
                let pair = chars_of(decoded.as_str());
                assert(pair@.skip(0) =~= pair@);
                let eq = position_of(&pair, '=', 0);
                if eq >= pair.len() {
                    return Ok(None);
                }
                let name = slice_chars(&pair, 0, eq);
                assert(name@ =~= pair@.take(eq as int));
                if same_chars(&name, &wanted) {
                    let value = slice_chars(&pair, eq + 1, pair.len());
                    assert(value@ =~= pair@.skip(eq + 1));
                    let empty: Vec<char> = Vec::new();
                    assert(empty@ =~= ""@) by {
                        reveal_strlit("");
                    }
                    let a = replace_chars(&value, &chars_of("+"), &chars_of(" "));
                    let b = replace_chars(&a, &chars_of("%20"), &chars_of(" "));
                    let c = replace_chars(&b, &chars_of("%23"), &empty);
                    return Ok(Some(string_of(&c)));
                }
                if cut >= text.len() {
                    return Ok(None);
                }
                assert(rest.skip(cut - from + 1) =~= text@.skip(cut + 1));
                from = cut + 1;
            },
        }
    }
}

} // verus!
