use kg_explorer::utils::{
    escape_html, escape_js, external_link, extract_query_param, skolemize, to_link, url_decode,
    QueryError,
};

#[test]
fn skolemize_names_a_blank_node() {
    assert_eq!(skolemize("_:b0".to_string()), "<urn:skolem:b0>");
    assert_eq!(skolemize("_:a_b".to_string()), "<urn:skolem:aurn:skolemb>");
}

#[test]
fn escape_html_replaces_special_characters() {
    assert_eq!(escape_html(&"<a href=\"x\">T&C</a>".to_string()), "&lt;a href=\"x\"&gt;T&amp;C&lt;/a&gt;");
    assert_eq!(escape_html(&"&lt;".to_string()), "&amp;lt;");
    assert_eq!(escape_html(&String::new()), "");
}

#[test]
fn escape_js_escapes_quotes_and_breaks() {
    assert_eq!(escape_js("it's \"x\"\n\ty".to_string()), "it\\'s \\\"x\\\"\\n\\ty");
}

#[test]
fn to_link_links_escaped_names() {
    assert_eq!(
        to_link("&lt;http://x.org/a#b&gt;".to_string()),
        "<a href=\"/entity/<http://x.org/a%23b>\">&lt;http://x.org/a#b&gt;</a>"
    );
    assert_eq!(to_link("plain".to_string()), "plain");
    assert_eq!(to_link("&lt;only the start".to_string()), "&lt;only the start");
    assert_eq!(to_link("&lt;&gt;".to_string()), "<a href=\"/entity/<>\">&lt;&gt;</a>");
}

#[test]
fn external_link_links_http_names() {
    assert_eq!(
        external_link("<http://x.org/a>"),
        "<a href=\"http://x.org/a\">&lt;http://x.org/a&gt;</a>"
    );
    assert_eq!(external_link("a < b"), "a &lt; b");
}

#[test]
fn url_decode_reads_plus_and_percent() {
    assert_eq!(url_decode("a+b%20c"), "a b c");
    assert_eq!(url_decode("%3Chttp%3a%2F%2Fx%3E"), "<http://x>");
    assert_eq!(url_decode("%e9"), "é");
    // what stands for no byte is dropped with its percent sign
    assert_eq!(url_decode("a%zzb"), "ab");
    assert_eq!(url_decode("a%+fb"), "a\u{f}b");
    assert_eq!(url_decode("a%-1b"), "ab");
    // a percent sign with fewer than two characters after it ends the text
    assert_eq!(url_decode("ab%4"), "ab");
    assert_eq!(url_decode("ab%"), "ab");
    assert_eq!(url_decode(""), "");
}

#[test]
fn query_parameters_are_found_by_name() {
    assert_eq!(extract_query_param("a=1&b=2", "b"), Ok(Some("2".to_string())));
    assert_eq!(extract_query_param("a=1&b=2", "a"), Ok(Some("1".to_string())));
    assert_eq!(extract_query_param("a=1&b=2", "c"), Ok(None));
    assert_eq!(extract_query_param("a=1&a=2", "a"), Ok(Some("1".to_string())));
    assert_eq!(extract_query_param("", "a"), Ok(None));
}

#[test]
fn query_parameters_are_percent_decoded() {
    assert_eq!(
        extract_query_param("id=%3Chttp%3A%2F%2Fx%3E&page=2", "id"),
        Ok(Some("<http://x>".to_string()))
    );
    // the decoded pair is split at its first equals sign
    assert_eq!(extract_query_param("q%3Da=b", "q"), Ok(Some("a=b".to_string())));
    assert_eq!(extract_query_param("q=a+b%2520c%2523d", "q"), Ok(Some("a b cd".to_string())));
}

#[test]
fn a_pair_without_equals_sign_ends_the_search() {
    assert_eq!(extract_query_param("flag&a=1", "a"), Ok(None));
    assert_eq!(extract_query_param("a=1&flag", "a"), Ok(Some("1".to_string())));
}

#[test]
fn undecodable_pairs_are_an_error() {
    assert_eq!(extract_query_param("a=%ff", "a"), Err(QueryError::Undecodable));
    assert_eq!(extract_query_param("a=1&b=%ff", "a"), Ok(Some("1".to_string())));
    assert_eq!(extract_query_param("b=%ff&a=1", "a"), Err(QueryError::Undecodable));
}
