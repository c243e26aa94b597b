use kg_explorer::preprocess::{clean_line, schema_name, CleanError};

#[test]
fn schema_names_are_lowered_to_http() {
    assert_eq!(schema_name("Book"), "<http://schema.org/book>");
    assert_eq!(
        clean_line("<http://x/a> <https://schema.org/Name> \"T\" <http://g> .\n"),
        Ok("<http://x/a> <http://schema.org/name> \"T\" .".to_string())
    );
}

#[test]
fn graph_names_go_and_blank_nodes_get_names() {
    assert_eq!(
        clean_line("_:b0 <http://schema.org/name> _:x1 <http://graph/1>   .\n"),
        Ok("<urn:skolem:b0> <http://schema.org/name> <urn:skolem:x1> .".to_string())
    );
    assert_eq!(clean_line("a\\uFFFDb"), Ok("ab".to_string()));
    assert_eq!(clean_line(""), Ok(String::new()));
}

#[test]
fn inline_json_becomes_a_literal() {
    assert_eq!(
        clean_line("<http://x/a> <http://x/p> <j{\"k\":1}x> <http://g> .\n"),
        Ok("<http://x/a> <http://x/p> \"j{\"k\":1}x\" .".to_string())
    );
}

#[test]
fn short_type_name_is_written_out() {
    assert_eq!(
        clean_line("<http://x/a> <@type:> <http://x/T> <http://g> .\n"),
        Ok("<http://x/a> <http://www.w3.org/1999/02/22-rdf-syntax-ns#type> <http://x/T> .".to_string())
    );
}

#[test]
fn publisher_lines_take_their_last_name() {
    let line = "<http://x/a> <http://schema.org/url> <https://www.deutscherkunstverlag.de/b> <http://g/1> .\n";
    assert_eq!(
        clean_line(line),
        Ok("<http://x/a> <http://schema.org/url> <http://g/1> .".to_string())
    );
    assert_eq!(
        clean_line("https://www.deutscherkunstverlag.de/ schema.org/url>"),
        Err(CleanError::TooFewNames)
    );
}
