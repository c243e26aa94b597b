use kg_explorer::web_ui::templetization::Template;

#[test]
fn render_replaces_every_placeholder() {
    let t = Template::new("<h1>[[title]]</h1><p>[[body]]</p><i>[[title]]</i>", &["title", "body"]);
    let out = t.render(&[("body", "text"), ("title", "Hi")]);
    assert_eq!(out, "<h1>Hi</h1><p>text</p><i>Hi</i>");
}

#[test]
fn render_leaves_unexpected_placeholders() {
    let t = Template::new("[[a]] [[b]]", &["a"]);
    assert_eq!(t.render(&[("a", "1"), ("b", "2")]), "1 [[b]]");
}

#[test]
fn render_takes_the_last_value_of_a_key() {
    let t = Template::new("[[a]]", &["a"]);
    assert_eq!(t.render(&[("a", "1"), ("a", "2")]), "2");
}

#[test]
fn render_handles_keys_in_order() {
    // the value of `a` brings in the placeholder of `b`, which is replaced next
    let t = Template::new("[[a]]", &["a", "b"]);
    assert_eq!(t.render(&[("a", "[[b]]"), ("b", "x")]), "x");
    let u = Template::new("[[a]]", &["b", "a"]);
    assert_eq!(u.render(&[("a", "[[b]]"), ("b", "x")]), "[[b]]");
}

#[test]
fn accepts_tells_whether_every_key_has_a_value() {
    let t = Template::new("[[a]] [[b]]", &["a", "b"]);
    assert!(t.accepts(&[("a", "1"), ("b", "2"), ("c", "3")]));
    assert!(!t.accepts(&[("a", "1")]));
    assert!(Template::new("plain", &[]).accepts(&[]));
    assert_eq!(Template::new("plain", &[]).render(&[]), "plain");
}
