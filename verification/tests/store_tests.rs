use kg_explorer::store::{instantiate, source_format, truncate_history, SourceFormat, StoreError, KG};

#[test]
fn downloaded_dataset_keeps_its_name() {
    let kg = KG::from_wdc("Book", 3);
    assert_eq!(kg.dataset, "Book");
    assert_eq!(kg.nb_parts, 3);
    assert_eq!(kg.history_path, "./data/book.db/history.txt");
    assert_eq!(kg.get_name(), "Book");
}

#[test]
fn file_dataset_is_named_by_its_file() {
    let (kg, format) = KG::from_file("some/dir/books.nt").unwrap();
    assert_eq!(format, SourceFormat::NTriples);
    assert_eq!(kg.dataset, "some/dir/books.nt");
    assert_eq!(kg.nb_parts, 0);
    assert_eq!(kg.history_path, "./data/books.nt.db/history.txt");
    assert_eq!(kg.get_name(), "books");
    assert_eq!(kg.dump_record(12), "Dumping store to ./data/books/version_12.nt");
    let (store, format) = KG::from_file("data/books.db").unwrap();
    assert_eq!(format, SourceFormat::Database);
    assert_eq!(store.history_path, "");
    assert_eq!(store.get_name(), "books");
    assert!(KG::from_file("books.csv").is_none());
    assert!(KG::from_file("books").is_none());
}

#[test]
fn formats_go_by_the_extension() {
    assert_eq!(source_format("a.ttl"), Some(SourceFormat::Turtle));
    assert_eq!(source_format("a.b.nq"), Some(SourceFormat::NQuads));
    assert_eq!(source_format("nt"), Some(SourceFormat::NTriples));
    assert_eq!(source_format("a.TTL"), None);
    assert_eq!(source_format(""), None);
}

#[test]
fn extensions_are_removed_wherever_they_stand() {
    let kg = KG { dataset: "x/my.ntfile.ttl".to_string(), nb_parts: 0, history_path: String::new() };
    assert_eq!(kg.get_name(), "myfile");
}

#[test]
fn history_is_cut_after_the_dump_line() {
    let history = "a\nDumping store to ./data/books/version_1.nt\nb\nDumping store to ./data/books/version_2.nt\nc\n";
    assert_eq!(
        truncate_history(history, "Dumping store to ./data/books/version_1.nt"),
        Some("a\nDumping store to ./data/books/version_1.nt\n".to_string())
    );
    assert_eq!(truncate_history(history, "Dumping store to ./data/books/version_3.nt"), None);
    assert_eq!(truncate_history("x Dumping", "Dumping"), None);
    assert_eq!(truncate_history("x Dumping y\n", "Dumping"), Some("x Dumping y\n".to_string()));
}

#[test]
fn templates_are_filled_variable_by_variable() {
    let vars = vec!["s1".to_string(), "s2".to_string()];
    let values = vec!["<a>".to_string(), "<b>".to_string()];
    assert_eq!(
        instantiate("DELETE { {{s2}} ?p ?o } INSERT { {{s1}} ?p ?o } WHERE { {{s2}} ?p ?o }", &vars, &values),
        "DELETE { <b> ?p ?o } INSERT { <a> ?p ?o } WHERE { <b> ?p ?o }"
    );
    assert_eq!(instantiate("{{x}}", &Vec::new(), &Vec::new()), "{{x}}");
}

#[test]
fn store_errors_carry_the_message() {
    let e = StoreError::EvaluationError("bad".to_string());
    assert!(matches!(e, StoreError::EvaluationError(ref m) if m == "bad"));
    assert!(matches!(StoreError::UnsupportedError, StoreError::UnsupportedError));
}
