use kg_explorer::history::{find_procedure, plan, Plan, Procedure, Step, Work};
use kg_explorer::store::KG;

fn kg() -> KG {
    KG { dataset: "books".to_string(), nb_parts: 1, history_path: String::new() }
}

fn nothing(line: &str) -> Step {
    Step { work: Work::Nothing, log: Some(line.to_string()) }
}

#[test]
fn blocks_are_run_when_they_close() {
    let content = "```sparql\n  DELETE { ?s ?p ?o }\n  WHERE { ?s ?p ?o }\n```\n".to_string();
    let steps = kg().execute(content);
    assert_eq!(
        steps,
        vec![
            nothing("```sparql"),
            nothing("DELETE { ?s ?p ?o }"),
            nothing("WHERE { ?s ?p ?o }"),
            Step {
                work: Work::Block("DELETE { ?s ?p ?o }\nWHERE { ?s ?p ?o }\n".to_string()),
                log: Some("```".to_string()),
            },
        ]
    );
}

#[test]
fn routines_and_dumps() {
    let content = "general.sparql::Remove entities withot type@advanced\r\nDumping store to ./data/x/version_1.nt\nplain note\n``` stray".to_string();
    let steps = kg().execute(content);
    assert_eq!(
        steps,
        vec![
            Step {
                work: Work::Routine {
                    file: "general.sparql".to_string(),
                    procedure: "Remove entities withot type@advanced".to_string(),
                },
                log: Some("general.sparql::Remove entities withot type@advanced".to_string()),
            },
            Step { work: Work::Nothing, log: None },
            nothing("plain note"),
            nothing("``` stray"),
        ]
    );
    assert!(kg().execute(String::new()).is_empty());
}

#[test]
fn lines_inside_a_block_name_no_routine() {
    let steps = kg().execute("```sparql\na::b\n```\na::b::c".to_string());
    assert_eq!(steps[1], nothing("a::b"));
    assert_eq!(steps[2].work, Work::Block("a::b\n".to_string()));
    assert_eq!(
        steps[3].work,
        Work::Routine { file: "a".to_string(), procedure: "b::c".to_string() }
    );
}

#[test]
fn a_single_separator_makes_an_iterative_update() {
    assert_eq!(
        plan("SELECT ?s WHERE {}\n#\nDELETE { {{s}} ?p ?o }\n", true),
        Plan::Iterative {
            select: "SELECT ?s WHERE {}".to_string(),
            update: "DELETE { {{s}} ?p ?o }".to_string(),
        }
    );
    assert_eq!(plan("a\n#\nb\n#\nc", true), Plan::Update("a\n#\nb\n#\nc".to_string()));
    assert_eq!(plan("a # b", true), Plan::Update("a # b".to_string()));
    assert_eq!(plan("a\n#\nb", false), Plan::Update("a\n#\nb".to_string()));
    assert_eq!(
        plan("#\n", true),
        Plan::Iterative { select: String::new(), update: String::new() }
    );
}

#[test]
fn procedures_are_found_by_name() {
    let content = "### General routines\n## First\nA\nB\n## Second @advanced\nC\n#\nD\n## First\nZ\n";
    assert_eq!(
        find_procedure(content, "First"),
        Some(Procedure { query: "A\nB\n".to_string(), advanced: false })
    );
    assert_eq!(
        find_procedure(content, "Second @advanced"),
        Some(Procedure { query: "C\n#\nD\n".to_string(), advanced: true })
    );
    assert_eq!(find_procedure(content, "Third"), None);
    assert_eq!(find_procedure("", "First"), None);
    // the description line is a heading too
    assert_eq!(
        find_procedure(content, "# General routines"),
        Some(Procedure { query: String::new(), advanced: false })
    );
    // the last procedure ends with the file
    assert_eq!(
        find_procedure("## Only\nQ", "Only"),
        Some(Procedure { query: "Q\n".to_string(), advanced: false })
    );
}
