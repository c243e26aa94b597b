use kg_explorer::web_ui::server::{
    parse_procedures, request_target, response, route, status_line, Request,
};

#[test]
fn request_target_is_the_second_word() {
    assert_eq!(request_target("GET /query?query=x HTTP/1.1"), "/query?query=x");
    assert_eq!(request_target("  GET\t/  "), "/");
    assert_eq!(request_target("GET"), "/");
    assert_eq!(request_target(""), "/");
}

#[test]
fn plain_routes() {
    assert_eq!(route("/"), Request::Index);
    assert_eq!(route("/query"), Request::Query { query: None, mode: None, secondary: None });
    assert_eq!(route("/routines"), Request::Scripts);
    assert_eq!(route("/dump"), Request::Dump);
    assert_eq!(route("/history"), Request::History);
    assert_eq!(route("/replay_history"), Request::ReplayHistory);
    assert_eq!(route("/explore"), Request::BadRequest);
    assert_eq!(route("/delete_predicate"), Request::BadRequest);
    assert_eq!(route("/analysis"), Request::BadRequest);
    assert_eq!(route("/nothing"), Request::NotFound);
    assert_eq!(route("/dump?x=1"), Request::Dump);
}

#[test]
fn query_and_explore_routes() {
    assert_eq!(
        route("/query?query=SELECT+%3Fs&mode=query"),
        Request::Query {
            query: Some("SELECT ?s".to_string()),
            mode: Some("query".to_string()),
            secondary: None,
        }
    );
    assert_eq!(
        route("/explore?id=%3Chttp://x/T%3E&page=3"),
        Request::Explore { id: "<http://x/T>".to_string(), page: 3 }
    );
    assert_eq!(
        route("/explore?id=T"),
        Request::Explore { id: "T".to_string(), page: 1 }
    );
    assert_eq!(
        route("/explore?id=T&page=many"),
        Request::Explore { id: "T".to_string(), page: 1 }
    );
    assert_eq!(
        route("/explore?id=T&page=4294967296"),
        Request::Explore { id: "T".to_string(), page: 1 }
    );
    assert_eq!(route("/explore?page=2"), Request::BadRequest);
    assert_eq!(route("/explore?id=%ff"), Request::Malformed);
}

#[test]
fn entity_and_restore_routes() {
    assert_eq!(
        route("/entity/%3Chttp://x/a%23b%3E"),
        Request::Entity("<http://x/a#b>".to_string())
    );
    assert_eq!(route("/entity/<a+b>"), Request::Entity("<a b>".to_string()));
    assert_eq!(route("/restore/version_12.nt"), Request::Restore(12));
    assert_eq!(route("/restore/version_+7.nt"), Request::Restore(7));
    assert_eq!(route("/restore/version_x.nt"), Request::Malformed);
    assert_eq!(route("/restore/"), Request::Malformed);
}

#[test]
fn routine_routes() {
    assert_eq!(
        route("/routines?entity=%3CT%3E&mergeby=%3Cp%3E,+%3Cq%3E"),
        Request::Merge {
            entity: "<T>".to_string(),
            merge_by: vec!["<p>".to_string(), "<q>".to_string()],
        }
    );
    assert_eq!(route("/routines?entity=T"), Request::Malformed);
    assert_eq!(
        route("/routines?a.sparql%3A%3AFirst+one=on&b.sparql::Two=on&other=1"),
        Request::Run(vec!["a.sparql::First one".to_string(), "b.sparql::Two".to_string()])
    );
    assert_eq!(
        parse_procedures("f::p=on&plain&g::q::r=1&h::s"),
        vec!["f::p".to_string(), "g::q::r".to_string()]
    );
    assert_eq!(parse_procedures(""), Vec::<String>::new());
}

#[test]
fn change_routes() {
    assert_eq!(
        route("/delete_predicate?otype=%3CT%3E&pred=%3Cp%3E"),
        Request::DeletePredicate { otype: "<T>".to_string(), pred: "<p>".to_string() }
    );
    assert_eq!(route("/delete_predicate?otype=T"), Request::Malformed);
    assert_eq!(
        route("/analysis?page=classes&start_with=Book"),
        Request::Analysis { page: 2, start_with: "Book".to_string() }
    );
    assert_eq!(
        route("/analysis?start_with=Book"),
        Request::Analysis { page: 0, start_with: "Book".to_string() }
    );
    assert_eq!(
        route("/analysis?page=graph&start_with=B"),
        Request::Analysis { page: 1, start_with: "B".to_string() }
    );
    assert_eq!(
        route("/analysis?page=predicates&start_with=B"),
        Request::Analysis { page: 3, start_with: "B".to_string() }
    );
    assert_eq!(route("/analysis?page=graph"), Request::Malformed);
}

#[test]
fn status_and_response() {
    assert_eq!(status_line(&Request::Index), "HTTP/1.1 200 OK");
    assert_eq!(status_line(&Request::BadRequest), "HTTP/1.1 400 BAD REQUEST");
    assert_eq!(status_line(&Request::NotFound), "HTTP/1.1 404 NOT FOUND");
    assert_eq!(
        response("HTTP/1.1 200 OK", "héllo"),
        "HTTP/1.1 200 OK\r\nContent-Type: text/html; charset=UTF-8\r\nContent-Length: 6\r\nConnection: close\r\n\r\nhéllo"
    );
}
