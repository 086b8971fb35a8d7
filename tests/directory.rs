use commit_clock::directory::{
    accept_response, authored_matches, authorization_value, complete_prs, present_names,
    read_login, read_pull_matches, read_repo_names, read_search_hits, Request,
};

fn col(items: &[Option<&str>]) -> Vec<Option<String>> {
    items.iter().map(|o| o.map(|s| s.to_string())).collect()
}

#[test]
fn request_urls() {
    assert_eq!(Request::Identity.url(), "https://api.github.com/user");
    assert_eq!(
        Request::Search("octo".to_string()).url(),
        "https://api.github.com/search/issues?q=is:pr+is:open+author:octo&per_page=3&sort=updated&order=desc"
    );
    assert_eq!(
        Request::Repos.url(),
        "https://api.github.com/user/repos?affiliation=owner,collaborator,organization_member&per_page=50&sort=updated"
    );
    assert_eq!(
        Request::Pulls("o/r1".to_string()).url(),
        "https://api.github.com/repos/o/r1/pulls?state=open&per_page=10&sort=updated&direction=desc"
    );
}

#[test]
fn bearer_header() {
    assert_eq!(authorization_value("abc123"), "Bearer abc123");
}

#[test]
fn only_success_statuses_pass_their_body() {
    assert_eq!(accept_response(200, Some("x".to_string())), Some("x".to_string()));
    assert_eq!(accept_response(299, Some("x".to_string())), Some("x".to_string()));
    assert_eq!(accept_response(199, Some("x".to_string())), None);
    assert_eq!(accept_response(300, Some("x".to_string())), None);
    assert_eq!(accept_response(401, Some("x".to_string())), None);
    assert_eq!(accept_response(200, None), None);
}

#[test]
fn login_is_read_from_identity_body() {
    assert_eq!(read_login(r#"{"login":"octo"}"#), Some("octo".to_string()));
    assert_eq!(read_login(r#"{"login":7}"#), None);
    assert_eq!(read_login(r#"{"name":"x"}"#), None);
    assert_eq!(read_login("not json"), None);
}

#[test]
fn search_hits_without_items_are_none() {
    assert!(read_search_hits(r#"{"message":"oops"}"#).is_none());
    assert!(read_search_hits("").is_none());
    assert_eq!(read_search_hits(r#"{"items":[]}"#).map(|v| v.len()), Some(0));
}

#[test]
fn repo_names_in_order() {
    assert_eq!(
        read_repo_names(r#"[{"full_name":"a/b"},{"full_name":"c/d"}]"#),
        vec!["a/b".to_string(), "c/d".to_string()]
    );
    assert!(read_repo_names(r#"{"full_name":"a/b"}"#).is_empty());
}

#[test]
fn pull_matches_by_author() {
    let body = r#"[
        {"title":"mine","html_url":"u1","updated_at":"t1","user":{"login":"octo"}},
        {"title":"theirs","html_url":"u2","updated_at":"t2","user":{"login":"else"}}
    ]"#;
    let found = read_pull_matches(body, &"octo".to_string()).expect("a list");
    assert_eq!(found.len(), 1);
    assert_eq!(found[0].pr.title, "mine");
    assert_eq!(found[0].updated_at, "t1");
    assert!(read_pull_matches(r#"{"message":"x"}"#, &"octo".to_string()).is_none());
}

#[test]
fn complete_prs_pairs_columns() {
    let t = col(&[Some("a"), None, Some("c"), Some("d"), Some("e"), Some("f")]);
    let u = col(&[Some("ua"), Some("ub"), None, Some("ud"), Some("ue")]);
    let r = complete_prs(&t, &u);
    let got: Vec<(&str, &str)> = r.iter().map(|p| (p.title.as_str(), p.url.as_str())).collect();
    assert_eq!(got, vec![("a", "ua"), ("d", "ud"), ("e", "ue")]);
    assert!(complete_prs(&col(&[]), &col(&[Some("x")])).is_empty());
}

#[test]
fn present_names_keep_twenty() {
    let mut items: Vec<Option<String>> = vec![None];
    for i in 0..25 {
        items.push(Some(format!("o/r{}", i)));
    }
    let r = present_names(&items);
    assert_eq!(r.len(), 20);
    assert_eq!(r[0], "o/r0");
    assert_eq!(r[19], "o/r19");
}

#[test]
fn authored_matches_read_missing_as_empty() {
    let a = col(&[Some("octo"), Some("x"), None, Some("octo")]);
    let t = col(&[Some("t0"), Some("t1"), Some("t2"), None]);
    let u = col(&[Some("u0"), Some("u1"), Some("u2"), Some("u3")]);
    let d = col(&[None, Some("d1"), Some("d2"), Some("d3")]);
    let r = authored_matches(&a, &t, &u, &d, &"octo".to_string());
    assert_eq!(r.len(), 2);
    assert_eq!((r[0].updated_at.as_str(), r[0].pr.title.as_str()), ("", "t0"));
    assert_eq!((r[1].updated_at.as_str(), r[1].pr.title.as_str(), r[1].pr.url.as_str()), ("d3", "", "u3"));
    let none = authored_matches(&a, &t, &u, &d, &"".to_string());
    assert_eq!(none.len(), 1);
    assert_eq!(none[0].pr.title, "t2");
}
