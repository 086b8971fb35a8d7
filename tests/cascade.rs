use commit_clock::cascade::{FetchCycle, Step};
use commit_clock::directory::Request;
use commit_clock::model::GithubFetchResult;

fn s(text: &str) -> Option<String> {
    Some(text.to_string())
}

fn expect_send(step: Step) -> Request {
    match step {
        Step::Send(r) => r,
        Step::Finish(o) => panic!("cycle finished early: connected={} items={}", o.connected, o.prs.len()),
    }
}

fn expect_finish(step: Step) -> GithubFetchResult {
    match step {
        Step::Finish(o) => o,
        Step::Send(r) => panic!("cycle asked for more: {:?}", r),
    }
}

fn titles(o: &GithubFetchResult) -> Vec<String> {
    o.prs.iter().map(|p| p.title.clone()).collect()
}

/// Runs a cycle to the repository stage: identity "octo", search empty.
fn to_repos(cycle: &mut FetchCycle) {
    let req = expect_send(cycle.advance(s(r#"{"login":"octo","id":1}"#)));
    assert_eq!(req, Request::Search("octo".to_string()));
    let req = expect_send(cycle.advance(s(r#"{"total_count":0,"items":[]}"#)));
    assert_eq!(req, Request::Repos);
}

const R1_PULLS: &str = r#"[
  {"title":"R1 first","html_url":"https://example.com/r1/1","updated_at":"2024-01-03T10:00:00Z","user":{"login":"octo"}},
  {"title":"Someone else","html_url":"https://example.com/r1/9","updated_at":"2024-01-05T10:00:00Z","user":{"login":"other"}},
  {"title":"R1 second","html_url":"https://example.com/r1/2","updated_at":"2024-01-01T10:00:00Z","user":{"login":"octo"}}
]"#;

const R2_PULLS: &str = r#"[
  {"title":"R2 only","html_url":"https://example.com/r2/1","updated_at":"2024-01-02T10:00:00Z","user":{"login":"octo"}}
]"#;

#[test]
fn cycle_starts_with_identity() {
    let (cycle, req) = FetchCycle::start();
    assert_eq!(req, Request::Identity);
    assert!(!cycle.is_done());
}

#[test]
fn identity_failure_is_disconnected() {
    let (mut cycle, _) = FetchCycle::start();
    let o = expect_finish(cycle.advance(None));
    assert!(!o.connected);
    assert!(o.prs.is_empty());
    assert!(cycle.is_done());
}

#[test]
fn identity_without_login_is_disconnected() {
    let (mut cycle, _) = FetchCycle::start();
    let o = expect_finish(cycle.advance(s(r#"{"message":"Bad credentials"}"#)));
    assert!(!o.connected);
    assert!(o.prs.is_empty());
}

#[test]
fn identity_body_not_json_is_disconnected() {
    let (mut cycle, _) = FetchCycle::start();
    let o = expect_finish(cycle.advance(s("<html>oops</html>")));
    assert!(!o.connected);
    assert!(o.prs.is_empty());
}

#[test]
fn search_with_two_items_is_final() {
    let (mut cycle, _) = FetchCycle::start();
    let req = expect_send(cycle.advance(s(r#"{"login":"octo"}"#)));
    assert_eq!(req, Request::Search("octo".to_string()));
    let body = r#"{"items":[
        {"title":"Fix parser","html_url":"https://example.com/pr/1"},
        {"title":"Add docs","html_url":"https://example.com/pr/2"}
    ]}"#;
    let o = expect_finish(cycle.advance(s(body)));
    assert!(o.connected);
    assert_eq!(titles(&o), vec!["Fix parser", "Add docs"]);
    assert_eq!(o.prs[0].url, "https://example.com/pr/1");
    assert_eq!(o.prs[1].url, "https://example.com/pr/2");
}

#[test]
fn search_keeps_first_three_complete_items() {
    let (mut cycle, _) = FetchCycle::start();
    expect_send(cycle.advance(s(r#"{"login":"octo"}"#)));
    let body = r#"{"items":[
        {"title":"a","html_url":"u/a"},
        {"title":"no url"},
        {"title":"b","html_url":"u/b"},
        {"title":"c","html_url":"u/c"},
        {"title":"d","html_url":"u/d"}
    ]}"#;
    let o = expect_finish(cycle.advance(s(body)));
    assert!(o.connected);
    assert_eq!(titles(&o), vec!["a", "b", "c"]);
}

#[test]
fn search_failure_is_connected_and_empty() {
    let (mut cycle, _) = FetchCycle::start();
    expect_send(cycle.advance(s(r#"{"login":"octo"}"#)));
    let o = expect_finish(cycle.advance(None));
    assert!(o.connected);
    assert!(o.prs.is_empty());
}

#[test]
fn malformed_search_body_is_connected_and_empty() {
    let (mut cycle, _) = FetchCycle::start();
    expect_send(cycle.advance(s(r#"{"login":"octo"}"#)));
    let o = expect_finish(cycle.advance(s(r#"{"message":"Validation Failed"}"#)));
    assert!(o.connected);
    assert!(o.prs.is_empty());
}

#[test]
fn search_with_only_incomplete_items_falls_back() {
    let (mut cycle, _) = FetchCycle::start();
    expect_send(cycle.advance(s(r#"{"login":"octo"}"#)));
    let req = expect_send(cycle.advance(s(r#"{"items":[{"title":"no address"}]}"#)));
    assert_eq!(req, Request::Repos);
}

#[test]
fn repo_listing_failure_is_connected_and_empty() {
    let (mut cycle, _) = FetchCycle::start();
    to_repos(&mut cycle);
    let o = expect_finish(cycle.advance(None));
    assert!(o.connected);
    assert!(o.prs.is_empty());
}

#[test]
fn no_repositories_is_connected_and_empty() {
    let (mut cycle, _) = FetchCycle::start();
    to_repos(&mut cycle);
    let o = expect_finish(cycle.advance(s("[]")));
    assert!(o.connected);
    assert!(o.prs.is_empty());
}

#[test]
fn fallback_merges_repositories_newest_first() {
    let (mut cycle, _) = FetchCycle::start();
    to_repos(&mut cycle);
    let req = expect_send(cycle.advance(s(r#"[{"full_name":"o/r1"},{"full_name":"o/r2"}]"#)));
    assert_eq!(req, Request::Pulls("o/r1".to_string()));
    let req = expect_send(cycle.advance(s(R1_PULLS)));
    assert_eq!(req, Request::Pulls("o/r2".to_string()));
    let o = expect_finish(cycle.advance(s(R2_PULLS)));
    assert!(o.connected);
    assert_eq!(titles(&o), vec!["R1 first", "R2 only", "R1 second"]);
    assert_eq!(o.prs.len(), 3);
    assert!(cycle.is_done());
}

#[test]
fn failing_repository_is_skipped() {
    let (mut cycle, _) = FetchCycle::start();
    to_repos(&mut cycle);
    expect_send(cycle.advance(s(r#"[{"full_name":"o/r1"},{"full_name":"o/r2"}]"#)));
    let req = expect_send(cycle.advance(s(R1_PULLS)));
    assert_eq!(req, Request::Pulls("o/r2".to_string()));
    let o = expect_finish(cycle.advance(None));
    assert!(o.connected);
    assert_eq!(titles(&o), vec!["R1 first", "R1 second"]);
}

#[test]
fn malformed_repository_listing_is_skipped() {
    let (mut cycle, _) = FetchCycle::start();
    to_repos(&mut cycle);
    expect_send(cycle.advance(s(r#"[{"full_name":"o/r1"},{"full_name":"o/r2"}]"#)));
    let req = expect_send(cycle.advance(s(r#"{"message":"Not Found"}"#)));
    assert_eq!(req, Request::Pulls("o/r2".to_string()));
    let o = expect_finish(cycle.advance(s(R2_PULLS)));
    assert!(o.connected);
    assert_eq!(titles(&o), vec!["R2 only"]);
}

#[test]
fn repositories_without_name_are_left_out() {
    let (mut cycle, _) = FetchCycle::start();
    to_repos(&mut cycle);
    let req = expect_send(cycle.advance(s(r#"[{"id":3},{"full_name":"o/named"}]"#)));
    assert_eq!(req, Request::Pulls("o/named".to_string()));
}

#[test]
fn at_most_twenty_repositories_are_walked() {
    let (mut cycle, _) = FetchCycle::start();
    to_repos(&mut cycle);
    let names: Vec<String> = (0..30).map(|i| format!(r#"{{"full_name":"o/r{}"}}"#, i)).collect();
    let body = format!("[{}]", names.join(","));
    let mut req = expect_send(cycle.advance(Some(body)));
    let mut walked = Vec::new();
    loop {
        match req {
            Request::Pulls(name) => walked.push(name),
            other => panic!("unexpected request {:?}", other),
        }
        match cycle.advance(s("[]")) {
            Step::Send(r) => req = r,
            Step::Finish(o) => {
                assert!(o.connected);
                assert!(o.prs.is_empty());
                break;
            },
        }
    }
    assert_eq!(walked.len(), 20);
    assert_eq!(walked[0], "o/r0");
    assert_eq!(walked[19], "o/r19");
}

#[test]
fn missing_fields_of_a_pull_read_as_empty() {
    let (mut cycle, _) = FetchCycle::start();
    to_repos(&mut cycle);
    expect_send(cycle.advance(s(r#"[{"full_name":"o/r1"}]"#)));
    let o = expect_finish(cycle.advance(s(r#"[{"user":{"login":"octo"},"title":"untimed"}]"#)));
    assert!(o.connected);
    assert_eq!(titles(&o), vec!["untimed"]);
    assert_eq!(o.prs[0].url, "");
}
