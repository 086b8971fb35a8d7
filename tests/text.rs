use commit_clock::text::{find_jira_in_line, is_jira_key};

#[test]
fn issue_keys() {
    assert!(is_jira_key("ABC-123"));
    assert!(is_jira_key("AB-1"));
    assert!(!is_jira_key("A-1"));
    assert!(!is_jira_key("AB-"));
    assert!(!is_jira_key("ab-12"));
    assert!(!is_jira_key("AB-12-3"));
    assert!(!is_jira_key("AB12"));
    assert!(!is_jira_key("-12"));
    assert!(!is_jira_key(""));
    assert!(!is_jira_key("AB-1a"));
}

#[test]
fn first_key_in_a_line() {
    assert_eq!(find_jira_in_line("Fix ABC-123 crash"), Some((4, 11, "ABC-123".to_string())));
    assert_eq!(find_jira_in_line("ABC-12"), Some((0, 6, "ABC-12".to_string())));
    assert_eq!(find_jira_in_line("x AB-1x ABC-9"), Some((8, 13, "ABC-9".to_string())));
    assert_eq!(find_jira_in_line("[OPS-7] and DEV-8"), Some((1, 6, "OPS-7".to_string())));
    assert_eq!(find_jira_in_line("no key here"), None);
    assert_eq!(find_jira_in_line(""), None);
}

#[test]
fn key_positions_count_characters() {
    assert_eq!(find_jira_in_line("é ABC-1"), Some((2, 7, "ABC-1".to_string())));
}
