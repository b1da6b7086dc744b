use adr_db_lib::remote::{GiteaAdapter, GiteaIssue, GiteaLabel};

#[test]
fn test_normalize_basic_issue() {
    let issue = GiteaIssue {
        number: 42,
        title: "Evaluate PostgreSQL".to_string(),
        body: Some("Description here".to_string()),
        state: "open".to_string(),
        html_url: Some("http://localhost:3000/user/repo/issues/42".to_string()),
        labels: vec![GiteaLabel { name: "adr".to_string() }],
        created_at: Some("2026-04-01T10:00:00Z".to_string()),
        updated_at: Some("2026-04-05T07:00:00Z".to_string()),
    };

    let normalized = GiteaAdapter::normalize(issue);
    assert_eq!(normalized.remote, "gitea");
    assert_eq!(normalized.id, "42");
    assert_eq!(normalized.title, "Evaluate PostgreSQL");
    assert_eq!(normalized.item_type, "issue");
    assert_eq!(normalized.state, "open");
    assert_eq!(normalized.labels, vec!["adr"]);
}

#[test]
fn test_normalize_bug_label() {
    let issue = GiteaIssue {
        number: 7,
        title: "Fix crash".to_string(),
        body: Some("Crash on startup".to_string()),
        state: "closed".to_string(),
        html_url: None,
        labels: vec![
            GiteaLabel { name: "bug".to_string() },
            GiteaLabel { name: "urgent".to_string() },
        ],
        created_at: None,
        updated_at: None,
    };

    let normalized = GiteaAdapter::normalize(issue);
    assert_eq!(normalized.item_type, "bug");
    assert_eq!(normalized.state, "closed");
}

#[test]
fn test_normalize_description_truncation() {
    let long_body = "x".repeat(600);
    let issue = GiteaIssue {
        number: 1,
        title: "Test".to_string(),
        body: Some(long_body),
        state: "open".to_string(),
        html_url: None,
        labels: vec![],
        created_at: None,
        updated_at: None,
    };

    let normalized = GiteaAdapter::normalize(issue);
    assert_eq!(normalized.description.len(), 500);
}

#[test]
fn normalize_fills_absent_fields_and_other_states() {
    let issue = GiteaIssue {
        number: 1234567890,
        title: "T".to_string(),
        body: None,
        state: "weird".to_string(),
        html_url: None,
        labels: vec![GiteaLabel { name: "Bug".to_string() }],
        created_at: None,
        updated_at: Some("u".to_string()),
    };
    let n = GiteaAdapter::normalize(issue);
    assert_eq!(n.id, "1234567890");
    assert_eq!(n.state, "open");
    assert_eq!(n.item_type, "issue");
    assert_eq!(n.description, "");
    assert_eq!(n.url, "");
    assert_eq!(n.created, "");
    assert_eq!(n.updated, "u");
    assert!(n.cached_at.is_none());
}

#[test]
fn description_truncation_counts_characters() {
    let issue = GiteaIssue {
        number: 0,
        title: "T".to_string(),
        body: Some("é".repeat(501)),
        state: "open".to_string(),
        html_url: None,
        labels: vec![],
        created_at: None,
        updated_at: None,
    };
    let n = GiteaAdapter::normalize(issue);
    assert_eq!(n.id, "0");
    assert_eq!(n.description.chars().count(), 500);
}

#[test]
fn adapter_request_shape() {
    let a = GiteaAdapter::new("http://localhost:3000//", "user", "repo", Some("s3".to_string()));
    assert_eq!(a.base_url, "http://localhost:3000");
    assert_eq!(a.issue_url("42"), "http://localhost:3000/api/v1/repos/user/repo/issues/42");
    assert_eq!(a.authorization(), Some("token s3".to_string()));
    let b = GiteaAdapter::new("http://h", "o", "r", Some(String::new()));
    assert_eq!(b.authorization(), None);
    let c = GiteaAdapter::new("http://h", "o", "r", None);
    assert_eq!(c.authorization(), None);
}
