use adr_db_lib::lifecycle::{cached_state, expected_status, lifecycle_report};

#[test]
fn expected_statuses() {
    assert_eq!(expected_status("open"), "Prototype");
    assert_eq!(expected_status("active"), "Proposed");
    assert_eq!(expected_status("resolved"), "Accepted");
    assert_eq!(expected_status("closed"), "Delivered");
    assert_eq!(expected_status("other"), "unknown");
}

#[test]
fn last_cached_record_wins() {
    let cache = "{\"remote\":\"gh\",\"id\":\"42\",\"state\":\"open\"}\n\
not json\n\
{\"remote\":\"gh\",\"id\":\"7\",\"state\":\"closed\"}\n\
{\"remote\":\"gh\",\"id\":\"42\",\"state\":\"resolved\"}\n";
    assert_eq!(cached_state(cache, "gh", "42"), Some("resolved".to_string()));
    assert_eq!(cached_state(cache, "gh", "7"), Some("closed".to_string()));
    assert_eq!(cached_state(cache, "ado", "42"), None);
    let later_without_state = "{\"remote\":\"gh\",\"id\":\"1\",\"state\":\"open\"}\n{\"remote\":\"gh\",\"id\":\"1\"}";
    assert_eq!(cached_state(later_without_state, "gh", "1"), None);
}

#[test]
fn lifecycle_reports() {
    assert_eq!(
        lifecycle_report("gh-42-x.toml", "gh", "42", "Prototype", None, false),
        "No cached work item for gh-42.\nCurrent ADR status: Prototype\n"
    );
    assert_eq!(
        lifecycle_report("gh-42-x.toml", "gh", "42", "Prototype", Some("open"), false),
        "ADR: gh-42-x.toml\n  ADR status:       Prototype\n  Work item state:  open\n  Expected status:  Prototype\n  → In sync. No action needed.\n"
    );
    let r = lifecycle_report("f", "gh", "42", "Prototype", Some("closed"), false);
    assert!(r.ends_with("  → Recommended: Transition to Delivered\n  Run with --auto to execute this transition.\n"));
    let r = lifecycle_report("f", "gh", "42", "Prototype", Some("closed"), true);
    assert!(r.ends_with("  → --auto not yet implemented. Transition manually.\n"));
}
