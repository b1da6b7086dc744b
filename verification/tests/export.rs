use adr_db_lib::export::export_markdown;
use adr_db_lib::schema::Consequence;
use adr_db_lib::template::{generate_template, initial_record};

#[test]
fn export_of_template_has_only_title_block() {
    let adr = generate_template("gh", "42", "Use PostgreSQL", "2026-04-06");
    assert_eq!(
        export_markdown(&adr),
        "# gh-42. Use PostgreSQL\n\nDate: 2026-04-06\nStatus: Prototype\nLast Updated: 2026-04-06\nWork-Item: gh#42\n"
    );
}

#[test]
fn export_of_initial_record() {
    let adr = initial_record("2026-04-06");
    let md = export_markdown(&adr);
    let expected = "# 1. Record architecture decisions\n\nDate: 2026-04-06\nStatus: Accepted\nLast Updated: 2026-04-06\n\
\n## Context\n\nWe need to record the architectural decisions made on this project.\n\
\n## Options\n\n### No documentation\n\nKeep decisions informal, undocumented.\n\n### Use ADRs\n\nRecord decisions as Architecture Decision Records.\n\
\n## Decision\n\nChose **Use ADRs** (Option 2)\n\nWe will use Architecture Decision Records, as described by Michael Nygard.\n\
\n## Consequences\n\n**Positive:**\n- Decisions are documented and discoverable.\n";
    assert_eq!(md, expected);
    assert!(!md.contains("Work-Item:"));
    assert!(!md.contains("**Negative:**"));
}

#[test]
fn export_groups_and_links() {
    let mut adr = initial_record("d");
    adr.meta.links = vec!["ADR-0034".to_string(), "ADR-0037".to_string()];
    adr.consequences = vec![
        Consequence { kind: "neutral".to_string(), body: "N1".to_string() },
        Consequence { kind: "positive".to_string(), body: "P1".to_string() },
        Consequence { kind: "other".to_string(), body: "O".to_string() },
        Consequence { kind: "neutral".to_string(), body: "N2".to_string() },
    ];
    adr.decision.chosen_option = Some(9);
    let md = export_markdown(&adr);
    assert!(md.contains("Links: ADR-0034, ADR-0037\n"));
    assert!(md.ends_with("\n## Consequences\n\n**Positive:**\n- P1\n\n**Neutral:**\n- N1\n- N2\n"));
    assert!(!md.contains("Chose **"));
    assert!(md.contains("## Decision\n\n\nWe will use"));
}

#[test]
fn export_legacy_decision_body() {
    let mut adr = generate_template("gh", "1", "T", "d");
    adr.decision.body = Some("Legacy decision body.".to_string());
    let md = export_markdown(&adr);
    assert!(md.ends_with("\n## Decision\n\nLegacy decision body.\n"));
    adr.decision.body = Some(String::new());
    assert!(!export_markdown(&adr).contains("## Decision"));
}

#[test]
fn work_item_marker_follows_the_work_item_or_a_shown_text() {
    let mut adr = initial_record("d");
    assert!(!export_markdown(&adr).contains("Work-Item:"));
    adr.meta.work_item = "gh#7".to_string();
    assert!(export_markdown(&adr).contains("Work-Item: gh#7\n"));
    adr.meta.work_item = String::new();
    adr.context.body = "See Work-Item: elsewhere".to_string();
    assert!(export_markdown(&adr).contains("Work-Item:"));
}

#[test]
fn group_headings_follow_their_kinds() {
    let mut adr = initial_record("d");
    adr.consequences = vec![Consequence { kind: "negative".to_string(), body: "Cost.".to_string() }];
    let md = export_markdown(&adr);
    assert!(md.contains("**Negative:**"));
    assert!(!md.contains("**Positive:**"));
    assert!(!md.contains("**Neutral:**"));
    adr.consequences = vec![Consequence { kind: "other".to_string(), body: "**Neutral:**".to_string() }];
    let md = export_markdown(&adr);
    assert!(!md.contains("## Consequences"));
    assert!(!md.contains("**Neutral:**"));
}
