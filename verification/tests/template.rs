use adr_db_lib::template::{generate_template, initial_record};

#[test]
fn template_template_has_correct_title() {
    let adr = generate_template("gh", "42", "Use PostgreSQL", "2026-04-06");
    assert_eq!(adr.meta.title, "gh-42. Use PostgreSQL");
}

#[test]
fn template_template_has_prototype_status() {
    let adr = generate_template("gh", "42", "Use PostgreSQL", "2026-04-06");
    assert_eq!(adr.meta.status, "Prototype");
}

#[test]
fn template_template_has_nonempty_assessments() {
    let adr = generate_template("gh", "42", "Use PostgreSQL", "2026-04-06");
    assert!(!adr.evaluation_checkpoint.assessment.is_empty());
    assert!(!adr.conclusion_checkpoint.assessment.is_empty());
}

#[test]
fn template_template_work_item_format() {
    let adr = generate_template("gh", "42", "Use PostgreSQL", "2026-04-06");
    assert_eq!(adr.meta.work_item, "gh#42");
}

#[test]
fn template_identifier_and_checklists() {
    let adr = generate_template("gh", "42", "Use PostgreSQL", "2026-04-06");
    assert_eq!(adr.meta.identifier, "gh-42");
    assert_eq!(adr.meta.last_updated, "2026-04-06");
    assert_eq!(adr.evaluation_checkpoint.items.len(), 3);
    assert_eq!(adr.conclusion_checkpoint.items.len(), 4);
    assert!(adr.evaluation_checkpoint.items.iter().all(|i| !i.checked));
    assert_eq!(adr.conclusion_checkpoint.items[3].label, "Links to related ADRs populated");
    assert!(adr.decision.chosen_option.is_none());
    assert!(adr.deliverables.is_none());
    assert!(adr.comments.as_ref().unwrap().revision_entries.is_empty());
}

#[test]
fn template_validates() {
    let adr = generate_template("gh", "42", "Use PostgreSQL", "2026-04-06");
    assert!(adr.validate().is_ok());
}

#[test]
fn initial_record_validates() {
    let adr = initial_record("2026-04-06");
    assert_eq!(adr.meta.title, "1. Record architecture decisions");
    assert_eq!(adr.meta.status, "Accepted");
    assert_eq!(adr.meta.work_item, "");
    assert_eq!(adr.decision.chosen_option, Some(1));
    assert_eq!(adr.options[1].name, "Use ADRs");
    assert!(adr.quality_strategy.backwards_compatible);
    assert!(adr.evaluation_checkpoint.items.iter().all(|i| i.checked));
    assert!(adr.validate().is_ok());
}
