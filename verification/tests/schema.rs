use adr_db_lib::schema::{
    Adr, AdrOption, Checkpoint, CheckpointItem, Comments, Consequence, Decision, Meta, Plan,
    PlanStage, PlanTask, QualityStrategy, RevisionEntry, Section, ValidationError,
};
use adr_db_lib::schema::apply_status;
use adr_db_lib::schema::join_messages;

fn checkpoint(assessment: &str, labels: &[&str]) -> Checkpoint {
    Checkpoint {
        assessment: assessment.to_string(),
        items: labels
            .iter()
            .map(|l| CheckpointItem { label: l.to_string(), checked: true })
            .collect(),
        all_options_evaluated: None,
        decision_drivers_referenced: None,
        no_experimentation_gaps: None,
        decision_justified: None,
        consequences_complete: None,
        quality_strategy_reviewed: None,
        links_populated: None,
        validation_needs: String::new(),
        pre_review_notes: String::new(),
    }
}

fn sample_adr() -> Adr {
    Adr {
        meta: Meta {
            title: "gh-42. Use PostgreSQL".to_string(),
            date: "2026-04-06".to_string(),
            status: "Prototype".to_string(),
            last_updated: "2026-04-06".to_string(),
            identifier: "gh-42".to_string(),
            work_item: "gh#42".to_string(),
            links: vec!["ADR-0034".to_string()],
        },
        context: Section { body: "We need a database.".to_string() },
        options: vec![
            AdrOption {
                name: "PostgreSQL".to_string(),
                body: "Mature relational database.".to_string(),
            },
            AdrOption { name: "SQLite".to_string(), body: "Embedded database.".to_string() },
        ],
        evaluation_checkpoint: checkpoint(
            "Proceed",
            &[
                "All options evaluated at comparable depth",
                "Decision drivers are defined and referenced in option analysis",
                "No unacknowledged experimentation gaps",
            ],
        ),
        decision: Decision {
            chosen_option: Some(0),
            justification: Some("We chose PostgreSQL.".to_string()),
            body: None,
        },
        consequences: vec![
            Consequence { kind: "positive".to_string(), body: "Strong JSONB support.".to_string() },
            Consequence {
                kind: "negative".to_string(),
                body: "Requires running database process.".to_string(),
            },
            Consequence { kind: "neutral".to_string(), body: "Team has expertise.".to_string() },
        ],
        deliverables: None,
        quality_strategy: QualityStrategy {
            major_semantic_changes: false,
            minor_semantic_changes: true,
            fuzz_testing: false,
            unit_testing: true,
            load_testing: false,
            performance_testing: false,
            backwards_compatible: true,
            integration_tests: false,
            tooling: false,
            user_documentation: false,
            additional_concerns: String::new(),
        },
        conclusion_checkpoint: checkpoint(
            "Ready for review",
            &[
                "Decision justified (Y-statement or equivalent)",
                "Consequences include positive, negative, and neutral outcomes",
                "Quality Strategy reviewed",
                "Links to related ADRs populated",
            ],
        ),
        plan: None,
        comments: Some(Comments {
            draft_worksheet: "**Framing:** Test framing.".to_string(),
            revision_entries: vec![RevisionEntry {
                id: "R1".to_string(),
                date: "2026-04-06".to_string(),
                body: "Addressed review findings.".to_string(),
            }],
        }),
    }
}

#[test]
fn schema_invalid_status_rejected() {
    let mut adr = sample_adr();
    adr.meta.status = "InvalidStatus".to_string();
    let result = adr.validate();
    assert!(result.is_err());
    let errors = result.unwrap_err();
    assert!(errors.iter().any(|e| matches!(e, ValidationError::InvalidStatus(_))));
}

#[test]
fn ready_status_valid() {
    let mut adr = sample_adr();
    adr.meta.status = "Ready".to_string();
    assert!(adr.validate().is_ok());
}

#[test]
fn schema_empty_assessment_rejected() {
    let mut adr = sample_adr();
    adr.evaluation_checkpoint.assessment = "".to_string();
    let result = adr.validate();
    assert!(result.is_err());
    let errors = result.unwrap_err();
    assert!(errors.iter().any(|e| matches!(e, ValidationError::EmptyAssessment("Evaluation"))));
}

#[test]
fn schema_mutual_exclusivity_rejected() {
    let mut adr = sample_adr();
    adr.quality_strategy.major_semantic_changes = true;
    adr.quality_strategy.minor_semantic_changes = true;
    let result = adr.validate();
    assert!(result.is_err());
    let errors = result.unwrap_err();
    assert!(errors.iter().any(|e| matches!(e, ValidationError::MutualExclusivity(_))));
}

#[test]
fn schema_valid_adr_passes_validation() {
    let adr = sample_adr();
    assert!(adr.validate().is_ok());
}

#[test]
fn checkpoint_items_schema() {
    let adr = sample_adr();
    assert_eq!(adr.evaluation_checkpoint.items.len(), 3);
    assert!(adr.evaluation_checkpoint.items[0].checked);
    assert_eq!(adr.evaluation_checkpoint.items[0].label, "All options evaluated at comparable depth");
    assert_eq!(adr.conclusion_checkpoint.items.len(), 4);
    assert!(adr.conclusion_checkpoint.items[0].checked);
}

#[test]
fn plan_stage_schema() {
    let mut adr = sample_adr();
    adr.plan = Some(Plan {
        stages: vec![PlanStage {
            name: "schema-definition".to_string(),
            status: "done".to_string(),
            tasks: vec![
                PlanTask { description: "Define section tables".to_string(), done: true },
                PlanTask { description: "Validate round-trip".to_string(), done: false },
            ],
        }],
    });
    let plan = adr.plan.as_ref().unwrap();
    assert_eq!(plan.stages.len(), 1);
    assert_eq!(plan.stages[0].name, "schema-definition");
    assert_eq!(plan.stages[0].status, "done");
    assert_eq!(plan.stages[0].tasks.len(), 2);
    assert!(plan.stages[0].tasks[0].done);
    assert!(!plan.stages[0].tasks[1].done);
}

#[test]
fn schema_revision_entries_schema() {
    let adr = sample_adr();
    let comments = adr.comments.as_ref().unwrap();
    assert_eq!(comments.revision_entries.len(), 1);
    assert_eq!(comments.revision_entries[0].id, "R1");
    assert_eq!(comments.revision_entries[0].date, "2026-04-06");
}

#[test]
fn schema_invalid_work_item_format() {
    let mut adr = sample_adr();
    adr.meta.work_item = "gh42".to_string();
    let result = adr.validate();
    assert!(result.is_err());
    let errors = result.unwrap_err();
    assert!(errors.iter().any(|e| matches!(e, ValidationError::InvalidWorkItem(_))));
}

#[test]
fn schema_work_item_empty_remote_rejected() {
    let mut adr = sample_adr();
    adr.meta.work_item = "#42".to_string();
    assert!(adr.validate().is_err());
}

#[test]
fn schema_work_item_empty_id_rejected() {
    let mut adr = sample_adr();
    adr.meta.work_item = "gh#".to_string();
    assert!(adr.validate().is_err());
}

#[test]
fn schema_work_item_empty_string_valid() {
    let mut adr = sample_adr();
    adr.meta.work_item = String::new();
    assert!(adr.validate().is_ok());
}

#[test]
fn chosen_option_out_of_bounds() {
    let mut adr = sample_adr();
    adr.decision.chosen_option = Some(99);
    let result = adr.validate();
    assert!(result.is_err());
    let errors = result.unwrap_err();
    assert!(errors.iter().any(|e| matches!(e, ValidationError::InvalidOptionIndex { .. })));
}

#[test]
fn every_broken_rule_reported_in_order() {
    let mut adr = sample_adr();
    adr.meta.status = "Bogus".to_string();
    adr.evaluation_checkpoint.assessment = "  \t".to_string();
    adr.conclusion_checkpoint.assessment = String::new();
    adr.quality_strategy.major_semantic_changes = true;
    adr.meta.work_item = "gh#42#x".to_string();
    adr.decision.chosen_option = Some(2);
    let errors = adr.validate().unwrap_err();
    assert_eq!(errors.len(), 5);
    assert!(matches!(&errors[0], ValidationError::InvalidStatus(s) if s == "Bogus"));
    assert!(matches!(errors[1], ValidationError::EmptyAssessment("Evaluation")));
    assert!(matches!(errors[2], ValidationError::EmptyAssessment("Conclusion")));
    assert!(matches!(&errors[3], ValidationError::MutualExclusivity(_)));
    assert!(matches!(errors[4], ValidationError::InvalidOptionIndex { chosen: 2, count: 2 }));
}

#[test]
fn whitespace_only_assessment_rejected() {
    let mut adr = sample_adr();
    adr.conclusion_checkpoint.assessment = "\u{2003}\n".to_string();
    let errors = adr.validate().unwrap_err();
    assert_eq!(errors.len(), 1);
    assert!(matches!(errors[0], ValidationError::EmptyAssessment("Conclusion")));
}

#[test]
fn error_messages() {
    assert_eq!(
        ValidationError::InvalidStatus("X".to_string()).message(),
        "invalid status 'X': expected one of [\"Prototype\", \"Proposed\", \"Ready\", \"Planned\", \"Accepted\", \"Delivered\", \"Deprecated\", \"Superseded\"]"
    );
    assert_eq!(
        ValidationError::EmptyAssessment("Evaluation").message(),
        "Evaluation checkpoint assessment is empty — checkpoints are mandatory"
    );
    assert_eq!(
        ValidationError::InvalidWorkItem("gh42".to_string()).message(),
        "invalid work_item 'gh42': expected '{remote}#{id}' format"
    );
    assert_eq!(
        ValidationError::InvalidOptionIndex { chosen: 99, count: 2 }.message(),
        "decision.chosen_option 99 is out of bounds — 2 option(s) defined"
    );
    let e = ValidationError::DeserializationError {
        path: "docs/adr/test.toml".to_string(),
        detail: "bad".to_string(),
    };
    assert!(e.message().contains("docs/adr/test.toml"));
    assert_eq!(e.message(), "failed to parse 'docs/adr/test.toml': bad");
}

#[test]
fn status_update_accepted_and_rejected() {
    let mut adr = sample_adr();
    assert!(apply_status(&mut adr, "Accepted").is_ok());
    assert_eq!(adr.meta.status, "Accepted");
    let err = apply_status(&mut adr, "Done").unwrap_err();
    assert_eq!(adr.meta.status, "Done");
    assert!(err.starts_with("invalid status 'Done'"));
    adr.quality_strategy.major_semantic_changes = true;
    let err = apply_status(&mut adr, "Nope").unwrap_err();
    assert!(err.contains("; major_semantic_changes and minor_semantic_changes cannot both be true"));
}

#[test]
fn joined_messages_of_no_errors_is_empty() {
    assert_eq!(join_messages(&Vec::new()), "");
}
