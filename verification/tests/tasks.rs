use adr_db_lib::tasks::{
    truncate_description, tsv_header, tsv_row, JsonlTaskRecord, NewTaskSummary, TaskSummary,
};

#[test]
fn test_truncate_description_short() {
    assert_eq!(truncate_description("short", 60), "short");
}

#[test]
fn test_truncate_description_long() {
    let long_desc = "a".repeat(80);
    let result = truncate_description(&long_desc, 60);
    assert!(result.ends_with('…'));
    assert_eq!(result.chars().count(), 61);
}

#[test]
fn test_truncate_description_exact() {
    let exact = "a".repeat(60);
    assert_eq!(truncate_description(&exact, 60), exact);
}

#[test]
fn multibyte_description_under_char_limit() {
    let d = "é".repeat(40);
    assert_eq!(truncate_description(&d, 60), format!("{}…", d));
}

#[test]
fn record_to_summary() {
    let record = JsonlTaskRecord {
        task_id: "2.1".to_string(),
        status: "done".to_string(),
        cost: "medium".to_string(),
        commit: "def5678".to_string(),
        description: "Add validation logic".to_string(),
        source_plan: String::new(),
    };
    let summary = NewTaskSummary::from(record);
    assert_eq!(summary.task_id, "2.1");
    assert_eq!(summary.commit_sha, "def5678");
    assert_eq!(summary.source_plan, "");
}

#[test]
fn table_rows() {
    assert_eq!(tsv_header(), "task_id\tstatus\tcost\tcommit_sha\tdescription");
    let t = TaskSummary {
        id: 1,
        task_id: "1.1".to_string(),
        status: "done".to_string(),
        cost: "small".to_string(),
        commit_sha: "abc1234".to_string(),
        description: "Create config file".to_string(),
        ingested_at: "2026-01-01 00:00:00".to_string(),
        source_plan: "0029.0.plan.md".to_string(),
    };
    assert_eq!(tsv_row(&t), "1.1\tdone\tsmall\tabc1234\tCreate config file");
}
