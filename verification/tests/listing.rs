use adr_db_lib::listing::{listing_line, sort_by_date, text_le_exec, ListEntry};

fn entry(date: &str, title: &str) -> ListEntry {
    ListEntry { date: date.to_string(), title: title.to_string(), status: "Accepted".to_string() }
}

#[test]
fn sorted_by_date_and_stable() {
    let es = vec![
        entry("2026-04-06", "c"),
        entry("2026-01-01", "a"),
        entry("2026-04-06", "d"),
        entry("2025-12-31", "z"),
        entry("2026-01-01", "b"),
    ];
    let sorted = sort_by_date(es);
    let titles: Vec<&str> = sorted.iter().map(|e| e.title.as_str()).collect();
    assert_eq!(titles, vec!["z", "a", "b", "c", "d"]);
}

#[test]
fn text_order_is_string_order() {
    assert!(text_le_exec("a", "b"));
    assert!(text_le_exec("a", "a"));
    assert!(text_le_exec("", "a"));
    assert!(!text_le_exec("ab", "a"));
    assert!(text_le_exec("Z", "a"));
    assert!(text_le_exec("z", "é"));
}

#[test]
fn listing_lines() {
    assert_eq!(listing_line(&entry("d", "1. Title")), "1. Title\t[Accepted]");
}
