use adr_db_lib::problem::{
    clean_edited_text, editor_seed, line_style, next_action, truncate, Action, Key, KeyPress,
    LineStyle, ProblemBuilder, Screen, Section,
};

#[test]
fn sections_keys_and_labels() {
    let all = Section::all();
    assert_eq!(all.len(), 5);
    let keys: Vec<char> = all.iter().map(|s| s.key()).collect();
    assert_eq!(keys, vec!['d', 'g', 'c', 's', 'n']);
    for s in all {
        assert_eq!(Section::from_key(s.key()), Some(*s));
    }
    assert_eq!(Section::from_key('x'), None);
    assert_eq!(Section::Decisions.label(), "decisions needed");
    assert_eq!(Section::Details.heading(), "Problem Statement");
    assert!(Section::Decisions.placeholder().contains('\n'));
}

#[test]
fn set_then_get() {
    let mut b = ProblemBuilder::new("T".to_string());
    assert_eq!(b.filled_count(), 0);
    b.set(Section::Goals, "fast".to_string());
    assert_eq!(b.get(Section::Goals), "fast");
    assert_eq!(b.get(Section::Details), "");
    assert!(b.is_filled(Section::Goals));
    b.set(Section::Details, "   \n".to_string());
    assert!(!b.is_filled(Section::Details));
    assert_eq!(b.filled_count(), 1);
    assert_eq!(b.title(), "T");
}

#[test]
fn problem_slug_is_trimmed_and_bounded() {
    let b = ProblemBuilder::new("Cache Strategy!".to_string());
    assert_eq!(b.slug(), "cache-strategy");
    let b = ProblemBuilder::new("--A  b--".to_string());
    assert_eq!(b.slug(), "a--b");
    let b = ProblemBuilder::new("x".repeat(70));
    assert_eq!(b.slug().len(), 50);
}

#[test]
fn problem_markdown() {
    let mut b = ProblemBuilder::new("Cache Strategy!".to_string());
    b.set(Section::Details, "  The cache is slow.  ".to_string());
    b.set(Section::Goals, "Fast reads\n- Low cost\n\n".to_string());
    b.set(Section::Decisions, "Pick store\r\n1. Pick TTL\n".to_string());
    assert_eq!(b.decisions_count(), 2);
    let md = b.to_markdown("2026-01-01");
    let expected = "---\ntitle: Cache Strategy!\ndate: 2026-01-01\nstatus: intake\nslug: cache-strategy\ndecisions: 2\n---\n\n# Cache Strategy!\n\
\n## Problem Statement\n\nThe cache is slow.\n\
\n## Goals\n\n- Fast reads\n- Low cost\n\
\n## Constraints\n\n<!-- Known constraints, requirements, or boundaries. One per line. -->\n\
\n## Stakeholders\n\n<!-- Who cares about this decision? One per line. -->\n\
\n## Decisions Needed\n\n- Pick store\n1. Pick TTL\n";
    assert_eq!(md, expected);
}

#[test]
fn empty_decisions_comment_uses_first_placeholder_line() {
    let b = ProblemBuilder::new("P".to_string());
    let md = b.to_markdown("d");
    assert!(md.contains("decisions: 0\n"));
    assert!(md.contains("<!-- What distinct decisions does this problem require? One per line. -->\n"));
    assert!(!md.contains("Each decision becomes one ADR."));
}

#[test]
fn previews() {
    let mut b = ProblemBuilder::new("P".to_string());
    assert_eq!(b.section_preview(Section::Goals), "—");
    b.set(Section::Goals, "one\n\ntwo\nthree".to_string());
    assert_eq!(b.section_preview(Section::Goals), "one (+2 more)");
    b.set(Section::Goals, "y".repeat(80));
    assert_eq!(b.section_preview(Section::Goals), "y".repeat(60));
    b.set(Section::Goals, format!("{}\nsecond", "z".repeat(80)));
    assert_eq!(b.section_preview(Section::Goals), format!("{} (+1 more)", "z".repeat(50)));
}

#[test]
fn truncate_by_bytes() {
    assert_eq!(truncate("short", 60), "short");
    assert_eq!(truncate("abcdef", 3), "abc");
    assert_eq!(truncate("héllo", 3), "hé");
}

#[test]
fn editor_texts() {
    assert_eq!(
        editor_seed("", "Line one\nLine two"),
        "# Line one\n# Line two\n# Lines starting with # are removed.\n\n"
    );
    assert_eq!(editor_seed("kept", "ignored"), "kept");
    assert_eq!(clean_edited_text("# comment\n  keep me\nand me  \n# tail\n"), "keep me\nand me");
    assert_eq!(clean_edited_text("# only\n"), "");
}

#[test]
fn preview_line_styles() {
    assert_eq!(line_style("# Title"), LineStyle::Heading);
    assert_eq!(line_style("---"), LineStyle::Rule);
    assert_eq!(line_style("<!-- c -->"), LineStyle::Comment);
    assert_eq!(line_style("- item"), LineStyle::Bullet);
    assert_eq!(line_style("-x"), LineStyle::Plain);
    assert_eq!(line_style(""), LineStyle::Plain);
}

#[test]
fn form_and_preview_keys() {
    let k = |key, ctrl| KeyPress { key, ctrl };
    assert_eq!(next_action(Screen::Form, k(Key::Char('c'), true)), Action::Quit);
    assert_eq!(next_action(Screen::Form, k(Key::Char('c'), false)), Action::Edit(Section::Constraints));
    assert_eq!(next_action(Screen::Form, k(Key::Char('q'), false)), Action::Quit);
    assert_eq!(next_action(Screen::Form, k(Key::Char('n'), true)), Action::Edit(Section::Decisions));
    assert_eq!(next_action(Screen::Form, k(Key::Char('z'), false)), Action::Ignore);
    assert_eq!(next_action(Screen::Form, k(Key::Enter, false)), Action::ShowPreview);
    assert_eq!(next_action(Screen::Form, k(Key::Esc, false)), Action::Quit);
    assert_eq!(next_action(Screen::Preview, k(Key::Enter, false)), Action::Save);
    assert_eq!(next_action(Screen::Preview, k(Key::Char('q'), false)), Action::Quit);
    assert_eq!(next_action(Screen::Preview, k(Key::Esc, false)), Action::BackToForm);
    assert_eq!(next_action(Screen::Preview, k(Key::Char('c'), true)), Action::Quit);
    assert_eq!(next_action(Screen::Preview, k(Key::Char('d'), false)), Action::Ignore);
}

#[test]
fn edits_update_or_report() {
    let mut b = ProblemBuilder::new("P".to_string());
    let m = b.apply_edit(Section::Stakeholders, Ok("ops".to_string()));
    assert_eq!(m, "Updated stakeholders");
    assert_eq!(b.get(Section::Stakeholders), "ops");
    let m = b.apply_edit(Section::Stakeholders, Err("boom".to_string()));
    assert_eq!(m, "Editor error: boom");
    assert_eq!(b.get(Section::Stakeholders), "ops");
}
