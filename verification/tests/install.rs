use adr_db_lib::install::{should_install, validate_prefix, PrefixError};

#[test]
fn prefix_rules() {
    assert_eq!(validate_prefix(""), Err(PrefixError::Empty));
    assert_eq!(validate_prefix("/"), Err(PrefixError::Root));
    assert_eq!(validate_prefix("//./"), Err(PrefixError::Root));
    assert_eq!(validate_prefix("/home/u/../x"), Err(PrefixError::ParentDir));
    assert_eq!(validate_prefix(".."), Err(PrefixError::ParentDir));
    assert_eq!(validate_prefix("/home/u/.copilot"), Ok(()));
    assert_eq!(validate_prefix("a..b/c"), Ok(()));
    assert_eq!(PrefixError::Root.message(), "Error: --prefix cannot be the filesystem root");
}

#[test]
fn dry_run_takes_precedence_over_force() {
    let (go, report) = should_install("/t/skills", "skill", 3, true, true, Some("1.0"), "1.0");
    assert!(!go);
    assert_eq!(
        report,
        "Dry run: would install 3 skill files to /t/skills\n  Installed version: 1.0\n  Embedded version:  1.0\n  Status: already up-to-date\n"
    );
    let (go, report) = should_install("/t", "agent", 2, true, false, None, "1.0");
    assert!(!go);
    assert!(report.ends_with("  No version marker found — would install fresh\n"));
    let (go, report) = should_install("/t", "agent", 2, true, false, Some("0.9"), "1.0");
    assert!(!go);
    assert!(report.ends_with("  Status: version mismatch — would update\n"));
}

#[test]
fn version_match_skips_unless_forced() {
    let (go, report) = should_install("/t", "skill", 1, false, false, Some("1.0"), "1.0");
    assert!(!go);
    assert_eq!(report, "Already up-to-date (skill, version: 1.0)\n");
    let (go, report) = should_install("/t", "skill", 1, false, true, Some("1.0"), "1.0");
    assert!(go);
    assert_eq!(report, "");
    assert!(should_install("/t", "skill", 1, false, false, Some("0.1"), "1.0").0);
    assert!(should_install("/t", "skill", 1, false, false, None, "1.0").0);
}
