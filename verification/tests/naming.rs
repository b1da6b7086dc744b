use adr_db_lib::template::generate_template;
use adr_db_lib::naming::{
    adapter_from_git, detect_adapter, detect_adapter_from_url, extract_host, find_adr_name,
    initial_record_path, is_adr_file_for, new_adr_path, rename_adr, slugify,
    validate_dir, validate_id, validate_remote, AdapterLookup,
};

#[test]
fn test_detect_adapter_local() {
    match detect_adapter("local") {
        AdapterLookup::Known(a) => assert_eq!(a, "local"),
        AdapterLookup::AskGit => panic!("local needs no git lookup"),
    }
}

#[test]
fn other_remotes_ask_git() {
    assert!(matches!(detect_adapter("origin"), AdapterLookup::AskGit));
}

#[test]
fn test_github_ssh_url() {
    assert_eq!(detect_adapter_from_url("git@github.com:org/repo.git").unwrap(), "gh");
}

#[test]
fn test_github_https_url() {
    assert_eq!(detect_adapter_from_url("https://github.com/org/repo").unwrap(), "gh");
}

#[test]
fn test_github_https_with_port() {
    assert_eq!(detect_adapter_from_url("https://github.com:443/org/repo").unwrap(), "gh");
}

#[test]
fn test_ado_https_url() {
    assert_eq!(
        detect_adapter_from_url("https://dev.azure.com/org/project/_git/repo").unwrap(),
        "ado"
    );
}

#[test]
fn test_ado_ssh_url() {
    assert_eq!(detect_adapter_from_url("git@ssh.dev.azure.com:v3/org/project/repo").unwrap(), "ado");
}

#[test]
fn test_ado_visualstudio_url() {
    assert_eq!(
        detect_adapter_from_url("https://org.visualstudio.com/project/_git/repo").unwrap(),
        "ado"
    );
}

#[test]
fn test_ssh_scheme_github_url() {
    assert_eq!(detect_adapter_from_url("ssh://git@github.com/org/repo").unwrap(), "gh");
}

#[test]
fn test_unknown_host_returns_error() {
    let result = detect_adapter_from_url("https://gitlab.example.com/org/repo");
    assert!(result.is_err());
    let err = result.unwrap_err();
    assert!(err.contains("Could not detect adapter type"), "Error was: {}", err);
    assert!(err.contains("gitlab.example.com"), "Error was: {}", err);
}

#[test]
fn test_unknown_host_returns_error_custom() {
    let result = detect_adapter_from_url("https://code.example.com/org/repo");
    assert!(result.is_err());
    let err = result.unwrap_err();
    assert!(err.contains("Could not detect adapter type"), "Error was: {}", err);
}

#[test]
fn test_extract_host_ssh() {
    assert_eq!(extract_host("git@github.com:org/repo.git"), "github.com");
}

#[test]
fn test_extract_host_https() {
    assert_eq!(extract_host("https://github.com/org/repo"), "github.com");
}

#[test]
fn test_extract_host_ssh_scheme() {
    assert_eq!(extract_host("ssh://git@github.com/org/repo"), "github.com");
}

#[test]
fn test_extract_host_with_port() {
    assert_eq!(extract_host("https://github.com:443/org/repo"), "github.com");
}

#[test]
fn test_extract_host_case_insensitive() {
    assert_eq!(extract_host("https://GitHub.COM/org/repo"), "github.com");
}

#[test]
fn extract_host_without_scheme_is_whole_url() {
    assert_eq!(extract_host("GitHub.com/org"), "github.com/org");
    assert_eq!(extract_host("a://b://c"), "b");
}

#[test]
fn git_lookup_outcomes() {
    let err = adapter_from_git("upstream", false, "").unwrap_err();
    assert_eq!(
        err,
        "git remote 'upstream' not found. Run 'git remote -v' to list available remotes."
    );
    assert_eq!(adapter_from_git("origin", true, "git@github.com:org/repo.git\n").unwrap(), "gh");
    let err = adapter_from_git("origin", true, "  https://example.org/x \n").unwrap_err();
    assert!(err.contains("'https://example.org/x'"));
}

#[test]
fn id_rules() {
    assert!(validate_id("42").is_ok());
    assert!(validate_id("abc0001").is_ok());
    assert_eq!(validate_id("").unwrap_err(), "id is required");
    assert_eq!(validate_id("4-2").unwrap_err(), "id must be alphanumeric, got '4-2'");
}

#[test]
fn dir_rules() {
    assert!(validate_dir("docs/adr").is_ok());
    assert_eq!(
        validate_dir("../elsewhere").unwrap_err(),
        "directory '../elsewhere' contains '..' — path traversal not allowed"
    );
    assert!(validate_dir("a..b").is_err());
}

#[test]
fn remote_rules() {
    for r in ["gh", "ado", "gitea", "local"] {
        assert!(validate_remote(r).is_ok());
    }
    assert_eq!(
        validate_remote("gitlab").unwrap_err(),
        "unknown remote 'gitlab'. Allowed: gh, ado, gitea, local"
    );
}

#[test]
fn slugs() {
    assert_eq!(slugify("Use PostgreSQL"), "use-postgresql");
    assert_eq!(slugify("  --Hello,  World!!  "), "hello-world");
    assert_eq!(slugify("***"), "");
    assert_eq!(slugify("Déjà vu 2"), "déjà-vu-2");
}

#[test]
fn paths_and_titles() {
    assert_eq!(
        new_adr_path("gh", "42", "Use PostgreSQL", "docs/adr").unwrap(),
        "docs/adr/gh-42-use-postgresql.toml"
    );
    assert_eq!(new_adr_path("gh", "42", "", "docs/adr").unwrap_err(), "title is required");
    assert!(new_adr_path("gh", "4 2", "T", "docs/adr").is_err());
    assert!(new_adr_path("gh", "42", "T", "../x").is_err());
    assert_eq!(initial_record_path("docs/adr"), "docs/adr/0001-record-architecture-decisions.toml");
}

#[test]
fn adr_file_matching() {
    assert!(is_adr_file_for("gh-42-use-postgresql.toml", "gh", "42"));
    assert!(!is_adr_file_for("gh-421-x.toml", "gh", "42"));
    assert!(!is_adr_file_for("gh-42-x.md", "gh", "42"));
    let names = vec![
        "notes.md".to_string(),
        "gh-42-a.toml".to_string(),
        "gh-42-b.toml".to_string(),
    ];
    assert_eq!(find_adr_name(&names, "gh", "42"), Some(1));
    assert_eq!(find_adr_name(&names, "ado", "42"), None);
}

#[test]
fn extract_host_ignores_at_in_path() {
    assert_eq!(extract_host("https://github.com/o/r@x"), "github.com");
    assert_eq!(extract_host("a://b/@c"), "b");
    assert_eq!(extract_host("ssh://git@Host.example:22/p@q"), "host.example");
    assert_eq!(detect_adapter_from_url("https://github.com/o/r@x").unwrap(), "gh");
}

#[test]
fn slugify_is_idempotent() {
    for s in ["Use PostgreSQL", "  --Hello,  World!!  ", "***", "a--b", "X_Y z"] {
        let once = slugify(s);
        assert_eq!(slugify(&once), once);
    }
    assert_eq!(slugify("a--b"), "a-b");
}

#[test]
fn new_path_error_texts() {
    assert_eq!(new_adr_path("gh", "", "T", "docs/adr").unwrap_err(), "id is required");
    assert_eq!(
        new_adr_path("gh", "4 2", "T", "docs/adr").unwrap_err(),
        "id must be alphanumeric, got '4 2'"
    );
    assert_eq!(
        new_adr_path("gh", "42", "T", "../x").unwrap_err(),
        "directory '../x' contains '..' — path traversal not allowed"
    );
    assert_eq!(new_adr_path("gh", "42", "", "../x").unwrap_err().starts_with("directory"), true);
}

#[test]
fn rename_retitles_and_moves() {
    let mut adr = generate_template("gh", "42", "Use PostgreSQL", "2026-04-06");
    let t = rename_adr(
        &mut adr,
        "docs/adr/gh-42-use-postgresql.toml",
        "docs/adr",
        "gh",
        "42",
        "Use SQLite",
        "2026-05-01",
    );
    assert_eq!(t.path, "docs/adr/gh-42-use-sqlite.toml");
    assert!(t.moves);
    assert_eq!(adr.meta.title, "gh-42. Use SQLite");
    assert_eq!(adr.meta.last_updated, "2026-05-01");
    assert_eq!(adr.meta.date, "2026-04-06");
}

#[test]
fn rename_to_same_slug_still_retitles() {
    let mut adr = generate_template("gh", "42", "Use PostgreSQL", "2026-04-06");
    let t = rename_adr(
        &mut adr,
        "docs/adr/gh-42-use-postgresql.toml",
        "docs/adr",
        "gh",
        "42",
        "use postgresql!",
        "2026-05-01",
    );
    assert_eq!(t.path, "docs/adr/gh-42-use-postgresql.toml");
    assert!(!t.moves);
    assert_eq!(adr.meta.title, "gh-42. use postgresql!");
    assert_eq!(adr.meta.last_updated, "2026-05-01");
}
