//! Path checks: the shortened form shown in messages, containment, the size limit.
use md_conv::security::path::{check_file_size, check_within_base, is_within_base, sanitize_path_for_display};

fn parts(p: &[&str]) -> Vec<String> {
    p.iter().map(|s| s.to_string()).collect()
}

#[test]
fn short_paths_are_shown_whole() {
    let shown = sanitize_path_for_display("docs/a.md", &parts(&["docs", "a.md"]), "/");
    assert_eq!(shown, "docs/a.md");
}

#[test]
fn long_paths_show_their_last_components() {
    let shown = sanitize_path_for_display(
        "/home/alice/projects/notes/a.md",
        &parts(&["/", "home", "alice", "projects", "notes", "a.md"]),
        "/",
    );
    assert_eq!(shown, ".../projects/notes/a.md");
}

#[test]
fn containment() {
    let base = parts(&["/", "srv", "docs"]);
    assert!(is_within_base(&parts(&["/", "srv", "docs", "a.css"]), &base));
    assert!(is_within_base(&base, &base));
    assert!(!is_within_base(&parts(&["/", "srv", "other", "a.css"]), &base));
    assert!(!is_within_base(&parts(&["/", "srv"]), &base));
    let err = check_within_base(&parts(&["/", "etc", "passwd"]), &base).unwrap_err();
    assert_eq!(err.message(), "Security: Path escapes allowed directory");
}

#[test]
fn size_limit() {
    assert!(check_file_size(10, 10, "a.md").is_ok());
    let err = check_file_size(11 * 1024 * 1024, 10 * 1024 * 1024, "big.md").unwrap_err();
    assert_eq!(
        err.message(),
        "File 'big.md' exceeds maximum size (10 MB). Use --max-file-size to increase."
    );
}
