use wt::error::Error;

#[test]
fn prefixed_error_prints_behind_wt() {
    let e = Error::msg("a branch name is required".to_string());
    assert!(e.is_prefixed());
    assert_eq!(e.message(), "a branch name is required");
    assert_eq!(e.print_line(), "wt: a branch name is required");
    assert_eq!(e.exit_code(), 1);
}

#[test]
fn raw_error_prints_bare() {
    let e = Error::raw("worktree on branch x not found".to_string());
    assert!(!e.is_prefixed());
    assert_eq!(e.print_line(), "worktree on branch x not found");
    assert_eq!(e.exit_code(), 1);
}
