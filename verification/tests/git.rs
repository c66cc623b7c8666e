use std::path::PathBuf;

use wt::git::{worktree_name, worktrees_root};
use wt::porcelain::{parse_worktree_list, Worktree};

#[test]
fn worktree_name_flattens_slashes() {
    assert_eq!(worktree_name("feature/login"), "feature__login");
    assert_eq!(worktree_name("plain"), "plain");
}

#[test]
fn worktrees_root_is_sibling_directory() {
    let repo = "/dev/my-app";
    assert_eq!(
        PathBuf::from(worktrees_root(repo).unwrap()),
        PathBuf::from("/dev/my-app.worktrees")
    );
}

#[test]
fn parse_worktree_list_reads_paths_and_branches() {
    let text = "\
worktree /dev/my-app
HEAD abcdef
branch refs/heads/main

worktree /dev/my-app.worktrees/feature
HEAD 123456
branch refs/heads/feature
";
    let worktrees = parse_worktree_list(text);
    assert_eq!(
        worktrees,
        vec![
            Worktree {
                path: "/dev/my-app".to_string(),
                branch: Some("refs/heads/main".to_string()),
            },
            Worktree {
                path: "/dev/my-app.worktrees/feature".to_string(),
                branch: Some("refs/heads/feature".to_string()),
            },
        ]
    );
}

use wt::git::{
    add_worktree, branch_exists, current_branch, git_root, has_commits, has_uncommitted_changes,
    is_registered_worktree, list_worktrees, parse_count, remove_worktree, rev_list_count,
    stdout_string, validate_branch_name, worktree_for_branch, worktree_path, GitOutput,
};

fn out(success: bool, stdout: &[u8]) -> GitOutput {
    GitOutput { success, stdout: stdout.to_vec() }
}

fn wt(path: &str, branch: Option<&str>) -> Worktree {
    Worktree { path: path.to_string(), branch: branch.map(|b| b.to_string()) }
}

#[test]
fn stdout_string_trims_line_ends() {
    assert_eq!(stdout_string(&out(true, b"/repo\r\n\n")).unwrap(), "/repo");
    assert_eq!(stdout_string(&out(true, b"a\nb\n")).unwrap(), "a\nb");
    assert_eq!(stdout_string(&out(true, b"")).unwrap(), "");
    assert_eq!(stdout_string(&out(true, b"\n\r")).unwrap(), "");
}

#[test]
fn stdout_string_rejects_non_utf8() {
    let err = stdout_string(&out(true, &[0xff, 0xfe])).unwrap_err();
    assert_eq!(err.print_line(), "wt: git produced non-UTF-8 output");
}

#[test]
fn stdout_string_decodes_utf8() {
    assert_eq!(stdout_string(&out(true, "ünïcode\n".as_bytes())).unwrap(), "ünïcode");
}

#[test]
fn git_root_reads_toplevel() {
    assert_eq!(git_root(&out(true, b"/dev/my-app\n")).unwrap(), "/dev/my-app");
    let err = git_root(&out(false, b"")).unwrap_err();
    assert_eq!(err.message(), "the current directory is not inside a Git worktree");
}

#[test]
fn validate_branch_name_cases() {
    let err = validate_branch_name("").unwrap_err();
    assert_eq!(err.message(), "a branch name is required");
    let err = validate_branch_name("bad..name").unwrap_err();
    assert_eq!(err.message(), "invalid branch name: bad..name");
    assert!(validate_branch_name("feature/x").is_ok());
    assert!(validate_branch_name("main").is_ok());
}

#[test]
fn current_branch_reads_symbolic_ref() {
    assert_eq!(current_branch(&out(true, b"main\n")).unwrap(), "main");
    let err = current_branch(&out(false, b"")).unwrap_err();
    assert_eq!(err.message(), "the current worktree has a detached HEAD");
}

#[test]
fn exit_status_checks() {
    assert!(has_commits(&out(true, b"abc\n")));
    assert!(!has_commits(&out(false, b"")));
    assert!(branch_exists(&out(true, b"")));
    assert!(!branch_exists(&out(false, b"")));
}

#[test]
fn worktrees_root_without_name_fails() {
    let err = worktrees_root("/").unwrap_err();
    assert_eq!(err.message(), "could not determine repository name from /");
}

#[test]
fn worktrees_root_of_nested_repo() {
    assert_eq!(
        PathBuf::from(worktrees_root("/home/me/src/app").unwrap()),
        PathBuf::from("/home/me/src/app.worktrees")
    );
}

#[test]
fn worktree_path_flattens_branch() {
    assert_eq!(
        PathBuf::from(worktree_path("/dev/my-app.worktrees", "feature/login")),
        PathBuf::from("/dev/my-app.worktrees/feature__login")
    );
}

#[test]
fn worktree_name_of_nested_branch() {
    assert_eq!(worktree_name("a/b/c"), "a__b__c");
    assert_eq!(worktree_name("/"), "__");
    assert_eq!(worktree_name(""), "");
}

#[test]
fn list_worktrees_cases() {
    let ws = list_worktrees(&out(true, b"worktree /a\nbranch refs/heads/x\n\n")).unwrap();
    assert_eq!(ws, vec![wt("/a", Some("refs/heads/x"))]);
    let err = list_worktrees(&out(false, b"")).unwrap_err();
    assert_eq!(err.message(), "failed to list git worktrees");
}

#[test]
fn worktree_for_branch_finds_first_match() {
    let ws = vec![
        wt("/repo", Some("refs/heads/main")),
        wt("/repo.worktrees/feat", Some("refs/heads/feat")),
        wt("/elsewhere", Some("refs/heads/feat")),
        wt("/detached", None),
    ];
    assert_eq!(worktree_for_branch(&ws, "feat"), Some("/repo.worktrees/feat".to_string()));
    assert_eq!(worktree_for_branch(&ws, "main"), Some("/repo".to_string()));
    assert_eq!(worktree_for_branch(&ws, "other"), None);
    assert_eq!(worktree_for_branch(&ws, "refs/heads/feat"), None);
}

#[test]
fn is_registered_worktree_compares_paths() {
    let ws = vec![wt("/repo", Some("refs/heads/main")), wt("/repo.worktrees/feat", None)];
    assert!(is_registered_worktree(&ws, "/repo.worktrees/feat"));
    assert!(is_registered_worktree(&ws, "/repo.worktrees/feat/"));
    assert!(is_registered_worktree(&ws, "/repo.worktrees//feat"));
    assert!(!is_registered_worktree(&ws, "/repo.worktrees/other"));
    assert!(!is_registered_worktree(&[], "/repo"));
}

#[test]
fn add_worktree_messages() {
    assert!(add_worktree(&out(true, b""), "feat", true).is_ok());
    let err = add_worktree(&out(false, b""), "feat", true).unwrap_err();
    assert_eq!(err.message(), "failed to create worktree and branch feat");
    let err = add_worktree(&out(false, b""), "feat", false).unwrap_err();
    assert_eq!(err.message(), "failed to create worktree for existing branch feat");
}

#[test]
fn remove_worktree_messages() {
    assert!(remove_worktree(&out(true, b""), "/w").is_ok());
    let err = remove_worktree(&out(false, b""), "/w").unwrap_err();
    assert_eq!(err.message(), "failed to remove worktree: /w");
}

#[test]
fn has_uncommitted_changes_cases() {
    assert_eq!(has_uncommitted_changes(&out(true, b" M file\n"), "/w").unwrap(), true);
    assert_eq!(has_uncommitted_changes(&out(true, b""), "/w").unwrap(), false);
    assert_eq!(has_uncommitted_changes(&out(true, b"\n"), "/w").unwrap(), false);
    let err = has_uncommitted_changes(&out(false, b""), "/w").unwrap_err();
    assert_eq!(err.message(), "failed to inspect worktree: /w");
}

#[test]
fn parse_count_reads_like_u64() {
    assert_eq!(parse_count("0"), Some(0));
    assert_eq!(parse_count("42"), Some(42));
    assert_eq!(parse_count("+7"), Some(7));
    assert_eq!(parse_count("007"), Some(7));
    assert_eq!(parse_count("18446744073709551615"), Some(u64::MAX));
    assert_eq!(parse_count("18446744073709551616"), None);
    assert_eq!(parse_count(""), None);
    assert_eq!(parse_count("+"), None);
    assert_eq!(parse_count("-1"), None);
    assert_eq!(parse_count("1 "), None);
    assert_eq!(parse_count("1_0"), None);
    for s in ["0", "42", "+7", "007", "18446744073709551615", "18446744073709551616", "", "+", "-1", "1 ", "++1", "٣"] {
        assert_eq!(parse_count(s), s.parse::<u64>().ok(), "{s:?}");
    }
}

#[test]
fn rev_list_count_cases() {
    assert_eq!(rev_list_count(&out(true, b"3\n"), "/w").unwrap(), 3);
    let err = rev_list_count(&out(false, b""), "/w").unwrap_err();
    assert_eq!(err.message(), "failed to inspect commits in /w");
    let err = rev_list_count(&out(true, b"three\n"), "/w").unwrap_err();
    assert_eq!(err.message(), "git rev-list returned a non-numeric count");
}

#[test]
fn worktrees_root_shares_parent_and_extends_name() {
    for repo in ["/dev/my-app", "relative/app", "app", "/a/b/../c", "/x/y/"] {
        let root = worktrees_root(repo).unwrap();
        let root_path = std::path::Path::new(&root);
        let repo_path = std::path::Path::new(repo);
        assert_eq!(root_path.parent(), repo_path.parent());
        let expected = format!("{}.worktrees", repo_path.file_name().unwrap().to_str().unwrap());
        assert_eq!(root_path.file_name().unwrap().to_str().unwrap(), expected);
        assert_ne!(root_path, repo_path);
    }
}

#[test]
fn worktree_path_is_entry_of_root() {
    let p = worktree_path("/dev/my-app.worktrees", "team/feature/x");
    let path = std::path::Path::new(&p);
    assert_eq!(path.file_name().unwrap().to_str().unwrap(), "team__feature__x");
    assert_eq!(path.parent().unwrap(), std::path::Path::new("/dev/my-app.worktrees"));
}

#[test]
fn validate_branch_name_refuses_path_marks() {
    for name in ["a:b", "a\\b", ".", "..", "x/.hidden"] {
        let err = validate_branch_name(name).unwrap_err();
        assert_eq!(err.message(), format!("invalid branch name: {name}"));
    }
    let name = worktree_name("team/feature");
    assert!(validate_branch_name("team/feature").is_ok());
    assert_eq!(name, "team__feature");
}
