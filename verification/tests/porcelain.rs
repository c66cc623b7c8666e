use wt::porcelain::{parse_worktree_list, Worktree};

fn wt(path: &str, branch: Option<&str>) -> Worktree {
    Worktree { path: path.to_string(), branch: branch.map(|b| b.to_string()) }
}

#[test]
fn listing_without_final_blank_line() {
    let text = "worktree /a\nHEAD 1\nbranch refs/heads/main\n\nworktree /b\nHEAD 2\ndetached";
    assert_eq!(parse_worktree_list(text), vec![wt("/a", Some("refs/heads/main")), wt("/b", None)]);
}

#[test]
fn listing_with_crlf_line_ends() {
    let text = "worktree /a\r\nbranch refs/heads/x\r\n\r\n";
    assert_eq!(parse_worktree_list(text), vec![wt("/a", Some("refs/heads/x"))]);
}

#[test]
fn bare_cr_at_end_stays_in_line() {
    let text = "worktree /a\r";
    assert_eq!(parse_worktree_list(text), vec![wt("/a\r", None)]);
}

#[test]
fn empty_listing_has_no_worktrees() {
    assert_eq!(parse_worktree_list(""), vec![]);
    assert_eq!(parse_worktree_list("\n\n"), vec![]);
}

#[test]
fn branch_before_any_worktree_goes_to_the_next() {
    let text = "branch refs/heads/early\n\nworktree /a\n";
    assert_eq!(parse_worktree_list(text), vec![wt("/a", Some("refs/heads/early"))]);
}

#[test]
fn new_worktree_line_ends_the_previous_record() {
    let text = "worktree /a\nbranch refs/heads/x\nworktree /b\n";
    assert_eq!(parse_worktree_list(text), vec![wt("/a", Some("refs/heads/x")), wt("/b", None)]);
}

#[test]
fn listing_reads_back_records() {
    let ws = vec![wt("/r", Some("refs/heads/main")), wt("/r.worktrees/x", None), wt("/p q", Some("refs/heads/a/b"))];
    let mut text = String::new();
    for w in &ws {
        text.push_str(&format!("worktree {}\nHEAD 0123\n", w.path));
        if let Some(b) = &w.branch {
            text.push_str(&format!("branch {}\n", b));
        }
        text.push('\n');
    }
    assert_eq!(parse_worktree_list(&text), ws);
}

#[test]
fn paths_are_the_worktree_lines_in_order() {
    let text = "junk\nworktree /x\nHEAD 1\nbare\n\n\nlocked\nworktree /y\ndetached\nworktree /z";
    let paths: Vec<String> = parse_worktree_list(text).into_iter().map(|w| w.path).collect();
    assert_eq!(paths, vec!["/x", "/y", "/z"]);
}

#[test]
fn a_record_takes_its_last_branch_line() {
    let text = "worktree /x\nbranch refs/heads/a\nHEAD 1\nbranch refs/heads/b\n\nother\nworktree /y\nHEAD 2\n";
    assert_eq!(parse_worktree_list(text), vec![wt("/x", Some("refs/heads/b")), wt("/y", None)]);
}

#[test]
fn record_branch_is_its_last_branch_line() {
    let text = "worktree /a\nHEAD 123\nbranch refs/heads/x\nbranch refs/heads/y\n\nworktree /b\ndetached\n\nworktree /c\nbranch refs/heads/z";
    let ws = parse_worktree_list(text);
    assert_eq!(
        ws,
        vec![
            Worktree { path: "/a".to_string(), branch: Some("refs/heads/y".to_string()) },
            Worktree { path: "/b".to_string(), branch: None },
            Worktree { path: "/c".to_string(), branch: Some("refs/heads/z".to_string()) },
        ]
    );
}
