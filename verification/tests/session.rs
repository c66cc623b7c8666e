use std::path::PathBuf;

use wt::git::GitOutput;
use wt::query::{git_args, shows_stderr, Query};
use wt::session::{cleanup, create, get, Action, Event, Outcome, Session};
use wt::unpushed::{has_unpushed_commits, Progress, UnpushedCheck};

fn git(success: bool, stdout: &str) -> Event {
    Event::Git(GitOutput { success, stdout: stdout.as_bytes().to_vec() })
}

fn expect_git(action: &Action) -> (Option<String>, Vec<String>) {
    match action {
        Action::Git { dir, query } => (dir.clone(), git_args(query)),
        other => panic!("expected a git action, got {other:?}"),
    }
}

fn expect_done(action: Action) -> Outcome {
    match action {
        Action::Done(o) => o,
        other => panic!("expected the end, got {other:?}"),
    }
}

fn feed(s: Session, ev: Event) -> (Session, Action) {
    s.step(ev)
}

const LIST: &str = "worktree /dev/my-app\nHEAD 1\nbranch refs/heads/main\n\n";

#[test]
fn create_walks_through_every_check() {
    let (s, a) = create("feature/x".to_string(), false);
    assert_eq!(expect_git(&a), (None, vec!["rev-parse".into(), "--show-toplevel".into()]));
    let (s, a) = feed(s, git(true, "/dev/my-app\n"));
    assert_eq!(expect_git(&a), (None, vec!["worktree".into(), "list".into(), "--porcelain".into()]));
    let (s, a) = feed(s, git(true, LIST));
    assert_eq!(
        expect_git(&a),
        (Some("/dev/my-app".to_string()), vec!["symbolic-ref".into(), "--quiet".into(), "--short".into(), "HEAD".into()])
    );
    let (s, a) = feed(s, git(true, "main\n"));
    assert_eq!(expect_git(&a).1, vec!["rev-parse", "--verify", "--quiet", "HEAD^{commit}"]);
    let (s, a) = feed(s, git(true, "abc\n"));
    let dest = match &a {
        Action::PathExists(p) => p.clone(),
        other => panic!("unexpected {other:?}"),
    };
    assert_eq!(PathBuf::from(&dest), PathBuf::from("/dev/my-app.worktrees/feature__x"));
    let (s, a) = feed(s, Event::Answer(false));
    match &a {
        Action::CreateDirAll(p) => assert_eq!(PathBuf::from(p), PathBuf::from("/dev/my-app.worktrees")),
        other => panic!("unexpected {other:?}"),
    }
    let (s, a) = feed(s, Event::Answer(true));
    assert_eq!(expect_git(&a).1, vec!["show-ref", "--verify", "--quiet", "refs/heads/feature/x"]);
    let (s, a) = feed(s, git(false, ""));
    let (dir, args) = expect_git(&a);
    assert_eq!(dir, Some("/dev/my-app".to_string()));
    assert_eq!(args, vec!["worktree".to_string(), "add".into(), "--quiet".into(), "-b".into(), "feature/x".into(), dest.clone(), "HEAD".into()]);
    let (s, a) = feed(s, git(true, ""));
    assert!(s.is_finished());
    let o = expect_done(a);
    assert_eq!(o.stdout, Some(dest));
    assert_eq!(o.stderr, None);
    assert!(o.result.is_ok());
}

#[test]
fn create_reports_an_existing_worktree() {
    let (s, _) = create("main".to_string(), false);
    let (s, _) = feed(s, git(true, "/dev/my-app\n"));
    let (s, a) = feed(s, git(true, LIST));
    assert!(s.is_finished());
    let o = expect_done(a);
    assert_eq!(o.stderr, Some("Worktree for branch main already exists.".to_string()));
    assert_eq!(o.stdout, Some("/dev/my-app".to_string()));
    assert!(o.result.is_ok());
}

#[test]
fn create_refuses_dev_branches_without_flag() {
    let (s, _) = create("feat".to_string(), false);
    let (s, _) = feed(s, git(true, "/dev/my-app\n"));
    let (s, _) = feed(s, git(true, LIST));
    let (_, a) = feed(s, git(true, "topic\n"));
    let err = expect_done(a).result.unwrap_err();
    assert_eq!(
        err.message(),
        "worktrees can only be created from main or staging (currently on topic); pass --allow-dev-branches to override"
    );
}

#[test]
fn create_allows_dev_branches_with_flag() {
    let (s, _) = create("feat".to_string(), true);
    let (s, _) = feed(s, git(true, "/dev/my-app\n"));
    let (s, _) = feed(s, git(true, LIST));
    let (s, a) = feed(s, git(true, "topic\n"));
    assert_eq!(expect_git(&a).1, vec!["rev-parse", "--verify", "--quiet", "HEAD^{commit}"]);
    let (_, a) = feed(s, git(false, ""));
    let err = expect_done(a).result.unwrap_err();
    assert_eq!(err.message(), "repository has no commits yet; create an initial commit before creating a worktree");
}

#[test]
fn create_refuses_an_occupied_destination() {
    let (s, _) = create("feat".to_string(), false);
    let (s, _) = feed(s, git(true, "/dev/my-app\n"));
    let (s, _) = feed(s, git(true, LIST));
    let (s, _) = feed(s, git(true, "staging\n"));
    let (s, _) = feed(s, git(true, "abc\n"));
    let (_, a) = feed(s, Event::Answer(true));
    let err = expect_done(a).result.unwrap_err();
    assert!(err.message().starts_with("destination already exists but is not a registered worktree: "));
}

#[test]
fn create_checks_out_an_existing_branch() {
    let (s, _) = create("feat".to_string(), false);
    let (s, _) = feed(s, git(true, "/dev/my-app\n"));
    let (s, _) = feed(s, git(true, LIST));
    let (s, _) = feed(s, git(true, "main\n"));
    let (s, _) = feed(s, git(true, "abc\n"));
    let (s, _) = feed(s, Event::Answer(false));
    let (s, _) = feed(s, Event::Answer(true));
    let (s, a) = feed(s, git(true, ""));
    let (_, args) = expect_git(&a);
    assert_eq!(args[..3], ["worktree".to_string(), "add".into(), "--quiet".into()]);
    assert_eq!(args.len(), 5);
    assert_eq!(args[4], "feat");
    let (_, a) = feed(s, git(false, ""));
    let err = expect_done(a).result.unwrap_err();
    assert_eq!(err.message(), "failed to create worktree for existing branch feat");
}

#[test]
fn create_reports_a_failed_directory() {
    let (s, _) = create("feat".to_string(), false);
    let (s, _) = feed(s, git(true, "/dev/my-app\n"));
    let (s, _) = feed(s, git(true, LIST));
    let (s, _) = feed(s, git(true, "main\n"));
    let (s, _) = feed(s, git(true, "abc\n"));
    let (s, _) = feed(s, Event::Answer(false));
    let (_, a) = feed(s, Event::Answer(false));
    assert_eq!(expect_done(a).result.unwrap_err().message(), "could not create worktree directory");
}

#[test]
fn empty_branch_is_refused_before_git() {
    let (s, a) = get(String::new());
    assert!(s.is_finished());
    let err = expect_done(a).result.unwrap_err();
    assert_eq!(err.print_line(), "wt: a branch name is required");
}

#[test]
fn invalid_branch_is_refused() {
    for b in ["a..b", "-x", "HEAD", "a b", "x.lock", "nul\0"] {
        let (s, a) = cleanup(b.to_string(), false);
        assert!(s.is_finished());
        assert_eq!(expect_done(a).result.unwrap_err().message(), format!("invalid branch name: {b}"));
    }
}

#[test]
fn outside_a_repository_is_an_error() {
    let (s, _) = get("feat".to_string());
    let (_, a) = feed(s, git(false, ""));
    assert_eq!(expect_done(a).result.unwrap_err().message(), "the current directory is not inside a Git worktree");
}

#[test]
fn get_main_prints_the_repository() {
    for b in ["main", "staging"] {
        let (s, _) = get(b.to_string());
        let (_, a) = feed(s, git(true, "/dev/my-app\n"));
        let o = expect_done(a);
        assert_eq!(o.stdout, Some("/dev/my-app".to_string()));
        assert!(o.result.is_ok());
    }
}

#[test]
fn get_prints_the_worktree_or_a_bare_error() {
    let listing = "worktree /dev/my-app\nbranch refs/heads/main\n\nworktree /w/feat\nbranch refs/heads/feat\n";
    let (s, _) = get("feat".to_string());
    let (s, a) = feed(s, git(true, "/dev/my-app\n"));
    assert_eq!(expect_git(&a).1, vec!["worktree", "list", "--porcelain"]);
    let (_, a) = feed(s, git(true, listing));
    assert_eq!(expect_done(a).stdout, Some("/w/feat".to_string()));

    let (s, _) = get("gone".to_string());
    let (s, _) = feed(s, git(true, "/dev/my-app\n"));
    let (_, a) = feed(s, git(true, listing));
    let err = expect_done(a).result.unwrap_err();
    assert_eq!(err.print_line(), "worktree on branch gone not found");
}

fn cleanup_to_lookup(force: bool) -> (Session, String) {
    let (s, _) = cleanup("feat".to_string(), force);
    let (s, a) = feed(s, git(true, "/dev/my-app\n"));
    let dest = match &a {
        Action::IsDir(p) => p.clone(),
        other => panic!("unexpected {other:?}"),
    };
    let (s, a) = feed(s, Event::Answer(true));
    assert_eq!(expect_git(&a), (None, vec!["worktree".into(), "list".into(), "--porcelain".into()]));
    (s, dest)
}

#[test]
fn cleanup_of_a_missing_worktree_prunes_and_succeeds() {
    let (s, _) = cleanup("feat".to_string(), false);
    let (s, _) = feed(s, git(true, "/dev/my-app\n"));
    let (s, a) = feed(s, Event::Answer(false));
    assert_eq!(expect_git(&a), (Some("/dev/my-app".to_string()), vec!["worktree".into(), "prune".into()]));
    let (_, a) = feed(s, git(false, ""));
    assert!(expect_done(a).result.is_ok());
}

#[test]
fn cleanup_of_an_unregistered_directory_succeeds() {
    let (s, _) = cleanup_to_lookup(false);
    let (_, a) = feed(s, git(true, LIST));
    let o = expect_done(a);
    assert!(o.result.is_ok());
    assert_eq!(o.stdout, None);
}

fn listing_with(dest: &str) -> String {
    format!("{LIST}worktree {dest}\nbranch refs/heads/feat\n\n")
}

#[test]
fn cleanup_refuses_uncommitted_changes() {
    let (s, dest) = cleanup_to_lookup(false);
    let (s, a) = feed(s, git(true, &listing_with(&dest)));
    assert_eq!(
        expect_git(&a),
        (Some(dest.clone()), vec!["status".into(), "--porcelain".into(), "--untracked-files=normal".into()])
    );
    let (_, a) = feed(s, git(true, " M x\n"));
    let err = expect_done(a).result.unwrap_err();
    assert_eq!(err.message(), format!("worktree has uncommitted changes: {dest}"));
}

#[test]
fn cleanup_refuses_unpushed_commits() {
    let (s, dest) = cleanup_to_lookup(false);
    let (s, _) = feed(s, git(true, &listing_with(&dest)));
    let (s, a) = feed(s, git(true, ""));
    assert_eq!(
        expect_git(&a).1,
        vec!["rev-parse", "--abbrev-ref", "--symbolic-full-name", "@{upstream}"]
    );
    let (s, a) = feed(s, git(true, "origin/feat\n"));
    assert_eq!(expect_git(&a).1, vec!["rev-list", "--count", "HEAD", "--not", "origin/feat"]);
    let (_, a) = feed(s, git(true, "2\n"));
    let err = expect_done(a).result.unwrap_err();
    assert_eq!(err.message(), "branch has unpushed commits: feat");
}

#[test]
fn cleanup_removes_a_clean_worktree_and_empty_parents() {
    let (s, dest) = cleanup_to_lookup(false);
    let (s, _) = feed(s, git(true, &listing_with(&dest)));
    let (s, _) = feed(s, git(true, ""));
    let (s, _) = feed(s, git(true, "origin/feat\n"));
    let (s, a) = feed(s, git(true, "0\n"));
    assert_eq!(
        expect_git(&a),
        (Some("/dev/my-app".to_string()), vec!["worktree".into(), "remove".into(), dest.clone()])
    );
    let (_, a) = feed(s, git(true, ""));
    // The worktree's parent is the worktrees directory itself: nothing more to remove.
    assert!(expect_done(a).result.is_ok());
}

#[test]
fn forced_cleanup_removes_at_once() {
    let (s, dest) = cleanup_to_lookup(true);
    let (s, a) = feed(s, git(true, &listing_with(&dest)));
    assert_eq!(
        expect_git(&a),
        (
            Some("/dev/my-app".to_string()),
            vec!["worktree".into(), "remove".into(), "--force".into(), "--force".into(), dest.clone()]
        )
    );
    let (_, a) = feed(s, git(false, ""));
    assert_eq!(expect_done(a).result.unwrap_err().message(), format!("failed to remove worktree: {dest}"));
}

#[test]
fn removal_climbs_empty_parents_up_to_the_root() {
    let mut s: Session = cleanup_to_lookup(true).0;
    s.destination = "/dev/my-app.worktrees/a/b".to_string();
    s.stage = wt::session::Stage::CleanupRemove;
    let (s, a) = s.step(git(true, ""));
    match &a {
        Action::RemoveDir(p) => assert_eq!(PathBuf::from(p), PathBuf::from("/dev/my-app.worktrees/a")),
        other => panic!("unexpected {other:?}"),
    }
    let (_, a) = s.step(Event::Answer(true));
    assert!(expect_done(a).result.is_ok());

    let mut s: Session = cleanup_to_lookup(true).0;
    s.destination = "/dev/my-app.worktrees/a/b/c".to_string();
    s.stage = wt::session::Stage::CleanupRemove;
    let (s, _) = s.step(git(true, ""));
    let (_, a) = s.step(Event::Answer(false));
    assert!(expect_done(a).result.is_ok());
}

#[test]
fn query_arguments() {
    assert!(shows_stderr(&Query::AddWorktree { destination: "d".into(), branch: "b".into(), create_branch: false }));
    assert!(shows_stderr(&Query::RemoveWorktree { destination: "d".into(), force: false }));
    assert!(!shows_stderr(&Query::Status));
    assert_eq!(git_args(&Query::Remotes), vec!["for-each-ref", "--format=%(refname)", "refs/remotes"]);
    assert_eq!(
        git_args(&Query::RevListCount { excluding: vec![], excluding_remotes: true }),
        vec!["rev-list", "--count", "HEAD", "--not", "--remotes"]
    );
}

fn g(success: bool, stdout: &str) -> GitOutput {
    GitOutput { success, stdout: stdout.as_bytes().to_vec() }
}

fn ask(p: Progress) -> (UnpushedCheck, Vec<String>) {
    match p {
        Progress::Ask(c, q) => (c, git_args(&q)),
        Progress::Answer(r) => panic!("unexpected answer {:?}", r.map_err(|e| e.message())),
    }
}

fn answer(p: Progress) -> Result<bool, String> {
    match p {
        Progress::Answer(r) => r.map_err(|e| e.message()),
        Progress::Ask(c, _) => panic!("unexpected question {c:?}"),
    }
}

#[test]
fn unpushed_without_upstream_uses_remotes() {
    let (c, args) = ask(has_unpushed_commits(UnpushedCheck::Upstream, "/w", &g(false, "")));
    assert_eq!(args, vec!["for-each-ref", "--format=%(refname)", "refs/remotes"]);
    let (c, args) = ask(has_unpushed_commits(c, "/w", &g(true, "refs/remotes/origin/main\n")));
    assert_eq!(args, vec!["rev-list", "--count", "HEAD", "--not", "--remotes"]);
    assert_eq!(answer(has_unpushed_commits(c, "/w", &g(true, "0\n"))), Ok(false));
    assert_eq!(
        answer(has_unpushed_commits(UnpushedCheck::Remotes, "/w", &g(false, ""))),
        Err("failed to inspect remotes in /w".to_string())
    );
}

#[test]
fn unpushed_without_remotes_uses_local_bases() {
    let (c, args) = ask(has_unpushed_commits(UnpushedCheck::Remotes, "/w", &g(true, "\n")));
    assert_eq!(args, vec!["show-ref", "--verify", "--quiet", "refs/heads/main"]);
    let (c2, args) = ask(has_unpushed_commits(c, "/w", &g(false, "")));
    assert_eq!(args, vec!["show-ref", "--verify", "--quiet", "refs/heads/staging"]);
    let (c3, args) = ask(has_unpushed_commits(c2, "/w", &g(true, "")));
    assert_eq!(args, vec!["rev-list", "--count", "HEAD", "--not", "refs/heads/staging"]);
    assert_eq!(answer(has_unpushed_commits(c3, "/w", &g(true, "5"))), Ok(true));
    assert_eq!(
        answer(has_unpushed_commits(UnpushedCheck::StagingExists { main: false }, "/w", &g(false, ""))),
        Ok(true)
    );
    let (_, args) = ask(has_unpushed_commits(UnpushedCheck::StagingExists { main: true }, "/w", &g(true, "")));
    assert_eq!(args, vec!["rev-list", "--count", "HEAD", "--not", "refs/heads/main", "refs/heads/staging"]);
}
