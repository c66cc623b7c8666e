use wt::cli::{parse_args, Command};

fn parse(args: &[&str]) -> Command {
    parse_args(args.iter().map(|arg| (*arg).to_string()).collect())
        .unwrap()
        .expect("expected a command")
}

#[test]
fn parse_create_accepts_flag_before_or_after_branch() {
    match parse(&["create", "--allow-dev-branches", "feat"]) {
        Command::Create {
            allow_dev_branches,
            branch_name,
        } => {
            assert!(allow_dev_branches);
            assert_eq!(branch_name, "feat");
        }
        _ => panic!("expected create"),
    }
    match parse(&["create", "feat", "--allow-dev-branches"]) {
        Command::Create {
            allow_dev_branches,
            branch_name,
        } => {
            assert!(allow_dev_branches);
            assert_eq!(branch_name, "feat");
        }
        _ => panic!("expected create"),
    }
}

#[test]
fn parse_rejects_unknown_options() {
    let err = parse_args(vec!["cleanup".into(), "--nope".into(), "feat".into()]).unwrap_err();
    assert!(err.message().contains("unknown option for cleanup"));
}

#[test]
fn parse_rejects_removed_switch_command() {
    let err = parse_args(vec!["switch".into(), "feat".into()]).unwrap_err();
    assert!(err.message().contains("unknown command: switch"));
}

use wt::cli::{parse_command_args, run, usage_text};
use wt::session::Action;

fn strings(args: &[&str]) -> Vec<String> {
    args.iter().map(|a| a.to_string()).collect()
}

fn error_of(args: &[&str]) -> String {
    parse_args(strings(args)).unwrap_err().message()
}

#[test]
fn parse_needs_a_command() {
    assert_eq!(error_of(&[]), "a command is required");
}

#[test]
fn parse_help_asks_for_usage() {
    for args in [&["help"][..], &["-h"], &["--help"], &["create", "-h"], &["get", "x", "--help"], &["cleanup", "--force", "-h", "y"]] {
        assert!(parse_args(strings(args)).unwrap().is_none(), "{args:?}");
    }
}

#[test]
fn parse_branch_errors() {
    assert_eq!(error_of(&["get"]), "a branch name is required");
    assert_eq!(error_of(&["get", "a", "b"]), "too many arguments");
    assert_eq!(error_of(&["get", "--force", "a"]), "unknown option for get: --force");
    assert_eq!(error_of(&["create", "-"]), "unknown option for create: -");
    assert_eq!(error_of(&["cleanup", "--"]), "a branch name is required");
    assert_eq!(error_of(&["cleanup", "--", "a", "b"]), "too many arguments");
    assert_eq!(error_of(&["get", "feat", "--", "other"]), "too many arguments");
    assert_eq!(error_of(&["get", "feat", "--"]), "too many arguments");
}

#[test]
fn parse_double_dash_takes_the_next_argument() {
    match parse(&["cleanup", "--force", "--", "-odd"]) {
        Command::Cleanup { force, branch_name } => {
            assert!(force);
            assert_eq!(branch_name, "-odd");
        }
        _ => panic!("expected cleanup"),
    }
    match parse(&["get", "--", "second"]) {
        Command::Get { branch_name } => assert_eq!(branch_name, "second"),
        _ => panic!("expected get"),
    }
}

#[test]
fn parse_cleanup_flag_on_either_side() {
    for args in [&["cleanup", "--force", "x"][..], &["cleanup", "x", "--force"]] {
        match parse(args) {
            Command::Cleanup { force, branch_name } => {
                assert!(force);
                assert_eq!(branch_name, "x");
            }
            _ => panic!("expected cleanup"),
        }
    }
    match parse(&["cleanup", "x"]) {
        Command::Cleanup { force, .. } => assert!(!force),
        _ => panic!("expected cleanup"),
    }
}

#[test]
fn run_starts_the_command() {
    let (_, a) = run(parse(&["get", "feat"]));
    assert!(matches!(a, Action::Git { dir: None, .. }));
}

#[test]
fn usage_lists_the_commands() {
    assert_eq!(
        usage_text(),
        "Usage:\n  wt create [--allow-dev-branches] <branch-name>\n  wt cleanup [--force] <branch-name>\n  wt get <branch-name>"
    );
}

#[test]
fn plain_arguments_need_one_branch_and_only_the_flag() {
    let ok = |args: &[&str]| parse_command_args(strings(args), "cleanup", Some("--force")).unwrap();
    assert_eq!(ok(&["x"]), Some((false, "x".to_string())));
    assert_eq!(ok(&["--force", "x", "--force"]), Some((true, "x".to_string())));
    let err = |args: &[&str]| parse_command_args(strings(args), "cleanup", Some("--force")).unwrap_err().message();
    assert_eq!(err(&[]), "a branch name is required");
    assert_eq!(err(&["--force"]), "a branch name is required");
    assert_eq!(err(&["x", "y"]), "too many arguments");
    assert_eq!(err(&["x", "--nope"]), "unknown option for cleanup: --nope");
}
