//! The command line: `wt create|cleanup|get [flag] <branch-name>`.
use vstd::prelude::*;
use crate::error::Error;
use crate::git::{failure, ErrorView};
use crate::porcelain::opt_view;
use crate::query::strings_view;
use crate::session::{start, start_rules, Action, Kind, Session};
use crate::text::{join2, join3, same_text};

verus! {

/// A command to run, with its branch name.
#[derive(Debug)]
pub enum Command {
    Create { allow_dev_branches: bool, branch_name: String },
    Cleanup { force: bool, branch_name: String },
    Get { branch_name: String },
}

pub enum CommandView {
    Create { allow_dev_branches: bool, branch_name: Seq<char> },
    Cleanup { force: bool, branch_name: Seq<char> },
    Get { branch_name: Seq<char> },
}

impl View for Command {
    type V = CommandView;

    open spec fn view(&self) -> CommandView {
        match self {
            Command::Create { allow_dev_branches, branch_name } => CommandView::Create {
                allow_dev_branches: *allow_dev_branches,
                branch_name: branch_name@,
            },
            Command::Cleanup { force, branch_name } => CommandView::Cleanup {
                force: *force,
                branch_name: branch_name@,
            },
            Command::Get { branch_name } => CommandView::Get { branch_name: branch_name@ },
        }
    }
}

/// Whether an argument is an option: it begins with `-`.
pub open spec fn is_option(a: Seq<char>) -> bool {
    a.len() > 0 && a[0] == '-'
}

/// Whether an argument asks for help.
pub open spec fn is_help(a: Seq<char>) -> bool {
    a == "-h"@ || a == "--help"@
}

/// How `[--flag] <branch-name>` reads `args[i..]`, given the flag and branch
/// seen so far: `None` when help was asked for, else the flag and the branch.
/// After `--`, exactly one more argument is the branch name, and no branch
/// name may come before the `--`.
pub open spec fn scan_command_args(
    args: Seq<Seq<char>>,
    i: int,
    command: Seq<char>,
    allowed_flag: Option<Seq<char>>,
    flag: bool,
    branch: Option<Seq<char>>,
) -> Result<Option<(bool, Seq<char>)>, ErrorView>
    decreases args.len() - i,
{
    if i < 0 || i >= args.len() {
        match branch {
            None => Err(failure("a branch name is required"@)),
            Some(b) => Ok(Some((flag, b))),
        }
    } else {
        let a = args[i];
        if is_help(a) {
            Ok(None)
        } else if a == "--"@ {
            if branch is Some {
                Err(failure("too many arguments"@))
            } else if i + 1 >= args.len() {
                Err(failure("a branch name is required"@))
            } else if i + 2 < args.len() {
                Err(failure("too many arguments"@))
            } else {
                Ok(Some((flag, args[i + 1])))
            }
        } else if is_option(a) {
            if allowed_flag == Some(a) {
                scan_command_args(args, i + 1, command, allowed_flag, true, branch)
            } else {
                Err(failure("unknown option for "@ + command + ": "@ + a))
            }
        } else if branch is Some {
            Err(failure("too many arguments"@))
        } else {
            scan_command_args(args, i + 1, command, allowed_flag, flag, Some(a))
        }
    }
}

/// The characters of an optional flag.
pub open spec fn flag_view(f: Option<&str>) -> Option<Seq<char>> {
    match f {
        Some(f) => Some(f@),
        None => None,
    }
}

/// The view of a parsed `[--flag] <branch-name>`.
pub open spec fn flag_and_branch_view(r: Result<Option<(bool, String)>, Error>) -> Result<Option<(bool, Seq<char>)>, ErrorView> {
    match r {
        Ok(Some((f, b))) => Ok(Some((f, b@))),
        Ok(None) => Ok(None),
        Err(e) => Err(e@),
    }
}

fn starts_with_dash(a: &str) -> (b: bool)
    ensures
        b == is_option(a@),
{
    a.unicode_len() > 0 && a.get_char(0) == '-'
}

fn allowed(allowed_flag: Option<&str>, a: &str) -> (b: bool)
    ensures
        b == (flag_view(allowed_flag) == Some(a@)),
{
    match allowed_flag {
        None => false,
        Some(f) => same_text(f, a),
    }
}

/// Parses `[--flag] <branch-name>` for `command`, where `allowed_flag` is its
/// one flag. Returns `None` when help was asked for.
pub fn parse_command_args(args: Vec<String>, command: &str, allowed_flag: Option<&str>) -> (r: Result<Option<(bool, String)>, Error>)
    ensures
        flag_and_branch_view(r) == scan_command_args(
            strings_view(args@),
            0,
            command@,
            flag_view(allowed_flag),
            false,
            None,
        ),
{
    let ghost v = strings_view(args@);
    let ghost allowed_view = flag_view(allowed_flag);
    let mut flag = false;
    let mut branch: Option<String> = None;
    let mut i: usize = 0;
    while i < args.len()
        invariant
            v == strings_view(args@),
            allowed_view == flag_view(allowed_flag),
            i <= args@.len(),
            scan_command_args(v, 0, command@, allowed_view, false, None) == scan_command_args(
                v,
                i as int,
                command@,
                allowed_view,
                flag,
                opt_view(branch),
            ),
        decreases args@.len() - i,
    {
        let a = args[i].as_str();
        assert(v[i as int] == a@);
        if same_text(a, "-h") || same_text(a, "--help") {
            return Ok(None);
        }
        if same_text(a, "--") {
            if branch.is_some() {
                return Err(Error::msg(String::from_str("too many arguments")));
            }
            if i + 1 >= args.len() {
                return Err(Error::msg(String::from_str("a branch name is required")));
            }
            if i + 2 < args.len() {
                return Err(Error::msg(String::from_str("too many arguments")));
            }
            let name = args[i + 1].clone();
            return Ok(Some((flag, name)));
        }
        if starts_with_dash(a) {
            if allowed(allowed_flag, a) {
                flag = true;
            } else {
                return Err(Error::msg(join2(join3("unknown option for ", command, ": ").as_str(), a)));
            }
        } else {
            if branch.is_some() {
                return Err(Error::msg(String::from_str("too many arguments")));
            }
            branch = Some(args[i].clone());
        }
        i = i + 1;
    }
    match branch {
        None => Err(Error::msg(String::from_str("a branch name is required"))),
        Some(b) => Ok(Some((flag, b))),
    }
}

/// How the whole command line (without the program name) reads: `None` when
/// help was asked for.
pub open spec fn spec_parse_args(args: Seq<Seq<char>>) -> Result<Option<CommandView>, ErrorView> {
    if args.len() == 0 {
        Err(failure("a command is required"@))
    } else {
        let c = args[0];
        let rest = args.drop_first();
        if c == "create"@ {
            match scan_command_args(rest, 0, "create"@, Some("--allow-dev-branches"@), false, None) {
                Err(e) => Err(e),
                Ok(None) => Ok(None),
                Ok(Some((f, b))) => Ok(Some(CommandView::Create { allow_dev_branches: f, branch_name: b })),
            }
        } else if c == "cleanup"@ {
            match scan_command_args(rest, 0, "cleanup"@, Some("--force"@), false, None) {
                Err(e) => Err(e),
                Ok(None) => Ok(None),
                Ok(Some((f, b))) => Ok(Some(CommandView::Cleanup { force: f, branch_name: b })),
            }
        } else if c == "get"@ {
            match scan_command_args(rest, 0, "get"@, None, false, None) {
                Err(e) => Err(e),
                Ok(None) => Ok(None),
                Ok(Some((_, b))) => Ok(Some(CommandView::Get { branch_name: b })),
            }
        } else if c == "-h"@ || c == "--help"@ || c == "help"@ {
            Ok(None)
        } else {
            Err(failure("unknown command: "@ + c))
        }
    }
}

/// The view of a parsed command line.
pub open spec fn command_result_view(r: Result<Option<Command>, Error>) -> Result<Option<CommandView>, ErrorView> {
    match r {
        Ok(Some(c)) => Ok(Some(c@)),
        Ok(None) => Ok(None),
        Err(e) => Err(e@),
    }
}

/// Parses the command line (without the program name). Returns `None` when
/// help was asked for; the usage text is then to be printed.
pub fn parse_args(args: Vec<String>) -> (r: Result<Option<Command>, Error>)
    ensures
        command_result_view(r) == spec_parse_args(strings_view(args@)),
{
    let ghost v = strings_view(args@);
    if args.len() == 0 {
        return Err(Error::msg(String::from_str("a command is required")));
    }
    let mut args = args;
    let command = args.remove(0);
    proof {
        assert(strings_view(args@) =~= v.drop_first());
    }
    let c = command.as_str();
    if same_text(c, "create") {
        match parse_command_args(args, "create", Some("--allow-dev-branches")) {
            Err(e) => Err(e),
            Ok(None) => Ok(None),
            Ok(Some((allow_dev_branches, branch_name))) => Ok(
                Some(Command::Create { allow_dev_branches, branch_name }),
            ),
        }
    } else if same_text(c, "cleanup") {
        match parse_command_args(args, "cleanup", Some("--force")) {
            Err(e) => Err(e),
            Ok(None) => Ok(None),
            Ok(Some((force, branch_name))) => Ok(Some(Command::Cleanup { force, branch_name })),
        }
    } else if same_text(c, "get") {
        match parse_command_args(args, "get", None) {
            Err(e) => Err(e),
            Ok(None) => Ok(None),
            Ok(Some((_, branch_name))) => Ok(Some(Command::Get { branch_name })),
        }
    } else if same_text(c, "-h") || same_text(c, "--help") || same_text(c, "help") {
        Ok(None)
    } else {
        Err(Error::msg(join2("unknown command: ", c)))
    }
}

/// The command and branch a parsed command starts a session with.
pub open spec fn command_kind(c: CommandView) -> (Kind, Seq<char>) {
    match c {
        CommandView::Create { allow_dev_branches, branch_name } => (
            Kind::Create { allow_dev_branches },
            branch_name,
        ),
        CommandView::Cleanup { force, branch_name } => (Kind::Cleanup { force }, branch_name),
        CommandView::Get { branch_name } => (Kind::Get, branch_name),
    }
}

/// Starts running a parsed command.
pub fn run(command: Command) -> (r: (Session, Action))
    ensures
        (r.0@, r.1@) == start_rules(command_kind(command@).0, command_kind(command@).1),
{
    match command {
        Command::Create { allow_dev_branches, branch_name } => start(
            Kind::Create { allow_dev_branches },
            branch_name,
        ),
        Command::Cleanup { force, branch_name } => start(Kind::Cleanup { force }, branch_name),
        Command::Get { branch_name } => start(Kind::Get, branch_name),
    }
}

/// The usage text.
pub open spec fn usage() -> Seq<char> {
    "Usage:\n  wt create [--allow-dev-branches] <branch-name>\n  wt cleanup [--force] <branch-name>\n  wt get <branch-name>"@
}

/// The usage text, without a final line end.
pub fn usage_text() -> (s: String)
    ensures
        s@ == usage(),
{
    String::from_str(
        "Usage:\n  wt create [--allow-dev-branches] <branch-name>\n  wt cleanup [--force] <branch-name>\n  wt get <branch-name>",
    )
}

} // verus!
