//! Command-line arguments: what each option asks for.
use vstd::prelude::*;

use crate::about::{hyprcube_version, version_text};
use crate::text::str_eq;

verus! {

broadcast use {vstd::seq::group_seq_axioms, vstd::string::group_string_axioms};

/// Parsed command-line arguments.
#[derive(Debug, Clone, PartialEq, Eq)]
pub struct CliArgs {
    /// Jump directly to a panel by title.
    pub panel: Option<String>,
    /// Daemon mode flag (placeholder).
    pub daemon: bool,
    /// Delete config and exit.
    pub reset_config: bool,
}

/// What the command line asks for.
#[derive(Debug, Clone, PartialEq, Eq)]
pub enum CliOutcome {
    /// Start with these arguments.
    Run(CliArgs),
    /// Print this help text and exit successfully.
    Help(String),
    /// Print this version line and exit successfully.
    Version(String),
    /// Print these error lines and exit with status 1.
    Error(Vec<String>),
}

/// The arguments' view: panel, daemon and reset flags.
pub open spec fn args_view(a: CliArgs) -> (Option<Seq<char>>, bool, bool) {
    (
        match a.panel {
            Some(p) => Some(p@),
            None => None,
        },
        a.daemon,
        a.reset_config,
    )
}

/// What the arguments from position `i` on give, starting from `st`.
pub open spec fn spec_parse_from(args: Seq<Seq<char>>, i: int, st: (Option<Seq<char>>, bool, bool)) -> Result<
    (Option<Seq<char>>, bool, bool),
    u8,
>
    decreases args.len() - i,
{
    if i < 0 || i >= args.len() {
        Ok(st)
    } else {
        let a = args[i];
        if a == "--help"@ || a == "-h"@ {
            Err(0)
        } else if a == "--version"@ || a == "-V"@ {
            Err(1)
        } else if a == "--panel"@ {
            if i + 1 < args.len() {
                spec_parse_from(args, i + 2, (Some(args[i + 1]), st.1, st.2))
            } else {
                Err(2)
            }
        } else if a == "--daemon"@ {
            spec_parse_from(args, i + 1, (st.0, true, st.2))
        } else if a == "--reset-config"@ {
            spec_parse_from(args, i + 1, (st.0, st.1, true))
        } else {
            Err(3)
        }
    }
}

/// The first argument from position `i` on that stops parsing as unknown.
pub open spec fn first_unknown(args: Seq<Seq<char>>, i: int) -> Seq<char>
    decreases args.len() - i,
{
    if i < 0 || i >= args.len() {
        seq![]
    } else {
        let a = args[i];
        if a == "--panel"@ {
            if i + 1 < args.len() {
                first_unknown(args, i + 2)
            } else {
                seq![]
            }
        } else if a == "--daemon"@ || a == "--reset-config"@ {
            first_unknown(args, i + 1)
        } else {
            a
        }
    }
}

pub open spec fn version_line() -> Seq<char> {
    "hyprcube "@ + version_text()
}

pub open spec fn help_text() -> Seq<char> {
    "hyprcube "@ + version_text() + " \u{2014} Hyprland settings manager\n\nUSAGE:\n    hyprcube [OPTIONS]\n\nOPTIONS:\n    --help, -h          Print this help message\n    --version, -V       Print version\n    --panel <name>      Jump directly to a panel by title\n    --daemon            Run in daemon mode (not yet implemented)\n    --reset-config      Delete config file and exit"@
}

pub fn help() -> (r: String)
    ensures
        r@ == help_text(),
{
    let mut s = "hyprcube ".to_string();
    s.append(hyprcube_version());
    s.append(" \u{2014} Hyprland settings manager\n\nUSAGE:\n    hyprcube [OPTIONS]\n\nOPTIONS:\n    --help, -h          Print this help message\n    --version, -V       Print version\n    --panel <name>      Jump directly to a panel by title\n    --daemon            Run in daemon mode (not yet implemented)\n    --reset-config      Delete config file and exit");
    s
}

pub fn version() -> (r: String)
    ensures
        r@ == version_line(),
{
    let mut s = "hyprcube ".to_string();
    s.append(hyprcube_version());
    s
}

pub open spec fn strings_view(v: Seq<String>) -> Seq<Seq<char>> {
    v.map_values(|s: String| s@)
}

/// Reads the arguments (without the program name) in order: `--help` and
/// `--version` stop at once; `--panel` takes the next argument as the panel
/// name and is an error without one; `--daemon` and `--reset-config` set
/// their flags; anything else is an unknown argument.
pub fn parse(args: &Vec<String>) -> (r: CliOutcome)
    ensures
        ({
            let av = strings_view(args@);
            match spec_parse_from(av, 0, (None, false, false)) {
                Ok(st) => r matches CliOutcome::Run(c) && args_view(c) == st,
                Err(0) => r matches CliOutcome::Help(h) && h@ == help_text(),
                Err(1) => r matches CliOutcome::Version(v) && v@ == version_line(),
                Err(2) => r matches CliOutcome::Error(lines) && strings_view(lines@) == seq![
                    "error: --panel requires a panel name"@,
                ],
                Err(_) => r matches CliOutcome::Error(lines) && strings_view(lines@) == seq![
                    "error: unknown argument: "@ + first_unknown(av, 0),
                    "try 'hyprcube --help' for usage"@,
                ],
            }
        }),
{
    let ghost av = strings_view(args@);
    let mut cli = CliArgs { panel: None, daemon: false, reset_config: false };
    let mut i: usize = 0;
    while i < args.len()
        invariant
            av == strings_view(args@),
            i <= args@.len(),
            spec_parse_from(av, 0, (None, false, false)) == spec_parse_from(av, i as int, args_view(cli)),
            first_unknown(av, 0) == first_unknown(av, i as int),
        decreases args@.len() - i,
    {
        let a = args[i].as_str();
        assert(av[i as int] == a@);
        if str_eq(a, "--help") || str_eq(a, "-h") {
            return CliOutcome::Help(help());
        }
        if str_eq(a, "--version") || str_eq(a, "-V") {
            return CliOutcome::Version(version());
        }
        if str_eq(a, "--panel") {
            if i + 1 < args.len() {
                cli.panel = Some(args[i + 1].clone());
                i = i + 2;
                continue;
            }
            let v = vec!["error: --panel requires a panel name".to_string()];
            assert(strings_view(v@) =~= seq!["error: --panel requires a panel name"@]);
            return CliOutcome::Error(v);
        }
        if str_eq(a, "--daemon") {
            cli.daemon = true;
            i = i + 1;
            continue;
        }
        if str_eq(a, "--reset-config") {
            cli.reset_config = true;
            i = i + 1;
            continue;
        }
        let mut first = "error: unknown argument: ".to_string();
        first.append(a);
        let v = vec![first, "try 'hyprcube --help' for usage".to_string()];
        proof {
            reveal_strlit("--help");
            reveal_strlit("-h");
            reveal_strlit("--version");
            reveal_strlit("-V");
            reveal_strlit("--panel");
            reveal_strlit("--daemon");
            reveal_strlit("--reset-config");
        }
        assert(strings_view(v@) =~= seq![
            "error: unknown argument: "@ + first_unknown(av, 0),
            "try 'hyprcube --help' for usage"@,
        ]);
        return CliOutcome::Error(v);
    }
    CliOutcome::Run(cli)
}

} // verus!
