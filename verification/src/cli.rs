//! The command line: what it accepts and what it asks for.
use vstd::prelude::*;

use crate::model::OwnershipGraph;
use crate::text::{concat2, owned, starts_with, starts_with_str, str_eq, views};

verus! {

#[derive(Debug, PartialEq, Eq)]
pub enum Mode {
    Inspect(Vec<String>),
    All,
}

#[derive(Debug, PartialEq, Eq)]
pub struct Args {
    pub mode: Mode,
    pub explain: bool,
    pub json: bool,
    pub show_missing: bool,
}

/// What a command line asks for.
#[derive(Debug, PartialEq, Eq)]
pub enum Invocation {
    Run(Args),
    PrintHelp,
    PrintVersion,
}

pub enum ModeModel {
    Inspect(Seq<Seq<char>>),
    All,
}

pub struct ArgsModel {
    pub mode: ModeModel,
    pub explain: bool,
    pub json: bool,
    pub show_missing: bool,
}

pub enum InvocationModel {
    Run(ArgsModel),
    PrintHelp,
    PrintVersion,
}

pub open spec fn invocation_view(i: Invocation) -> InvocationModel {
    match i {
        Invocation::Run(a) => InvocationModel::Run(
            ArgsModel {
                mode: match a.mode {
                    Mode::Inspect(v) => ModeModel::Inspect(views(v@)),
                    Mode::All => ModeModel::All,
                },
                explain: a.explain,
                json: a.json,
                show_missing: a.show_missing,
            },
        ),
        Invocation::PrintHelp => InvocationModel::PrintHelp,
        Invocation::PrintVersion => InvocationModel::PrintVersion,
    }
}

pub open spec fn help_text(p: Seq<char>) -> Seq<char> {
    p + " — explain who owns a command on PATH\n\nUSAGE:\n    "@ + p + " [OPTIONS] <COMMAND ...>\n    "@ + p
        + " --all [OPTIONS]\n\nARGS:\n    <COMMAND ...>    Executable names or paths to inspect\n\nOPTIONS:\n    --all            Summarize common development runtimes\n    --explain        Show detailed evidence and every ownership layer\n    --json           Emit the versioned OwnershipGraph JSON document\n    --show-missing   Include missing runtimes with --all\n    -h, --help       Print help\n    -V, --version    Print version\n\nIndividual lookup is the primary workflow. No update or removal command is\nexecuted; action guides are printed for the user to review."@
}

/// The usage text, naming the program as it was invoked.
pub fn help(program: &str) -> (r: String)
    ensures
        r@ == help_text(program@),
{
    let mut r = owned(program);
    r.append(" — explain who owns a command on PATH\n\nUSAGE:\n    ");
    r.append(program);
    r.append(" [OPTIONS] <COMMAND ...>\n    ");
    r.append(program);
    r.append(
        " --all [OPTIONS]\n\nARGS:\n    <COMMAND ...>    Executable names or paths to inspect\n\nOPTIONS:\n    --all            Summarize common development runtimes\n    --explain        Show detailed evidence and every ownership layer\n    --json           Emit the versioned OwnershipGraph JSON document\n    --show-missing   Include missing runtimes with --all\n    -h, --help       Print help\n    -V, --version    Print version\n\nIndividual lookup is the primary workflow. No update or removal command is\nexecuted; action guides are printed for the user to review.",
    );
    r
}

pub struct ParseState {
    pub explain: bool,
    pub json: bool,
    pub show_missing: bool,
    pub all: bool,
    pub positional: Seq<Seq<char>>,
    pub positional_only: bool,
}

pub enum Scan {
    Going(ParseState),
    Help,
    Version,
    Unknown(Seq<char>),
}

pub open spec fn initial_state() -> ParseState {
    ParseState {
        explain: false,
        json: false,
        show_missing: false,
        all: false,
        positional: Seq::<Seq<char>>::empty(),
        positional_only: false,
    }
}

/// One argument read in a state: after `--` every argument is a command.
pub open spec fn step(st: ParseState, arg: Seq<char>) -> Scan {
    if st.positional_only {
        Scan::Going(ParseState { positional: st.positional.push(arg), ..st })
    } else if arg == "--"@ {
        Scan::Going(ParseState { positional_only: true, ..st })
    } else if arg == "--explain"@ {
        Scan::Going(ParseState { explain: true, ..st })
    } else if arg == "--json"@ {
        Scan::Going(ParseState { json: true, ..st })
    } else if arg == "--all"@ {
        Scan::Going(ParseState { all: true, ..st })
    } else if arg == "--show-missing"@ {
        Scan::Going(ParseState { show_missing: true, ..st })
    } else if arg == "-h"@ || arg == "--help"@ {
        Scan::Help
    } else if arg == "-V"@ || arg == "--version"@ {
        Scan::Version
    } else if starts_with(arg, "-"@) {
        Scan::Unknown(arg)
    } else {
        Scan::Going(ParseState { positional: st.positional.push(arg), ..st })
    }
}

/// The arguments read in order; reading stops at help, version or an unknown option.
pub open spec fn scan(args: Seq<Seq<char>>) -> Scan
    decreases args.len(),
{
    if args.len() == 0 {
        Scan::Going(initial_state())
    } else {
        match scan(args.drop_last()) {
            Scan::Going(st) => step(st, args.last()),
            other => other,
        }
    }
}

pub open spec fn parse_spec(args: Seq<Seq<char>>) -> Result<InvocationModel, Seq<char>> {
    match scan(args) {
        Scan::Help => Ok(InvocationModel::PrintHelp),
        Scan::Version => Ok(InvocationModel::PrintVersion),
        Scan::Unknown(v) => Err("unknown option: "@ + v),
        Scan::Going(st) => if st.all && st.positional.len() > 0 {
            Err("--all does not accept command names"@)
        } else if !st.all && st.positional.len() == 0 {
            Err("missing COMMAND; inspect one command or use --all"@)
        } else if st.show_missing && !st.all {
            Err("--show-missing is only valid with --all"@)
        } else {
            Ok(
                InvocationModel::Run(
                    ArgsModel {
                        mode: if st.all {
                            ModeModel::All
                        } else {
                            ModeModel::Inspect(st.positional)
                        },
                        explain: st.explain,
                        json: st.json,
                        show_missing: st.show_missing,
                    },
                ),
            )
        },
    }
}

pub open spec fn parse_view(r: Result<Invocation, String>) -> Result<InvocationModel, Seq<char>> {
    match r {
        Ok(i) => Ok(invocation_view(i)),
        Err(e) => Err(e@),
    }
}

/// Reads the command line (without the program name).
pub fn parse_args(arguments: &Vec<String>) -> (r: Result<Invocation, String>)
    ensures
        parse_view(r) == parse_spec(views(arguments@)),
{
    let ghost all_args = views(arguments@);
    let mut explain = false;
    let mut json = false;
    let mut show_missing = false;
    let mut all = false;
    let mut positional: Vec<String> = Vec::new();
    let mut positional_only = false;
    let mut i: usize = 0;
    proof {
        assert(all_args.take(0) =~= Seq::<Seq<char>>::empty());
        assert(views(positional@) =~= Seq::<Seq<char>>::empty());
    }
    while i < arguments.len()
        invariant
            all_args == views(arguments@),
            i <= arguments@.len(),
            scan(all_args.take(i as int)) == Scan::Going(
                ParseState { explain, json, show_missing, all, positional: views(positional@), positional_only },
            ),
        decreases arguments@.len() - i,
    {
        let argument = arguments[i].as_str();
        proof {
            assert(all_args.take(i + 1).drop_last() =~= all_args.take(i as int));
            assert(all_args.take(i + 1).last() == argument@);
        }
        let ghost before = positional@;
        if positional_only {
            positional.push(owned(argument));
            proof {
                assert(views(positional@) =~= views(before).push(argument@));
            }
        } else if str_eq(argument, "--") {
            positional_only = true;
        } else if str_eq(argument, "--explain") {
            explain = true;
        } else if str_eq(argument, "--json") {
            json = true;
        } else if str_eq(argument, "--all") {
            all = true;
        } else if str_eq(argument, "--show-missing") {
            show_missing = true;
        } else if str_eq(argument, "-h") || str_eq(argument, "--help") {
            proof {
                lemma_scan_stops(all_args, (i + 1) as int);
            }
            return Ok(Invocation::PrintHelp);
        } else if str_eq(argument, "-V") || str_eq(argument, "--version") {
            proof {
                lemma_scan_stops(all_args, (i + 1) as int);
            }
            return Ok(Invocation::PrintVersion);
        } else if starts_with_str(argument, "-") {
            proof {
                lemma_scan_stops(all_args, (i + 1) as int);
            }
            return Err(concat2("unknown option: ", argument));
        } else {
            positional.push(owned(argument));
            proof {
                assert(views(positional@) =~= views(before).push(argument@));
            }
        }
        i = i + 1;
    }
    proof {
        assert(all_args.take(arguments@.len() as int) =~= all_args);
    }
    if all && positional.len() > 0 {
        return Err(owned("--all does not accept command names"));
    }
    if !all && positional.len() == 0 {
        return Err(owned("missing COMMAND; inspect one command or use --all"));
    }
    if show_missing && !all {
        return Err(owned("--show-missing is only valid with --all"));
    }
    let mode = if all {
        Mode::All
    } else {
        Mode::Inspect(positional)
    };
    Ok(Invocation::Run(Args { mode, explain, json, show_missing }))
}

/// The exit status of a run whose arguments could not be read.
pub const USAGE_ERROR_STATUS: u8 = 2;

/// Whether some command asked for by name was not found on PATH.
pub open spec fn some_inspected_missing(mode: Mode, graphs: Seq<OwnershipGraph>) -> bool {
    mode is Inspect && exists|i: int| 0 <= i < graphs.len() && (#[trigger] graphs[i]).resolutions@.len() == 0
}

/// The exit status of a run that printed its graphs: 1 where a command asked
/// for by name was not found on PATH, otherwise 0. A runtime missing from
/// the `--all` summary is no failure.
pub fn exit_status(mode: &Mode, graphs: &Vec<OwnershipGraph>) -> (r: u8)
    ensures
        r == (if some_inspected_missing(*mode, graphs@) {
            1u8
        } else {
            0u8
        }),
{
    if let Mode::All = mode {
        return 0;
    }
    let mut i: usize = 0;
    while i < graphs.len()
        invariant
            *mode is Inspect,
            i <= graphs@.len(),
            forall|j: int| 0 <= j < i ==> (#[trigger] graphs@[j]).resolutions@.len() != 0,
        decreases graphs@.len() - i,
    {
        if graphs[i].resolutions.len() == 0 {
            proof {
                assert(*mode is Inspect);
                assert((graphs@[i as int]).resolutions@.len() == 0);
            }
            return 1;
        }
        i = i + 1;
    }
    0
}

/// Once reading stops, later arguments change nothing.
pub proof fn lemma_scan_stops(args: Seq<Seq<char>>, k: int)
    requires
        0 <= k <= args.len(),
        !(scan(args.take(k)) is Going),
    ensures
        scan(args) == scan(args.take(k)),
    decreases args.len() - k,
{
    if k < args.len() {
        assert(args.drop_last().take(k) =~= args.take(k));
        lemma_scan_stops(args.drop_last(), k);
    } else {
        assert(args.take(k) =~= args);
    }
}

} // verus!
