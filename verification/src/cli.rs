//! The command-line dispatcher: a fixed verb grammar mapped to store
//! operations, with strict arity checking.
use vstd::prelude::*;
use crate::digits::parse_u64;
use crate::digits::spec_parse_u64;

verus! {

/// A store operation that a well-formed command line asks for.
#[derive(Debug, PartialEq, Eq)]
pub enum Command {
    List,
    Add { description: String },
    Delete { id: u64 },
    Update { id: u64, description: String },
}

/// A command with its text as character sequences.
pub enum SpecCommand {
    List,
    Add { description: Seq<char> },
    Delete { id: u64 },
    Update { id: u64, description: Seq<char> },
}

impl View for Command {
    type V = SpecCommand;

    open spec fn view(&self) -> SpecCommand {
        match self {
            Command::List => SpecCommand::List,
            Command::Add { description } => SpecCommand::Add { description: description@ },
            Command::Delete { id } => SpecCommand::Delete { id: *id },
            Command::Update { id, description } => SpecCommand::Update {
                id: *id,
                description: description@,
            },
        }
    }
}

/// How the dispatcher answers a command line.
#[derive(Debug, PartialEq, Eq)]
pub enum Outcome {
    /// A well-formed command: run it against the store.
    Run(Command),
    /// A known verb with the wrong number of arguments: print usage
    /// to the error stream and exit non-zero, without touching the
    /// store.
    Usage,
    /// An id argument that is not a decimal number fitting 64 bits:
    /// a fatal parse error.
    BadId,
    /// An unknown verb: report it as not implemented and exit with
    /// success, a documented quirk of this tool.
    Unknown,
}

/// The dispatcher's answer with its text as character sequences.
pub enum SpecOutcome {
    Run(SpecCommand),
    Usage,
    BadId,
    Unknown,
}

impl View for Outcome {
    type V = SpecOutcome;

    open spec fn view(&self) -> SpecOutcome {
        match self {
            Outcome::Run(c) => SpecOutcome::Run(c@),
            Outcome::Usage => SpecOutcome::Usage,
            Outcome::BadId => SpecOutcome::BadId,
            Outcome::Unknown => SpecOutcome::Unknown,
        }
    }
}

/// The verb grammar, over the arguments that follow the program
/// name: `ls`, `add <task>`, `del <id>`, `update <id> <description>`.
/// A known verb with any other arity asks for usage advice; in
/// particular `update` with an id alone is answered with usage
/// advice, never with a write. A malformed id is a fatal parse
/// error, and an unknown verb is reported as not implemented.
pub open spec fn spec_parse_command(args: Seq<Seq<char>>) -> SpecOutcome {
    if args.len() == 0 {
        SpecOutcome::Usage
    } else if args[0] == "ls"@ {
        if args.len() == 1 {
            SpecOutcome::Run(SpecCommand::List)
        } else {
            SpecOutcome::Usage
        }
    } else if args[0] == "add"@ {
        if args.len() == 2 {
            SpecOutcome::Run(SpecCommand::Add { description: args[1] })
        } else {
            SpecOutcome::Usage
        }
    } else if args[0] == "del"@ {
        if args.len() == 2 {
            match spec_parse_u64(args[1]) {
                Some(id) => SpecOutcome::Run(SpecCommand::Delete { id }),
                None => SpecOutcome::BadId,
            }
        } else {
            SpecOutcome::Usage
        }
    } else if args[0] == "update"@ {
        if args.len() == 3 {
            match spec_parse_u64(args[1]) {
                Some(id) => SpecOutcome::Run(
                    SpecCommand::Update { id, description: args[2] },
                ),
                None => SpecOutcome::BadId,
            }
        } else {
            SpecOutcome::Usage
        }
    } else {
        SpecOutcome::Unknown
    }
}

pub(crate) fn str_eq(a: &str, b: &str) -> (r: bool)
    ensures
        r == (a@ == b@),
{
    let x: String = a.to_owned();
    let y: String = b.to_owned();
    x == y
}

/// Parse a command line, the program name already stripped, exactly
/// as `spec_parse_command` reads it.
pub fn parse_command(args: &Vec<String>) -> (r: Outcome)
    ensures
        r@ == spec_parse_command(args.deep_view()),
{
    if args.len() == 0 {
        return Outcome::Usage;
    }
    if str_eq(args[0].as_str(), "ls") {
        if args.len() == 1 {
            Outcome::Run(Command::List)
        } else {
            Outcome::Usage
        }
    } else if str_eq(args[0].as_str(), "add") {
        if args.len() == 2 {
            Outcome::Run(Command::Add { description: args[1].clone() })
        } else {
            Outcome::Usage
        }
    } else if str_eq(args[0].as_str(), "del") {
        if args.len() == 2 {
            match parse_u64(args[1].as_str()) {
                Some(id) => Outcome::Run(Command::Delete { id }),
                None => Outcome::BadId,
            }
        } else {
            Outcome::Usage
        }
    } else if str_eq(args[0].as_str(), "update") {
        if args.len() == 3 {
            match parse_u64(args[1].as_str()) {
                Some(id) => Outcome::Run(
                    Command::Update { id, description: args[2].clone() },
                ),
                None => Outcome::BadId,
            }
        } else {
            Outcome::Usage
        }
    } else {
        Outcome::Unknown
    }
}

/// An `update` given an id but no description is answered with usage
/// advice: never a store operation, never a silent write.
pub proof fn lemma_update_without_description_is_usage(args: Seq<Seq<char>>)
    requires
        args.len() == 2,
        args[0] == "update"@,
    ensures
        spec_parse_command(args) == SpecOutcome::Usage,
{
    reveal_strlit("ls");
    reveal_strlit("add");
    reveal_strlit("del");
    reveal_strlit("update");
    assert("update"@.len() == 6);
    assert("ls"@.len() == 2);
    assert("add"@.len() == 3);
    assert("del"@.len() == 3);
    assert(args[0].len() == 6);
    assert(args[0] != "ls"@);
    assert(args[0] != "add"@);
    assert(args[0] != "del"@);
}

} // verus!
