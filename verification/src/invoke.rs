//! How an incoming message resolved against the command table.

use vstd::prelude::*;
use vstd::string::StringExecFns;

verus! {

/// The outcome of parsing a message as a command invocation.
pub enum Invoke {
    /// A recognised top-level command, by name.
    Command(String),
    /// A recognised command and one of its subcommands.
    SubCommand { main: String, sub: String },
    /// The help command, possibly asking about one command.
    Help(Option<String>),
    /// Help arguments that could not be understood.
    FailedHelp(String),
    /// A prefix was given but no command matched the word after it.
    UnrecognisedCommand(String),
}

impl Invoke {
    /// The display name of the invocation: the command's own name, the
    /// hyphenated pair for a subcommand, and "help" for both help
    /// shapes.
    pub fn name(&self) -> (r: String)
        ensures
            r@ == match self {
                Invoke::Command(name) => name@,
                Invoke::SubCommand { main, sub } => main@ + "-"@ + sub@,
                Invoke::Help(_) => "help"@,
                Invoke::FailedHelp(_) => "help"@,
                Invoke::UnrecognisedCommand(name) => name@,
            },
    {
        match self {
            Invoke::Command(name) => name.clone(),
            Invoke::SubCommand { main, sub } => {
                let mut joined = main.clone();
                joined.append("-");
                joined.append(sub.as_str());
                joined
            },
            Invoke::Help(_) => String::from_str("help"),
            Invoke::FailedHelp(_) => String::from_str("help"),
            Invoke::UnrecognisedCommand(name) => name.clone(),
        }
    }
}

} // verus!
