//! The errors that the engine reports.

use vstd::prelude::*;

verus! {

/// What went wrong, by the stage at which it went wrong.
#[derive(Clone, Copy, Debug, PartialEq, Eq, Structural)]
pub enum ErrorKind {
    /// The persisted tree or state is malformed or unreadable.
    Configuration,
    /// An environment, variable or command could not be resolved.
    Resolution,
    /// The request could not be sent or its response not read.
    Transport,
    /// The editor or a postscript did not complete.
    ExternalProcess,
}

/// An error to report to the user, with an optional hint.
#[derive(Debug)]
pub struct CliError {
    pub kind: ErrorKind,
    pub message: String,
    pub help: Option<String>,
}

impl CliError {
    pub fn new(kind: ErrorKind, message: &str) -> (r: CliError)
        ensures
            r.kind == kind,
            r.message@ == message@,
            r.help is None,
    {
        CliError { kind, message: String::from_str(message), help: None }
    }

    /// The text shown to the user.
    pub fn to_string(&self) -> (r: String)
        ensures
            r@ == self.message@,
    {
        self.message.clone()
    }
}

pub open spec fn is_error(r: CliError, kind: ErrorKind, message: Seq<char>) -> bool {
    r.kind == kind && r.message@ == message
}

/// No environment is selected for the directory.
pub fn env_not_set() -> (r: CliError)
    ensures
        is_error(r, ErrorKind::Resolution, "env not set"@),
{
    CliError::new(ErrorKind::Resolution, "env not set")
}

/// The selected environment is not in the configuration.
pub fn env_not_recognized() -> (r: CliError)
    ensures
        is_error(r, ErrorKind::Resolution, "env not recognized"@),
{
    CliError::new(ErrorKind::Resolution, "env not recognized")
}

/// A template refers to a variable that the environment lacks, or is malformed.
pub fn template_not_resolved() -> (r: CliError)
    ensures
        is_error(r, ErrorKind::Resolution, "template could not be resolved"@),
{
    CliError::new(ErrorKind::Resolution, "template could not be resolved")
}

/// The command path names no command of the tree.
pub fn command_not_recognized() -> (r: CliError)
    ensures
        is_error(r, ErrorKind::Resolution, "command not recognized"@),
{
    CliError::new(ErrorKind::Resolution, "command not recognized")
}

/// The command path ends at a group of commands.
pub fn no_command_selected() -> (r: CliError)
    ensures
        is_error(r, ErrorKind::Resolution, "no command selected"@),
{
    CliError::new(ErrorKind::Resolution, "no command selected")
}

/// A postscript ended with a failure.
pub fn postscript_failed() -> (r: CliError)
    ensures
        is_error(r, ErrorKind::ExternalProcess, "postscript failed"@),
{
    CliError::new(ErrorKind::ExternalProcess, "postscript failed")
}


/// No response has been kept for the directory.
pub fn no_last_request() -> (r: CliError)
    ensures
        is_error(r, ErrorKind::Resolution, "No last request found"@),
{
    CliError::new(ErrorKind::Resolution, "No last request found")
}

} // verus!
