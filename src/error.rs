//! The failures that parsing and command execution report.
use vstd::prelude::*;

use crate::text::{concat, decimal, usize_to_decimal};

verus! {

/// A failure of the shell: parse errors, built-in errors and external failures.
/// None of them ends the shell; each is reported on the error channel.
#[derive(Debug, PartialEq, Eq)]
pub enum ShellError {
    /// No built-in and no executable on the search path has this name.
    CommandNotFound(String),
    /// A built-in got more arguments than it takes: what it expected, what it got.
    TooManyArguments(String, usize),
    /// A built-in needs at least this many arguments.
    EmptyArgs(usize),
    /// An argument had the wrong type; the expected type.
    ParsingError(String),
    /// A `cd` target that does not exist.
    DirectoryNotFound(String),
    /// A path that exists but is not a directory.
    NotADirectory(String),
    /// The line ended inside a quoted span.
    MissingClosingQuote,
    /// A redirection operator with no target after it.
    MissingRedirectionTarget,
    /// `type` found the name neither among built-ins nor on the search path.
    NotFound(String),
    /// Spawning or talking to an external process failed.
    External(String),
    /// An operating-system error that is not otherwise classified.
    Uncontroled(String),
}

/// The text that reports `e`.
pub open spec fn error_text(e: ShellError) -> Seq<char> {
    match e {
        ShellError::CommandNotFound(n) => n@ + ": command not found"@,
        ShellError::TooManyArguments(x, n) => "Too many arguments: expected "@ + x@ + ", got "@
            + decimal(n as nat),
        ShellError::EmptyArgs(n) => "No args received expected at least: "@ + decimal(n as nat),
        ShellError::ParsingError(x) => "Invalid arg type expected: "@ + x@,
        ShellError::DirectoryNotFound(p) => "cd: "@ + p@ + ": No such file or directory"@,
        ShellError::NotADirectory(p) => "cd: "@ + p@ + ": Not a directory"@,
        ShellError::MissingClosingQuote => "Missing closing quote"@,
        ShellError::MissingRedirectionTarget => "Missing filename after redirection operator"@,
        ShellError::NotFound(n) => n@ + ": not found"@,
        ShellError::External(m) => m@,
        ShellError::Uncontroled(m) => m@,
    }
}

impl ShellError {
    /// The message that reports this error, without a line break.
    pub fn message(&self) -> (r: String)
        ensures
            r@ == error_text(*self),
    {
        match self {
            ShellError::CommandNotFound(n) => concat(n.as_str(), ": command not found"),
            ShellError::TooManyArguments(x, n) => {
                let head = concat("Too many arguments: expected ", x.as_str());
                let head = concat(head.as_str(), ", got ");
                let count = usize_to_decimal(*n);
                concat(head.as_str(), count.as_str())
            },
            ShellError::EmptyArgs(n) => {
                let count = usize_to_decimal(*n);
                concat("No args received expected at least: ", count.as_str())
            },
            ShellError::ParsingError(x) => concat("Invalid arg type expected: ", x.as_str()),
            ShellError::DirectoryNotFound(p) => {
                let head = concat("cd: ", p.as_str());
                concat(head.as_str(), ": No such file or directory")
            },
            ShellError::NotADirectory(p) => {
                let head = concat("cd: ", p.as_str());
                concat(head.as_str(), ": Not a directory")
            },
            ShellError::MissingClosingQuote => String::from_str("Missing closing quote"),
            ShellError::MissingRedirectionTarget => String::from_str(
                "Missing filename after redirection operator",
            ),
            ShellError::NotFound(n) => concat(n.as_str(), ": not found"),
            ShellError::External(m) => m.clone(),
            ShellError::Uncontroled(m) => m.clone(),
        }
    }
}

} // verus!
