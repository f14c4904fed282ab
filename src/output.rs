//! Routing a command's result to the terminal or to a redirection target.
use std::sync::Arc;

use vstd::prelude::*;

use crate::commands::CommandResult;
use crate::error::{error_text, ShellError};
use crate::file::FileManager;
use crate::redirection::{RedirectionChannel, RedirectionContext, RedirectionType};
use crate::text::push_char;

verus! {

/// Content for a file: replacing what it holds, or added at its end.
#[derive(Debug)]
pub struct FileWrite {
    pub path: String,
    pub contents: String,
    pub append: bool,
}

/// Where the output of one command goes: the terminal's two channels, at
/// most one file, and the status to end the shell with, if any.
#[derive(Debug)]
pub struct OutputPlan {
    pub exit: Option<i32>,
    pub stdout: String,
    pub stderr: String,
    pub file: Option<FileWrite>,
}

/// The text of an error as written on standard error: its message and a line break.
pub open spec fn reported(e: ShellError) -> Seq<char> {
    error_text(e).push('\n')
}

/// `plan` sends `out` and `err` where `red` says: the redirected channel
/// only to the file (truncating or appending), the other to the terminal.
pub open spec fn routes(
    out: Seq<char>,
    err: Seq<char>,
    red: Option<(Seq<char>, RedirectionType)>,
    plan: OutputPlan,
) -> bool {
    &&& plan.exit is None
    &&& match red {
        None => plan.stdout@ == out && plan.stderr@ == err && plan.file is None,
        Some((path, kind)) => match kind {
            RedirectionType::WriteOutput(RedirectionChannel::Stdout)
            | RedirectionType::AppendOutput(RedirectionChannel::Stdout) => {
                &&& plan.stdout@.len() == 0
                &&& plan.stderr@ == err
                &&& plan.file is Some
                &&& plan.file->Some_0.path@ == path
                &&& plan.file->Some_0.contents@ == out
                &&& plan.file->Some_0.append == (kind is AppendOutput)
            },
            _ => {
                &&& plan.stdout@ == out
                &&& plan.stderr@.len() == 0
                &&& plan.file is Some
                &&& plan.file->Some_0.path@ == path
                &&& plan.file->Some_0.contents@ == err
                &&& plan.file->Some_0.append == (kind is AppendOutput)
            },
        },
    }
}

pub open spec fn redirection_view(red: Option<RedirectionContext>) -> Option<
    (Seq<char>, RedirectionType),
> {
    match red {
        Some(r) => Some((r.path@, r.redirection_type)),
        None => None,
    }
}

/// Decides where command output goes.
pub struct OutputHandler {
    pub file_manager: Arc<FileManager>,
}

impl OutputHandler {
    pub fn new(file_manager: Arc<FileManager>) -> Self {
        OutputHandler { file_manager }
    }

    /// Sends `stdout` and `stderr` where `redirection` says.
    pub fn write_output(stdout: String, stderr: String, redirection: Option<RedirectionContext>) -> (r:
        OutputPlan)
        ensures
            routes(stdout@, stderr@, redirection_view(redirection), r),
    {
        match redirection {
            None => OutputPlan { exit: None, stdout, stderr, file: None },
            Some(red) => {
                let append = red.should_append_stdout() || red.should_append_stderr();
                if red.should_write_stdout() || red.should_append_stdout() {
                    OutputPlan {
                        exit: None,
                        stdout: String::new(),
                        stderr,
                        file: Some(FileWrite { path: red.path, contents: stdout, append }),
                    }
                } else {
                    OutputPlan {
                        exit: None,
                        stdout,
                        stderr: String::new(),
                        file: Some(FileWrite { path: red.path, contents: stderr, append }),
                    }
                }
            },
        }
    }

    /// Where the result of one command goes: `Exit` ends the shell, `Empty`
    /// writes nothing, an error is reported on standard error, and output
    /// follows the redirection.
    pub fn handle(&self, command_result: CommandResult, redirection: Option<RedirectionContext>) -> (r:
        OutputPlan)
        ensures
            match command_result {
                CommandResult::Exit(code) => r.exit == Some(code) && r.stdout@.len() == 0
                    && r.stderr@.len() == 0 && r.file is None,
                CommandResult::Empty => r.exit is None && r.stdout@.len() == 0 && r.stderr@.len()
                    == 0 && r.file is None,
                CommandResult::Stdio(out, err) => routes(
                    out@,
                    err@,
                    redirection_view(redirection),
                    r,
                ),
                CommandResult::Error(e) => routes(
                    Seq::empty(),
                    reported(e),
                    redirection_view(redirection),
                    r,
                ),
            },
    {
        match command_result {
            CommandResult::Exit(code) => OutputPlan {
                exit: Some(code),
                stdout: String::new(),
                stderr: String::new(),
                file: None,
            },
            CommandResult::Empty => OutputPlan {
                exit: None,
                stdout: String::new(),
                stderr: String::new(),
                file: None,
            },
            CommandResult::Stdio(out, err) => OutputHandler::write_output(out, err, redirection),
            CommandResult::Error(e) => {
                let mut text = e.message();
                push_char(&mut text, '\n');
                OutputHandler::write_output(String::new(), text, redirection)
            },
        }
    }
}

} // verus!

verus! {

/// With a redirection of one channel, none of that channel's bytes reach
/// the terminal and all of the other channel's bytes do.
pub proof fn lemma_redirection_isolation(
    out: Seq<char>,
    err: Seq<char>,
    path: Seq<char>,
    kind: RedirectionType,
    plan: OutputPlan,
)
    requires
        routes(out, err, Some((path, kind)), plan),
    ensures
        (kind == RedirectionType::WriteOutput(RedirectionChannel::Stdout) || kind
            == RedirectionType::AppendOutput(RedirectionChannel::Stdout)) ==> plan.stdout@.len()
            == 0 && plan.stderr@ == err,
        (kind == RedirectionType::WriteOutput(RedirectionChannel::Stderr) || kind
            == RedirectionType::AppendOutput(RedirectionChannel::Stderr)) ==> plan.stderr@.len()
            == 0 && plan.stdout@ == out,
{
}

} // verus!
