//! Output redirection descriptors and the operators that introduce them.
use vstd::prelude::*;

use crate::text::chars_of;

verus! {

/// The output channel that a redirection captures.
#[derive(Debug, PartialEq, Eq, Clone, Copy, Structural)]
pub enum RedirectionChannel {
    Stdout,
    Stderr,
}

/// Whether a redirection replaces the file's content or adds to its end.
#[derive(Debug, PartialEq, Eq, Clone, Copy, Structural)]
pub enum RedirectionType {
    WriteOutput(RedirectionChannel),
    AppendOutput(RedirectionChannel),
}

/// The redirection that the standalone token `t` denotes, if it is an operator:
/// `>` and `1>` (stdout, truncate), `2>` (stderr, truncate), `>>` and `1>>`
/// (stdout, append), `2>>` (stderr, append).
pub open spec fn redirection_of(t: Seq<char>) -> Option<RedirectionType> {
    if t == seq!['>'] || t == seq!['1', '>'] {
        Some(RedirectionType::WriteOutput(RedirectionChannel::Stdout))
    } else if t == seq!['2', '>'] {
        Some(RedirectionType::WriteOutput(RedirectionChannel::Stderr))
    } else if t == seq!['>', '>'] || t == seq!['1', '>', '>'] {
        Some(RedirectionType::AppendOutput(RedirectionChannel::Stdout))
    } else if t == seq!['2', '>', '>'] {
        Some(RedirectionType::AppendOutput(RedirectionChannel::Stderr))
    } else {
        None
    }
}

impl RedirectionType {
    /// The redirection that `token` denotes, if it is a redirection operator.
    pub fn from_token(token: &str) -> (r: Option<RedirectionType>)
        ensures
            r == redirection_of(token@),
    {
        let c = chars_of(token);
        let n = c.len();
        let stdout_write = RedirectionType::WriteOutput(RedirectionChannel::Stdout);
        let stderr_write = RedirectionType::WriteOutput(RedirectionChannel::Stderr);
        let stdout_append = RedirectionType::AppendOutput(RedirectionChannel::Stdout);
        let stderr_append = RedirectionType::AppendOutput(RedirectionChannel::Stderr);
        if n == 1 && c[0] == '>' {
            assert(c@ =~= seq!['>']);
            Some(stdout_write)
        } else if n == 2 && c[0] == '1' && c[1] == '>' {
            assert(c@ =~= seq!['1', '>']);
            Some(stdout_write)
        } else if n == 2 && c[0] == '2' && c[1] == '>' {
            assert(c@ =~= seq!['2', '>']);
            Some(stderr_write)
        } else if n == 2 && c[0] == '>' && c[1] == '>' {
            assert(c@ =~= seq!['>', '>']);
            Some(stdout_append)
        } else if n == 3 && c[0] == '1' && c[1] == '>' && c[2] == '>' {
            assert(c@ =~= seq!['1', '>', '>']);
            Some(stdout_append)
        } else if n == 3 && c[0] == '2' && c[1] == '>' && c[2] == '>' {
            assert(c@ =~= seq!['2', '>', '>']);
            Some(stderr_append)
        } else {
            assert(c@ != seq!['>']);
            assert(c@ != seq!['1', '>']);
            assert(c@ != seq!['2', '>']);
            assert(c@ != seq!['>', '>']);
            assert(c@ != seq!['1', '>', '>']);
            assert(c@ != seq!['2', '>', '>']);
            None
        }
    }
}

/// A recognised redirection: the target path and what goes there.
#[derive(Debug)]
pub struct RedirectionContext {
    pub path: String,
    pub redirection_type: RedirectionType,
}

impl RedirectionContext {
    pub fn new(path: String, redirection_type: RedirectionType) -> (r: Self)
        ensures
            r.path == path,
            r.redirection_type == redirection_type,
    {
        RedirectionContext { path, redirection_type }
    }

    /// Standard error replaces the file's content.
    pub fn should_write_stderr(&self) -> (r: bool)
        ensures
            r == (self.redirection_type == RedirectionType::WriteOutput(RedirectionChannel::Stderr)),
    {
        matches!(self.redirection_type, RedirectionType::WriteOutput(RedirectionChannel::Stderr))
    }

    /// Standard output replaces the file's content.
    pub fn should_write_stdout(&self) -> (r: bool)
        ensures
            r == (self.redirection_type == RedirectionType::WriteOutput(RedirectionChannel::Stdout)),
    {
        matches!(self.redirection_type, RedirectionType::WriteOutput(RedirectionChannel::Stdout))
    }

    /// Standard output goes to the end of the file.
    pub fn should_append_stdout(&self) -> (r: bool)
        ensures
            r == (self.redirection_type == RedirectionType::AppendOutput(
                RedirectionChannel::Stdout,
            )),
    {
        matches!(self.redirection_type, RedirectionType::AppendOutput(RedirectionChannel::Stdout))
    }

    /// Standard error goes to the end of the file.
    pub fn should_append_stderr(&self) -> (r: bool)
        ensures
            r == (self.redirection_type == RedirectionType::AppendOutput(
                RedirectionChannel::Stderr,
            )),
    {
        matches!(self.redirection_type, RedirectionType::AppendOutput(RedirectionChannel::Stderr))
    }
}

} // verus!
