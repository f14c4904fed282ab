//! The built-in commands, the registry that maps names to them, and the
//! dispatcher that falls back to an external executable.
use std::sync::Arc;

use vstd::prelude::*;

use crate::error::ShellError;
use crate::file::{means_home, FileManager, PathKind};
use crate::parser::ParsedCommand;
use crate::path::{join_dir, join_path, PathDirsProvider};
use crate::text::{chars_of, clone_strings, concat, join, join_strings, string_of, views};

verus! {

/// The names of the built-in commands.
#[derive(Debug, Hash, PartialEq, Eq, Clone, Copy, Structural)]
pub enum CommandToken {
    Exit,
    Echo,
    Type,
    Pwd,
    Cd,
}

/// The name under which each built-in is invoked.
pub open spec fn token_name(t: CommandToken) -> Seq<char> {
    match t {
        CommandToken::Exit => seq!['e', 'x', 'i', 't'],
        CommandToken::Echo => seq!['e', 'c', 'h', 'o'],
        CommandToken::Type => seq!['t', 'y', 'p', 'e'],
        CommandToken::Pwd => seq!['p', 'w', 'd'],
        CommandToken::Cd => seq!['c', 'd'],
    }
}

/// The built-in invoked as `name`, if any.
pub open spec fn token_of(name: Seq<char>) -> Option<CommandToken> {
    if name == token_name(CommandToken::Exit) {
        Some(CommandToken::Exit)
    } else if name == token_name(CommandToken::Echo) {
        Some(CommandToken::Echo)
    } else if name == token_name(CommandToken::Type) {
        Some(CommandToken::Type)
    } else if name == token_name(CommandToken::Pwd) {
        Some(CommandToken::Pwd)
    } else if name == token_name(CommandToken::Cd) {
        Some(CommandToken::Cd)
    } else {
        None
    }
}

/// The built-in names in declaration order.
pub open spec fn builtin_names() -> Seq<Seq<char>> {
    seq![
        token_name(CommandToken::Exit),
        token_name(CommandToken::Echo),
        token_name(CommandToken::Type),
        token_name(CommandToken::Pwd),
        token_name(CommandToken::Cd),
    ]
}

impl CommandToken {
    /// The built-in invoked as `command`, or `CommandNotFound`.
    pub fn from_name(command: &str) -> (r: Result<CommandToken, ShellError>)
        ensures
            match token_of(command@) {
                Some(t) => r == Ok::<CommandToken, ShellError>(t),
                None => match r {
                    Err(ShellError::CommandNotFound(n)) => n@ == command@,
                    _ => false,
                },
            },
    {
        let c = chars_of(command);
        let n = c.len();
        if n == 4 && c[0] == 'e' && c[1] == 'x' && c[2] == 'i' && c[3] == 't' {
            assert(c@ =~= token_name(CommandToken::Exit));
            return Ok(CommandToken::Exit);
        }
        if n == 4 && c[0] == 'e' && c[1] == 'c' && c[2] == 'h' && c[3] == 'o' {
            assert(c@ =~= token_name(CommandToken::Echo));
            return Ok(CommandToken::Echo);
        }
        if n == 4 && c[0] == 't' && c[1] == 'y' && c[2] == 'p' && c[3] == 'e' {
            assert(c@ =~= token_name(CommandToken::Type));
            return Ok(CommandToken::Type);
        }
        if n == 3 && c[0] == 'p' && c[1] == 'w' && c[2] == 'd' {
            assert(c@ =~= token_name(CommandToken::Pwd));
            return Ok(CommandToken::Pwd);
        }
        if n == 2 && c[0] == 'c' && c[1] == 'd' {
            assert(c@ =~= token_name(CommandToken::Cd));
            return Ok(CommandToken::Cd);
        }
        proof {
            if c@ == token_name(CommandToken::Exit) {
                assert(c@[1] == 'x');
            }
            if c@ == token_name(CommandToken::Echo) {
                assert(c@[1] == 'c');
            }
            if c@ == token_name(CommandToken::Type) {
                assert(c@[1] == 'y');
            }
            if c@ == token_name(CommandToken::Pwd) {
                assert(c@[1] == 'w');
            }
            if c@ == token_name(CommandToken::Cd) {
                assert(c@[1] == 'd');
            }
        }
        Err(ShellError::CommandNotFound(String::from_str(command)))
    }

    /// The name under which this built-in is invoked.
    pub fn name(&self) -> (r: String)
        ensures
            r@ == token_name(*self),
    {
        let cs: Vec<char> = match self {
            CommandToken::Exit => vec!['e', 'x', 'i', 't'],
            CommandToken::Echo => vec!['e', 'c', 'h', 'o'],
            CommandToken::Type => vec!['t', 'y', 'p', 'e'],
            CommandToken::Pwd => vec!['p', 'w', 'd'],
            CommandToken::Cd => vec!['c', 'd'],
        };
        assert(cs@ =~= token_name(*self));
        string_of(&cs)
    }

    /// The names of all built-ins, the candidates of the first completion stage.
    pub fn into_completion() -> (r: Vec<String>)
        ensures
            views(r@) == builtin_names(),
    {
        let mut r: Vec<String> = Vec::new();
        r.push(CommandToken::Exit.name());
        r.push(CommandToken::Echo.name());
        r.push(CommandToken::Type.name());
        r.push(CommandToken::Pwd.name());
        r.push(CommandToken::Cd.name());
        assert(views(r@) =~= builtin_names());
        r
    }
}

/// What a command produced.
#[derive(Debug, PartialEq, Eq)]
pub enum CommandResult {
    /// End the shell with this status.
    Exit(i32),
    /// Text for standard output and standard error.
    Stdio(String, String),
    /// Success without output.
    Empty,
    /// A failure, reported on standard error.
    Error(ShellError),
}

impl CommandResult {
    pub fn stdout(buffer: &str) -> (r: Self)
        ensures
            match r {
                CommandResult::Stdio(o, e) => o@ == buffer@ && e@.len() == 0,
                _ => false,
            },
    {
        CommandResult::Stdio(String::from_str(buffer), String::new())
    }

    pub fn stderr(buffer: &str) -> (r: Self)
        ensures
            match r {
                CommandResult::Stdio(o, e) => o@.len() == 0 && e@ == buffer@,
                _ => false,
            },
    {
        CommandResult::Stdio(String::new(), String::from_str(buffer))
    }
}

/// `r` is standard output `out` with empty standard error.
pub open spec fn is_stdout(r: Result<CommandResult, ShellError>, out: Seq<char>) -> bool {
    match r {
        Ok(CommandResult::Stdio(o, e)) => o@ == out && e@.len() == 0,
        _ => false,
    }
}

pub open spec fn is_digit(c: char) -> bool {
    c == '0' || c == '1' || c == '2' || c == '3' || c == '4' || c == '5' || c == '6' || c == '7'
        || c == '8' || c == '9'
}

/// The value of the decimal digit `c`, if it is one.
fn digit_value(c: char) -> (r: Option<i64>)
    ensures
        is_digit(c) <==> r is Some,
        r is Some ==> r->Some_0 == (c as int) - 48 && 0 <= r->Some_0 <= 9,
{
    match c {
        '0' => Some(0),
        '1' => Some(1),
        '2' => Some(2),
        '3' => Some(3),
        '4' => Some(4),
        '5' => Some(5),
        '6' => Some(6),
        '7' => Some(7),
        '8' => Some(8),
        '9' => Some(9),
        _ => None,
    }
}

/// The value of a string of decimal digits.
pub open spec fn digits_value(d: Seq<char>) -> int
    decreases d.len(),
{
    if d.len() == 0 {
        0
    } else {
        digits_value(d.drop_last()) * 10 + ((d.last() as int) - 48)
    }
}

/// The length of the sign in front of the digits of `s`: 1 for `+` or `-`, else 0.
pub open spec fn sign_len(s: Seq<char>) -> int {
    if s.len() > 0 && (s[0] == '-' || s[0] == '+') {
        1
    } else {
        0
    }
}

pub open spec fn all_digits(d: Seq<char>) -> bool {
    forall|i: int| 0 <= i < d.len() ==> is_digit(#[trigger] d[i])
}

/// The signed 32-bit integer that `s` denotes: an optional `+` or `-`, then
/// one or more decimal digits, with the value in range.
pub open spec fn i32_of(s: Seq<char>) -> Option<i32> {
    let d = s.skip(sign_len(s));
    let v = if s.len() > 0 && s[0] == '-' {
        -digits_value(d)
    } else {
        digits_value(d)
    };
    if d.len() > 0 && all_digits(d) && i32::MIN <= v <= i32::MAX {
        Some(v as i32)
    } else {
        None
    }
}

proof fn lemma_digits_value_grows(d: Seq<char>, k: int)
    requires
        0 <= k <= d.len(),
        forall|i: int| 0 <= i < d.len() ==> is_digit(#[trigger] d[i]),
    ensures
        0 <= digits_value(d.take(k)) <= digits_value(d),
    decreases d.len(),
{
    if d.len() > 0 {
        if k == d.len() {
            assert(d.take(k) =~= d);
            lemma_digits_value_grows(d.drop_last(), k - 1);
            assert(d.drop_last().take(k - 1) =~= d.drop_last());
        } else {
            lemma_digits_value_grows(d.drop_last(), k);
            assert(d.drop_last().take(k) =~= d.take(k));
            lemma_digits_value_grows(d.drop_last(), d.len() - 1);
            assert(d.drop_last().take(d.len() - 1) =~= d.drop_last());
        }
    } else {
        assert(d.take(k) =~= d);
    }
}

/// Reads a signed 32-bit integer written in decimal.
pub fn parse_i32(s: &str) -> (r: Option<i32>)
    ensures
        r == i32_of(s@),
{
    let c = chars_of(s);
    let n = c.len();
    let negative = n > 0 && c[0] == '-';
    let start: usize = if n > 0 && (c[0] == '-' || c[0] == '+') {
        1
    } else {
        0
    };
    let ghost d = s@.skip(start as int);
    assert(start == sign_len(s@));
    if start == n {
        return None;
    }
    let mut acc: i64 = 0;
    let mut i: usize = start;
    assert(d.take(0) =~= Seq::<char>::empty());
    while i < n
        invariant
            c@ == s@,
            n == c@.len(),
            start <= i <= n,
            d == s@.skip(start as int),
            start == sign_len(s@),
            forall|j: int| 0 <= j < i - start ==> is_digit(#[trigger] d[j]),
            acc == digits_value(d.take(i - start)),
            0 <= acc <= 2147483648,
        decreases n - i,
    {
        let ch = c[i];
        assert(d[i - start] == ch);
        let dv = match digit_value(ch) {
            Some(v) => v,
            None => {
                assert(!is_digit(d[i - start]));
                assert(!all_digits(d));
                assert(s@.skip(sign_len(s@)) == d);
                assert(i32_of(s@) is None);
                return None;
            },
        };
        assert(d.take(i + 1 - start).drop_last() =~= d.take(i - start));
        assert(d.take(i + 1 - start).last() == ch);
        acc = acc * 10 + dv;
        i += 1;
        assert(acc == digits_value(d.take(i - start)));
        if acc > 2147483648 {
            proof {
                if forall|j: int| 0 <= j < d.len() ==> is_digit(#[trigger] d[j]) {
                    lemma_digits_value_grows(d, i - start);
                    assert(digits_value(d) > 2147483648);
                    assert(s@.skip(sign_len(s@)) == d);
                    assert(i32_of(s@) is None);
                }
            }
            return None;
        }
    }
    assert(d.take(n - start) =~= d);
    if negative {
        Some((-acc) as i32)
    } else if acc > 2147483647 {
        None
    } else {
        Some(acc as i32)
    }
}

/// The outcome of `exit` on `args`.
pub open spec fn exit_result(args: Seq<Seq<char>>, r: Result<CommandResult, ShellError>) -> bool {
    if args.len() > 1 {
        match r {
            Err(ShellError::TooManyArguments(x, n)) => x@ == "at most 1"@ && n == args.len(),
            _ => false,
        }
    } else if args.len() == 1 {
        match i32_of(args[0]) {
            Some(v) => r == Ok::<CommandResult, ShellError>(CommandResult::Exit(v)),
            None => match r {
                Err(ShellError::ParsingError(x)) => x@ == "integer"@,
                _ => false,
            },
        }
    } else {
        r == Ok::<CommandResult, ShellError>(CommandResult::Exit(0))
    }
}

/// `exit [n]`.
pub struct Exit;

impl Exit {
    pub fn execute(&self, args: &[String]) -> (r: Result<CommandResult, ShellError>)
        ensures
            exit_result(views(args@), r),
    {
        if args.len() > 1 {
            return Err(ShellError::TooManyArguments(String::from_str("at most 1"), args.len()));
        }
        if args.len() == 1 {
            return match parse_i32(args[0].as_str()) {
                Some(code) => Ok(CommandResult::Exit(code)),
                None => Err(ShellError::ParsingError(String::from_str("integer"))),
            };
        }
        Ok(CommandResult::Exit(0))
    }
}

/// The text that `echo` prints for `args`.
pub open spec fn echo_text(args: Seq<Seq<char>>) -> Seq<char> {
    join(args, seq![' ']).push('\n')
}

/// `echo [args...]`.
pub struct Echo;

impl Echo {
    pub fn execute(&self, args: &[String]) -> (r: Result<CommandResult, ShellError>)
        ensures
            is_stdout(r, echo_text(views(args@))),
    {
        let joined = join_strings(args, " ");
        let text = concat(joined.as_str(), "\n");
        proof {
            reveal_strlit(" ");
            reveal_strlit("\n");
            assert(" "@ =~= seq![' ']);
            assert("\n"@ =~= seq!['\n']);
            assert(text@ =~= echo_text(views(args@)));
        }
        Ok(CommandResult::Stdio(text, String::new()))
    }
}

/// The outcome of `pwd`, given what asking for the working directory gave.
pub open spec fn pwd_result(cwd: Result<String, String>, r: Result<CommandResult, ShellError>) -> bool {
    match cwd {
        Ok(d) => is_stdout(r, d@.push('\n')),
        Err(e) => match r {
            Err(ShellError::Uncontroled(m)) => m@ == e@,
            _ => false,
        },
    }
}

/// `pwd`.
pub struct Pwd;

impl Pwd {
    pub fn execute(&self, current_dir: &Result<String, String>) -> (r: Result<
        CommandResult,
        ShellError,
    >)
        ensures
            pwd_result(*current_dir, r),
    {
        match current_dir {
            Ok(dir) => {
                let text = concat(dir.as_str(), "\n");
                proof {
                    reveal_strlit("\n");
                    assert("\n"@ =~= seq!['\n']);
                    assert(text@ =~= dir@.push('\n'));
                }
                Ok(CommandResult::Stdio(text, String::new()))
            },
            Err(e) => Err(ShellError::Uncontroled(e.clone())),
        }
    }
}

/// The directory that `cd` aims at for the argument `arg`.
pub open spec fn cd_target(arg: Seq<char>, home: Seq<char>) -> Seq<char> {
    if means_home(arg) {
        home
    } else if arg.len() >= 2 && arg[0] == '~' && arg[1] == '/' {
        join_path(home, arg.skip(2))
    } else {
        arg
    }
}

/// `probe` may report `k` for the path `path`.
pub open spec fn kind_says<G: Fn(&str) -> PathKind>(probe: G, path: Seq<char>, k: PathKind) -> bool {
    exists|s: &str| s@ == path && #[trigger] probe.ensures((s,), k)
}

/// The outcome of `cd` on `args`: the directory to enter, or the error.
pub open spec fn cd_result<G: Fn(&str) -> PathKind>(
    args: Seq<Seq<char>>,
    home: Seq<char>,
    probe: G,
    r: Result<String, ShellError>,
) -> bool {
    if args.len() > 1 {
        match r {
            Err(ShellError::TooManyArguments(x, n)) => x@ == "1"@ && n == args.len(),
            _ => false,
        }
    } else {
        let t = cd_target(if args.len() == 1 { args[0] } else { Seq::empty() }, home);
        match r {
            Ok(d) => d@ == t && kind_says(probe, t, PathKind::Directory),
            Err(ShellError::DirectoryNotFound(p)) => p@ == t && kind_says(probe, t, PathKind::Missing),
            Err(ShellError::NotADirectory(p)) => p@ == t && kind_says(probe, t, PathKind::Other),
            _ => false,
        }
    }
}

/// `cd [path]`.
pub struct Cd {
    pub file_manager: Arc<FileManager>,
}

impl Cd {
    pub fn new(file_manager: Arc<FileManager>) -> Self {
        Cd { file_manager }
    }

    /// The directory to enter for `args`, checked with `kind_of`; entering it
    /// is left to the caller.
    pub fn execute<G: Fn(&str) -> PathKind>(&self, args: &[String], home: &str, kind_of: &G) -> (r:
        Result<String, ShellError>)
        requires
            forall|s: &str| kind_of.requires((s,)),
        ensures
            cd_result(views(args@), home@, *kind_of, r),
    {
        if args.len() > 1 {
            return Err(ShellError::TooManyArguments(String::from_str("1"), args.len()));
        }
        let arg: &str = if args.len() == 1 {
            args[0].as_str()
        } else {
            ""
        };
        proof {
            reveal_strlit("");
        }
        assert(args@.len() == 1 ==> views(args@)[0] == arg@);
        assert(args@.len() == 0 ==> arg@ =~= Seq::<char>::empty());
        let path = if self.file_manager.should_go_to_homedir(arg) {
            String::from_str(home)
        } else {
            let c = chars_of(arg);
            if c.len() >= 2 && c[0] == '~' && c[1] == '/' {
                let mut rest: Vec<char> = Vec::new();
                let mut i: usize = 2;
                while i < c.len()
                    invariant
                        2 <= i <= c@.len(),
                        rest@ == c@.subrange(2, i as int),
                    decreases c@.len() - i,
                {
                    rest.push(c[i]);
                    assert(rest@ =~= c@.subrange(2, i + 1));
                    i += 1;
                }
                assert(rest@ =~= arg@.skip(2));
                let rest = string_of(&rest);
                join_dir(home, rest.as_str())
            } else {
                String::from_str(arg)
            }
        };
        let kind = kind_of(path.as_str());
        assert(kind_says(*kind_of, path@, kind));
        match kind {
            PathKind::Directory => Ok(path),
            PathKind::Missing => Err(ShellError::DirectoryNotFound(path)),
            PathKind::Other => Err(ShellError::NotADirectory(path)),
        }
    }
}

} // verus!

verus! {

/// The outcome of `type` on `args`.
pub open spec fn type_result<F: Fn(&str) -> bool>(
    args: Seq<Seq<char>>,
    dirs: PathDirsProvider,
    probe: F,
    r: Result<CommandResult, ShellError>,
) -> bool {
    if args.len() == 0 {
        r == Err::<CommandResult, ShellError>(ShellError::EmptyArgs(1))
    } else if args.len() > 1 {
        match r {
            Err(ShellError::TooManyArguments(x, n)) => x@ == "1"@ && n == args.len(),
            _ => false,
        }
    } else if token_of(args[0]) is Some {
        is_stdout(r, args[0] + " is a shell builtin\n"@)
    } else {
        match r {
            Ok(CommandResult::Stdio(o, e)) => e@.len() == 0 && exists|p: Seq<char>|
                dirs.search_hit(args[0], probe, p) && o@ == args[0] + " is "@ + p + "\n"@,
            Err(ShellError::NotFound(n)) => n@ == args[0] && dirs.search_miss(args[0], probe),
            _ => false,
        }
    }
}

/// `type <name>`.
pub struct Type {
    pub path_dirs: Arc<PathDirsProvider>,
}

impl Type {
    pub fn new(path_dirs: Arc<PathDirsProvider>) -> (r: Self)
        ensures
            r.path_dirs == path_dirs,
    {
        Type { path_dirs }
    }

    pub fn execute<F: Fn(&str) -> bool>(&self, args: &[String], is_executable: &F) -> (r: Result<
        CommandResult,
        ShellError,
    >)
        requires
            forall|s: &str| is_executable.requires((s,)),
        ensures
            type_result(views(args@), *self.path_dirs, *is_executable, r),
    {
        if args.len() == 0 {
            return Err(ShellError::EmptyArgs(1));
        }
        if args.len() > 1 {
            return Err(ShellError::TooManyArguments(String::from_str("1"), args.len()));
        }
        let arg = args[0].as_str();
        assert(views(args@)[0] == arg@);
        if CommandToken::from_name(arg).is_ok() {
            let text = concat(arg, " is a shell builtin\n");
            return Ok(CommandResult::Stdio(text, String::new()));
        }
        match self.path_dirs.find_executable(arg, is_executable) {
            Some(exe_path) => {
                let head = concat(arg, " is ");
                let head = concat(head.as_str(), exe_path.as_str());
                let text = concat(head.as_str(), "\n");
                assert(text@ =~= arg@ + " is "@ + exe_path@ + "\n"@);
                Ok(CommandResult::Stdio(text, String::new()))
            },
            None => Err(ShellError::NotFound(String::from_str(arg))),
        }
    }
}

/// What the shell is to do for a command.
#[derive(Debug)]
pub enum Dispatch {
    /// The command has run; this is its result.
    Done(Result<CommandResult, ShellError>),
    /// `cd` succeeds once the working directory becomes this directory.
    ChangeDir(String),
    /// Run the executable at `program`, invoked as `name`, with `args`;
    /// its captured output is the result.
    Spawn { program: String, name: String, args: Vec<String> },
}

/// The fallback handler: an executable found on the search path.
pub struct ExternalCommand {
    pub path_dirs: Arc<PathDirsProvider>,
}

impl ExternalCommand {
    pub fn new(path_dirs: Arc<PathDirsProvider>) -> (r: Self)
        ensures
            r.path_dirs == path_dirs,
    {
        ExternalCommand { path_dirs }
    }

    /// Resolves `command` on the search path: the executable to run, or
    /// `CommandNotFound`.
    pub fn handler<F: Fn(&str) -> bool>(
        &self,
        command: &str,
        args: &[String],
        is_executable: &F,
    ) -> (r: Result<Dispatch, ShellError>)
        requires
            forall|s: &str| is_executable.requires((s,)),
        ensures
            match r {
                Ok(Dispatch::Spawn { program, name, args: a }) => self.path_dirs.search_hit(
                    command@,
                    *is_executable,
                    program@,
                ) && name@ == command@ && a@ == args@,
                Err(ShellError::CommandNotFound(n)) => n@ == command@
                    && self.path_dirs.search_miss(command@, *is_executable),
                _ => false,
            },
    {
        match self.path_dirs.find_executable(command, is_executable) {
            Some(program) => Ok(
                Dispatch::Spawn { program, name: String::from_str(command), args: clone_strings(args) },
            ),
            None => Err(ShellError::CommandNotFound(String::from_str(command))),
        }
    }
}

} // verus!

verus! {

/// A built-in command handler.
pub enum Builtin {
    Exit(Exit),
    Echo(Echo),
    Type(Type),
    Pwd(Pwd),
    Cd(Cd),
}

/// The slot of each built-in in the registry.
pub open spec fn token_index(t: CommandToken) -> int {
    match t {
        CommandToken::Exit => 0,
        CommandToken::Echo => 1,
        CommandToken::Type => 2,
        CommandToken::Pwd => 3,
        CommandToken::Cd => 4,
    }
}

fn slot_of(t: CommandToken) -> (r: usize)
    ensures
        r == token_index(t),
{
    match t {
        CommandToken::Exit => 0,
        CommandToken::Echo => 1,
        CommandToken::Type => 2,
        CommandToken::Pwd => 3,
        CommandToken::Cd => 4,
    }
}

/// What the environment tells the dispatcher: the working directory (or the
/// error met asking for it) and the home directory.
pub struct ShellEnv {
    pub current_dir: Result<String, String>,
    pub home: String,
}

/// The first handler of the dispatch chain: the registered built-ins, with
/// the external executor as the fallback.
pub struct CommandRegistry {
    pub registry: Vec<Option<Builtin>>,
    pub path_dirs: Arc<PathDirsProvider>,
    pub next: ExternalCommand,
}

/// What the dispatcher does for the command `cmd` with arguments `args`:
/// a registered built-in handles it, and any other name is looked up on the
/// search path.
pub open spec fn dispatch_result<F: Fn(&str) -> bool, G: Fn(&str) -> PathKind>(
    reg: CommandRegistry,
    cmd: Seq<char>,
    args: Seq<Seq<char>>,
    env: ShellEnv,
    is_executable: F,
    kind_of: G,
    r: Dispatch,
) -> bool {
    match reg.lookup(cmd) {
        Some(Builtin::Exit(_)) => match r {
            Dispatch::Done(x) => exit_result(args, x),
            _ => false,
        },
        Some(Builtin::Echo(_)) => match r {
            Dispatch::Done(x) => is_stdout(x, echo_text(args)),
            _ => false,
        },
        Some(Builtin::Pwd(_)) => match r {
            Dispatch::Done(x) => pwd_result(env.current_dir, x),
            _ => false,
        },
        Some(Builtin::Type(t)) => match r {
            Dispatch::Done(x) => type_result(args, *t.path_dirs, is_executable, x),
            _ => false,
        },
        Some(Builtin::Cd(_)) => match r {
            Dispatch::ChangeDir(d) => cd_result(args, env.home@, kind_of, Ok(d)),
            Dispatch::Done(Err(e)) => cd_result(args, env.home@, kind_of, Err(e)),
            _ => false,
        },
        None => match r {
            Dispatch::Spawn { program, name, args: a } => reg.next.path_dirs.search_hit(
                cmd,
                is_executable,
                program@,
            ) && name@ == cmd && views(a@) == args,
            Dispatch::Done(Err(ShellError::CommandNotFound(n))) => n@ == cmd
                && reg.next.path_dirs.search_miss(cmd, is_executable),
            _ => false,
        },
    }
}

impl CommandRegistry {
    pub open spec fn wf(&self) -> bool {
        self.registry@.len() == 5
    }

    /// The handler registered for the built-in `t`.
    pub open spec fn entry(&self, t: CommandToken) -> Option<Builtin> {
        self.registry@[token_index(t)]
    }

    /// The handler that the name `cmd` reaches, if any.
    pub open spec fn lookup(&self, cmd: Seq<char>) -> Option<Builtin> {
        match token_of(cmd) {
            Some(t) => self.entry(t),
            None => None,
        }
    }

    /// An empty registry in front of `next`.
    pub fn new(path_dirs: Arc<PathDirsProvider>, next: ExternalCommand) -> (r: Self)
        ensures
            r.wf(),
            forall|t: CommandToken| r.entry(t) is None,
            r.path_dirs == path_dirs,
            r.next == next,
    {
        let mut registry: Vec<Option<Builtin>> = Vec::new();
        registry.push(None);
        registry.push(None);
        registry.push(None);
        registry.push(None);
        registry.push(None);
        CommandRegistry { registry, path_dirs, next }
    }

    /// Registers `command` as the handler of `token`, replacing any earlier one.
    pub fn register(&mut self, token: CommandToken, command: Builtin)
        requires
            old(self).wf(),
        ensures
            final(self).wf(),
            final(self).entry(token) == Some(command),
            forall|t: CommandToken| t != token ==> final(self).entry(t) == old(self).entry(t),
            final(self).path_dirs == old(self).path_dirs,
            final(self).next == old(self).next,
    {
        let k = slot_of(token);
        self.registry.set(k, Some(command));
        proof {
            assert forall|t: CommandToken| t != token implies self.entry(t) == old(self).entry(t) by {
                assert(token_index(t) != token_index(token));
            }
        }
    }

    /// The handler registered under the name `command`, or `CommandNotFound`.
    pub fn try_get(&self, command: &str) -> (r: Result<&Builtin, ShellError>)
        requires
            self.wf(),
        ensures
            match self.lookup(command@) {
                Some(b) => r is Ok && *r->Ok_0 == b,
                None => match r {
                    Err(ShellError::CommandNotFound(n)) => n@ == command@,
                    _ => false,
                },
            },
    {
        let token = CommandToken::from_name(command)?;
        match &self.registry[slot_of(token)] {
            Some(b) => Ok(b),
            None => Err(ShellError::CommandNotFound(String::from_str(command))),
        }
    }

    /// Handles one parsed command: a registered built-in runs; a name that
    /// no built-in answers to goes on to the external executor.
    pub fn execute<F: Fn(&str) -> bool, G: Fn(&str) -> PathKind>(
        &self,
        input: &ParsedCommand,
        env: &ShellEnv,
        is_executable: &F,
        kind_of: &G,
    ) -> (r: Dispatch)
        requires
            self.wf(),
            forall|s: &str| is_executable.requires((s,)),
            forall|s: &str| kind_of.requires((s,)),
        ensures
            dispatch_result(*self, input.0@, views(input.1@), *env, *is_executable, *kind_of, r),
    {
        let command = input.command();
        let args = input.args();
        match self.try_get(command) {
            Ok(Builtin::Exit(b)) => Dispatch::Done(b.execute(args)),
            Ok(Builtin::Echo(b)) => Dispatch::Done(b.execute(args)),
            Ok(Builtin::Pwd(b)) => Dispatch::Done(b.execute(&env.current_dir)),
            Ok(Builtin::Type(b)) => Dispatch::Done(b.execute(args, is_executable)),
            Ok(Builtin::Cd(b)) => match b.execute(args, env.home.as_str(), kind_of) {
                Ok(dir) => Dispatch::ChangeDir(dir),
                Err(e) => Dispatch::Done(Err(e)),
            },
            Err(_) => match self.next.handler(command, args, is_executable) {
                Ok(d) => d,
                Err(e) => Dispatch::Done(Err(e)),
            },
        }
    }
}

} // verus!
