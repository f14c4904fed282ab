use std::path::Path;
use std::sync::Arc;

use codecrafters_shell::commands::{
    parse_i32, Builtin, Cd, CommandRegistry, CommandResult, CommandToken, Dispatch, Echo, Exit,
    ExternalCommand, Pwd, ShellEnv, Type,
};
use codecrafters_shell::error::ShellError;
use codecrafters_shell::file::{FileManager, PathKind};
use codecrafters_shell::parser::{InputParser, ParsedCommand};
use codecrafters_shell::path::PathDirsProvider;

fn is_file(p: &str) -> bool {
    Path::new(p).is_file()
}

fn kind_of(p: &str) -> PathKind {
    let path = Path::new(p);
    if !path.exists() {
        PathKind::Missing
    } else if path.is_dir() {
        PathKind::Directory
    } else {
        PathKind::Other
    }
}

fn create_empty_path() -> Arc<PathDirsProvider> {
    Arc::new(PathDirsProvider::new(vec![]))
}

#[test]
fn echo_hello_world() {
    let result = Echo.execute(&["hello".to_string(), "world".to_string()]);
    assert!(result.is_ok());
    assert_eq!(result.unwrap(), CommandResult::stdout("hello world\n"))
}

#[test]
fn echo_empty() {
    let result = Echo.execute(&[]);
    assert!(result.is_ok());
    assert_eq!(result.unwrap(), CommandResult::stdout("\n"))
}

#[test]
fn exit_0() {
    let command = Exit;
    let result = command.execute(&["0".to_string()]);
    assert!(result.is_ok());
    assert_eq!(result.unwrap(), CommandResult::Exit(0))
}

#[test]
fn exit_1() {
    let command = Exit;
    let result = command.execute(&["1".to_string()]);
    assert!(result.is_ok());
    assert_eq!(result.unwrap(), CommandResult::Exit(1))
}

#[test]
fn exit_without_argument_is_zero() {
    assert_eq!(Exit.execute(&[]).unwrap(), CommandResult::Exit(0));
}

#[test]
fn exit_rejects_text() {
    let err = Exit.execute(&["abc".to_string()]).unwrap_err();
    assert_eq!(err, ShellError::ParsingError("integer".to_string()));
    assert!(err.message().contains("Invalid arg type"));
}

#[test]
fn exit_rejects_two_arguments() {
    let err = Exit.execute(&["1".to_string(), "2".to_string()]).unwrap_err();
    assert_eq!(err, ShellError::TooManyArguments("at most 1".to_string(), 2));
    assert_eq!(err.message(), "Too many arguments: expected at most 1, got 2");
}

#[test]
fn integers_in_decimal() {
    assert_eq!(parse_i32("42"), Some(42));
    assert_eq!(parse_i32("-7"), Some(-7));
    assert_eq!(parse_i32("+5"), Some(5));
    assert_eq!(parse_i32("2147483647"), Some(i32::MAX));
    assert_eq!(parse_i32("-2147483648"), Some(i32::MIN));
    assert_eq!(parse_i32("2147483648"), None);
    assert_eq!(parse_i32("-2147483649"), None);
    assert_eq!(parse_i32("99999999999999999999"), None);
    assert_eq!(parse_i32(""), None);
    assert_eq!(parse_i32("-"), None);
    assert_eq!(parse_i32("+"), None);
    assert_eq!(parse_i32("1a"), None);
    assert_eq!(parse_i32(" 1"), None);
}

#[test]
fn type_echo_builtin() {
    let paths = create_empty_path();
    let result = Type::new(paths).execute(&["echo".to_string()], &is_file);
    assert!(result.is_ok());
    assert_eq!(
        result.unwrap(),
        CommandResult::stdout("echo is a shell builtin\n")
    )
}

#[test]
fn type_exit_builtin() {
    let paths = create_empty_path();
    let result = Type::new(paths).execute(&["exit".to_string()], &is_file);
    assert!(result.is_ok());
    assert_eq!(
        result.unwrap(),
        CommandResult::stdout("exit is a shell builtin\n")
    )
}

#[test]
fn type_itself_is_builtin() {
    let paths = create_empty_path();
    let result = Type::new(paths).execute(&["type".to_string()], &is_file);
    assert!(result.is_ok());
    assert_eq!(
        result.unwrap(),
        CommandResult::stdout("type is a shell builtin\n")
    )
}

#[test]
fn type_type_unknown_command() {
    let paths = create_empty_path();
    let result = Type::new(paths).execute(&["nonexistentcommand".to_string()], &is_file);
    assert!(result.is_err());
    assert_eq!(
        result.unwrap_err(),
        ShellError::NotFound("nonexistentcommand".to_string())
    )
}

#[test]
fn type_empty_args() {
    let paths = create_empty_path();
    let result = Type::new(paths).execute(&[], &is_file);
    assert!(result.is_err());
    assert_eq!(result.unwrap_err(), ShellError::EmptyArgs(1))
}

#[test]
fn type_too_many_args() {
    let paths = create_empty_path();
    let result = Type::new(paths).execute(&["echo".to_string(), "exit".to_string()], &is_file);
    assert!(result.is_err());
    assert_eq!(
        result.unwrap_err(),
        ShellError::TooManyArguments("1".to_string(), 2)
    )
}

#[test]
fn type_multiple_args() {
    let paths = create_empty_path();
    let result = Type::new(paths).execute(
        &["echo".to_string(), "exit".to_string(), "ls".to_string()],
        &is_file,
    );
    assert!(result.is_err());
    assert_eq!(
        result.unwrap_err(),
        ShellError::TooManyArguments("1".to_string(), 3)
    )
}

#[test]
fn type_with_specific_paths() {
    let paths = Arc::new(PathDirsProvider::new(vec![
        "/usr/bin".to_string(),
        "/bin".to_string(),
    ]));

    let result = Type::new(paths).execute(&["ls".to_string()], &is_file);

    assert!(result.is_ok());
}

#[test]
fn type_empty_path_only_finds_builtins() {
    let paths = create_empty_path();

    let result = Type::new(Arc::clone(&paths)).execute(&["echo".to_string()], &is_file);
    assert!(result.is_ok());

    let result = Type::new(paths).execute(&["ls".to_string()], &is_file);
    assert!(result.is_err());
}

#[test]
fn type_reports_the_first_match_in_order() {
    let paths = Arc::new(PathDirsProvider::new(vec!["/opt/a".to_string(), "/opt/b/".to_string()]));
    let probe = |p: &str| p == "/opt/b/tool" || p == "/opt/a/other";
    let result = Type::new(paths).execute(&["tool".to_string()], &probe);
    assert_eq!(result.unwrap(), CommandResult::stdout("tool is /opt/b/tool\n"));
    let err = ShellError::NotFound("xyz".to_string());
    assert_eq!(err.message(), "xyz: not found");
}

#[test]
fn error_not_found() {
    let cd = Cd::new(Arc::new(FileManager));
    let result = cd.execute(&["/x/y/z".to_string()], "/root", &kind_of);
    assert!(result.is_err());
    assert_eq!(
        result.unwrap_err(),
        ShellError::DirectoryNotFound("/x/y/z".to_string())
    )
}

#[test]
fn errorr_not_a_dir() {
    let cd = Cd::new(Arc::new(FileManager));
    let result = cd.execute(&["/bin/sh".to_string()], "/root", &kind_of);
    assert!(result.is_err());
    let err = result.unwrap_err();
    assert_eq!(err, ShellError::NotADirectory("/bin/sh".to_string()));
    assert!(err.message().contains("Not a directory"));
}

#[test]
fn cd_resolves_home_forms() {
    let cd = Cd::new(Arc::new(FileManager));
    let dir = |_: &str| PathKind::Directory;
    assert_eq!(cd.execute(&[], "/home/u", &dir).unwrap(), "/home/u");
    assert_eq!(cd.execute(&["~".to_string()], "/home/u", &dir).unwrap(), "/home/u");
    assert_eq!(cd.execute(&["~/".to_string()], "/home/u", &dir).unwrap(), "/home/u");
    assert_eq!(cd.execute(&["~/src".to_string()], "/home/u", &dir).unwrap(), "/home/u/src");
    assert_eq!(cd.execute(&["/tmp".to_string()], "/home/u", &dir).unwrap(), "/tmp");
    assert_eq!(
        cd.execute(&["a".to_string(), "b".to_string()], "/home/u", &dir).unwrap_err(),
        ShellError::TooManyArguments("1".to_string(), 2)
    );
}

#[test]
fn pwd_prints_directory_with_newline() {
    let ok: Result<String, String> = Ok("/tmp".to_string());
    assert_eq!(Pwd.execute(&ok).unwrap(), CommandResult::stdout("/tmp\n"));
    let failed: Result<String, String> = Err("gone".to_string());
    assert_eq!(Pwd.execute(&failed).unwrap_err(), ShellError::Uncontroled("gone".to_string()));
}

fn registry(paths: Arc<PathDirsProvider>) -> CommandRegistry {
    let external = ExternalCommand::new(paths.clone());
    CommandRegistry::new(paths, external)
}

#[test]
fn get_command() {
    let paths = Arc::new(PathDirsProvider::new(vec![]));
    let mut registry = registry(paths);
    registry.register(CommandToken::Exit, Builtin::Exit(Exit));
    let result = registry.try_get("exit");
    assert!(result.is_ok())
}

#[test]
fn command_not_found() {
    let paths = Arc::new(PathDirsProvider::new(vec![]));
    let registry = registry(paths);
    let result = registry.try_get("exit");
    assert!(result.is_err());
    assert_eq!(
        result.err().unwrap(),
        ShellError::CommandNotFound("exit".to_owned())
    )
}

#[test]
fn token_names_round_trip() {
    for token in [CommandToken::Exit, CommandToken::Echo, CommandToken::Type, CommandToken::Pwd, CommandToken::Cd] {
        assert_eq!(CommandToken::from_name(&token.name()).unwrap(), token);
    }
    assert_eq!(
        CommandToken::from_name("ls").unwrap_err(),
        ShellError::CommandNotFound("ls".to_string())
    );
    assert_eq!(CommandToken::into_completion(), vec!["exit", "echo", "type", "pwd", "cd"]);
}

fn full_registry(paths: Arc<PathDirsProvider>) -> CommandRegistry {
    let mut registry = registry(paths.clone());
    registry.register(CommandToken::Exit, Builtin::Exit(Exit));
    registry.register(CommandToken::Echo, Builtin::Echo(Echo));
    registry.register(CommandToken::Type, Builtin::Type(Type::new(paths)));
    registry.register(CommandToken::Pwd, Builtin::Pwd(Pwd));
    registry.register(CommandToken::Cd, Builtin::Cd(Cd::new(Arc::new(FileManager))));
    registry
}

fn env() -> ShellEnv {
    ShellEnv { current_dir: Ok("/work".to_string()), home: "/home/u".to_string() }
}

fn run(line: &str) -> Dispatch {
    let paths = Arc::new(PathDirsProvider::new(vec!["/usr/bin".to_string(), "/bin".to_string()]));
    let registry = full_registry(paths);
    let (parsed, _) = InputParser::new().parse(line).unwrap();
    registry.execute(&parsed, &env(), &|p: &str| p == "/bin/ls", &kind_of)
}

#[test]
fn dispatch_runs_builtins() {
    match run("echo 'hello    world'") {
        Dispatch::Done(Ok(r)) => assert_eq!(r, CommandResult::stdout("hello    world\n")),
        other => panic!("unexpected {:?}", other),
    }
    match run("pwd") {
        Dispatch::Done(Ok(r)) => assert_eq!(r, CommandResult::stdout("/work\n")),
        other => panic!("unexpected {:?}", other),
    }
    match run("exit abc") {
        Dispatch::Done(Err(e)) => assert!(e.message().contains("Invalid arg type")),
        other => panic!("unexpected {:?}", other),
    }
    match run("cd /") {
        Dispatch::ChangeDir(d) => assert_eq!(d, "/"),
        other => panic!("unexpected {:?}", other),
    }
}

#[test]
fn dispatch_falls_back_to_search_path() {
    match run("ls -l /tmp") {
        Dispatch::Spawn { program, name, args } => {
            assert_eq!(program, "/bin/ls");
            assert_eq!(name, "ls");
            assert_eq!(args, vec!["-l", "/tmp"]);
        }
        other => panic!("unexpected {:?}", other),
    }
    match run("invalidcmd") {
        Dispatch::Done(Err(e)) => {
            assert_eq!(e, ShellError::CommandNotFound("invalidcmd".to_string()));
            assert_eq!(e.message(), "invalidcmd: command not found");
        }
        other => panic!("unexpected {:?}", other),
    }
}

#[test]
fn unregistered_builtin_goes_to_search_path() {
    let paths = Arc::new(PathDirsProvider::new(vec!["/bin".to_string()]));
    let registry = registry(paths);
    let parsed = ParsedCommand::new("echo", vec!["x".to_string()]);
    match registry.execute(&parsed, &env(), &|p: &str| p == "/bin/echo", &kind_of) {
        Dispatch::Spawn { program, .. } => assert_eq!(program, "/bin/echo"),
        other => panic!("unexpected {:?}", other),
    }
}

#[test]
fn error_messages() {
    assert_eq!(ShellError::EmptyArgs(1).message(), "No args received expected at least: 1");
    assert_eq!(ShellError::MissingClosingQuote.message(), "Missing closing quote");
    assert_eq!(
        ShellError::DirectoryNotFound("/nope".to_string()).message(),
        "cd: /nope: No such file or directory"
    );
    assert_eq!(
        ShellError::TooManyArguments("1".to_string(), 1234).message(),
        "Too many arguments: expected 1, got 1234"
    );
    assert_eq!(ShellError::External("spawn failed".to_string()).message(), "spawn failed");
    assert_eq!(ShellError::NotADirectory("/f".to_string()).message(), "cd: /f: Not a directory");
    assert_eq!(ShellError::ParsingError("integer".to_string()).message(), "Invalid arg type expected: integer");
}
