use std::sync::Arc;

use codecrafters_shell::commands::CommandResult;
use codecrafters_shell::error::ShellError;
use codecrafters_shell::file::FileManager;
use codecrafters_shell::output::OutputHandler;
use codecrafters_shell::redirection::{RedirectionChannel, RedirectionContext, RedirectionType};

fn handler() -> OutputHandler {
    OutputHandler::new(Arc::new(FileManager))
}

fn stdio(out: &str, err: &str) -> CommandResult {
    CommandResult::Stdio(out.to_string(), err.to_string())
}

fn to(kind: RedirectionType) -> Option<RedirectionContext> {
    Some(RedirectionContext::new("/tmp/X".to_string(), kind))
}

#[test]
fn without_redirection_both_go_to_terminal() {
    let plan = handler().handle(stdio("a\n", "b\n"), None);
    assert_eq!(plan.stdout, "a\n");
    assert_eq!(plan.stderr, "b\n");
    assert!(plan.file.is_none());
    assert!(plan.exit.is_none());
}

#[test]
fn stdout_redirection_keeps_stdout_off_the_terminal() {
    for kind in [
        RedirectionType::WriteOutput(RedirectionChannel::Stdout),
        RedirectionType::AppendOutput(RedirectionChannel::Stdout),
    ] {
        let plan = handler().handle(stdio("a\n", "b\n"), to(kind));
        assert_eq!(plan.stdout, "");
        assert_eq!(plan.stderr, "b\n");
        let file = plan.file.unwrap();
        assert_eq!(file.path, "/tmp/X");
        assert_eq!(file.contents, "a\n");
        assert_eq!(file.append, matches!(kind, RedirectionType::AppendOutput(_)));
    }
}

#[test]
fn stderr_redirection_keeps_stderr_off_the_terminal() {
    for kind in [
        RedirectionType::WriteOutput(RedirectionChannel::Stderr),
        RedirectionType::AppendOutput(RedirectionChannel::Stderr),
    ] {
        let plan = handler().handle(stdio("a\n", "b\n"), to(kind));
        assert_eq!(plan.stdout, "a\n");
        assert_eq!(plan.stderr, "");
        let file = plan.file.unwrap();
        assert_eq!(file.contents, "b\n");
        assert_eq!(file.append, matches!(kind, RedirectionType::AppendOutput(_)));
    }
}

#[test]
fn errors_are_reported_on_stderr() {
    let plan = handler().handle(CommandResult::Error(ShellError::NotFound("xyz".to_string())), None);
    assert_eq!(plan.stdout, "");
    assert_eq!(plan.stderr, "xyz: not found\n");
    let plan = handler().handle(
        CommandResult::Error(ShellError::MissingClosingQuote),
        to(RedirectionType::WriteOutput(RedirectionChannel::Stderr)),
    );
    assert_eq!(plan.stderr, "");
    assert_eq!(plan.file.unwrap().contents, "Missing closing quote\n");
}

#[test]
fn exit_and_empty() {
    let plan = handler().handle(CommandResult::Exit(42), None);
    assert_eq!(plan.exit, Some(42));
    let plan = handler().handle(CommandResult::Empty, None);
    assert!(plan.exit.is_none() && plan.stdout.is_empty() && plan.stderr.is_empty());
}

#[test]
fn appends_to_one_path_keep_their_order() {
    let first = handler().handle(stdio("a\n", ""), to(RedirectionType::AppendOutput(RedirectionChannel::Stdout)));
    let second = handler().handle(stdio("b\n", ""), to(RedirectionType::AppendOutput(RedirectionChannel::Stdout)));
    let (f1, f2) = (first.file.unwrap(), second.file.unwrap());
    assert!(f1.append && f2.append);
    assert_eq!(f1.path, f2.path);
    assert_eq!(format!("{}{}", f1.contents, f2.contents), "a\nb\n");
}
