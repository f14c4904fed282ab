use std::sync::Arc;

use codecrafters_shell::commands::{Echo, Exit};
use codecrafters_shell::error::ShellError;
use codecrafters_shell::file::FileManager;
use codecrafters_shell::output::OutputHandler;
use codecrafters_shell::parser::InputParser;
use codecrafters_shell::redirection::{RedirectionChannel, RedirectionType};

fn echo_output(line: &str) -> String {
    let (parsed, _) = InputParser::new().parse(line).unwrap();
    assert_eq!(parsed.command(), "echo");
    let result = Echo.execute(parsed.args()).unwrap();
    let plan = OutputHandler::new(Arc::new(FileManager)).handle(result, None);
    plan.stdout
}

#[test]
fn single_quotes_keep_spaces() {
    let (parsed, red) = InputParser::new().parse("echo 'hello    world'").unwrap();
    assert_eq!(parsed.args(), &["hello    world"]);
    assert!(red.is_none());
    assert_eq!(echo_output("echo 'hello    world'"), "hello    world\n");
}

#[test]
fn alternating_quotes_concatenate() {
    let (parsed, _) = InputParser::new().parse("echo \"a\"'b'\"c\"'d'").unwrap();
    assert_eq!(parsed.args(), &["abcd"]);
    assert_eq!(echo_output("echo \"a\"'b'\"c\"'d'"), "abcd\n");
}

#[test]
fn escaped_dollar_is_literal() {
    let (parsed, _) = InputParser::new().parse("echo \\$HOME").unwrap();
    assert_eq!(parsed.args(), &["$HOME"]);
    assert_eq!(echo_output("echo \\$HOME"), "$HOME\n");
}

#[test]
fn escaped_backslash_in_double_quotes() {
    let (parsed, _) = InputParser::new().parse("echo \"hello\\\\world\"").unwrap();
    assert_eq!(parsed.args(), &["hello\\world"]);
}

#[test]
fn append_redirections_are_parsed() {
    for line in ["echo a >> /tmp/X", "echo b >> /tmp/X"] {
        let (parsed, red) = InputParser::new().parse(line).unwrap();
        assert_eq!(parsed.command(), "echo");
        let red = red.unwrap();
        assert_eq!(red.path, "/tmp/X");
        assert_eq!(red.redirection_type, RedirectionType::AppendOutput(RedirectionChannel::Stdout));
    }
}

#[test]
fn exit_with_text_is_reported() {
    let (parsed, _) = InputParser::new().parse("exit abc").unwrap();
    let err = Exit.execute(parsed.args()).unwrap_err();
    assert!(err.message().contains("Invalid arg type"));
}

#[test]
fn unclosed_quote_is_reported() {
    let err = InputParser::new().parse("echo 'hello world").unwrap_err();
    assert_eq!(err, ShellError::MissingClosingQuote);
    assert!(err.message().contains("Missing closing quote"));
}

#[test]
fn blank_lines_parse_to_nothing() {
    for line in ["", "   ", "''", "\"\""] {
        let (parsed, red) = InputParser::new().parse(line).unwrap();
        assert!(parsed.is_blank());
        assert!(parsed.args().is_empty());
        assert!(red.is_none());
    }
}

#[test]
fn only_the_first_redirection_counts() {
    let (parsed, red) = InputParser::new().parse("echo x > a 2> b").unwrap();
    assert_eq!(parsed.args(), &["x", "2>", "b"]);
    assert_eq!(red.unwrap().path, "a");
}

#[test]
fn stderr_redirections_are_recognised() {
    let (_, red) = InputParser::new().parse("ls 2> err.txt").unwrap();
    assert_eq!(red.unwrap().redirection_type, RedirectionType::WriteOutput(RedirectionChannel::Stderr));
    let (_, red) = InputParser::new().parse("ls 1> out.txt").unwrap();
    assert_eq!(red.unwrap().redirection_type, RedirectionType::WriteOutput(RedirectionChannel::Stdout));
    let (_, red) = InputParser::new().parse("ls 1>> out.txt").unwrap();
    assert_eq!(red.unwrap().redirection_type, RedirectionType::AppendOutput(RedirectionChannel::Stdout));
}

#[test]
fn quote_spans_are_reported() {
    let parser = InputParser::new();
    let spans = parser.quote_positions("a 'b' \"c\" ''").unwrap();
    assert_eq!(spans.len(), 3);
    assert_eq!((spans[0].start(), spans[0].end()), (2, 4));
    assert!(spans[1].is_doulbe_quote());
    assert_eq!((spans[2].start(), spans[2].end()), (10, 11));
    assert!(parser.quote_positions("\\'x").unwrap().is_empty());
}

#[test]
fn requoted_arguments_parse_back() {
    let parser = InputParser::new();
    let (parsed, _) = parser.parse("echo \"it's\" a\\ b 'c\"d'").unwrap();
    let mut words = vec![parsed.command().to_string()];
    words.extend(parsed.args().iter().cloned());
    let requoted: Vec<String> = words
        .iter()
        .map(|w| {
            w.chars()
                .map(|c| if c == '\'' { "\\'".to_string() } else { format!("'{}'", c) })
                .collect::<String>()
        })
        .collect();
    let (again, _) = parser.parse(&requoted.join(" ")).unwrap();
    assert_eq!(again.command(), "echo");
    assert_eq!(again.args(), parsed.args());
}
