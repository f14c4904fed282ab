use codecrafters_shell::editor::{EditorState, InputHandler, InputResult, KeyOutcome};

fn typed(text: &str) -> EditorState {
    let mut state = InputHandler::start(None);
    for b in text.bytes() {
        let action = state.feed(b);
        assert_eq!(action.outcome, KeyOutcome::Continue);
        assert_eq!(action.echo, (b as char).to_string());
    }
    state
}

#[test]
fn printable_bytes_are_echoed_and_kept() {
    let mut state = typed("ls -a");
    let action = state.feed(b'\r');
    assert_eq!(action.echo, "\r\n");
    assert_eq!(action.outcome, KeyOutcome::Done(InputResult::Input("ls -a".to_string())));
}

#[test]
fn line_feed_submits_too() {
    let mut state = typed("pwd");
    let action = state.feed(b'\n');
    assert_eq!(action.outcome, KeyOutcome::Done(InputResult::Input("pwd".to_string())));
}

#[test]
fn backspace_erases_one_character() {
    let mut state = typed("ab");
    let action = state.feed(127);
    assert_eq!(action.echo, "\x08 \x08");
    let action = state.feed(8);
    assert_eq!(action.echo, "\x08 \x08");
    let action = state.feed(127);
    assert_eq!(action.echo, "");
    let action = state.feed(b'\r');
    assert_eq!(action.outcome, KeyOutcome::Done(InputResult::Input(String::new())));
}

#[test]
fn ctrl_c_resets() {
    let mut state = typed("echo");
    let action = state.feed(3);
    assert_eq!(action.echo, "");
    assert_eq!(action.outcome, KeyOutcome::Done(InputResult::Reset));
}

#[test]
fn other_control_bytes_are_ignored() {
    let mut state = typed("x");
    let action = state.feed(27);
    assert_eq!(action.echo, "");
    assert_eq!(action.outcome, KeyOutcome::Continue);
    let action = state.feed(b'\r');
    assert_eq!(action.outcome, KeyOutcome::Done(InputResult::Input("x".to_string())));
}

#[test]
fn first_tab_extends_the_line() {
    let mut state = typed("ech");
    let action = state.feed(9);
    assert_eq!(action.outcome, KeyOutcome::Complete { multiple: false });
    let action = state.complete_with(Some("o ".to_string()));
    assert_eq!(action.echo, "o ");
    let action = state.feed(b'\r');
    assert_eq!(action.outcome, KeyOutcome::Done(InputResult::Input("echo ".to_string())));
}

#[test]
fn second_tab_lists_the_matches() {
    let mut state = typed("e");
    assert_eq!(state.feed(9).outcome, KeyOutcome::Complete { multiple: false });
    let action = state.complete_with(None);
    assert_eq!(action.echo, "\x07");
    assert_eq!(state.feed(9).outcome, KeyOutcome::Complete { multiple: true });
    let action = state.complete_with(Some("echo  exit".to_string()));
    assert_eq!(
        action.outcome,
        KeyOutcome::Done(InputResult::MultiCompletion {
            completion_items: "\r\necho  exit\n".to_string(),
            input: "e".to_string(),
        })
    );
}

#[test]
fn typing_clears_the_tab_flag() {
    let mut state = typed("e");
    state.feed(9);
    state.complete_with(None);
    state.feed(b'x');
    assert_eq!(state.feed(9).outcome, KeyOutcome::Complete { multiple: false });
}

#[test]
fn previous_content_is_restored() {
    let mut state = InputHandler::start(Some("ec".to_string()));
    let action = state.feed(b'\n');
    assert_eq!(action.outcome, KeyOutcome::Done(InputResult::Input("ec".to_string())));
}
