use std::sync::Arc;

use codecrafters_shell::completion::{complete, BuiltinsCompletion};
use codecrafters_shell::path::PathDirsProvider;

struct MockCompletion {
    items: Vec<String>,
}

impl MockCompletion {
    fn complete(&self, args: &str, multiple: bool) -> Option<String> {
        complete(&self.items, args, multiple)
    }
}

#[test]
fn test_no_matches_returns_none() {
    let comp = MockCompletion {
        items: vec!["echo".to_string(), "exit".to_string()],
    };
    assert_eq!(comp.complete("xyz", false), None);
}

#[test]
fn test_single_match_completes_with_space() {
    let comp = MockCompletion {
        items: vec!["echo_test".to_string()],
    };
    // "ech" should complete to "o_test "
    assert_eq!(comp.complete("ech", false), Some("o_test ".to_string()));
}

#[test]
fn test_partial_completion_common_prefix() {
    let comp = MockCompletion {
        items: vec!["echo_test".to_string(), "echo_debug".to_string()],
    };
    // "ech" should complete to "o_" (common prefix)
    assert_eq!(comp.complete("ech", false), Some("o_".to_string()));
}

#[test]
fn test_no_common_prefix_beyond_input() {
    let comp = MockCompletion {
        items: vec!["echo".to_string(), "exit".to_string()],
    };
    // "e" has no common prefix beyond itself
    assert_eq!(comp.complete("e", false), None);
}

#[test]
fn test_multiple_completion_shows_all_sorted() {
    let comp = MockCompletion {
        items: vec!["exit".to_string(), "echo".to_string(), "env".to_string()],
    };
    // Should return all matches sorted
    assert_eq!(
        comp.complete("e", true),
        Some("echo  env  exit".to_string())
    );
}

#[test]
fn test_already_fully_typed_returns_space() {
    let comp = MockCompletion {
        items: vec!["echo".to_string()],
    };
    // Already fully typed "echo" - nothing to add
    assert_eq!(comp.complete("echo", false), Some(" ".to_string()));
}

#[test]
fn test_partial_with_three_matches() {
    let comp = MockCompletion {
        items: vec![
            "application".to_string(),
            "apple".to_string(),
            "apply".to_string(),
        ],
    };
    assert_eq!(comp.complete("app", false), Some("l".to_string()));
    assert_eq!(comp.complete("appl", false), None);
    assert_eq!(comp.complete("appli", false), Some("cation ".to_string()));
}

#[test]
fn test_empty_input_with_matches() {
    let comp = MockCompletion {
        items: vec!["echo".to_string(), "exit".to_string()],
    };
    // Empty input, multiple matches, no common prefix
    assert_eq!(comp.complete("", false), None);
}

#[test]
fn test_single_char_partial_completion() {
    let comp = MockCompletion {
        items: vec!["test_one".to_string(), "test_two".to_string()],
    };
    // "t" should complete to "est_" (common prefix)
    assert_eq!(comp.complete("t", false), Some("est_".to_string()));
}

#[test]
fn test_multiple_completion_preserves_sort_order() {
    let comp = MockCompletion {
        items: vec!["abcd".to_string(), "abbd".to_string(), "abdc".to_string()],
    };
    // Should be alphabetically sorted
    assert_eq!(
        comp.complete("a", true),
        Some("abbd  abcd  abdc".to_string())
    );
}

fn setup() -> BuiltinsCompletion {
    BuiltinsCompletion::new(Arc::new(PathDirsProvider::new(vec![])))
}

#[test]
fn complete_ambiguous_prefix_returns_none() {
    let completion = setup();

    // "e" matches both "echo" and "exit"
    assert_eq!(completion.handler("e", false), None);
}

#[test]
fn complete_no_match_returns_none() {
    let completion = setup();

    assert_eq!(completion.handler("xyz", false), None);
    assert_eq!(completion.handler("ls", false), None);
    assert_eq!(completion.handler("unknown", false), None);
}

#[test]
fn complete_empty_input_returns_none() {
    let completion = setup();

    // Empty string matches all commands - ambiguous
    assert_eq!(completion.handler("", false), None);
}

#[test]
fn builtin_prefix_completes_with_space() {
    let completion = setup();
    assert_eq!(completion.handler("ec", false), Some("ho ".to_string()));
    assert_eq!(completion.handler("typ", false), Some("e ".to_string()));
    assert_eq!(completion.handler("pw", false), Some("d ".to_string()));
    assert_eq!(completion.handler("exi", false), Some("t ".to_string()));
}

#[test]
fn builtin_listing_is_sorted() {
    let completion = setup();
    assert_eq!(completion.handler("e", true), Some("echo  exit".to_string()));
}

#[test]
fn duplicate_candidates_count_once() {
    let items = vec!["grep".to_string(), "grep".to_string()];
    assert_eq!(complete(&items, "gr", false), Some("ep ".to_string()));
    assert_eq!(complete(&items, "gr", true), Some("grep".to_string()));
}

#[test]
fn chain_prefers_builtins() {
    let completion = setup();
    let listed = || vec!["echoes".to_string()];
    assert_eq!(completion.execute("ech", false, &listed), Some("o ".to_string()));
}

#[test]
fn chain_falls_back_to_search_path() {
    let completion = setup();
    let listed = || vec!["grep".to_string(), "git".to_string(), "gzip".to_string()];
    assert_eq!(completion.execute("gr", false, &listed), Some("ep ".to_string()));
    assert_eq!(completion.execute("g", true, &listed), Some("git  grep  gzip".to_string()));
    assert_eq!(completion.execute("x", false, &listed), None);
}

#[test]
fn completed_prefix_is_candidate_or_common_prefix() {
    let items = vec!["cargo".to_string(), "cat".to_string(), "cal".to_string()];
    let suffix = complete(&items, "c", false).unwrap();
    let extended = format!("c{}", suffix);
    assert_eq!(extended, "ca");
    assert!(items.iter().filter(|c| c.starts_with(&extended)).count() >= 2);
    let suffix = complete(&items, "carg", false).unwrap();
    assert_eq!(format!("carg{}", suffix), "cargo ");
}

#[test]
fn listing_orders_by_code_point() {
    let items = vec!["b".to_string(), "B".to_string(), "a".to_string(), "_x".to_string()];
    let all = vec!["ab".to_string(), "aB".to_string(), "a_".to_string()];
    assert_eq!(complete(&all, "a", true), Some("aB  a_  ab".to_string()));
    assert_eq!(complete(&items, "b", true), Some("b".to_string()));
}
