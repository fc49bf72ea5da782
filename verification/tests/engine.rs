//! Reading what the shells' completion engines print.

use shelvd::completion::{CompletionItem, CompletionResponse};
use shelvd::engine::{child_step, engine_query, engine_response, fish_script, fish_single_quote, floor_char_boundary, last_token_start, parse_bash_completions, parse_completions, parse_zsh_completions, ChildPoll, ChildStep, CompletionOutcome, CompletionState, Engine};

#[test]
fn last_token_start_finds_the_in_progress_word() {
    assert_eq!(last_token_start("git che"), 4);
    assert_eq!(last_token_start("ls"), 0, "no whitespace: the whole line is the token");
    assert_eq!(last_token_start("echo $HO"), 5);
    assert_eq!(last_token_start("git "), 4, "a trailing space leaves an empty token at the end");
}

#[test]
fn fish_single_quote_escapes_quote_and_backslash() {
    assert_eq!(fish_single_quote("ls"), "'ls'");
    assert_eq!(fish_single_quote("a'b"), "'a\\'b'");
    assert_eq!(fish_single_quote("a\\b"), "'a\\\\b'");
    // A semicolon or space inside the quotes can't break out of the literal.
    assert_eq!(fish_single_quote("a; rm b"), "'a; rm b'");
}

#[test]
fn parse_completions_splits_value_and_description() {
    let out = "checkout\tCheck out a branch\ncherry-pick\ncommit\tRecord changes\n";
    let items = parse_completions(out);
    assert_eq!(items.len(), 3);
    assert_eq!(items[0].value, "checkout");
    assert_eq!(items[0].description.as_deref(), Some("Check out a branch"));
    assert_eq!(items[1].value, "cherry-pick");
    assert_eq!(items[1].description, None);
    assert_eq!(items[2].description.as_deref(), Some("Record changes"));
}

#[test]
fn parse_completions_skips_blank_lines() {
    assert!(parse_completions("\n\n").is_empty());
    assert_eq!(parse_completions("only\n").len(), 1);
}

#[test]
fn parse_bash_completions_trims_suffix_and_dedups() {
    // git's compspec appends a trailing space to each match; command
    // completion repeats a name once per source (builtin + PATH).
    let out = "checkout \ncherry-pick \ncherry \n";
    let items = parse_bash_completions(out);
    assert_eq!(items.iter().map(|i| i.value.as_str()).collect::<Vec<_>>(), [
        "checkout",
        "cherry-pick",
        "cherry"
    ]);
    assert!(items.iter().all(|i| i.description.is_none()), "bash carries no descriptions");

    let deduped = parse_bash_completions("echo\necho\necho\n");
    assert_eq!(deduped.len(), 1, "duplicate command names collapse to one");
    assert_eq!(deduped[0].value, "echo");
}

#[test]
fn parse_bash_completions_skips_blank_lines() {
    assert!(parse_bash_completions("\n \n").is_empty(), "blank and all-space lines drop out");
    assert_eq!(parse_bash_completions("only\n").len(), 1);
}

#[test]
fn parse_zsh_completions_splits_dedups_and_strips_dashes() {
    // zsh repeats `echo` across tags and prefixes descriptions with `-- `.
    let out = "echo\nechotc\necho\n--color\t-- control use of color\n--help\tshow help\n";
    let items = parse_zsh_completions(out);
    assert_eq!(items.iter().map(|i| i.value.as_str()).collect::<Vec<_>>(), [
        "echo", "echotc", "--color", "--help"
    ]);
    assert_eq!(items[0].description, None);
    assert_eq!(items[2].description.as_deref(), Some("control use of color"), "'-- ' stripped");
    assert_eq!(items[3].description.as_deref(), Some("show help"));
}

#[test]
fn parse_zsh_completions_skips_blank_lines() {
    assert!(parse_zsh_completions("\n\n").is_empty());
    assert_eq!(parse_zsh_completions("only\n").len(), 1);
}

fn a_response() -> CompletionResponse {
    CompletionResponse {
        replace_start: 0,
        replace_end: 2,
        items: vec![CompletionItem { value: "echo".to_owned(), description: None }],
    }
}

#[test]
fn resolve_opens_a_current_owned_some_result() {
    let cs = CompletionState::default();
    let gen = cs.dispatch();
    assert_eq!(cs.resolve(gen, true, Some(a_response())), CompletionOutcome::Open(a_response()));
}

#[test]
fn resolve_falls_back_when_the_engine_is_empty() {
    let cs = CompletionState::default();
    let gen = cs.dispatch();
    assert_eq!(cs.resolve(gen, true, None), CompletionOutcome::FallBack);
}

#[test]
fn resolve_discards_a_result_made_stale_by_a_keypress() {
    let mut cs = CompletionState::default();
    let gen = cs.dispatch(); // request dispatched
    cs.invalidate(); // a keypress happened before the result arrived
    assert_eq!(cs.resolve(gen, true, Some(a_response())), CompletionOutcome::Discard);
}

#[test]
fn resolve_discards_when_owned_editing_is_off() {
    let cs = CompletionState::default();
    let gen = cs.dispatch();
    assert_eq!(cs.resolve(gen, false, Some(a_response())), CompletionOutcome::Discard);
    assert_eq!(cs.resolve(gen, false, None), CompletionOutcome::Discard);
}

#[test]
fn only_the_newest_of_two_in_flight_requests_resolves() {
    // Two dispatches without a result in between (out-of-order workers / a
    // double Tab): the older generation must be discarded, the newer applied.
    let mut cs = CompletionState::default();
    cs.invalidate();
    let first = cs.dispatch();
    cs.invalidate();
    let second = cs.dispatch();
    assert_ne!(first, second);
    assert_eq!(cs.resolve(first, true, Some(a_response())), CompletionOutcome::Discard);
    assert_eq!(cs.resolve(second, true, None), CompletionOutcome::FallBack);
}

#[test]
fn invalidate_wraps_without_panicking() {
    let mut cs = CompletionState { generation: u64::MAX };
    cs.invalidate();
    assert_eq!(cs.dispatch(), 0, "generation wraps rather than overflowing");
}


#[test]
fn query_snaps_to_a_char_boundary() {
    let q = engine_query("né x", 2);
    assert_eq!((q.prefix.as_str(), q.cursor), ("n", 1));
    let q = engine_query("né x", 99);
    assert_eq!((q.prefix.as_str(), q.cursor), ("né x", 5));
    assert_eq!(floor_char_boundary("é", 1), 0);
    assert_eq!(floor_char_boundary("é", 2), 2);
}

#[test]
fn script_quotes_the_line() {
    assert_eq!(fish_script("it's"), "complete -C -- 'it\\'s'");
}

#[test]
fn response_spans_the_word_at_the_caret() {
    let q = engine_query("git che extra", 7);
    let r = engine_response(Engine::Bash, &q, b"checkout \r\ncherry\ncheckout\n").unwrap();
    assert_eq!((r.replace_start, r.replace_end), (4, 7));
    assert_eq!(r.items.iter().map(|i| i.value.as_str()).collect::<Vec<_>>(), ["checkout", "cherry"]);
    assert_eq!(engine_response(Engine::Zsh, &q, b"\n\n"), None);
    let r = engine_response(Engine::Zsh, &q, b"a\t-- one\na\t-- two\nb\t --  \n").unwrap();
    assert_eq!(r.items.len(), 2);
    assert_eq!(r.items[0].description.as_deref(), Some("one"));
    assert_eq!(r.items[1].description.as_deref(), Some("--"));
    // Output that is not UTF-8 is decoded with replacement characters.
    let r = engine_response(Engine::Fish, &q, b"a\xff\td\n").unwrap();
    assert_eq!(r.items[0].value, "a\u{fffd}");
    assert_eq!(r.items[0].description.as_deref(), Some("d"));
}

#[test]
fn child_is_collected_failed_killed_or_awaited() {
    assert_eq!(child_step(ChildPoll::Exited(true), true), ChildStep::Collect);
    assert_eq!(child_step(ChildPoll::Exited(false), false), ChildStep::Fail);
    assert_eq!(child_step(ChildPoll::Running, false), ChildStep::Wait);
    assert_eq!(child_step(ChildPoll::Running, true), ChildStep::Kill);
    assert_eq!(child_step(ChildPoll::Lost, false), ChildStep::Fail);
}
