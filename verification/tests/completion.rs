//! The completion wire protocol.

use shelvd::completion::{encode_request, encode_response, parse_request, parse_response_payload, CompletionItem, CompletionRequest, CompletionResponse, MAX_ITEMS, RESPONSE_PREFIX};

#[test]
fn request_round_trips_through_strict_encoding() {
    // A line full of bytes that would break framing if left raw: spaces, a
    // semicolon, a comma, a percent, and a non-ASCII glyph.
    let req = CompletionRequest { line: "git ch; echo 50%, café".into(), cursor: 6 };
    let wire = encode_request(&req);
    // The wire form is a single space-separated pair with no raw framing bytes.
    assert!(wire.starts_with("6 "));
    assert!(!wire[2..].contains(' '), "the encoded line holds no literal spaces");
    assert!(!wire.contains(';') && !wire.contains(','));
    assert_eq!(parse_request(&wire), Some(req));
}

#[test]
fn request_round_trips_empty_line() {
    let req = CompletionRequest { line: String::new(), cursor: 0 };
    assert_eq!(parse_request(&encode_request(&req)), Some(req));
}

#[test]
fn parse_request_rejects_a_missing_cursor() {
    assert_eq!(parse_request("not-a-number x"), None);
    assert_eq!(parse_request("no-space-at-all"), None);
}

#[test]
fn response_round_trips_with_descriptions_and_framing_chars() {
    let res = CompletionResponse {
        replace_start: 4,
        replace_end: 7,
        items: vec![
            CompletionItem { value: "checkout".into(), description: Some("switch branches".into()) },
            // A value and description carrying the framing bytes themselves.
            CompletionItem { value: "a;b,c%d e".into(), description: Some("x; y, z".into()) },
            CompletionItem { value: "no-desc".into(), description: None },
        ],
    };
    let bytes = encode_response(&res);
    // It is a single OSC framed by ESC ] … ESC \ with no raw framing bytes leaking.
    assert!(bytes.starts_with(b"\x1b]") && bytes.ends_with(b"\x1b\\"));
    let payload = &bytes[2..bytes.len() - 2];
    let rest = payload.strip_prefix(RESPONSE_PREFIX.as_bytes()).expect("has the response prefix");
    assert_eq!(parse_response_payload(rest), Some(res));
}

#[test]
fn response_round_trips_empty_candidate_list() {
    let res = CompletionResponse { replace_start: 2, replace_end: 2, items: vec![] };
    let bytes = encode_response(&res);
    let rest = bytes[2..bytes.len() - 2]
        .strip_prefix(RESPONSE_PREFIX.as_bytes())
        .expect("prefix");
    assert_eq!(parse_response_payload(rest), Some(res));
}

#[test]
fn parse_response_rejects_a_nonnumeric_range() {
    assert_eq!(parse_response_payload(b"x;3;value"), None);
    assert_eq!(parse_response_payload(b"3"), None, "missing the end offset");
}

#[test]
fn encode_response_caps_the_candidate_count() {
    let items = (0..MAX_ITEMS + 50)
        .map(|i| CompletionItem { value: format!("c{i}"), description: None })
        .collect();
    let res = CompletionResponse { replace_start: 0, replace_end: 0, items };
    let bytes = encode_response(&res);
    let rest = bytes[2..bytes.len() - 2]
        .strip_prefix(RESPONSE_PREFIX.as_bytes())
        .unwrap();
    let parsed = parse_response_payload(rest).unwrap();
    assert_eq!(parsed.items.len(), MAX_ITEMS, "the count is clamped to MAX_ITEMS");
}

#[test]
fn stray_empty_fields_are_skipped() {
    let got = parse_response_payload(b"+1;2;;a;;b,").unwrap();
    assert_eq!((got.replace_start, got.replace_end), (1, 2));
    assert_eq!(got.items, [
        CompletionItem { value: "a".to_owned(), description: None },
        CompletionItem { value: "b".to_owned(), description: Some(String::new()) },
    ]);
}

#[test]
fn malformed_responses_are_refused() {
    assert_eq!(parse_response_payload(b""), None);
    assert_eq!(parse_response_payload(b"1;-2"), None);
    assert_eq!(parse_response_payload(b"1;18446744073709551616"), None);
    assert_eq!(parse_response_payload(b"1;2;\xff"), None, "not UTF-8");
}

#[test]
fn request_text_is_cursor_and_line() {
    let req = CompletionRequest { line: "ls -l".to_owned(), cursor: 5 };
    assert_eq!(encode_request(&req), "5 ls%20-l");
    assert_eq!(parse_request("5 a b"), Some(CompletionRequest { line: "a b".to_owned(), cursor: 5 }));
}
