//! The scanner for shell-integration markers.

use shelvd::completion::{encode_response, CompletionItem, CompletionResponse};
use shelvd::osc133::{file_url_to_path, percent_decode, percent_encode_strict, Marker, Scanner, SemanticKind};

/// Drive a single chunk through a fresh scanner.
fn scan_once(bytes: &[u8]) -> Vec<(usize, Marker)> {
    Scanner::new().scan(bytes)
}

fn markers(bytes: &[u8]) -> Vec<Marker> {
    scan_once(bytes).into_iter().map(|(_, m)| m).collect()
}

#[test]
fn parses_each_semantic_kind() {
    assert_eq!(markers(b"\x1b]133;A\x07"), vec![Marker::Semantic(SemanticKind::PromptStart)]);
    assert_eq!(markers(b"\x1b]133;B\x07"), vec![Marker::Semantic(SemanticKind::PromptEnd)]);
    assert_eq!(markers(b"\x1b]133;C\x07"), vec![Marker::Semantic(SemanticKind::OutputStart)]);
    assert_eq!(markers(b"\x1b]133;D\x07"), vec![Marker::Semantic(SemanticKind::CommandFinished(None))]);
    assert_eq!(markers(b"\x1b]133;D;0\x07"), vec![Marker::Semantic(SemanticKind::CommandFinished(Some(0)))]);
    assert_eq!(markers(b"\x1b]133;D;42\x07"), vec![Marker::Semantic(SemanticKind::CommandFinished(Some(42)))]);
}

#[test]
fn accepts_st_terminator_and_extra_params() {
    // ST (ESC \) terminator instead of BEL.
    assert_eq!(markers(b"\x1b]133;A\x1b\\"), vec![Marker::Semantic(SemanticKind::PromptStart)]);
    // Trailing params after the kind letter are ignored.
    assert_eq!(markers(b"\x1b]133;A;cl=m\x07"), vec![Marker::Semantic(SemanticKind::PromptStart)]);
    assert_eq!(markers(b"\x1b]133;D;1;extra\x07"), vec![Marker::Semantic(SemanticKind::CommandFinished(Some(1)))]);
}

#[test]
fn parses_osc7_cwd() {
    assert_eq!(
        markers(b"\x1b]7;file://host/home/u\x07"),
        vec![Marker::Cwd("/home/u".to_string())]
    );
    // Percent-encoded spaces decode.
    assert_eq!(
        markers(b"\x1b]7;file://host/a%20b\x1b\\"),
        vec![Marker::Cwd("/a b".to_string())]
    );
}

#[test]
fn ignores_unrelated_osc_and_text() {
    // A window-title OSC must not match, even if its text mentions 133;A.
    assert!(markers(b"\x1b]0;a 133;A title\x07").is_empty());
    assert!(markers(b"plain text, no escapes").is_empty());
    assert!(markers(b"\x1b]133;Z\x07").is_empty());
}

#[test]
fn reports_offset_just_past_terminator() {
    // "hi" + OSC(BEL) + "yo": the offset must point at 'y'.
    let bytes = b"hi\x1b]133;B\x07yo";
    let hits = scan_once(bytes);
    assert_eq!(hits.len(), 1);
    let (offset, ref marker) = hits[0];
    assert_eq!(*marker, Marker::Semantic(SemanticKind::PromptEnd));
    assert_eq!(&bytes[offset..], b"yo");
}

#[test]
fn finds_multiple_markers_in_one_chunk() {
    let out = markers(b"\x1b]133;A\x07prompt$ \x1b]133;B\x07ls\x1b]133;C\x07");
    assert_eq!(
        out,
        vec![
            Marker::Semantic(SemanticKind::PromptStart),
            Marker::Semantic(SemanticKind::PromptEnd),
            Marker::Semantic(SemanticKind::OutputStart),
        ]
    );
}

#[test]
fn sequence_split_across_reads_is_recognized() {
    let mut s = Scanner::new();
    // The whole sequence arrives one byte per chunk; the marker surfaces only
    // when its terminator does.
    let full = b"\x1b]133;D;7\x07";
    for (n, _) in full.iter().enumerate() {
        let chunk = &full[n..n + 1];
        let hits = s.scan(chunk);
        if n + 1 == full.len() {
            assert_eq!(
                hits,
                vec![(1, Marker::Semantic(SemanticKind::CommandFinished(Some(7))))]
            );
        } else {
            assert!(hits.is_empty(), "no marker before the terminator (byte {n})");
        }
    }
}

#[test]
fn split_mid_payload_and_at_st() {
    // Split in the middle of "133".
    let mut s = Scanner::new();
    assert!(s.scan(b"\x1b]13").is_empty());
    assert_eq!(s.scan(b"3;C\x07"), vec![(4, Marker::Semantic(SemanticKind::OutputStart))]);

    // Split between the ESC and the '\' of an ST terminator.
    let mut s = Scanner::new();
    assert!(s.scan(b"\x1b]133;A\x1b").is_empty());
    assert_eq!(s.scan(b"\\"), vec![(1, Marker::Semantic(SemanticKind::PromptStart))]);
}

#[test]
fn aborted_osc_then_fresh_osc() {
    // An ESC that is not part of ST aborts the OSC; a following ESC ] starts
    // a new one that is recognized.
    let out = markers(b"\x1b]999\x1bX\x1b]133;A\x07");
    assert_eq!(out, vec![Marker::Semantic(SemanticKind::PromptStart)]);
}

#[test]
fn esc_bracket_inside_osc_restarts() {
    // `ESC ]` while mid-OSC discards the partial and begins fresh.
    let out = markers(b"\x1b]garbage\x1b]133;B\x07");
    assert_eq!(out, vec![Marker::Semantic(SemanticKind::PromptEnd)]);
}

fn found(bytes: &[u8]) -> Vec<(usize, Marker)> {
    Scanner::new().scan(bytes)
}

#[test]
fn scanning_in_chunks_finds_the_same_markers() {
    let bytes = b"x\x1b]133;A\x07y\x1b]7;file://h/a%20b\x1b\\\x1b]133;D;-3\x07z";
    let whole = found(bytes);
    assert_eq!(whole.len(), 3);
    for cut in 0..=bytes.len() {
        let mut s = Scanner::new();
        let mut hits = s.scan(&bytes[..cut]);
        for (at, m) in s.scan(&bytes[cut..]) {
            hits.push((at + cut, m));
        }
        assert_eq!(hits, whole, "cut at {cut}");
    }
}

#[test]
fn offsets_increase_within_the_chunk() {
    let bytes = b"\x1b]133;A\x07\x1b]133;B\x07\x1b]133;C\x07";
    let offsets: Vec<usize> = found(bytes).iter().map(|h| h.0).collect();
    assert_eq!(offsets, [8, 16, 24]);
}

#[test]
fn exit_codes_are_read_as_i32() {
    let code = |t: &str| match found(format!("\x1b]133;D;{t}\x07").as_bytes()).pop() {
        Some((_, Marker::Semantic(SemanticKind::CommandFinished(c)))) => c,
        other => panic!("{other:?}"),
    };
    assert_eq!(code("0"), Some(0));
    assert_eq!(code("+7"), Some(7));
    assert_eq!(code("-2147483648"), Some(i32::MIN));
    assert_eq!(code("2147483647"), Some(i32::MAX));
    assert_eq!(code("2147483648"), None);
    assert_eq!(code(""), None);
    assert_eq!(code("1x"), None);
    assert_eq!(code("5;extra"), Some(5));
}

#[test]
fn percent_coding_gives_the_text_back() {
    let text = "a b;c,d%e/é\u{7}~._-";
    let coded = percent_encode_strict(text);
    assert_eq!(coded, "a%20b%3Bc%2Cd%25e%2F%C3%A9%07~._-");
    assert_eq!(percent_decode(&coded), text);
    // What is no escape stays as it is.
    assert_eq!(percent_decode("100%"), "100%");
    assert_eq!(percent_decode("%4"), "%4");
    assert_eq!(percent_decode("%zz%41"), "%zzA");
    // Bytes that are not UTF-8 are replaced.
    assert_eq!(percent_decode("a%FFb"), "a\u{fffd}b");
}

#[test]
fn file_urls_have_a_path() {
    assert_eq!(file_url_to_path("file://host/tmp/x%20y").as_deref(), Some("/tmp/x y"));
    assert_eq!(file_url_to_path("file:///tmp").as_deref(), Some("/tmp"));
    assert_eq!(file_url_to_path("file://host"), None);
    assert_eq!(file_url_to_path("http://host/tmp"), None);
}

#[test]
fn overlong_payload_is_dropped() {
    let fits = format!("\x1b]7;file://h/{}\x07", "a".repeat(4096 - 11));
    assert_eq!(found(fits.as_bytes()).len(), 1);
    let long = format!("\x1b]7;file://h/{}\x07", "a".repeat(4096));
    assert!(found(long.as_bytes()).is_empty());
    // The scanner is at rest again, and finds what follows.
    let mut s = Scanner::new();
    s.scan(long.as_bytes());
    assert_eq!(s.scan(b"\x1b]133;A\x07").len(), 1);
}

#[test]
fn printed_response_comes_back_as_a_marker() {
    let res = CompletionResponse {
        replace_start: 4,
        replace_end: 7,
        items: vec![
            CompletionItem { value: "a;b,c%d é".to_owned(), description: Some("x; y".to_owned()) },
            CompletionItem { value: "plain".to_owned(), description: None },
            CompletionItem { value: String::new(), description: Some(String::new()) },
        ],
    };
    let bytes = encode_response(&res);
    assert_eq!(found(&bytes), vec![(bytes.len(), Marker::Completion(res))]);
    // A response longer than other sequences may be is still found.
    let big = CompletionResponse {
        replace_start: 0,
        replace_end: 0,
        items: vec![CompletionItem { value: "v".repeat(100), description: None }; 200],
    };
    let bytes = encode_response(&big);
    assert!(bytes.len() > 4096);
    assert_eq!(found(&bytes), vec![(bytes.len(), Marker::Completion(big))]);
}
