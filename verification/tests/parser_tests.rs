use blackbird::ai::blackbird::parse_blackbird_sse_data;
use blackbird::ai::ollama::parse_ollama_stream_line;

#[test]
fn test_parse_ollama_stream_lines() {
    let lines = vec![
        r#"{"message":{"content":"Hello"},"done":false}"#,
        r#"{"message":{"content":" world"},"done":false}"#,
        r#"{"done":true}"#,
    ];
    let mut acc = String::new();
    let mut finished = false;
    for l in lines {
        if let Some((piece, done)) = parse_ollama_stream_line(l) {
            acc.push_str(&piece);
            finished = done;
        }
    }
    assert_eq!(acc, "Hello world");
    assert!(finished);
}

#[test]
fn parses_stream_lines() {
    let mut acc = String::new();
    let mut done = false;
    for line in [
        r#"{"message":{"content":"Hello"},"done":false}"#,
        r#"{"message":{"content":" world"},"done":false}"#,
        r#"{"done":true}"#,
    ] {
        if let Some((piece, finished)) = parse_ollama_stream_line(line) {
            acc.push_str(&piece);
            done = finished;
        }
    }
    assert_eq!(acc, "Hello world");
    assert!(done);
}

#[test]
fn parses_blackbird_data() {
    assert!(parse_blackbird_sse_data("").is_none());
    assert_eq!(
        parse_blackbird_sse_data("[DONE]"),
        Some((String::new(), true))
    );
    assert_eq!(
        parse_blackbird_sse_data(r#"{"choices":[{"delta":{"content":"hello"}}]}"#),
        Some(("hello".to_string(), false))
    );
    assert_eq!(
        parse_blackbird_sse_data(r#"{"content":"hi"}"#),
        Some(("hi".to_string(), false))
    );
}

#[test]
fn stream_lines_report_done_only_on_last_record() {
    let flags: Vec<bool> = [
        r#"{"message":{"content":"Hello"},"done":false}"#,
        r#"{"message":{"content":" world"},"done":false}"#,
        r#"{"done":true}"#,
    ]
    .iter()
    .map(|line| parse_ollama_stream_line(line).unwrap().1)
    .collect();
    assert_eq!(flags, vec![false, false, true]);
}

#[test]
fn stream_line_blank_gives_nothing() {
    assert_eq!(parse_ollama_stream_line(""), None);
    assert_eq!(parse_ollama_stream_line("   \t\r"), None);
}

#[test]
fn stream_line_malformed_gives_nothing() {
    assert_eq!(parse_ollama_stream_line("{not json"), None);
    assert_eq!(parse_ollama_stream_line("42"), None);
    assert_eq!(parse_ollama_stream_line(r#"{"message":"text"}"#), None);
    assert_eq!(parse_ollama_stream_line(r#"{"message":{"content":5}}"#), None);
    assert_eq!(parse_ollama_stream_line(r#"{"done":"yes"}"#), None);
}

#[test]
fn stream_line_defaults() {
    assert_eq!(parse_ollama_stream_line("{}"), Some((String::new(), false)));
    assert_eq!(
        parse_ollama_stream_line(r#"{"message":null,"done":null}"#),
        Some((String::new(), false))
    );
    assert_eq!(
        parse_ollama_stream_line(r#"  {"message":{"content":"x","role":"assistant"}}  "#),
        Some(("x".to_string(), false))
    );
    assert_eq!(
        parse_ollama_stream_line(r#"{"message":{"content":"end"},"done":true,"extra":[1,2]}"#),
        Some(("end".to_string(), true))
    );
}

#[test]
fn sse_done_with_surrounding_whitespace() {
    assert_eq!(parse_blackbird_sse_data("  [DONE] \r\n"), Some((String::new(), true)));
    assert_eq!(parse_blackbird_sse_data("\t[DONE]"), Some((String::new(), true)));
}

#[test]
fn sse_delta_shape() {
    assert_eq!(
        parse_blackbird_sse_data(r#"{"choices":[{"delta":{"content":"hi"}}]}"#),
        Some(("hi".to_string(), false))
    );
}

#[test]
fn sse_flat_shape() {
    assert_eq!(
        parse_blackbird_sse_data(r#"{"content":"hi"}"#),
        Some(("hi".to_string(), false))
    );
}

#[test]
fn sse_message_shape() {
    assert_eq!(
        parse_blackbird_sse_data(r#"{"choices":[{"message":{"content":"whole"}}]}"#),
        Some(("whole".to_string(), false))
    );
}

#[test]
fn sse_delta_wins_over_message_and_flat() {
    assert_eq!(
        parse_blackbird_sse_data(
            r#"{"content":"flat","choices":[{"message":{"content":"m"},"delta":{"content":"d"}}]}"#
        ),
        Some(("d".to_string(), false))
    );
    assert_eq!(
        parse_blackbird_sse_data(
            r#"{"content":"flat","choices":[{"message":{"content":"m"},"delta":{}}]}"#
        ),
        Some(("m".to_string(), false))
    );
    assert_eq!(
        parse_blackbird_sse_data(r#"{"content":"flat","choices":[]}"#),
        Some(("flat".to_string(), false))
    );
}

#[test]
fn sse_empty_payload_gives_nothing() {
    assert_eq!(parse_blackbird_sse_data(""), None);
    assert_eq!(parse_blackbird_sse_data("   "), None);
}

#[test]
fn sse_malformed_or_unknown_payload_gives_empty_delta() {
    assert_eq!(parse_blackbird_sse_data("{oops"), Some((String::new(), false)));
    assert_eq!(parse_blackbird_sse_data(r#"{"event":"ping"}"#), Some((String::new(), false)));
    assert_eq!(parse_blackbird_sse_data(r#"{"choices":[]}"#), Some((String::new(), false)));
    assert_eq!(parse_blackbird_sse_data("[1,2,3]"), Some((String::new(), false)));
}
