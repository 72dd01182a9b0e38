use mpk_handshake::codec::{build_total_request, process_request, recv_counts, recv_total_count,
    send_counts, send_total_count};
use mpk_handshake::freq::calculate_counts;
use mpk_handshake::tokenize::calculate_total_count;

#[test]
fn total_counts_three_tokens() {
    let response = process_request(r#"{"type": "total", "string": "hello world hello"}"#);
    assert_eq!(response, "3");
}

#[test]
fn counts_top_two_of_hello_world_hello() {
    let response = process_request(r#"{"type": "counts", "string": "hello world hello", "n": 2}"#);
    assert_eq!(response, "{\"hello\":2,\"world\":1}");
}

#[test]
fn unknown_request_type_is_reported() {
    let response = process_request(r#"{"type": "frequencies", "string": "hello"}"#);
    assert_eq!(response, "Unknown request type");
}

#[test]
fn missing_type_is_unknown() {
    let response = process_request(r#"{"string": "hello"}"#);
    assert_eq!(response, "Unknown request type");
}

#[test]
fn malformed_envelope_yields_parse_error_text() {
    let request = "this is not json";
    let response = process_request(request);
    let expected = serde_json::from_str::<serde_json::Value>(request)
        .unwrap_err()
        .to_string();
    assert_eq!(response, expected);
    assert!(!response.is_empty());
}

#[test]
fn counts_without_n_keeps_nothing() {
    let response = process_request(r#"{"type": "counts", "string": "a b a"}"#);
    assert_eq!(response, "{}");
}

#[test]
fn counts_with_negative_n_keeps_everything() {
    let response = process_request(r#"{"type": "counts", "string": "a b a", "n": -1}"#);
    assert_eq!(response, "{\"a\":2,\"b\":1}");
}

#[test]
fn total_of_empty_input_is_zero() {
    let response = process_request(r#"{"type": "total", "string": ""}"#);
    assert_eq!(response, "0");
}

#[test]
fn token_count_ignores_leading_and_trailing_whitespace() {
    assert_eq!(calculate_total_count("  a  "), 1);
    assert_eq!(calculate_total_count(""), 0);
    assert_eq!(calculate_total_count("   "), 0);
    assert_eq!(calculate_total_count("one\ttwo\nthree"), 3);
}

#[test]
fn token_count_sees_unicode_whitespace() {
    assert_eq!(calculate_total_count("a\u{00a0}b"), 2);
    assert_eq!(calculate_total_count("a\u{2003}b\u{3000}c"), 3);
}

#[test]
fn counts_sorts_by_frequency_with_first_seen_ties() {
    let ranked = calculate_counts("b a b a c", -1);
    let words: Vec<(&str, u64)> = ranked.iter().map(|p| (p.0.as_str(), p.1)).collect();
    assert_eq!(words, vec![("b", 2), ("a", 2), ("c", 1)]);
}

#[test]
fn counts_cuts_to_the_requested_size() {
    let ranked = calculate_counts("b a b a c", 2);
    let words: Vec<(&str, u64)> = ranked.iter().map(|p| (p.0.as_str(), p.1)).collect();
    assert_eq!(words, vec![("b", 2), ("a", 2)]);
    assert!(calculate_counts("b a b a c", 0).is_empty());
}

#[test]
fn rendered_counts_escape_special_characters() {
    let tally = vec![
        ("say \"hi\"".to_string(), 2u64),
        ("back\\slash".to_string(), 1u64),
        ("tab\there".to_string(), 1u64),
    ];
    let text = send_counts(&tally);
    assert_eq!(
        text,
        "{\"say \\\"hi\\\"\":2,\"back\\\\slash\":1,\"tab\\u0009here\":1}"
    );
}

#[test]
fn counts_survive_a_render_and_parse_round_trip() {
    let tally = vec![
        ("hello".to_string(), 2u64),
        ("say \"hi\"".to_string(), 1u64),
        ("line\nbreak".to_string(), 3u64),
    ];
    let text = send_counts(&tally);
    assert_eq!(recv_counts(&text), Some(tally));
}

#[test]
fn empty_counts_render_and_parse() {
    let tally: Vec<(String, u64)> = Vec::new();
    let text = send_counts(&tally);
    assert_eq!(text, "{}");
    assert_eq!(recv_counts("{}"), Some(Vec::new()));
}

#[test]
fn non_canonical_counts_text_is_rejected() {
    assert_eq!(recv_counts("not json"), None);
    assert_eq!(recv_counts("{\"a\":01}"), None);
    assert_eq!(recv_counts("{\"a\":1} "), None);
    assert_eq!(recv_counts("{\"a\":}"), None);
    assert_eq!(recv_counts("{\"a\":1,}"), None);
}

#[test]
fn total_count_survives_a_render_and_parse_round_trip() {
    assert_eq!(send_total_count(0), "0");
    assert_eq!(send_total_count(42), "42");
    assert_eq!(send_total_count(u64::MAX), "18446744073709551615");
    assert_eq!(recv_total_count("42"), Some(42));
    assert_eq!(recv_total_count(&send_total_count(u64::MAX)), Some(u64::MAX));
}

#[test]
fn unreadable_totals_are_rejected() {
    assert_eq!(recv_total_count(""), None);
    assert_eq!(recv_total_count("4x2"), None);
    assert_eq!(recv_total_count("99999999999999999999"), None);
}

#[test]
fn total_request_flattens_newlines() {
    let request = build_total_request("hello\nworld");
    assert_eq!(request, r#"{"type": "total", "string": "hello world"}"#);
    assert_eq!(process_request(&request), "2");
}

#[test]
fn a_missing_string_field_counts_as_empty() {
    assert_eq!(process_request(r#"{"type": "total"}"#), "0");
    assert_eq!(process_request(r#"{"type": "counts", "n": 2}"#), "{}");
}

#[test]
fn a_mistyped_type_field_is_unknown() {
    assert_eq!(process_request(r#"{"type": 7, "string": "a b"}"#), "Unknown request type");
}
