use http_client::client::HttpClient;
use http_client::parse::{
    body_slice_in_bounds, extract_json_body, headers_of_lines, parse_u16, second_token,
    split_header_line, split_lines, status_code_of_line,
};
use std::time::Duration;

#[test]
fn lines_split_at_crlf_and_lf() {
    let raw = "HTTP/1.1 200 OK\r\nA: b\r\n\r\nbody";
    let lines = split_lines(raw);
    assert_eq!(lines, vec!["HTTP/1.1 200 OK", "A: b", "", "body"]);
    assert_eq!(split_lines(""), Vec::<String>::new());
    assert_eq!(split_lines("\n"), vec![""]);
    assert_eq!(split_lines("a\nb"), vec!["a", "b"]);
    assert_eq!(split_lines("a\r"), vec!["a\r"]); // a lone carriage return stays
    assert_eq!(split_lines("a\n"), vec!["a"]); // a final terminator opens no line
}

#[test]
fn header_line_with_separator_splits_at_first() {
    let (name, value) = split_header_line("Content-Type: application/json");
    assert_eq!(name, "Content-Type");
    assert_eq!(value, "application/json");
    // only the first ": " separates; the rest stays in the value
    let (name, value) = split_header_line("A: b: c");
    assert_eq!(name, "A");
    assert_eq!(value, "b: c");
}

#[test]
fn header_line_without_separator_is_all_name() {
    let (name, value) = split_header_line("weird-line-without-colon-space");
    assert_eq!(name, "weird-line-without-colon-space");
    assert_eq!(value, "");
    // a colon without a following space does not separate
    let (name, value) = split_header_line("A:b");
    assert_eq!(name, "A:b");
    assert_eq!(value, "");
}

#[test]
fn one_entry_per_header_line() {
    let raw = "HTTP/1.1 200 OK\r\nA: 1\r\nB: 2\r\nC: 3\r\n\r\nrest";
    let lines = split_lines(raw);
    let headers = headers_of_lines(&lines);
    assert_eq!(headers.len(), 3);
    assert_eq!(headers[0], ("A".to_string(), "1".to_string()));
    assert_eq!(headers[1], ("B".to_string(), "2".to_string()));
    assert_eq!(headers[2], ("C".to_string(), "3".to_string()));
}

#[test]
fn headers_stop_at_the_first_empty_line() {
    let raw = "status\r\nA: 1\r\n\r\nNot: a header";
    let lines = split_lines(raw);
    let headers = headers_of_lines(&lines);
    assert_eq!(headers, vec![("A".to_string(), "1".to_string())]);
}

#[test]
fn duplicate_header_names_each_keep_their_line() {
    let raw = "status\r\nSet-Cookie: a=1\r\nSet-Cookie: b=2\r\n\r\n";
    let lines = split_lines(raw);
    let headers = headers_of_lines(&lines);
    assert_eq!(
        headers,
        vec![
            ("Set-Cookie".to_string(), "a=1".to_string()),
            ("Set-Cookie".to_string(), "b=2".to_string()),
        ]
    );
}

#[test]
fn second_token_of_a_status_line() {
    assert_eq!(second_token("HTTP/1.1 201 Created"), Some("201".to_string()));
    assert_eq!(second_token("  a   b  c"), Some("b".to_string()));
    assert_eq!(second_token("onlyone"), None);
    assert_eq!(second_token(""), None);
}

#[test]
fn u16_parsing_matches_standard_acceptance() {
    assert_eq!(parse_u16("201"), Some(201));
    assert_eq!(parse_u16("+201"), Some(201)); // a leading plus is accepted
    assert_eq!(parse_u16("007"), Some(7));
    assert_eq!(parse_u16("65535"), Some(65535));
    assert_eq!(parse_u16("65536"), None); // too large
    assert_eq!(parse_u16("99999999999999999999"), None);
    assert_eq!(parse_u16(""), None);
    assert_eq!(parse_u16("+"), None);
    assert_eq!(parse_u16("-0"), None); // no minus sign on an unsigned parse
    assert_eq!(parse_u16("20a"), None);
    assert_eq!(parse_u16(" 201"), None);
}

#[test]
fn status_code_defaults_to_zero() {
    assert_eq!(status_code_of_line("HTTP/1.1 201 Created"), 201);
    assert_eq!(status_code_of_line("HTTP/1.1 abc Created"), 0);
    assert_eq!(status_code_of_line("HTTP/1.1"), 0);
    assert_eq!(status_code_of_line(""), 0);
}

#[test]
fn body_slice_between_first_and_last_brace() {
    assert_eq!(extract_json_body("head {\"id\":101} tail"), "{\"id\":101}");
    assert_eq!(extract_json_body("x {\"a\":{\"b\":1}} y {z} w"), "{\"a\":{\"b\":1}} y {z}");
}

#[test]
fn body_slice_without_open_brace_starts_at_zero() {
    assert_eq!(extract_json_body("no braces here end}"), "no braces here end}");
    assert_eq!(extract_json_body(""), "");
}

#[test]
fn body_slice_without_close_brace_runs_to_the_end() {
    assert_eq!(extract_json_body("start {unclosed to the end"), "{unclosed to the end");
    assert_eq!(extract_json_body("no brace at all"), "no brace at all");
}

#[test]
fn reversed_brace_range_is_detected() {
    // the first '{' stands after the last '}': the raw slicing would panic
    assert!(!body_slice_in_bounds("} x {"));
    assert!(body_slice_in_bounds("}{")); // empty but ordered range
    assert!(body_slice_in_bounds("{}"));
    assert!(body_slice_in_bounds(""));
}

#[test]
fn full_response_parses_to_all_fields() {
    let raw = "HTTP/1.1 201 Created\r\nContent-Type: application/json\r\n\r\n{\"id\":101}";
    let elapsed = Duration::from_millis(12);
    let response = HttpClient::parse_response(raw, elapsed);
    assert_eq!(response.status_code, 201);
    assert_eq!(response.status_text, "Created");
    assert_eq!(
        response.headers,
        vec![("Content-Type".to_string(), "application/json".to_string())]
    );
    assert_eq!(response.json_body, "{\"id\":101}");
    assert_eq!(response.duration, elapsed);
}

#[test]
fn unknown_code_response_gets_unknown_phrase() {
    let raw = "HTTP/1.1 799 Odd\r\n\r\n{}";
    let response = HttpClient::parse_response(raw, Duration::from_millis(0));
    assert_eq!(response.status_code, 799);
    assert_eq!(response.status_text, "Unknown");
    assert_eq!(response.headers, Vec::<(String, String)>::new());
    assert_eq!(response.json_body, "{}");
}
