use http_client::client::HttpClient;
use http_client::types::{HttpMethod, HttpRequestError};

#[test]
fn get_request_line_is_exact() {
    let text = HttpClient::build_request_text(&HttpMethod::Get, "example.test", "/posts/2", None);
    let first_line = text.split("\r\n").next().unwrap();
    assert_eq!(first_line, "GET /posts/2 HTTP/1.1");
}

#[test]
fn request_text_without_body_is_exact() {
    let text = HttpClient::build_request_text(&HttpMethod::Delete, "h.test", "/x", None);
    assert_eq!(
        text,
        "DELETE /x HTTP/1.1\r\nHost: h.test\r\nUser-Agent: Rust-HTTP-Client\r\nConnection: close\r\n\r\n"
    );
}

#[test]
fn request_text_with_body_appends_it_with_crlf() {
    let body = "{\"id\":101}".to_string();
    let text = HttpClient::build_request_text(&HttpMethod::Post, "h.test", "/c", Some(&body));
    assert_eq!(
        text,
        "POST /c HTTP/1.1\r\nHost: h.test\r\nUser-Agent: Rust-HTTP-Client\r\nConnection: close\r\n\r\n{\"id\":101}\r\n"
    );
}

#[test]
fn malformed_url_is_an_invalid_url_error() {
    match HttpClient::url_target("not a url") {
        Err(HttpRequestError::InvalidUrl(_)) => {}
        other => panic!("expected InvalidUrl, got {:?}", other),
    }
}

#[test]
fn url_without_host_is_an_invalid_url_error() {
    match HttpClient::url_target("data:text/plain,hello") {
        Err(HttpRequestError::InvalidUrl(message)) => assert_eq!(message, "Missing host"),
        other => panic!("expected InvalidUrl, got {:?}", other),
    }
}

#[test]
fn valid_url_yields_host_and_path() {
    let (host, path) = HttpClient::url_target("http://example.test/x").unwrap();
    assert_eq!(host, "example.test");
    assert_eq!(path, "/x");
    let (host, path) = HttpClient::url_target("https://example.test").unwrap();
    assert_eq!(host, "example.test");
    assert_eq!(path, "/");
}

#[test]
fn probe_success_targets_the_literal_host() {
    let target = HttpClient::resolve_target(true, "example.test", None);
    assert_eq!(target, Some("example.test".to_string()));
}

#[test]
fn lookup_failure_after_probe_failure_is_no_response() {
    // the decision behind "unreachable host and failed lookup means success
    // with no response": with no looked-up address there is no target
    let target = HttpClient::resolve_target(false, "example.test", None);
    assert_eq!(target, None);
}

#[test]
fn lookup_success_after_probe_failure_targets_the_first_address() {
    let target = HttpClient::resolve_target(false, "example.test", Some("93.184.216.34".into()));
    assert_eq!(target, Some("93.184.216.34".to_string()));
}

#[test]
fn server_address_is_target_and_port_80() {
    assert_eq!(HttpClient::server_address("example.test"), "example.test:80");
    assert_eq!(HttpClient::server_address("93.184.216.34"), "93.184.216.34:80");
}

#[test]
fn parts_with_a_host_become_a_target() {
    let r = HttpClient::target_of_parts(Some("h.test".to_string()), "/p".to_string());
    assert_eq!(r.unwrap(), ("h.test".to_string(), "/p".to_string()));
}

#[test]
fn parts_without_a_host_are_rejected() {
    match HttpClient::target_of_parts(None, "/p".to_string()) {
        Err(HttpRequestError::InvalidUrl(message)) => assert_eq!(message, "Missing host"),
        other => panic!("expected InvalidUrl, got {:?}", other),
    }
}

#[test]
fn serializer_outcomes_map_to_the_exchange_result() {
    let ok = HttpClient::body_text_of(Ok("{}".to_string()));
    assert_eq!(ok.unwrap(), "{}");
    // a serializer failure surfaces as SerializationError
    let failure = serde_json::from_str::<serde_json::Value>("not json").unwrap_err();
    match HttpClient::body_text_of(Err(failure)) {
        Err(HttpRequestError::SerializationError(_)) => {}
        other => panic!("expected SerializationError, got {:?}", other),
    }
}

#[test]
fn json_body_serializes_to_its_text() {
    let mut object = serde_json::Map::new();
    object.insert("id".to_string(), serde_json::Value::Number(101.into()));
    let value = serde_json::Value::Object(object);
    let text = HttpClient::serialize_body(&value).unwrap();
    assert_eq!(text, "{\"id\":101}");
}
