use vstd::prelude::*;
use vstd::string::*;
use crate::types::{HttpMethod, HttpRequestError, HttpResponse, spec_method_token,
    spec_pair_views, spec_string_views};
use crate::parse::{spec_status_code, spec_status_code_of_line, spec_headers, spec_json_slice,
    spec_body_in_bounds, split_lines, status_code_of_line, headers_of_lines, extract_json_body};
use crate::status::spec_status_text;
use crate::url_support::{spec_url_ok, spec_url_host, spec_url_path, url_parts};
use crate::json_support::{spec_json_text, json_to_text};

verus! {

/// Performs the computational steps of one synchronous HTTP/1.1 exchange:
/// target resolution decisions, request-text assembly and response parsing.
/// All methods are stateless; the struct carries no data.
pub struct HttpClient;

/// The full request text of one exchange: the request line, the three fixed
/// headers, a blank line, and — when a body is given — its text followed by
/// one CRLF.
pub open spec fn spec_request_text(
    m: HttpMethod,
    host: Seq<char>,
    path: Seq<char>,
    body: Option<Seq<char>>,
) -> Seq<char> {
    let head = spec_method_token(m) + " "@ + path + " HTTP/1.1\r\nHost: "@ + host
        + "\r\nUser-Agent: Rust-HTTP-Client\r\nConnection: close\r\n\r\n"@;
    match body {
        None => head,
        Some(b) => head + b + "\r\n"@,
    }
}

/// The view of an optional borrowed body text.
pub open spec fn spec_body_view(body: Option<&String>) -> Option<Seq<char>> {
    match body {
        Some(b) => Some(b@),
        None => None,
    }
}

impl HttpClient {
    /// The request-line token of a method.
    pub fn method_token(method: &HttpMethod) -> (r: &'static str)
        ensures
            r@ == spec_method_token(*method),
    {
        match method {
            HttpMethod::Get => "GET",
            HttpMethod::Post => "POST",
            HttpMethod::Delete => "DELETE",
        }
    }

    /// Assembles the full request text for one exchange.
    pub fn build_request_text(
        method: &HttpMethod,
        host: &str,
        path: &str,
        body_text: Option<&String>,
    ) -> (r: String)
        ensures
            r@ == spec_request_text(*method, host@, path@, spec_body_view(body_text)),
    {
        let mut t = Self::method_token(method).to_owned();
        t.append(" ");
        t.append(path);
        t.append(" HTTP/1.1\r\nHost: ");
        t.append(host);
        t.append("\r\nUser-Agent: Rust-HTTP-Client\r\nConnection: close\r\n\r\n");
        match body_text {
            Some(b) => {
                t.append(b.as_str());
                t.append("\r\n");
            },
            None => {},
        }
        proof {
            assert(t@ =~= spec_request_text(*method, host@, path@, spec_body_view(body_text)));
        }
        t
    }

    /// Turns the host and path read out of a parsed URL into a target,
    /// rejecting a URL without a host exactly as the exchange does.
    pub fn target_of_parts(host: Option<String>, path: String) -> (r: Result<
        (String, String),
        HttpRequestError,
    >)
        ensures
            host matches Some(h) ==> (r matches Ok(t) && t.0 == h && t.1 == path),
            host is None ==> (r matches Err(e) && e matches HttpRequestError::InvalidUrl(m)
                && m@ == "Missing host"@),
    {
        match host {
            Some(h) => Ok((h, path)),
            None => Err(HttpRequestError::InvalidUrl("Missing host".to_owned())),
        }
    }

    /// Resolves a URL to its host and path. Fails with `InvalidUrl` exactly
    /// when the URL does not parse or parses without a host; otherwise it
    /// owes the parsed host and path.
    pub fn url_target(url_text: &str) -> (r: Result<(String, String), HttpRequestError>)
        ensures
            !spec_url_ok(url_text@) ==> r is Err,
            spec_url_ok(url_text@) ==> (match spec_url_host(url_text@) {
                Some(h) => r matches Ok(t) && t.0@ == h && t.1@ == spec_url_path(url_text@),
                None => r matches Err(e) && e matches HttpRequestError::InvalidUrl(m) && m@
                    == "Missing host"@,
            }),
            r matches Err(e) ==> e matches HttpRequestError::InvalidUrl(_),
    {
        match url_parts(url_text) {
            Ok((host, path)) => Self::target_of_parts(host, path),
            Err(msg) => Err(HttpRequestError::InvalidUrl(msg)),
        }
    }

    /// Turns the outcome of serializing a body into the exchange's own
    /// result: the text on success, `SerializationError` on failure.
    pub fn body_text_of(sr: Result<String, serde_json::Error>) -> (r: Result<
        String,
        HttpRequestError,
    >)
        ensures
            sr matches Ok(s) ==> (r matches Ok(t) && t == s),
            sr is Err ==> (r matches Err(e) && e matches HttpRequestError::SerializationError(_)),
    {
        match sr {
            Ok(s) => Ok(s),
            Err(e) => Err(HttpRequestError::SerializationError(e)),
        }
    }

    /// Serializes a JSON body to its text: exactly the serializer's text on
    /// the values it accepts, `SerializationError` on the values it refuses.
    pub fn serialize_body(body: &serde_json::Value) -> (r: Result<String, HttpRequestError>)
        ensures
            spec_json_text(*body) matches Some(t) ==> (r matches Ok(s) && s@ == t),
            spec_json_text(*body) is None ==> (r matches Err(e) && e
                matches HttpRequestError::SerializationError(_)),
    {
        Self::body_text_of(json_to_text(body))
    }

    /// Decides what address the real connection targets: the literal host
    /// when the probe connection reached it, otherwise the first looked-up
    /// address; None — success without a response — exactly when the probe
    /// failed and the lookup yielded nothing.
    pub fn resolve_target(probe_connected: bool, host: &str, lookup_first: Option<String>) -> (r:
        Option<String>)
        ensures
            probe_connected ==> (r matches Some(a) && a@ == host@),
            !probe_connected ==> r == lookup_first,
    {
        if probe_connected {
            Some(host.to_owned())
        } else {
            lookup_first
        }
    }

    /// The socket address for a target: the target with ":80" appended —
    /// always port 80, whatever scheme the URL carried.
    pub fn server_address(target: &str) -> (r: String)
        ensures
            r@ == target@ + ":80"@,
    {
        let mut r = target.to_owned();
        r.append(":80");
        r
    }

    /// Parses a raw response into status code, fixed status phrase, header
    /// pairs and the heuristic body slice; `duration` is recorded as given.
    pub fn parse_response(raw: &str, duration: core::time::Duration) -> (r: HttpResponse)
        requires
            spec_body_in_bounds(raw@),
        ensures
            r.status_code == spec_status_code(raw@),
            r.status_text@ == spec_status_text(spec_status_code(raw@)),
            spec_pair_views(r.headers@) == spec_headers(raw@),
            r.json_body@ == spec_json_slice(raw@),
            r.duration == duration,
    {
        let lines = split_lines(raw);
        let status_code = if lines.len() > 0 {
            proof {
                assert(spec_string_views(lines@)[0] == lines@[0]@);
            }
            status_code_of_line(lines[0].as_str())
        } else {
            proof {
                reveal_strlit("");
                assert(""@ =~= Seq::<char>::empty());
                assert(spec_status_code(raw@) == spec_status_code_of_line(Seq::empty()));
            }
            status_code_of_line("")
        };
        let status_text = Self::get_status_text(status_code).to_owned();
        let headers = headers_of_lines(&lines);
        let json_body = extract_json_body(raw);
        HttpResponse { status_code, status_text, json_body, duration, headers }
    }
}

} // verus!
