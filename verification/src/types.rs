use vstd::prelude::*;

verus! {

/// The HTTP method of one request.
pub enum HttpMethod {
    Get,
    Post,
    Delete,
}

/// The request-line token for a method.
pub open spec fn spec_method_token(m: HttpMethod) -> Seq<char> {
    match m {
        HttpMethod::Get => "GET"@,
        HttpMethod::Post => "POST"@,
        HttpMethod::Delete => "DELETE"@,
    }
}

/// The ways one exchange can fail. A failed address lookup is deliberately
/// not among them: it is reported as success without a response.
#[derive(Debug)]
pub enum HttpRequestError {
    /// The URL did not parse, or parsed without a host.
    InvalidUrl(String),
    /// A socket could not be opened, written or read.
    ConnectionError(String),
    /// The JSON body could not be turned into text.
    SerializationError(serde_json::Error),
}

/// One fully parsed response. Every field is computed from the raw response
/// text alone, except `duration`, which the caller measures around the whole
/// exchange and passes in.
pub struct HttpResponse {
    /// The numeric code from the status line's second token; 0 when that
    /// token is missing or does not parse.
    pub status_code: u16,
    /// The phrase for `status_code` from the fixed table, never the phrase
    /// the server sent.
    pub status_text: String,
    /// The slice of the raw text from its first '{' through its last '}'.
    pub json_body: String,
    /// Wall-clock time of the whole resolve, connect, write and read
    /// sequence.
    pub duration: core::time::Duration,
    /// One (name, value) pair per header line, in line order.
    pub headers: Vec<(String, String)>,
}

/// The views of a sequence of header pairs.
pub open spec fn spec_pair_views(ps: Seq<(String, String)>) -> Seq<(Seq<char>, Seq<char>)> {
    ps.map_values(|p: (String, String)| (p.0@, p.1@))
}

/// The views of a sequence of owned strings.
pub open spec fn spec_string_views(ls: Seq<String>) -> Seq<Seq<char>> {
    ls.map_values(|l: String| l@)
}

} // verus!
