//! A minimal blocking HTTP/1.1 client library.
//!
//! The library covers the computational half of one HTTP exchange: turning a
//! URL into a host and path, assembling the request text, and parsing the raw
//! response bytes into a status code, a status phrase, header pairs and a
//! heuristically extracted JSON body. The socket work itself (connecting,
//! writing, reading) is left to the caller, who feeds the raw response text
//! back in as a plain string.

pub mod client;
pub mod json_support;
pub mod parse;
pub mod status;
pub mod types;
pub mod url_support;
