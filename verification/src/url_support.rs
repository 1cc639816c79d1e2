use vstd::prelude::*;
use crate::parse::spec_opt_view;

verus! {

/// Whether url::Url::parse accepts a string as an absolute URL. The parse
/// runs with default options — no base URL, no overrides — so the outcome
/// depends on the input string alone and its acceptance gets a name; what an
/// accepted URL looks like inside is not stated.
pub uninterp spec fn spec_url_ok(s: Seq<char>) -> bool;

/// The host of the URL parsed from `s`, or None when the parsed URL has no
/// host; a function of the input string alone. Meaningful only when
/// `spec_url_ok(s)` holds.
pub uninterp spec fn spec_url_host(s: Seq<char>) -> Option<Seq<char>>;

/// The path of the URL parsed from `s`; a function of the input string
/// alone. Meaningful only when `spec_url_ok(s)` holds.
pub uninterp spec fn spec_url_path(s: Seq<char>) -> Seq<char>;

/// Relies on url::Url::parse, url::Url::host_str and url::Url::path: the
/// parse runs with default options, so acceptance, host and path are
/// functions of the input string alone; `host_str` is None exactly for a
/// URL without a host. The parse error is reduced to its message.
#[verifier::external_body]
pub(crate) fn url_parts(s: &str) -> (r: Result<(Option<String>, String), String>)
    ensures
        r is Ok <==> spec_url_ok(s@),
        r matches Ok(p) ==> (spec_opt_view(p.0) == spec_url_host(s@) && p.1@ == spec_url_path(
            s@,
        )),
{
    match url::Url::parse(s) {
        Ok(u) => Ok((u.host_str().map(|h| h.to_owned()), u.path().to_owned())),
        Err(e) => Err(e.to_string()),
    }
}

} // verus!
