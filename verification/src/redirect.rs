//! HTTP-to-HTTPS redirection: rewriting a request's host and URI
//! into its HTTPS equivalent.

use vstd::prelude::*;

use crate::strings::{replace_all, spec_dec, spec_replace, u64_to_string};

verus! {

/// Whether the string is a valid URI authority.
pub uninterp spec fn is_valid_authority(s: Seq<char>) -> bool;

/// Relies on http's `Authority` parser: whether a string parses as
/// an authority depends on the string's characters alone.
#[verifier::external_body]
fn parse_authority_ok(s: &str) -> (r: bool)
    ensures
        r == is_valid_authority(s@),
{
    s.parse::<http::uri::Authority>().is_ok()
}

/// The per-request failure of redirect construction: the rewritten
/// host does not parse as an authority.
#[derive(Debug)]
pub enum RedirectError {
    MalformedAuthority,
}

/// The host with the HTTP port's decimal digits rewritten to the
/// HTTPS port's.
pub open spec fn spec_rewritten_host(host: Seq<char>, https_port: u16, http_port: u16) -> Seq<
    char,
> {
    spec_replace(host, spec_dec(http_port as nat), spec_dec(https_port as nat))
}

/// The HTTPS target of a request: scheme forced to https, the
/// host's HTTP port token rewritten to the HTTPS port, path and
/// query kept, with "/" standing in when the request had none.
pub open spec fn spec_https_target(
    host: Seq<char>,
    path_and_query: Option<Seq<char>>,
    https_port: u16,
    http_port: u16,
) -> Seq<char> {
    "https://"@ + spec_rewritten_host(host, https_port, http_port) + (match path_and_query {
        Option::Some(pq) => pq,
        Option::None => "/"@,
    })
}

proof fn lemma_dec_nonempty(n: nat)
    ensures
        spec_dec(n).len() > 0,
{
}

/// Rewrites a request's host and path into the HTTPS equivalent URI:
/// every occurrence of the HTTP port's digits in the host becomes
/// the HTTPS port's digits, the scheme is forced to https, and a
/// missing path becomes "/". Fails exactly when the rewritten host
/// is not a valid authority.
pub fn make_https(
    host: &str,
    path_and_query: Option<String>,
    https_port: u16,
    http_port: u16,
) -> (r: Result<String, RedirectError>)
    ensures
        (r is Ok <==> is_valid_authority(spec_rewritten_host(host@, https_port, http_port))),
        r matches Ok(u) ==> u@ == spec_https_target(
            host@,
            match path_and_query {
                Option::Some(pq) => Option::Some(pq@),
                Option::None => Option::None,
            },
            https_port,
            http_port,
        ),
{
    let http_s = u64_to_string(http_port as u64);
    let https_s = u64_to_string(https_port as u64);
    proof {
        lemma_dec_nonempty(http_port as nat);
    }
    let new_host = replace_all(host, http_s.as_str(), https_s.as_str());
    if parse_authority_ok(new_host.as_str()) {
        let mut r = String::from_str("https://");
        r.append(new_host.as_str());
        match &path_and_query {
            Option::Some(pq) => r.append(pq.as_str()),
            Option::None => r.append("/"),
        }
        Ok(r)
    } else {
        Err(RedirectError::MalformedAuthority)
    }
}

} // verus!
