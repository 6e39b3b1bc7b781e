//! The ACME HTTP-01 challenge responder: the token map that the
//! orchestrator fills and the responder reads, and the decision for
//! each request on the unencrypted listener.

use vstd::prelude::*;

use vstd::hash_map::StringHashMap;

use crate::redirect::{is_valid_authority, make_https, spec_https_target, spec_rewritten_host};
use crate::strings::matches_at;

verus! {

/// The map from in-flight challenge tokens to their key
/// authorizations. The orchestrator alone writes it; the challenge
/// responder only reads it. An entry lives for one in-flight
/// validation attempt.
pub struct TokenMap {
    tokens: StringHashMap<String>,
}

impl View for TokenMap {
    type V = Map<Seq<char>, String>;

    closed spec fn view(&self) -> Map<Seq<char>, String> {
        self.tokens@
    }
}

impl TokenMap {
    /// An empty token map.
    pub fn new() -> (r: Self)
        ensures
            r@ == Map::<Seq<char>, String>::empty(),
    {
        TokenMap { tokens: StringHashMap::new() }
    }

    /// Publishes a token with its key authorization, replacing any
    /// earlier authorization under the same token.
    pub fn set_token(&mut self, token: String, key_auth: String)
        ensures
            final(self)@ == old(self)@.insert(token@, key_auth),
    {
        self.tokens.insert(token, key_auth);
    }

    /// Withdraws a token once its validation attempt is over.
    pub fn remove_token(&mut self, token: &str)
        ensures
            final(self)@ == old(self)@.remove(token@),
    {
        self.tokens.remove(token);
    }

    /// The key authorization for a token, when the token is
    /// currently registered.
    pub fn get_http_01_key_auth(&self, token: &str) -> (r: Option<String>)
        ensures
            self@.contains_key(token@) ==> (r matches Some(a) && a@ == self@[token@]@),
            !self@.contains_key(token@) ==> r is None,
    {
        match self.tokens.get(token) {
            None => None,
            Some(a) => {
                let c = a.clone();
                Some(c)
            },
        }
    }
}

/// The token carried by a challenge request's path: the segment
/// after the well-known challenge prefix, provided it is non-empty
/// and holds no further slash; any other path carries none.
pub open spec fn spec_challenge_token(path: Seq<char>) -> Option<Seq<char>> {
    let prefix = "/.well-known/acme-challenge/"@;
    if path.len() > prefix.len() && path.subrange(0, prefix.len() as int) == prefix && (forall|
        j: int,
    |
        prefix.len() <= j < path.len() ==> path[j] != '/') {
        Some(path.skip(prefix.len() as int))
    } else {
        None
    }
}

/// Extracts the challenge token from a request path: the single
/// non-empty segment after the well-known challenge prefix.
pub fn match_challenge_path(path: &str) -> (r: Option<String>)
    ensures
        match r {
            Some(t) => spec_challenge_token(path@) == Some(t@),
            None => spec_challenge_token(path@) is None,
        },
{
    proof {
        reveal_strlit("/.well-known/acme-challenge/");
    }
    let n = path.unicode_len();
    if n <= 28 {
        return None;
    }
    if !matches_at(path, 0, "/.well-known/acme-challenge/") {
        return None;
    }
    let mut i: usize = 28;
    while i < n
        invariant
            28 <= i <= n,
            n == path@.len(),
            "/.well-known/acme-challenge/"@.len() == 28,
            forall|j: int| 28 <= j < i ==> path@[j] != '/',
        decreases n - i,
    {
        if path.get_char(i) == '/' {
            assert(path@[i as int] == '/');
            assert(spec_challenge_token(path@) is None);
            return None;
        }
        i = i + 1;
    }
    proof {
        assert(path@.subrange(0, 28) == "/.well-known/acme-challenge/"@);
    }
    Some(path.substring_char(28, n).to_owned())
}

/// The response to one request on the unencrypted listener.
pub enum UnencryptedResponse {
    /// The exact key authorization of a registered token, served
    /// with success as an opaque octet stream.
    KeyAuthorization(String),
    /// A challenge request whose token is not registered.
    UnknownToken,
    /// Any other request: a permanent redirect to the HTTPS
    /// equivalent URI.
    Redirect(String),
    /// A redirect whose rewritten host is malformed.
    BadRequest,
}

/// The HTTP status that each decision is served with.
pub fn status_code(r: &UnencryptedResponse) -> (code: u16)
    ensures
        code == match r {
            UnencryptedResponse::KeyAuthorization(_) => 200u16,
            UnencryptedResponse::UnknownToken => 404u16,
            UnencryptedResponse::Redirect(_) => 308u16,
            UnencryptedResponse::BadRequest => 400u16,
        },
{
    match r {
        UnencryptedResponse::KeyAuthorization(_) => 200,
        UnencryptedResponse::UnknownToken => 404,
        UnencryptedResponse::Redirect(_) => 308,
        UnencryptedResponse::BadRequest => 400,
    }
}

/// Decides one request on the unencrypted listener. A challenge
/// request is answered from the token map: the exact key
/// authorization when its token is registered, not-found otherwise.
/// Every other request is answered with a permanent redirect to its
/// HTTPS equivalent, or a client error when the rewritten host is
/// malformed.
pub fn handle_http01_challenge_or_redirect(
    tokens: &TokenMap,
    path: &str,
    host: &str,
    path_and_query: Option<String>,
    https_port: u16,
    http_port: u16,
) -> (r: UnencryptedResponse)
    ensures
        ({
            let token = spec_challenge_token(path@);
            let rewritten = spec_rewritten_host(host@, https_port, http_port);
            &&& token matches Some(t) ==> {
                &&& tokens@.contains_key(t) ==> (r matches UnencryptedResponse::KeyAuthorization(a)
                    && a@ == tokens@[t]@)
                &&& !tokens@.contains_key(t) ==> r is UnknownToken
            }
            &&& (token is None && is_valid_authority(rewritten)) ==> (r matches
                UnencryptedResponse::Redirect(u) && u@ == spec_https_target(
                host@,
                match path_and_query {
                    Option::Some(pq) => Option::Some(pq@),
                    Option::None => Option::None,
                },
                https_port,
                http_port,
            ))
            &&& (token is None && !is_valid_authority(rewritten)) ==> r is BadRequest
        }),
{
    match match_challenge_path(path) {
        Some(t) => match tokens.get_http_01_key_auth(t.as_str()) {
            Some(a) => UnencryptedResponse::KeyAuthorization(a),
            None => UnencryptedResponse::UnknownToken,
        },
        None => match make_https(host, path_and_query, https_port, http_port) {
            Ok(u) => UnencryptedResponse::Redirect(u),
            Err(_) => UnencryptedResponse::BadRequest,
        },
    }
}

} // verus!
