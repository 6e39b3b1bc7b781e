use klamer_dev::challenge::{
    handle_http01_challenge_or_redirect, match_challenge_path, status_code, TokenMap,
    UnencryptedResponse,
};
use klamer_dev::redirect::make_https;

#[test]
fn registered_token_serves_exact_key_authorization() {
    let mut tokens = TokenMap::new();
    tokens.set_token("abc123".to_string(), "abc123.xyz".to_string());
    let auth = tokens.get_http_01_key_auth("abc123");
    assert_eq!(auth, Some("abc123.xyz".to_string()));
}

#[test]
fn unregistered_token_is_absent() {
    let mut tokens = TokenMap::new();
    tokens.set_token("abc123".to_string(), "abc123.xyz".to_string());
    assert_eq!(tokens.get_http_01_key_auth("zzz"), None);
}

#[test]
fn removed_token_is_absent() {
    let mut tokens = TokenMap::new();
    tokens.set_token("abc123".to_string(), "abc123.xyz".to_string());
    tokens.remove_token("abc123");
    assert_eq!(tokens.get_http_01_key_auth("abc123"), None);
}

#[test]
fn challenge_request_yields_200_with_body() {
    let mut tokens = TokenMap::new();
    tokens.set_token("abc123".to_string(), "abc123.xyz".to_string());
    let r = handle_http01_challenge_or_redirect(
        &tokens,
        "/.well-known/acme-challenge/abc123",
        "example.com",
        None,
        443,
        80,
    );
    assert_eq!(status_code(&r), 200);
    match r {
        UnencryptedResponse::KeyAuthorization(body) => assert_eq!(body, "abc123.xyz"),
        _ => panic!("expected the key authorization"),
    }
}

#[test]
fn unknown_token_yields_404() {
    let tokens = TokenMap::new();
    let r = handle_http01_challenge_or_redirect(
        &tokens,
        "/.well-known/acme-challenge/zzz",
        "example.com",
        None,
        443,
        80,
    );
    assert_eq!(status_code(&r), 404);
    assert!(matches!(r, UnencryptedResponse::UnknownToken));
}

#[test]
fn other_paths_redirect_permanently() {
    let tokens = TokenMap::new();
    let r = handle_http01_challenge_or_redirect(
        &tokens,
        "/foo",
        "example.com:80",
        Some("/foo?q=1".to_string()),
        443,
        80,
    );
    assert_eq!(status_code(&r), 308);
    match r {
        UnencryptedResponse::Redirect(target) => {
            assert_eq!(target, "https://example.com:443/foo?q=1")
        },
        _ => panic!("expected a redirect"),
    }
}

#[test]
fn malformed_host_yields_400() {
    let tokens = TokenMap::new();
    let r = handle_http01_challenge_or_redirect(
        &tokens,
        "/foo",
        "exa mple.com",
        Some("/foo".to_string()),
        443,
        80,
    );
    assert_eq!(status_code(&r), 400);
    assert!(matches!(r, UnencryptedResponse::BadRequest));
}

#[test]
fn challenge_path_extraction() {
    assert_eq!(
        match_challenge_path("/.well-known/acme-challenge/tok-1"),
        Some("tok-1".to_string())
    );
    assert_eq!(match_challenge_path("/.well-known/acme-challenge/"), None);
    assert_eq!(match_challenge_path("/.well-known/acme-challenge/a/b"), None);
    assert_eq!(match_challenge_path("/foo"), None);
    assert_eq!(match_challenge_path("/"), None);
}

#[test]
fn make_https_rewrites_scheme_host_and_default_path() {
    let ok = make_https("example.com:80", Some("/foo?q=1".to_string()), 443, 80);
    assert_eq!(ok.unwrap(), "https://example.com:443/foo?q=1");

    let rootless = make_https("example.com", None, 443, 80);
    assert_eq!(rootless.unwrap(), "https://example.com/");

    let odd_ports = make_https("example.com:8080", Some("/x".to_string()), 8443, 8080);
    assert_eq!(odd_ports.unwrap(), "https://example.com:8443/x");
}

#[test]
fn make_https_replaces_every_port_occurrence() {
    let r = make_https("host80.com:80", Some("/".to_string()), 443, 80);
    assert_eq!(r.unwrap(), "https://host443.com:443/");
}

#[test]
fn make_https_rejects_malformed_host() {
    assert!(make_https("exa mple.com", None, 443, 80).is_err());
    assert!(make_https("", None, 443, 80).is_err());
}

#[test]
fn empty_token_path_falls_through_to_redirect() {
    let tokens = TokenMap::new();
    let r = handle_http01_challenge_or_redirect(
        &tokens,
        "/.well-known/acme-challenge/",
        "example.com:80",
        Some("/.well-known/acme-challenge/".to_string()),
        443,
        80,
    );
    assert_eq!(status_code(&r), 308);
    match r {
        UnencryptedResponse::Redirect(target) => {
            assert_eq!(target, "https://example.com:443/.well-known/acme-challenge/")
        },
        _ => panic!("expected a redirect"),
    }
}
