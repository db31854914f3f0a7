use secure_proxy::auth::{Challenge, Decision, DenyReason};
use secure_proxy::config::Config;
use secure_proxy::credentials::{AuthScheme, CredentialStore};
use secure_proxy::dispatch::{handle_connect, handle_request, Action};
use secure_proxy::forward::{handle_http, Forwarded};
use secure_proxy::request::{find_header, Header, Request};
use secure_proxy::response::{
    denial_response, established_response, failure_response, forbidden_response,
    health_response, unauthorized_response, Response,
};
use secure_proxy::target::Resolution;

fn basic_config() -> Config {
    let users = CredentialStore::new(AuthScheme::Basic)
        .with("user".to_string(), "pass".to_string());
    Config::new("0.0.0.0".to_string(), 3128, users)
}

fn token_config() -> Config {
    let tokens = CredentialStore::new(AuthScheme::Token)
        .with("ci".to_string(), "tok-123".to_string());
    Config::new("0.0.0.0".to_string(), 3128, tokens)
}

fn request(method: &str, uri: &str, path: &str, headers: &[(&str, &[u8])]) -> Request {
    let headers = headers.iter().map(|(name, value)| Header::new(name, value)).collect();
    Request::new(method, uri, path, headers)
}

fn response_of(action: Action) -> Response {
    match action {
        Action::Respond(response) => response,
        other => panic!("no response but {:?}", other),
    }
}

fn denial_of(action: Action) -> Response {
    match action {
        Action::Deny(_, response) => response,
        other => panic!("no denial but {:?}", other),
    }
}

fn reason_of(action: Action) -> DenyReason {
    match action {
        Action::Deny(reason, _) => reason,
        other => panic!("no denial but {:?}", other),
    }
}

fn assert_health(response: &Response) {
    assert_eq!(response.status, 200);
    assert_eq!(response.body, "OK");
    assert!(response.headers.is_empty());
}

fn assert_forbidden(response: &Response) {
    assert_eq!(response.status, 403);
    assert_eq!(response.body, "Invalid or missing token");
    assert!(response.headers.is_empty());
}

fn assert_unauthorized(response: &Response) {
    assert_eq!(response.status, 407);
    assert_eq!(response.body, "Proxy authentication required");
    assert_eq!(response.headers.len(), 1);
    assert_eq!(response.headers[0].name, "Proxy-Authenticate");
    assert_eq!(response.headers[0].value, "Basic realm=\"Secure Proxy\"");
}

#[test]
fn health_check_needs_no_credentials() {
    let plain = request("GET", "/health", "/health", &[]);
    assert_health(&response_of(handle_request(&basic_config(), &plain)));
    assert_health(&response_of(handle_request(&token_config(), &plain)));
}

#[test]
fn health_check_ignores_credentials_good_or_bad() {
    let good = request(
        "GET",
        "/health",
        "/health",
        &[("proxy-authorization", b"Basic dXNlcjpwYXNz"), ("x-proxy-token", b"tok-123")],
    );
    let bad = request(
        "GET",
        "/health",
        "/health",
        &[("proxy-authorization", b"Basic bm9wZTpub3Bl"), ("x-proxy-token", b"\xff")],
    );
    for config in [basic_config(), token_config()] {
        assert_health(&response_of(handle_request(&config, &good)));
        assert_health(&response_of(handle_request(&config, &bad)));
    }
}

#[test]
fn health_check_goes_by_the_path_of_the_target() {
    let absolute = request("GET", "http://example.com/health", "/health", &[]);
    assert_health(&response_of(handle_request(&basic_config(), &absolute)));
    let with_query = request("GET", "/health?x=1", "/health", &[]);
    assert_health(&response_of(handle_request(&basic_config(), &with_query)));
}

#[test]
fn health_check_is_a_get() {
    for method in ["POST", "HEAD", "get", "CONNECT"] {
        let other = request(method, "/health", "/health", &[]);
        assert_unauthorized(&denial_of(handle_request(&basic_config(), &other)));
        assert_forbidden(&denial_of(handle_request(&token_config(), &other)));
    }
}

#[test]
fn other_paths_are_no_health_check() {
    for path in ["/health/", "/Health", "/healthz", "/", ""] {
        let other = request("GET", path, path, &[]);
        assert_unauthorized(&denial_of(handle_request(&basic_config(), &other)));
    }
}

#[test]
fn denied_requests_are_answered_by_scheme() {
    let targets = [
        ("GET", "http://example.com/", "/"),
        ("POST", "http://example.com/form", "/form"),
        ("CONNECT", "example.com:443", ""),
    ];
    for (method, uri, path) in targets {
        let none = request(method, uri, path, &[]);
        assert_unauthorized(&denial_of(handle_request(&basic_config(), &none)));
        assert_forbidden(&denial_of(handle_request(&token_config(), &none)));
        let wrong = request(
            method,
            uri,
            path,
            &[("proxy-authorization", b"Basic dXNlcjp3cm9uZw=="), ("x-proxy-token", b"tok-000")],
        );
        assert_unauthorized(&denial_of(handle_request(&basic_config(), &wrong)));
        assert_forbidden(&denial_of(handle_request(&token_config(), &wrong)));
    }
}

#[test]
fn denial_tells_its_reason() {
    let none = request("GET", "http://example.com/", "/", &[]);
    assert_eq!(reason_of(handle_request(&basic_config(), &none)), DenyReason::MissingHeader);
    assert_eq!(reason_of(handle_request(&token_config(), &none)), DenyReason::MissingHeader);
    let wrong = request(
        "GET",
        "http://example.com/",
        "/",
        &[("proxy-authorization", b"Basic dXNlcjp3cm9uZw=="), ("x-proxy-token", b"tok-000")],
    );
    assert_eq!(reason_of(handle_request(&basic_config(), &wrong)), DenyReason::WrongPassword);
    assert_eq!(reason_of(handle_request(&token_config(), &wrong)), DenyReason::UnknownToken);
}

#[test]
fn credentials_of_the_other_scheme_do_not_admit() {
    let token_only = request("GET", "http://example.com/", "/", &[("x-proxy-token", b"tok-123")]);
    assert_unauthorized(&denial_of(handle_request(&basic_config(), &token_only)));
    let basic_only = request(
        "GET",
        "http://example.com/",
        "/",
        &[("proxy-authorization", b"Basic dXNlcjpwYXNz")],
    );
    assert_forbidden(&denial_of(handle_request(&token_config(), &basic_only)));
}

#[test]
fn admitted_request_is_forwarded() {
    let basic = request(
        "GET",
        "http://example.com/",
        "/",
        &[("proxy-authorization", b"Basic dXNlcjpwYXNz")],
    );
    assert!(matches!(handle_request(&basic_config(), &basic), Action::Forward));
    let token = request("DELETE", "http://example.com/x", "/x", &[("x-proxy-token", b"tok-123")]);
    assert!(matches!(handle_request(&token_config(), &token), Action::Forward));
    let lower = request("connect", "example.com:443", "", &[("x-proxy-token", b"tok-123")]);
    assert!(matches!(handle_request(&token_config(), &lower), Action::Forward));
}

#[test]
fn admitted_connect_opens_a_tunnel() {
    let connect = request(
        "CONNECT",
        "example.com",
        "",
        &[("Proxy-Authorization", b"Basic dXNlcjpwYXNz")],
    );
    match handle_request(&basic_config(), &connect) {
        Action::Tunnel { reply, target } => {
            assert_eq!(reply.status, 200);
            assert_eq!(reply.body, "");
            assert!(reply.headers.is_empty());
            assert_eq!(target.dial_address(), "example.com:443");
            assert!(matches!(target, Resolution::Authority(_)));
        },
        other => panic!("no tunnel but {:?}", other),
    }
    let token = request(
        "CONNECT",
        "https://example.com:8443/x",
        "/x",
        &[("X-Proxy-Token", b"tok-123")],
    );
    match handle_request(&token_config(), &token) {
        Action::Tunnel { reply, target } => {
            assert_eq!(reply.status, 200);
            assert_eq!(target.dial_address(), "example.com:8443");
            assert!(matches!(target, Resolution::Uri(_)));
        },
        other => panic!("no tunnel but {:?}", other),
    }
}

#[test]
fn handle_connect_replies_and_resolves() {
    match handle_connect("example.com:8443") {
        Action::Tunnel { reply, target } => {
            assert_eq!(reply.status, 200);
            assert_eq!(reply.body, "");
            assert_eq!(target.dial_address(), "example.com:8443");
        },
        other => panic!("no tunnel but {:?}", other),
    }
    match handle_connect("[::1]") {
        Action::Tunnel { target, .. } => assert_eq!(target.dial_address(), "[::1]:443"),
        other => panic!("no tunnel but {:?}", other),
    }
    match handle_connect("https://exa mple.com/") {
        Action::Tunnel { reply, target } => {
            assert_eq!(reply.status, 200);
            assert!(matches!(target, Resolution::Fallback(_)));
            assert_eq!(target.dial_address(), "https://exa mple.com/");
        },
        other => panic!("no tunnel but {:?}", other),
    }
}

#[test]
fn first_credential_header_counts() {
    let two = request(
        "GET",
        "http://example.com/",
        "/",
        &[
            ("accept", b"*/*"),
            ("PROXY-AUTHORIZATION", b"Basic dXNlcjp3cm9uZw=="),
            ("proxy-authorization", b"Basic dXNlcjpwYXNz"),
        ],
    );
    assert_unauthorized(&denial_of(handle_request(&basic_config(), &two)));
    let reversed = request(
        "GET",
        "http://example.com/",
        "/",
        &[
            ("proxy-authorization", b"Basic dXNlcjpwYXNz"),
            ("proxy-authorization", b"Basic dXNlcjp3cm9uZw=="),
        ],
    );
    assert!(matches!(handle_request(&basic_config(), &reversed), Action::Forward));
}

#[test]
fn header_lookup_ignores_case_of_names() {
    let r = request(
        "GET",
        "/",
        "/",
        &[("Accept", b"a"), ("X-Proxy-Token", b"first"), ("x-proxy-token", b"second")],
    );
    assert_eq!(r.header("x-proxy-token"), Some(&b"first"[..]));
    assert_eq!(r.header("X-PROXY-TOKEN"), Some(&b"first"[..]));
    assert_eq!(r.header("accept"), Some(&b"a"[..]));
    assert_eq!(r.header("proxy-authorization"), None);
    assert_eq!(r.header("x-proxy-toke"), None);
    assert_eq!(r.header(""), None);
    assert_eq!(find_header(&r.headers, "ACCEPT"), Some(&b"a"[..]));
    assert_eq!(find_header(&[], "accept"), None);
}

#[test]
fn request_keeps_what_it_is_given() {
    let r = request("PUT", "http://example.com/a?b", "/a", &[("k", b"v")]);
    assert_eq!(r.method, "PUT");
    assert_eq!(r.uri, "http://example.com/a?b");
    assert_eq!(r.path, "/a");
    assert_eq!(r.headers.len(), 1);
    assert_eq!(r.headers[0].name, b"k");
    assert_eq!(r.headers[0].value, b"v");
}

#[test]
fn fixed_responses() {
    assert_health(&health_response());
    assert_forbidden(&forbidden_response());
    assert_unauthorized(&unauthorized_response());
    assert_forbidden(&denial_response(Challenge::Absent));
    assert_unauthorized(&denial_response(Challenge::BasicRealm));
    let established = established_response();
    assert_eq!(established.status, 200);
    assert_eq!(established.body, "");
    assert!(established.headers.is_empty());
}

#[test]
fn forwarding_failure_is_answered_with_500() {
    let outcome: Result<u32, String> = Err("connection refused".to_string());
    match handle_http(outcome) {
        Forwarded::Failure(response) => {
            assert_eq!(response.status, 500);
            assert_eq!(response.body, "Proxy error: connection refused");
            assert!(response.headers.is_empty());
        },
        other => panic!("no failure but {:?}", other),
    }
    let described = failure_response("dns error: no such host");
    assert_eq!(described.status, 500);
    assert_eq!(described.body, "Proxy error: dns error: no such host");
    let empty = failure_response("");
    assert_eq!(empty.body, "Proxy error: ");
}

#[test]
fn forwarded_response_comes_back_as_it_is() {
    let origin = Response {
        status: 404,
        headers: Vec::new(),
        body: "not here".to_string(),
    };
    let outcome: Result<Response, String> = Ok(origin);
    match handle_http(outcome) {
        Forwarded::Origin(response) => {
            assert_eq!(response.status, 404);
            assert_eq!(response.body, "not here");
        },
        other => panic!("no origin response but {:?}", other),
    }
    let outcome: Result<Vec<u8>, String> = Ok(vec![1, 2, 3]);
    assert!(matches!(handle_http(outcome), Forwarded::Origin(bytes) if bytes == vec![1, 2, 3]));
}

#[test]
fn denial_reasons_are_told_apart() {
    assert_ne!(
        Decision::Deny(DenyReason::UnknownUser, Challenge::BasicRealm),
        Decision::Deny(DenyReason::WrongPassword, Challenge::BasicRealm)
    );
    assert_ne!(Decision::Allow, Decision::Deny(DenyReason::MissingHeader, Challenge::Absent));
}
