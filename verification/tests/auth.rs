//! Who may talk to the API.

use issue_tracker::api::auth::Guard;
use issue_tracker::api::{parse, Parsed, Request};

fn request(raw: &str) -> Request {
    match parse(raw.as_bytes()) {
        Parsed::Complete(request) => request,
        other => panic!("expected a complete request, got {other:?}"),
    }
}

fn guard() -> Guard {
    Guard::new("s3cret".into())
}

fn with_token(raw_headers: &str) -> Request {
    request(&format!("GET /issues HTTP/1.1\r\n{raw_headers}\r\n"))
}

#[test]
fn a_correct_token_from_localhost_is_admitted() {
    let request = with_token("Host: 127.0.0.1:8787\r\nAuthorization: Bearer s3cret\r\n");
    assert!(guard().check(&request).is_ok());
}

#[test]
fn every_loopback_spelling_is_accepted() {
    for host in [
        "127.0.0.1",
        "127.0.0.1:8787",
        "localhost",
        "localhost:9",
        "[::1]:8787",
    ] {
        let request = with_token(&format!("Host: {host}\r\nAuthorization: Bearer s3cret\r\n"));
        assert!(guard().check(&request).is_ok(), "rejected {host}");
    }
}

#[test]
fn a_wrong_or_missing_token_is_unauthorized() {
    let wrong = with_token("Host: 127.0.0.1\r\nAuthorization: Bearer nope\r\n");
    let response = guard().check(&wrong).unwrap_err();
    assert_eq!(response.status, 401);
    assert!(
        response
            .headers
            .iter()
            .any(|(name, _)| name == "WWW-Authenticate")
    );

    let missing = with_token("Host: 127.0.0.1\r\n");
    assert_eq!(guard().check(&missing).unwrap_err().status, 401);
}

#[test]
fn a_token_of_the_wrong_length_is_rejected_too() {
    // Guards the constant-time comparison's length branch.
    let short = with_token("Host: 127.0.0.1\r\nAuthorization: Bearer s3cre\r\n");
    assert_eq!(guard().check(&short).unwrap_err().status, 401);
    let long = with_token("Host: 127.0.0.1\r\nAuthorization: Bearer s3cretx\r\n");
    assert_eq!(guard().check(&long).unwrap_err().status, 401);
}

#[test]
fn a_browser_is_turned_away_even_with_the_right_token() {
    // A page that somehow learned the token still announces itself with
    // `Origin`.
    let request = with_token(
        "Host: 127.0.0.1\r\nOrigin: https://evil.example\r\nAuthorization: Bearer s3cret\r\n",
    );
    assert_eq!(guard().check(&request).unwrap_err().status, 403);
}

#[test]
fn a_rebound_hostname_is_turned_away() {
    let request = with_token("Host: evil.example\r\nAuthorization: Bearer s3cret\r\n");
    assert_eq!(guard().check(&request).unwrap_err().status, 403);
}

#[test]
fn a_missing_host_is_turned_away() {
    let request = with_token("Authorization: Bearer s3cret\r\n");
    assert_eq!(guard().check(&request).unwrap_err().status, 403);
}

#[test]
fn a_name_that_only_begins_like_loopback_is_turned_away() {
    for host in [
        "[::1].evil.example",
        "localhost:evil.example",
        "localhost.evil.example",
        "127.0.0.1:80:80",
        "127.0.0.1:65536",
        "localhost:+80",
        "localhost:abc",
        "[::1",
        "[::1]8787",
        "::1",
        "[evil.example]:80",
    ] {
        let request = with_token(&format!("Host: {host}\r\nAuthorization: Bearer s3cret\r\n"));
        assert_eq!(guard().check(&request).unwrap_err().status, 403, "accepted {host}");
    }
    for host in [
        "[::1]",
        "[::1]:65535",
        "localhost:0",
        "127.0.0.1:",
        "[localhost]",
        "[127.0.0.1]:80",
        "::1:8787",
    ] {
        let request = with_token(&format!("Host: {host}\r\nAuthorization: Bearer s3cret\r\n"));
        assert!(guard().check(&request).is_ok(), "rejected {host}");
    }
}
