//! What the thread that owns the socket decides.

use issue_tracker::api::server::{
    address, cut_off, generate_token, is_landed, is_mutating, judge, read_request, shed, token_from,
    token_of, unanswered, CutOff, Reading, Silence, MAX_REQUEST,
};
use issue_tracker::api::{parse, Api, Parsed, Request, Response, Step};
use issue_tracker::projection::Projection;

fn request(method: &str) -> Request {
    let raw = format!("{method} /issues HTTP/1.1\r\nHost: localhost\r\n\r\n");
    match read_request(raw.as_bytes()) {
        Reading::Ready(request) => request,
        other => panic!("expected a request, got {other:?}"),
    }
}

fn sentence(response: &Response) -> String {
    let value: serde_json::Value = serde_json::from_slice(&response.body).unwrap();
    value["error"].as_str().unwrap().to_string()
}

#[test]
fn a_request_is_read_until_it_is_whole() {
    assert!(matches!(read_request(b""), Reading::More));
    assert!(matches!(read_request(b"GET /iss"), Reading::More));
    assert_eq!(request("GET").path, "/issues");

    match read_request(b"\0\0") {
        Reading::Refuse(response) => assert_eq!(response.status, 400),
        other => panic!("expected a refusal, got {other:?}"),
    }
    assert!(matches!(judge(Parsed::Incomplete, MAX_REQUEST), Reading::More));
    match judge(Parsed::Incomplete, MAX_REQUEST + 1) {
        Reading::Refuse(response) => {
            assert_eq!(response.status, 413);
            assert_eq!(sentence(&response), "request is too large");
        }
        other => panic!("expected a refusal, got {other:?}"),
    }
}

#[test]
fn a_request_that_never_comes_is_answered_all_the_same() {
    assert_eq!(sentence(&cut_off(CutOff::Closed)), "the connection closed mid-request");
    assert_eq!(sentence(&cut_off(CutOff::TimedOut)), "timed out waiting for the request");
    assert_eq!(unanswered(Silence::NoAnswer).status, 500);
    assert_eq!(unanswered(Silence::ShuttingDown).status, 503);
}

#[test]
fn the_seventeenth_connection_is_shed() {
    assert!(shed(0).is_none());
    assert!(shed(15).is_none());
    let response = shed(16).unwrap();
    assert_eq!(response.status, 503);
    assert_eq!(sentence(&response), "too many concurrent connections");
}

#[test]
fn only_a_change_that_landed_is_announced() {
    assert!(!is_mutating(&request("GET")));
    assert!(is_mutating(&request("PATCH")));
    assert!(is_landed(true, &Response::empty(204)));
    assert!(!is_landed(true, &Response::error(409, "no")));
    assert!(!is_landed(false, &Response::empty(200)));
}

#[test]
fn the_address_file_is_json() {
    let text = address(8787, "abc");
    assert_eq!(text, r#"{"port":8787,"token":"abc"}"#);
}

#[test]
fn a_token_is_its_bytes_in_hexadecimal() {
    assert_eq!(token_of(&[]), "");
    assert_eq!(token_of(&[0, 1, 15, 16, 171, 255]), "00010f10abff");
    assert_eq!(token_from(Some(vec![0, 255])), Some("00ff".to_string()));
    assert_eq!(token_from(None), None);

    let one = generate_token().expect("a random source");
    let two = generate_token().expect("a random source");
    assert_eq!(one.len(), 64);
    assert!(one.chars().all(|c| c.is_ascii_hexdigit() && !c.is_ascii_uppercase()));
    assert_ne!(one, two, "a fresh token every launch");
}

#[test]
fn nothing_is_answered_without_the_token() {
    let api = Api::new("s3cret".into());
    let projection = Projection::load(Vec::new());
    let raw = |headers: &str| -> Request {
        match parse(format!("GET /issues HTTP/1.1\r\n{headers}\r\n").as_bytes()) {
            Parsed::Complete(request) => request,
            other => panic!("expected a request, got {other:?}"),
        }
    };
    let status = |request: &Request| match api.handle(request, &projection) {
        Step::Respond(response) => response.status,
        other => panic!("expected an answer, got {other:?}"),
    };
    let admitted = raw("Host: localhost\r\nAuthorization: Bearer s3cret\r\n");
    assert_eq!(status(&admitted), 200);
    assert_eq!(status(&raw("Host: localhost\r\n")), 401);
    assert_eq!(
        status(&raw("Host: localhost\r\nOrigin: x\r\nAuthorization: Bearer s3cret\r\n")),
        403
    );
}
