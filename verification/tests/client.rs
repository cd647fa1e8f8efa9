//! What goes over the wire, and what is made of what comes back.

use issue_tracker::client::{parse_reply, request_bytes, ClientError, Reply};
use issue_tracker::operations;

/// The sentence a failure carries in its body, where there is one.
fn sentence(reply: &Reply) -> Option<String> {
    let value: serde_json::Value = serde_json::from_slice(&reply.body).ok()?;
    Some(value.get("error")?.as_str()?.to_string())
}

#[test]
fn a_reply_is_split_at_the_blank_line() {
    let raw = b"HTTP/1.1 200 OK\r\nContent-Length: 2\r\nConnection: close\r\n\r\n[]";
    let reply = parse_reply(raw).unwrap();
    assert_eq!(reply.status, 200);
    assert_eq!(reply.body, b"[]");
}

#[test]
fn a_body_containing_a_blank_line_survives() {
    let raw = b"HTTP/1.1 200 OK\r\n\r\n{\"body\":\"one\\r\\n\\r\\ntwo\"}";
    let reply = parse_reply(raw).unwrap();
    assert_eq!(reply.body, b"{\"body\":\"one\\r\\n\\r\\ntwo\"}");
}

#[test]
fn an_empty_body_is_fine() {
    let raw = b"HTTP/1.1 204 No Content\r\nContent-Length: 0\r\n\r\n";
    let reply = parse_reply(raw).unwrap();
    assert_eq!(reply.status, 204);
    assert!(reply.body.is_empty());
}

#[test]
fn a_truncated_response_is_an_error_not_a_panic() {
    assert!(parse_reply(b"HTTP/1.1 200 OK\r\n").is_err());
    assert!(parse_reply(b"").is_err());
    assert!(parse_reply(b"garbage\r\n\r\n").is_err());
}

#[test]
fn an_error_body_yields_the_api_s_own_sentence() {
    let reply = Reply {
        status: 409,
        body: br#"{"error":"3 sub-issue(s) are still outstanding"}"#.to_vec(),
    };
    assert_eq!(
        reply.error_message(sentence(&reply)),
        "3 sub-issue(s) are still outstanding"
    );

    let opaque = Reply {
        status: 500,
        body: b"not json".to_vec(),
    };
    assert!(opaque.error_message(sentence(&opaque)).contains("500"));
}

#[test]
fn a_request_names_its_host_and_presents_its_token() {
    let raw = request_bytes(8787, "s3cret", &operations::get(7));
    assert_eq!(
        String::from_utf8(raw).unwrap(),
        "GET /issues/7 HTTP/1.1\r\nHost: 127.0.0.1:8787\r\n\
         Authorization: Bearer s3cret\r\nConnection: close\r\nContent-Length: 0\r\n\r\n"
    );
}

#[test]
fn a_status_that_is_no_number_is_an_error() {
    assert!(parse_reply(b"HTTP/1.1 abc X\r\n\r\n").is_err());
    assert!(parse_reply(b"HTTP/1.1 70000 X\r\n\r\n").is_err());
    assert_eq!(parse_reply(b"HTTP/1.1 418\r\n\r\n").unwrap().status, 418);
    // A head that is no text is patched rather than refused.
    assert_eq!(parse_reply(b"HTTP/1.1 200 \xff\r\n\r\n").unwrap().status, 200);
}

#[test]
fn only_the_two_hundreds_are_success() {
    for (status, success) in [(199, false), (200, true), (299, true), (300, false)] {
        let reply = Reply { status, body: Vec::new() };
        assert_eq!(reply.is_success(), success, "{status}");
    }
}

#[test]
fn an_unreachable_address_is_told_apart_from_a_broken_one() {
    assert!(matches!(ClientError::no_address(), ClientError::NotRunning(_)));
    assert!(matches!(
        ClientError::unreachable(true, "refused"),
        ClientError::NotRunning(_)
    ));
    assert_eq!(
        ClientError::unreachable(false, "no route").message(),
        "connecting to the API: no route"
    );
}
