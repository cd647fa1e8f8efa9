//! Reading requests and writing responses.

use issue_tracker::api::http::{parse_query, MAX_BODY};
use issue_tracker::api::{parse, Parsed, Request, Response};

fn complete(raw: &str) -> Request {
    match parse(raw.as_bytes()) {
        Parsed::Complete(request) => request,
        other => panic!("expected a complete request, got {other:?}"),
    }
}

#[test]
fn parses_a_bare_get() {
    let request = complete("GET /issues HTTP/1.1\r\nHost: 127.0.0.1\r\n\r\n");
    assert_eq!(request.method, "GET");
    assert_eq!(request.path, "/issues");
    assert_eq!(request.header("host"), Some("127.0.0.1"));
    assert!(request.body.is_empty());
}

#[test]
fn header_names_are_matched_without_regard_to_case() {
    let request = complete("GET /issues HTTP/1.1\r\nAuThOrIzAtIoN: Bearer x\r\n\r\n");
    assert_eq!(request.header("authorization"), Some("Bearer x"));
}

#[test]
fn reads_a_body_of_the_declared_length() {
    let request = complete("POST /issues HTTP/1.1\r\nContent-Length: 9\r\n\r\n{\"a\":\"b\"}");
    assert_eq!(request.body, b"{\"a\":\"b\"}");
}

#[test]
fn a_half_arrived_request_asks_for_more() {
    assert!(matches!(parse(b"GET /iss"), Parsed::Incomplete));
    // Headers complete, body still in flight.
    assert!(matches!(
        parse(b"POST /issues HTTP/1.1\r\nContent-Length: 20\r\n\r\nshort"),
        Parsed::Incomplete
    ));
}

#[test]
fn an_oversized_body_is_refused_rather_than_buffered() {
    let raw = format!(
        "POST /issues HTTP/1.1\r\nContent-Length: {}\r\n\r\n",
        MAX_BODY + 1
    );
    assert!(matches!(parse(raw.as_bytes()), Parsed::Malformed(_)));
}

/// Without this a chunked `POST` parses as a request with no body at all,
/// and the caller is told their `title` is missing when what actually
/// happened is that nothing here knows how to read what they sent.
#[test]
fn a_chunked_body_is_refused_in_terms_of_what_went_wrong() {
    let raw = "POST /issues HTTP/1.1\r\nHost: 127.0.0.1\r\n\
               Transfer-Encoding: chunked\r\n\r\n1e\r\n{\"title\":\"filed by a stranger\"}\r\n0\r\n\r\n";
    match parse(raw.as_bytes()) {
        Parsed::Malformed(why) => assert!(why.contains("chunked"), "{why}"),
        other => panic!("expected a refusal, got {other:?}"),
    }
}

#[test]
fn query_parameters_are_decoded() {
    let request =
        complete("GET /issues?status=Todo&q=two+words&tag=needs%20design HTTP/1.1\r\n\r\n");
    assert_eq!(request.path, "/issues");
    assert_eq!(request.param("status"), Some("Todo"));
    assert_eq!(request.param("q"), Some("two words"));
    assert_eq!(request.param("tag"), Some("needs design"));
    assert_eq!(request.param("absent"), None);
}

#[test]
fn a_tag_path_keeps_its_slashes_and_decodes_its_spaces() {
    // The reason Tag names live in the path remainder: `ui/theme` needs
    // no encoding at all, and a space costs only %20.
    let request = complete("PUT /issues/3/tags/ui/theme HTTP/1.1\r\n\r\n");
    assert_eq!(request.path, "/issues/3/tags/ui/theme");

    let spaced = complete("PUT /issues/3/tags/needs%20design HTTP/1.1\r\n\r\n");
    assert_eq!(spaced.path, "/issues/3/tags/needs design");
}

#[test]
fn a_stray_percent_is_left_alone_rather_than_rejected() {
    let request = complete("PUT /issues/3/tags/100%25 HTTP/1.1\r\n\r\n");
    assert_eq!(request.path, "/issues/3/tags/100%");
    let dangling = complete("PUT /issues/3/tags/50%zz HTTP/1.1\r\n\r\n");
    assert_eq!(dangling.path, "/issues/3/tags/50%zz");
}

#[test]
fn responses_carry_a_length_and_close_the_connection() {
    let wire = String::from_utf8(Response::empty(204).to_bytes()).unwrap();
    assert!(wire.starts_with("HTTP/1.1 204 No Content\r\n"));
    assert!(wire.contains("Content-Length: 0\r\n"));
    assert!(wire.contains("Connection: close\r\n"));
}

#[test]
fn errors_serialise_to_one_sentence() {
    let response = Response::error(404, "no issue #7");
    assert_eq!(response.status, 404);
    assert_eq!(response.body, br#"{"error":"no issue #7"}"#);
}

#[test]
fn a_request_that_is_not_one_is_malformed() {
    assert!(matches!(parse(b"\0\0\0"), Parsed::Malformed(_)));
    let raw = "POST / HTTP/1.1\r\nContent-Length: many\r\n\r\n";
    match parse(raw.as_bytes()) {
        Parsed::Malformed(why) => assert_eq!(why, "invalid Content-Length"),
        other => panic!("expected a refusal, got {other:?}"),
    }
}

#[test]
fn more_headers_than_there_is_room_for_are_refused() {
    let headers: String = (0..33).map(|n| format!("X-{n}: y\r\n")).collect();
    let raw = format!("GET / HTTP/1.1\r\n{headers}\r\n");
    assert!(matches!(parse(raw.as_bytes()), Parsed::Malformed(_)));
}

#[test]
fn a_query_may_leave_its_values_out() {
    let pairs = parse_query("a&b=&=c&&d=1=2");
    let expected: Vec<(String, String)> = [("a", ""), ("b", ""), ("", "c"), ("d", "1=2")]
        .iter()
        .map(|(name, value)| (name.to_string(), value.to_string()))
        .collect();
    assert_eq!(pairs, expected);
}

#[test]
fn bytes_that_are_no_text_are_patched_rather_than_refused() {
    let request = complete("GET /issues/%ff HTTP/1.1\r\n\r\n");
    assert_eq!(request.path, "/issues/\u{fffd}");
}

#[test]
fn a_response_spells_out_its_status() {
    for (status, reason) in [
        (200, "OK"),
        (201, "Created"),
        (400, "Bad Request"),
        (404, "Not Found"),
        (405, "Method Not Allowed"),
        (409, "Conflict"),
    ] {
        let wire = String::from_utf8(Response::empty(status).to_bytes()).unwrap();
        assert!(
            wire.starts_with(&format!("HTTP/1.1 {status} {reason}\r\n")),
            "{wire}"
        );
    }
    let wire = String::from_utf8(
        Response::json(200, "[]").with_header("X-One", "1").to_bytes(),
    )
    .unwrap();
    assert!(wire.contains("X-One: 1\r\n"));
    assert!(wire.ends_with("\r\n\r\n[]"));
}

#[test]
fn a_sign_is_no_part_of_an_escape() {
    let request = complete("PUT /issues/3/tags/a%+5b HTTP/1.1\r\n\r\n");
    assert_eq!(request.path, "/issues/3/tags/a%+5b");
    let other = complete("PUT /issues/3/tags/a%-5b HTTP/1.1\r\n\r\n");
    assert_eq!(other.path, "/issues/3/tags/a%-5b");
}

#[test]
fn a_message_is_escaped_as_json_asks() {
    let message = "q\" b\\ \u{8}\t\n\u{c}\r \u{1}\u{1f} \u{7f}\u{e9}/";
    let body = String::from_utf8(Response::error(400, message).body).unwrap();
    assert_eq!(
        body,
        "{\"error\":\"q\\\" b\\\\ \\b\\t\\n\\f\\r \\u0001\\u001f \u{7f}\u{e9}/\"}"
    );
}
