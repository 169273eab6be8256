use stress_harness::transport::{assess_response, build_request, classify_head, push_decimal, Endpoint, ResponseStep};

#[test]
fn decimal_digits() {
    let mut out = Vec::new();
    push_decimal(&mut out, 0);
    assert_eq!(out, b"0".to_vec());
    let mut out = b"x".to_vec();
    push_decimal(&mut out, 1234567890);
    assert_eq!(out, b"x1234567890".to_vec());
}

#[test]
fn endpoint_paths_and_statuses() {
    assert_eq!(Endpoint::List.path(), "/api/v1/workouts/list");
    assert_eq!(Endpoint::New.path(), "/api/v1/workouts/new");
    assert_eq!(Endpoint::List.success_status(), 200);
    assert_eq!(Endpoint::New.success_status(), 204);
}

#[test]
fn request_text_is_exact() {
    let req = build_request(Endpoint::List, "127.0.0.1:3030", 1600000000, "c2ln", "{\"user_id\":\"x\"}");
    let expected = "POST /api/v1/workouts/list HTTP/1.1\r\nhost: 127.0.0.1:3030\r\ncontent-type: application/json\r\ncontent-length: 15\r\nx-fitbod-access-timestamp: 1600000000\r\nx-fitbod-access-signature: c2ln\r\n\r\n{\"user_id\":\"x\"}";
    assert_eq!(String::from_utf8(req).unwrap(), expected);
}

#[test]
fn list_response_accepted_with_body() {
    let resp = b"HTTP/1.1 200 OK\r\ncontent-length: 12\r\n\r\n{\"items\":[]}";
    match assess_response(Endpoint::List, resp) {
        ResponseStep::Accepted { body } => assert_eq!(body, b"{\"items\":[]}".to_vec()),
        _ => panic!("expected an accepted response"),
    }
}

#[test]
fn new_response_accepted_with_204() {
    let resp = b"HTTP/1.1 204 No Content\r\n\r\n";
    match assess_response(Endpoint::New, resp) {
        ResponseStep::Accepted { body } => assert!(body.is_empty()),
        _ => panic!("expected an accepted response"),
    }
}

#[test]
fn server_error_on_write_is_rejected() {
    let resp = b"HTTP/1.1 500 Internal Server Error\r\ncontent-length: 0\r\n\r\n";
    match assess_response(Endpoint::New, resp) {
        ResponseStep::Rejected { status } => assert_eq!(status, 500),
        _ => panic!("expected a rejected response"),
    }
}

#[test]
fn wrong_success_status_is_rejected() {
    let resp = b"HTTP/1.1 204 No Content\r\n\r\n";
    match assess_response(Endpoint::List, resp) {
        ResponseStep::Rejected { status } => assert_eq!(status, 204),
        _ => panic!("expected a rejected response"),
    }
}

#[test]
fn partial_response_is_incomplete() {
    let resp = b"HTTP/1.1 200 OK\r\ncontent-le";
    assert!(matches!(assess_response(Endpoint::List, resp), ResponseStep::Incomplete));
    assert!(matches!(assess_response(Endpoint::List, b""), ResponseStep::Incomplete));
}

#[test]
fn garbage_response_is_malformed() {
    let resp = b"\x00\x01 not http at all\r\n\r\n";
    assert!(matches!(assess_response(Endpoint::List, resp), ResponseStep::Malformed));
}

#[test]
fn classify_head_covers_each_outcome() {
    let buf = b"HEADbody";
    assert!(matches!(classify_head(Endpoint::List, None, buf), ResponseStep::Malformed));
    assert!(matches!(classify_head(Endpoint::List, Some(None), buf), ResponseStep::Incomplete));
    match classify_head(Endpoint::List, Some(Some((200, 4))), buf) {
        ResponseStep::Accepted { body } => assert_eq!(body, b"body".to_vec()),
        _ => panic!("expected an accepted response"),
    }
    match classify_head(Endpoint::New, Some(Some((200, 4))), buf) {
        ResponseStep::Rejected { status } => assert_eq!(status, 200),
        _ => panic!("expected a rejected response"),
    }
}
