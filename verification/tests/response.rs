use github_events::github::{extract_body, handle_response, GitHubError};
use github_events::json::{get_json, render_event};

#[test]
fn extract_body_returns_text_after_separator() {
    match extract_body("HDR\r\n\r\nBODY") {
        Ok(b) => assert_eq!(b, "BODY"),
        r => panic!("expected a body, got {:?}", r),
    }
}

#[test]
fn extract_body_without_separator_fails() {
    match extract_body("no separator here") {
        Err(GitHubError::UnexpectedResponse(m)) => assert_eq!(m, "Missing body"),
        r => panic!("expected UnexpectedResponse, got {:?}", r),
    }
}

#[test]
fn extract_body_takes_everything_after_the_first_separator() {
    match extract_body("H\r\n\r\nA\r\n\r\nB") {
        Ok(b) => assert_eq!(b, "A\r\n\r\nB"),
        r => panic!("expected a body, got {:?}", r),
    }
}

#[test]
fn decode_one_full_record() {
    let body = "[{\"type\":\"PushEvent\",\"repo\":{\"name\":\"a/b\",\"url\":\"https://x\"}}]";
    let events = get_json(body).unwrap();
    assert_eq!(events.len(), 1);
    assert_eq!(render_event(&events[0]), "- PushEvent\n on a/b\n url https://x");
}

#[test]
fn decode_empty_record_falls_back_to_unknown() {
    let events = get_json("[{}]").unwrap();
    assert_eq!(events.len(), 1);
    assert_eq!(render_event(&events[0]), "- unknown\n on unknown\n url unknown");
}

#[test]
fn decode_non_array_fails() {
    match get_json("{}") {
        Err(GitHubError::JsonParse(m)) => assert_eq!(m, "expected an array of json"),
        r => panic!("expected JsonParse, got {:?}", r),
    }
}

#[test]
fn decode_invalid_json_fails() {
    match get_json("not json") {
        Err(GitHubError::JsonParse(m)) => assert_eq!(m, "failed to parse json: not json"),
        r => panic!("expected JsonParse, got {:?}", r),
    }
}

#[test]
fn decode_keeps_array_order_and_length() {
    let events = get_json("[{\"type\":\"A\"},{\"type\":\"B\"},{\"type\":\"C\"}]").unwrap();
    assert_eq!(events.len(), 3);
    assert_eq!(render_event(&events[0]), "- A\n on unknown\n url unknown");
    assert_eq!(render_event(&events[1]), "- B\n on unknown\n url unknown");
    assert_eq!(render_event(&events[2]), "- C\n on unknown\n url unknown");
}

#[test]
fn render_substitutes_for_non_string_fields() {
    let events = get_json("[{\"type\":7,\"repo\":{\"name\":[1],\"url\":\"u\"}}]").unwrap();
    assert_eq!(render_event(&events[0]), "- unknown\n on unknown\n url u");
}

#[test]
fn render_substitutes_for_absent_intermediate_object() {
    let events = get_json("[{\"type\":\"T\"}]").unwrap();
    assert_eq!(render_event(&events[0]), "- T\n on unknown\n url unknown");
}

#[test]
fn full_response_renders_blocks() {
    let response =
        "HTTP/1.1 200 OK\r\nX:1\r\n\r\n[{\"type\":\"T\",\"repo\":{\"name\":\"N\",\"url\":\"U\"}}]";
    let blocks = handle_response(response).unwrap();
    assert_eq!(blocks, vec!["- T\n on N\n url U"]);
}

#[test]
fn full_response_with_404_yields_not_found_and_no_records() {
    let r = handle_response("HTTP/1.1 404 Not Found\r\n\r\n");
    assert!(matches!(r, Err(GitHubError::NotFound)));
}

#[test]
fn status_is_reported_before_a_missing_body() {
    let r = handle_response("HTTP/1.1 503 Service Unavailable");
    assert!(matches!(r, Err(GitHubError::ServerUnavailable)));
}

#[test]
fn accepted_status_with_missing_separator_fails_on_the_body() {
    let r = handle_response("HTTP/1.1 200 OK\nX:1\n\nbody");
    assert!(matches!(r, Err(GitHubError::UnexpectedResponse(_))));
}

#[test]
fn accepted_status_with_bad_json_fails_on_the_decode() {
    let r = handle_response("HTTP/1.1 200 OK\r\nX:1\r\n\r\nnot json");
    assert!(matches!(r, Err(GitHubError::JsonParse(_))));
}

#[test]
fn empty_array_yields_no_blocks() {
    let blocks = handle_response("HTTP/1.1 200 OK\r\n\r\n[]").unwrap();
    assert!(blocks.is_empty());
}
