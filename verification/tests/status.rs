use github_events::github::GitHubError;
use github_events::github::read_status_line;
use github_events::utils::get_status;

#[test]
fn status_200_is_ok() {
    assert!(matches!(get_status("HTTP/1.1 200 OK"), Ok(())));
}

#[test]
fn status_404_is_not_found() {
    assert!(matches!(get_status("HTTP/1.1 404 Not Found"), Err(GitHubError::NotFound)));
}

#[test]
fn status_403_is_forbidden() {
    assert!(matches!(get_status("HTTP/1.1 403 Forbidden"), Err(GitHubError::Forbidden)));
}

#[test]
fn status_503_is_server_unavailable() {
    assert!(matches!(
        get_status("HTTP/1.1 503 Service Unavailable"),
        Err(GitHubError::ServerUnavailable)
    ));
}

#[test]
fn status_304_is_not_modified() {
    assert!(matches!(get_status("HTTP/1.1 304 Not Modified"), Err(GitHubError::NotModified)));
}

#[test]
fn status_500_is_unexpected() {
    assert!(matches!(
        get_status("HTTP/1.1 500 Internal Server Error"),
        Err(GitHubError::UnexpectedStatus(500))
    ));
}

#[test]
fn status_418_is_unexpected() {
    assert!(matches!(get_status("HTTP/1.1 418 Teapot"), Err(GitHubError::UnexpectedStatus(418))));
}

#[test]
fn garbage_status_is_parse_error() {
    match get_status("garbage") {
        Err(GitHubError::HttpParse(m)) => assert_eq!(m, "Missing status code"),
        r => panic!("expected HttpParse, got {:?}", r),
    }
}

#[test]
fn non_numeric_code_is_parse_error_with_token() {
    match get_status("HTTP/1.1 abc OK") {
        Err(GitHubError::HttpParse(m)) => assert_eq!(m, "Unknown status code: abc"),
        r => panic!("expected HttpParse, got {:?}", r),
    }
}

#[test]
fn zero_padded_code_is_not_the_literal_match() {
    assert!(matches!(get_status("HTTP/1.1 0200 OK"), Err(GitHubError::UnexpectedStatus(200))));
}

#[test]
fn plus_signed_code_parses_as_number() {
    assert!(matches!(get_status("HTTP/1.1 +200 OK"), Err(GitHubError::UnexpectedStatus(200))));
}

#[test]
fn overflowing_code_is_parse_error() {
    match get_status("HTTP/1.1 99999 OK") {
        Err(GitHubError::HttpParse(m)) => assert_eq!(m, "Unknown status code: 99999"),
        r => panic!("expected HttpParse, got {:?}", r),
    }
}

#[test]
fn empty_status_is_parse_error() {
    assert!(matches!(get_status(""), Err(GitHubError::HttpParse(_))));
}

#[test]
fn read_status_line_uses_only_the_first_line() {
    let response = "HTTP/1.1 404 Not Found\r\nX: 200\r\n\r\nbody";
    assert!(matches!(read_status_line(response), Err(GitHubError::NotFound)));
}

#[test]
fn read_status_line_accepts_200_response() {
    let response = "HTTP/1.1 200 OK\r\nX: 1\r\n\r\nbody";
    assert!(matches!(read_status_line(response), Ok(())));
}
