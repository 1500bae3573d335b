use github_events::cli::Cli;
use github_events::utils::get_request;

#[test]
fn builds_full_request_text() {
    let r = get_request("octocat");
    assert_eq!(
        r,
        "GET /users/octocat/events HTTP/1.1\r\nHost: api.github.com\r\nuser-agent: rust-cli\r\nconnection: close\r\n\r\n"
    );
}

#[test]
fn request_has_one_get_line_and_terminator() {
    let r = get_request("some-user_42");
    assert!(r.starts_with("GET /users/some-user_42/events HTTP/1.1\r\n"));
    assert!(r.ends_with("\r\n\r\n"));
    assert_eq!(r.lines().filter(|l| l.starts_with("GET")).count(), 1);
    let first = r.lines().next().unwrap();
    let mut toks = first.split_whitespace();
    assert_eq!(toks.next(), Some("GET"));
    assert_eq!(toks.next(), Some("/users/some-user_42/events"));
    assert_eq!(toks.next(), Some("HTTP/1.1"));
}

#[test]
fn request_embeds_empty_identifier_verbatim() {
    let r = get_request("");
    assert!(r.starts_with("GET /users//events HTTP/1.1\r\n"));
}

#[test]
fn cli_holds_the_user_identifier() {
    let cli = Cli { user: String::from("octocat") };
    assert_eq!(cli.user, "octocat");
}
