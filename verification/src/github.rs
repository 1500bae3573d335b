use crate::json::{decoded_items, get_json, json_err_msg, render_spec};
use crate::text::{body_of, first_line, first_line_str, split_at_sep};
use crate::utils::{get_status, status_err, status_ok};
use vstd::prelude::*;
use vstd::string::StringExecFns;

verus! {

/// The closed error taxonomy of the client: transport failures, the mapped
/// HTTP status outcomes, and protocol or decoding failures, each carrying
/// the detail text its stage reported.
#[derive(Debug)]
pub enum GitHubError {
    Io(String),
    Tls(String),
    NotFound,
    Forbidden,
    ServerUnavailable,
    NotModified,
    UnexpectedStatus(u16),
    HttpParse(String),
    JsonParse(String),
    UnexpectedResponse(String),
}

/// Takes the first line of a response and maps its status code, accepting
/// exactly a `200` and reporting every other outcome as its own error.
pub fn read_status_line(response: &str) -> (r: Result<(), GitHubError>)
    ensures
        match r {
            Ok(_) => status_ok(first_line(response@)),
            Err(e) => status_err(first_line(response@), e),
        },
{
    let line = first_line_str(response);
    get_status(line)
}

/// Returns everything after the first blank-line separator of a response,
/// and fails exactly when the response has no such separator.
pub fn extract_body<'a>(response: &'a str) -> (r: Result<&'a str, GitHubError>)
    ensures
        match r {
            Ok(b) => body_of(response@) == Some(b@),
            Err(e) => body_of(response@) is None && match e {
                GitHubError::UnexpectedResponse(m) => m@ == "Missing body"@,
                _ => false,
            },
        },
{
    match split_at_sep(response) {
        Some(b) => Ok(b),
        None => Err(GitHubError::UnexpectedResponse(String::from_str("Missing body"))),
    }
}

/// What processing one full response text yields: the rendered block of each
/// record of the decoded body on success, else the first failing stage's
/// error — the status mapping first, then the body split, then the decode.
pub open spec fn handle_post(s: Seq<char>, r: Result<Vec<String>, GitHubError>) -> bool {
    let line = first_line(s);
    match r {
        Ok(blocks) => {
            &&& status_ok(line)
            &&& body_of(s) is Some
            &&& decoded_items(body_of(s)->0) is Some
            &&& blocks@.len() == decoded_items(body_of(s)->0)->0.len()
            &&& forall|k: int|
                0 <= k < blocks@.len() ==> blocks@[k]@ == render_spec(
                    decoded_items(body_of(s)->0)->0[k],
                )
        },
        Err(e) => {
            if !status_ok(line) {
                status_err(line, e)
            } else if body_of(s) is None {
                match e {
                    GitHubError::UnexpectedResponse(m) => m@ == "Missing body"@,
                    _ => false,
                }
            } else {
                decoded_items(body_of(s)->0) is None && match e {
                    GitHubError::JsonParse(m) => m@ == json_err_msg(body_of(s)->0),
                    _ => false,
                }
            }
        },
    }
}

/// Processes one full response text: checks the status line, splits off the
/// body, decodes it as a JSON array of records and renders one text block
/// per record, in order; the first failing stage's error short-circuits.
pub fn handle_response(response: &str) -> (r: Result<Vec<String>, GitHubError>)
    ensures
        handle_post(response@, r),
{
    match read_status_line(response) {
        Ok(_) => (),
        Err(e) => {
            return Err(e);
        },
    }
    let body = match extract_body(response) {
        Ok(b) => b,
        Err(e) => {
            return Err(e);
        },
    };
    let events = match get_json(body) {
        Ok(v) => v,
        Err(e) => {
            return Err(e);
        },
    };
    let mut blocks: Vec<String> = Vec::new();
    let mut idx: usize = 0;
    while idx < events.len()
        invariant
            idx <= events.len(),
            blocks@.len() == idx,
            forall|k: int| 0 <= k < idx ==> blocks@[k]@ == render_spec(events@[k]),
        decreases events.len() - idx,
    {
        let b = crate::json::render_event(&events[idx]);
        blocks.push(b);
        idx = idx + 1;
    }
    Ok(blocks)
}

} // verus!
