use crate::github::GitHubError;
use crate::text::{
    first_line, is_ws, lemma_line_end_skip, lemma_status_line_token, lemma_token_end_skip,
    line_end, parse_u16, second_token, second_token_str, sep_at, str_eq, token_end, u16_of,
    ws_end,
};
use vstd::prelude::*;
use vstd::string::StringExecFns;

verus! {

/// A status text is accepted exactly when its second whitespace-separated
/// token is the literal `200`.
pub open spec fn status_ok(line: Seq<char>) -> bool {
    second_token(line) == Some("200"@)
}

/// The error that the status mapping assigns to a status text that is not
/// accepted: the known codes map to their own kinds, any other numeral to
/// `UnexpectedStatus`, and a missing or non-numeric token to `HttpParse`.
pub open spec fn status_err(line: Seq<char>, e: GitHubError) -> bool {
    match second_token(line) {
        None => match e {
            GitHubError::HttpParse(m) => m@ == "Missing status code"@,
            _ => false,
        },
        Some(t) => if t == "200"@ {
            false
        } else if t == "404"@ {
            e == GitHubError::NotFound
        } else if t == "403"@ {
            e == GitHubError::Forbidden
        } else if t == "503"@ {
            e == GitHubError::ServerUnavailable
        } else if t == "304"@ {
            e == GitHubError::NotModified
        } else {
            match u16_of(t) {
                Some(code) => e == GitHubError::UnexpectedStatus(code),
                None => match e {
                    GitHubError::HttpParse(m) => m@ == "Unknown status code: "@ + t,
                    _ => false,
                },
            }
        },
    }
}

/// Maps the status code of a status text to its outcome: `200` is accepted,
/// `404`, `403`, `503` and `304` map to their own error kinds, any other
/// parseable code to `UnexpectedStatus`, anything else to `HttpParse`.
pub fn get_status(http_res: &str) -> (r: Result<(), GitHubError>)
    ensures
        match r {
            Ok(_) => status_ok(http_res@),
            Err(e) => status_err(http_res@, e),
        },
{
    match second_token_str(http_res) {
        None => Err(GitHubError::HttpParse(String::from_str("Missing status code"))),
        Some(tok) => {
            if str_eq(tok, "200") {
                Ok(())
            } else if str_eq(tok, "404") {
                Err(GitHubError::NotFound)
            } else if str_eq(tok, "403") {
                Err(GitHubError::Forbidden)
            } else if str_eq(tok, "503") {
                Err(GitHubError::ServerUnavailable)
            } else if str_eq(tok, "304") {
                Err(GitHubError::NotModified)
            } else {
                match parse_u16(tok) {
                    Some(code) => Err(GitHubError::UnexpectedStatus(code)),
                    None => {
                        let mut m = String::from_str("Unknown status code: ");
                        m.append(tok);
                        Err(GitHubError::HttpParse(m))
                    },
                }
            }
        },
    }
}

/// The request line for a given user identifier: a GET of the user's
/// events resource.
pub open spec fn request_line(u: Seq<char>) -> Seq<char> {
    "GET /users/"@ + u + "/events HTTP/1.1"@
}

/// The full request text for a given user identifier: the GET line, the
/// fixed headers, and the blank-line terminator.
pub open spec fn request_spec(u: Seq<char>) -> Seq<char> {
    request_line(u) + "\r\n"@ + "Host: api.github.com"@ + "\r\n"@ + "user-agent: rust-cli"@
        + "\r\n"@ + "connection: close"@ + "\r\n"@ + "\r\n"@
}

/// Builds the HTTP/1.1 GET request for the given user's events: request line,
/// `Host`, `user-agent` and `connection: close` headers, then a blank line.
pub fn get_request(username: &str) -> (r: String)
    ensures
        r@ == request_spec(username@),
{
    let mut s = String::from_str("GET /users/");
    s.append(username);
    s.append("/events HTTP/1.1");
    s.append("\r\n");
    s.append("Host: api.github.com");
    s.append("\r\n");
    s.append("user-agent: rust-cli");
    s.append("\r\n");
    s.append("connection: close");
    s.append("\r\n");
    s.append("\r\n");
    proof {
        assert(s@ =~= request_spec(username@));
    }
    s
}

/// A character a user identifier may hold: a letter, a digit, a hyphen or
/// an underscore.
pub open spec fn is_ident_char(c: char) -> bool {
    ||| ('a' as u32) <= (c as u32) && (c as u32) <= ('z' as u32)
    ||| ('A' as u32) <= (c as u32) && (c as u32) <= ('Z' as u32)
    ||| ('0' as u32) <= (c as u32) && (c as u32) <= ('9' as u32)
    ||| c == '-'
    ||| c == '_'
}

/// A valid user identifier: every character a letter, digit, hyphen or
/// underscore.
pub open spec fn is_valid_ident(u: Seq<char>) -> bool {
    forall|k: int| 0 <= k < u.len() ==> is_ident_char(u[k])
}

/// Law: for every valid identifier, the built request holds exactly one GET
/// line — its first line, which names the identifier's events path — and
/// ends in the blank-line terminator; parsing the line back recovers that
/// path as the line's second token.
pub proof fn lemma_request_well_formed(u: Seq<char>)
    requires
        is_valid_ident(u),
    ensures
        first_line(request_spec(u)) == request_line(u),
        request_line(u).take(4) == "GET "@,
        second_token(request_line(u)) == Some("/users/"@ + u + "/events"@),
        request_spec(u).len() == u.len() + 94,
        sep_at(request_spec(u), u.len() as int + 90),
        forall|i: int|
            0 <= i < request_spec(u).len() - 1 && #[trigger] request_spec(u)[i] == '\n'
                ==> request_spec(u)[i + 1] != 'G',
{
    reveal_strlit("GET /users/");
    reveal_strlit("/events HTTP/1.1");
    reveal_strlit("\r\n");
    reveal_strlit("Host: api.github.com");
    reveal_strlit("user-agent: rust-cli");
    reveal_strlit("connection: close");
    reveal_strlit("GET ");
    reveal_strlit("/users/");
    reveal_strlit("/events");
    let s = request_spec(u);
    let line = request_line(u);
    let m = u.len() as int;
    assert(line.len() == 27 + m);
    assert(s.len() == 94 + m);
    assert forall|k: int|
        0 <= k < m implies !is_ws(#[trigger] u[k]) && u[k] != '\n' && u[k] != '\r' && u[k]
        != '\u{b}' by {
        assert(is_ident_char(u[k]));
    }
    assert(forall|j: int| 0 <= j < 11 ==> "GET /users/"@[j] != '\n');
    assert(forall|j: int| 0 <= j < 16 ==> "/events HTTP/1.1"@[j] != '\n');
    assert(forall|j: int| 0 <= j < 20 ==> "Host: api.github.com"@[j] != '\n');
    assert(forall|j: int| 0 <= j < 20 ==> "user-agent: rust-cli"@[j] != '\n');
    assert(forall|j: int| 0 <= j < 17 ==> "connection: close"@[j] != '\n');
    assert(forall|j: int| 0 <= j < 11 && j != 3 ==> !is_ws("GET /users/"@[j]));
    assert(forall|j: int| 0 <= j < 7 ==> !is_ws("/events HTTP/1.1"@[j]));
    // where each character of the whole request comes from
    assert forall|k: int| 0 <= k < 27 + m implies #[trigger] line[k] == (if k < 11 {
        "GET /users/"@[k]
    } else if k < 11 + m {
        u[k - 11]
    } else {
        "/events HTTP/1.1"@[k - 11 - m]
    }) by {}
    assert forall|k: int| 0 <= k < 94 + m implies #[trigger] s[k] == (if k < 27 + m {
        line[k]
    } else if k == 27 + m {
        '\r'
    } else if k == 28 + m {
        '\n'
    } else if k < 49 + m {
        "Host: api.github.com"@[k - 29 - m]
    } else if k == 49 + m {
        '\r'
    } else if k == 50 + m {
        '\n'
    } else if k < 71 + m {
        "user-agent: rust-cli"@[k - 51 - m]
    } else if k == 71 + m {
        '\r'
    } else if k == 72 + m {
        '\n'
    } else if k < 90 + m {
        "connection: close"@[k - 73 - m]
    } else if k == 90 + m {
        '\r'
    } else if k == 91 + m {
        '\n'
    } else if k == 92 + m {
        '\r'
    } else {
        '\n'
    }) by {}
    // the first line runs to the first line feed, at position 28 + m
    assert forall|k: int| 0 <= k < 28 + m implies #[trigger] s[k] != '\n' by {
        assert(s[k] == (if k < 27 + m {
            line[k]
        } else {
            '\r'
        }));
    }
    lemma_line_end_skip(s, 0, 28 + m);
    assert(s[28 + m] == '\n');
    assert(line_end(s, 28 + m) == 28 + m);
    assert(line_end(s, 0) == 28 + m);
    assert(s.subrange(0, 28 + m).len() == 28 + m);
    assert(s.subrange(0, 28 + m).last() == s[27 + m]);
    assert(s.subrange(0, 28 + m).drop_last() =~= line);
    assert(first_line(s) == line);
    assert(line.take(4) =~= "GET "@);
    // the request line splits into the GET token and the path token
    assert(!is_ws(line[0]));
    assert(ws_end(line, 0) == 0);
    lemma_token_end_skip(line, 0, 3);
    assert(is_ws(line[3]));
    assert(token_end(line, 3) == 3);
    assert(ws_end(line, 3) == ws_end(line, 4));
    assert(!is_ws(line[4]));
    assert(ws_end(line, 4) == 4);
    assert forall|k: int| 4 <= k < 18 + m implies !is_ws(#[trigger] line[k]) by {}
    lemma_token_end_skip(line, 4, 18 + m);
    assert(is_ws(line[18 + m]));
    assert(token_end(line, 18 + m) == 18 + m);
    assert(line.subrange(4, 18 + m) =~= "/users/"@ + u + "/events"@);
    assert(second_token(line) == Some("/users/"@ + u + "/events"@));
    // the request ends in the blank-line terminator
    assert(sep_at(s, 90 + m));
    // no line but the first starts with a G: after every line feed stands a
    // header's first character, a carriage return, or the end of the text
    assert forall|i: int| 0 <= i < s.len() - 1 && #[trigger] s[i] == '\n' implies s[i + 1]
        != 'G' by {
        assert(i == 28 + m || i == 50 + m || i == 72 + m || i == 91 + m);
    }
}

/// Law: on every status line `HTTP/1.1 <code> <reason>` with a nonempty,
/// whitespace-free code token, any result the status contract admits goes
/// exactly by the code: `200` is accepted, the four known codes map to their
/// own kinds, any other numeral to `UnexpectedStatus` with its value, and a
/// non-numeral to `HttpParse` naming the token.
pub proof fn lemma_status_table(code: Seq<char>, reason: Seq<char>, r: Result<(), GitHubError>)
    requires
        code.len() > 0,
        forall|k: int| 0 <= k < code.len() ==> !is_ws(code[k]),
        ({
            let line = "HTTP/1.1 "@ + code + " "@ + reason;
            match r {
                Ok(_) => status_ok(line),
                Err(e) => status_err(line, e),
            }
        }),
    ensures
        r is Ok <==> code == "200"@,
        code == "404"@ ==> r == Err::<(), GitHubError>(GitHubError::NotFound),
        code == "403"@ ==> r == Err::<(), GitHubError>(GitHubError::Forbidden),
        code == "503"@ ==> r == Err::<(), GitHubError>(GitHubError::ServerUnavailable),
        code == "304"@ ==> r == Err::<(), GitHubError>(GitHubError::NotModified),
        code != "200"@ && code != "404"@ && code != "403"@ && code != "503"@ && code != "304"@
            && u16_of(code) is Some ==> r == Err::<(), GitHubError>(
            GitHubError::UnexpectedStatus(u16_of(code)->0),
        ),
        code != "200"@ && code != "404"@ && code != "403"@ && code != "503"@ && code != "304"@
            && u16_of(code) is None ==> (match r {
            Err(e) => match e {
                GitHubError::HttpParse(m) => m@ == "Unknown status code: "@ + code,
                _ => false,
            },
            Ok(_) => false,
        }),
{
    lemma_status_line_token(code, reason);
    reveal_strlit("200");
    reveal_strlit("404");
    reveal_strlit("403");
    reveal_strlit("503");
    reveal_strlit("304");
}

} // verus!
