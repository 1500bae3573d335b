use crate::github::GitHubError;
use vstd::prelude::*;
use vstd::string::StringExecFns;

verus! {

#[verifier::external_type_specification]
#[verifier::external_body]
pub struct ExValue(serde_json::Value);

/// The JSON document a string parses to, or `None` if the string is not
/// valid JSON.
pub uninterp spec fn json_doc(s: Seq<char>) -> Option<serde_json::Value>;

/// The elements of a JSON value, in order, or `None` if the value is not
/// an array.
pub uninterp spec fn json_items(v: serde_json::Value) -> Option<Seq<serde_json::Value>>;

/// The member a JSON value holds under a key, or `None` if the value is not
/// an object or has no such key.
pub uninterp spec fn json_field(v: serde_json::Value, key: Seq<char>) -> Option<serde_json::Value>;

/// The character content of a JSON value, or `None` if the value is not
/// a string.
pub uninterp spec fn json_str(v: serde_json::Value) -> Option<Seq<char>>;

/// Relies on serde_json::from_str::<Value>: parsing is a function of the
/// input text alone; it returns Ok exactly on valid JSON documents.
#[verifier::external_body]
pub(crate) fn parse_value(s: &str) -> (r: Option<serde_json::Value>)
    ensures
        r == json_doc(s@),
{
    serde_json::from_str::<serde_json::Value>(s).ok()
}

/// Relies on serde_json::Value::as_array: Some exactly when the value is a
/// JSON array; the vector then holds the array's elements in order.
#[verifier::external_body]
pub(crate) fn value_items(v: &serde_json::Value) -> (r: Option<Vec<serde_json::Value>>)
    ensures
        match r {
            Some(items) => json_items(*v) == Some(items@),
            None => json_items(*v) is None,
        },
{
    v.as_array().map(|a| a.to_vec())
}

/// Relies on serde_json::Value::get with a string index: Some exactly when
/// the value is a JSON object with that key; returns the member under it.
#[verifier::external_body]
pub(crate) fn value_get<'a>(v: &'a serde_json::Value, key: &str) -> (r: Option<
    &'a serde_json::Value,
>)
    ensures
        match r {
            Some(f) => json_field(*v, key@) == Some(*f),
            None => json_field(*v, key@) is None,
        },
{
    v.get(key)
}

/// Relies on serde_json::Value::as_str: Some exactly when the value is a
/// JSON string; the returned text is that string's content.
#[verifier::external_body]
pub(crate) fn value_str(v: &serde_json::Value) -> (r: Option<String>)
    ensures
        match r {
            Some(s) => json_str(*v) == Some(s@),
            None => json_str(*v) is None,
        },
{
    v.as_str().map(|s| s.to_owned())
}

/// The string member under a key: the lookup succeeds only if the value is
/// an object, holds the key, and the member is a string.
pub open spec fn str_field(v: serde_json::Value, key: Seq<char>) -> Option<Seq<char>> {
    match json_field(v, key) {
        None => None,
        Some(f) => json_str(f),
    }
}

/// The string member two keys deep, by the same null-safe chain.
pub open spec fn str_field2(v: serde_json::Value, k1: Seq<char>, k2: Seq<char>) -> Option<
    Seq<char>,
> {
    match json_field(v, k1) {
        None => None,
        Some(f) => str_field(f, k2),
    }
}

/// The placeholder substituted when a field is absent or not a string.
pub open spec fn or_unknown(o: Option<Seq<char>>) -> Seq<char> {
    match o {
        Some(s) => s,
        None => "unknown"@,
    }
}

/// The rendered text block for one event record: its type, its repository
/// name and its repository URL, each falling back to the placeholder.
pub open spec fn render_spec(v: serde_json::Value) -> Seq<char> {
    "- "@ + or_unknown(str_field(v, "type"@)) + "\n on "@ + or_unknown(
        str_field2(v, "repo"@, "name"@),
    ) + "\n url "@ + or_unknown(str_field2(v, "repo"@, "url"@))
}

/// Looks a string member up under one key, null-safely.
fn lookup_str(v: &serde_json::Value, key: &str) -> (r: Option<String>)
    ensures
        match r {
            Some(s) => str_field(*v, key@) == Some(s@),
            None => str_field(*v, key@) is None,
        },
{
    match value_get(v, key) {
        None => None,
        Some(f) => value_str(f),
    }
}

/// Looks a string member up two keys deep, null-safely: an absent
/// intermediate object yields `None`, not an error.
fn lookup_str2(v: &serde_json::Value, k1: &str, k2: &str) -> (r: Option<String>)
    ensures
        match r {
            Some(s) => str_field2(*v, k1@, k2@) == Some(s@),
            None => str_field2(*v, k1@, k2@) is None,
        },
{
    match value_get(v, k1) {
        None => None,
        Some(f) => lookup_str(f, k2),
    }
}

/// Renders one event record as its three-line text block, substituting the
/// placeholder for each field that is absent or not a string.
pub fn render_event(event: &serde_json::Value) -> (r: String)
    ensures
        r@ == render_spec(*event),
{
    let t = match lookup_str(event, "type") {
        Some(s) => s,
        None => String::from_str("unknown"),
    };
    assert(t@ == or_unknown(str_field(*event, "type"@)));
    let n = match lookup_str2(event, "repo", "name") {
        Some(s) => s,
        None => String::from_str("unknown"),
    };
    assert(n@ == or_unknown(str_field2(*event, "repo"@, "name"@)));
    let u = match lookup_str2(event, "repo", "url") {
        Some(s) => s,
        None => String::from_str("unknown"),
    };
    assert(u@ == or_unknown(str_field2(*event, "repo"@, "url"@)));
    let mut out = String::from_str("- ");
    out.append(t.as_str());
    out.append("\n on ");
    out.append(n.as_str());
    out.append("\n url ");
    out.append(u.as_str());
    proof {
        assert(out@ =~= render_spec(*event));
    }
    out
}

/// The decoded records of a body text: the elements of the JSON array it
/// parses to, or `None` if it is not valid JSON or not an array.
pub open spec fn decoded_items(s: Seq<char>) -> Option<Seq<serde_json::Value>> {
    match json_doc(s) {
        None => None,
        Some(v) => json_items(v),
    }
}

/// The detail text reported when a body does not decode: one message for
/// invalid JSON, another for a document that is not an array.
pub open spec fn json_err_msg(s: Seq<char>) -> Seq<char> {
    if json_doc(s) is None {
        "failed to parse json: "@ + s
    } else {
        "expected an array of json"@
    }
}

/// What decoding a body yields: its records on success, else a `JsonParse`
/// error with the stage's detail text.
pub open spec fn get_json_post(s: Seq<char>, r: Result<Vec<serde_json::Value>, GitHubError>) -> bool {
    match r {
        Ok(events) => decoded_items(s) == Some(events@),
        Err(e) => decoded_items(s) is None && match e {
            GitHubError::JsonParse(m) => m@ == json_err_msg(s),
            _ => false,
        },
    }
}

/// Decodes a body as a JSON array of records, failing exactly when the text
/// is not valid JSON or its top-level value is not an array.
pub fn get_json(val: &str) -> (r: Result<Vec<serde_json::Value>, GitHubError>)
    ensures
        get_json_post(val@, r),
{
    match parse_value(val) {
        None => {
            let mut m = String::from_str("failed to parse json: ");
            m.append(val);
            Err(GitHubError::JsonParse(m))
        },
        Some(json) => match value_items(&json) {
            None => Err(GitHubError::JsonParse(String::from_str("expected an array of json"))),
            Some(events) => Ok(events),
        },
    }
}

} // verus!
