//! HTTP request headers as the library builds them: names and values as
//! text, each value checked against what an HTTP header may carry.

use vstd::prelude::*;
use crate::text::{trim_whitespace, trim_spec, law_trim_idempotent};

verus! {

/// A byte that an HTTP header value may hold: visible ASCII, tab, or any
/// byte from 128 up.
pub open spec fn valid_header_byte(b: u8) -> bool {
    (b >= 32 && b != 127) || b == 9
}

/// Text whose UTF-8 bytes may all stand in an HTTP header value.
pub open spec fn valid_header_value(s: Seq<char>) -> bool {
    let bytes = vstd::utf8::encode_utf8(s);
    forall|i: int| 0 <= i < bytes.len() ==> valid_header_byte(#[trigger] bytes[i])
}

/// Calls `reqwest::header::HeaderValue::from_str` and reports whether it
/// accepts the text: it does exactly when every byte of the text is a valid
/// header byte.
#[verifier::external_body]
fn header_value_is_valid(value: &str) -> (ok: bool)
    ensures
        ok == valid_header_value(value@),
{
    reqwest::header::HeaderValue::from_str(value).is_ok()
}

/// The error of a header value that HTTP does not allow.
#[derive(Debug, Clone, Copy, PartialEq, Eq, Structural)]
pub struct InvalidHeaderValue;

impl InvalidHeaderValue {
    /// The message of the error, as `reqwest::header::InvalidHeaderValue`
    /// displays it.
    pub fn message(&self) -> (r: String)
        ensures
            r@ == "failed to parse header value"@,
    {
        "failed to parse header value".to_owned()
    }
}

/// One header: its lower-case name and its value.
pub struct Header {
    pub name: String,
    pub value: String,
}

/// The headers of a request, in order, with distinct names.
pub struct RequestHeaders {
    pub entries: Vec<Header>,
}

/// The name and value of each header.
pub open spec fn header_views(h: RequestHeaders) -> Seq<(Seq<char>, Seq<char>)> {
    h.entries@.map_values(|e: Header| (e.name@, e.value@))
}

/// The authorization value of the Notion API: `Bearer` and the token.
pub open spec fn notion_authorization(token_text: Seq<char>) -> Seq<char> {
    "Bearer "@ + trim_spec(token_text)
}

/// The authorization value of the Paperless-ngx API: `Token` and the token.
pub open spec fn paperless_authorization(token: Seq<char>) -> Seq<char> {
    "Token "@ + trim_spec(token)
}

/// White space around a token makes no difference to the authorization
/// headers built from it.
pub proof fn law_token_whitespace_irrelevant(token: Seq<char>)
    ensures
        notion_authorization(trim_spec(token)) == notion_authorization(token),
        paperless_authorization(trim_spec(token)) == paperless_authorization(token),
{
    law_trim_idempotent(token);
}

/// `prefix` followed by the token without surrounding white space, if that
/// is a valid header value.
fn authorization_value(prefix: &str, token: &str) -> (r: Option<String>)
    ensures
        r matches Some(v) ==> v@ == prefix@ + trim_spec(token@) && valid_header_value(v@),
        r is None ==> !valid_header_value(prefix@ + trim_spec(token@)),
{
    let mut value = prefix.to_owned();
    value.append(trim_whitespace(token));
    if header_value_is_valid(value.as_str()) {
        Some(value)
    } else {
        None
    }
}

/// A header from its name and value.
fn header(name: &str, value: String) -> (r: Header)
    ensures
        r.name@ == name@,
        r.value@ == value@,
{
    Header { name: name.to_owned(), value }
}

/// The headers of a Notion API request, from the contents of the token file:
/// the bearer token, the API version and the JSON content type.
pub fn notion_headers(token_text: &str) -> (r: Result<RequestHeaders, InvalidHeaderValue>)
    ensures
        r matches Ok(h) ==> valid_header_value(notion_authorization(token_text@)) && header_views(
            h,
        ) == seq![
            ("authorization"@, notion_authorization(token_text@)),
            ("notion-version"@, "2022-06-28"@),
            ("content-type"@, "application/json"@),
        ],
        r is Err ==> !valid_header_value(notion_authorization(token_text@)),
{
    let auth = match authorization_value("Bearer ", token_text) {
        Some(v) => v,
        None => return Err(InvalidHeaderValue),
    };
    let mut entries: Vec<Header> = Vec::new();
    entries.push(header("authorization", auth));
    entries.push(header("notion-version", "2022-06-28".to_owned()));
    entries.push(header("content-type", "application/json".to_owned()));
    let r = RequestHeaders { entries };
    assert(header_views(r) =~= seq![
        ("authorization"@, notion_authorization(token_text@)),
        ("notion-version"@, "2022-06-28"@),
        ("content-type"@, "application/json"@),
    ]);
    Ok(r)
}

/// The headers of a Paperless-ngx API request: the token authorization.
pub fn build_headers(token: &str) -> (r: Result<RequestHeaders, InvalidHeaderValue>)
    ensures
        r matches Ok(h) ==> valid_header_value(paperless_authorization(token@)) && header_views(h)
            == seq![("authorization"@, paperless_authorization(token@))],
        r is Err ==> !valid_header_value(paperless_authorization(token@)),
{
    let auth = match authorization_value("Token ", token) {
        Some(v) => v,
        None => return Err(InvalidHeaderValue),
    };
    let mut entries: Vec<Header> = Vec::new();
    entries.push(header("authorization", auth));
    let r = RequestHeaders { entries };
    assert(header_views(r) =~= seq![("authorization"@, paperless_authorization(token@))]);
    Ok(r)
}

} // verus!
