//! HTTP facts the library decides on: request methods, which replies count
//! as successful, and how a status code is written in messages.

use vstd::prelude::*;
use crate::json::Json;
use crate::text::{decimal, decimal_spec};

verus! {

/// The method of a request.
#[derive(Debug, Clone, Copy, PartialEq, Eq, Structural)]
pub enum HttpMethod {
    Get,
    Post,
}

/// A request with a JSON body.
pub struct JsonRequest {
    pub method: HttpMethod,
    pub url: String,
    pub body: Json,
}

/// Whether a reply with this status code succeeded: the codes from 200 to
/// 299, as `StatusCode::is_success` decides.
pub fn is_success_status(status: u16) -> (r: bool)
    ensures
        r == (200 <= status < 300),
{
    200 <= status && status < 300
}

/// The reason phrase that the HTTP crate knows for a status code, if any.
pub uninterp spec fn canonical_reason_of(status: u16) -> Option<Seq<char>>;

/// Calls `reqwest::StatusCode::from_u16` and `StatusCode::canonical_reason`:
/// the standard reason phrase of a status code, where the table has one.
#[verifier::external_body]
fn canonical_reason(status: u16) -> (r: Option<String>)
    requires
        100 <= status <= 999,
    ensures
        match r {
            Some(p) => canonical_reason_of(status) == Some(p@),
            None => canonical_reason_of(status) is None,
        },
{
    match reqwest::StatusCode::from_u16(status) {
        Ok(code) => match code.canonical_reason() {
            Some(p) => Some(p.to_string()),
            None => None,
        },
        Err(_) => None,
    }
}

/// A status code as messages show it: the number and its reason phrase (or
/// `<unknown status code>`), the way `StatusCode` displays itself. A number
/// outside 100..=999 is no status code and shows as the bare number.
pub open spec fn status_text_spec(status: u16) -> Seq<char> {
    if 100 <= status <= 999 {
        decimal_spec(status as nat) + " "@ + match canonical_reason_of(status) {
            Some(p) => p,
            None => "<unknown status code>"@,
        }
    } else {
        decimal_spec(status as nat)
    }
}

/// A status code as messages show it.
pub fn status_text(status: u16) -> (r: String)
    ensures
        r@ == status_text_spec(status),
{
    let mut text = decimal(status as u64);
    if 100 <= status && status <= 999 {
        text.append(" ");
        match canonical_reason(status) {
            Some(p) => text.append(p.as_str()),
            None => text.append("<unknown status code>"),
        }
    }
    text
}

} // verus!
