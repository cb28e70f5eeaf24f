//! HTTP status codes as the lookup services report them.

use vstd::prelude::*;
use vstd::string::StringExecFns;
use crate::text::{decimal, push_decimal};

verus! {

/// What `reqwest::StatusCode::canonical_reason` gives for a status code:
/// the standard reason phrase, where the code has one.
pub uninterp spec fn canonical_reason(code: u16) -> Option<Seq<char>>;

/// Calls `reqwest::StatusCode::from_u16(code)` and then its
/// `canonical_reason`; the phrase is named `canonical_reason` of the code
/// and nothing more is claimed of it. `from_u16` accepts exactly the codes
/// 100 to 999.
#[verifier::external_body]
fn reason_phrase(code: u16) -> (r: Option<&'static str>)
    requires
        100 <= code <= 999,
    ensures
        r matches Some(p) ==> canonical_reason(code) == Some(p@),
        r is None ==> canonical_reason(code) is None,
{
    match reqwest::StatusCode::from_u16(code) {
        Ok(s) => s.canonical_reason(),
        Err(_) => None,
    }
}

/// Whether a status code reports success (200 to 299).
pub fn is_success(code: u16) -> (r: bool)
    ensures
        r == (200 <= code < 300),
{
    200 <= code && code < 300
}

/// How a status code is displayed: its number, a space, and its reason
/// phrase or "<unknown status code>".
pub open spec fn status_display(code: u16) -> Seq<char> {
    decimal(code as nat) + " "@ + match canonical_reason(code) {
        Some(p) => p,
        None => "<unknown status code>"@,
    }
}

/// The text a status code is displayed as.
pub fn status_text(code: u16) -> (r: String)
    requires
        100 <= code <= 999,
    ensures
        r@ == status_display(code),
{
    let mut s = String::new();
    push_decimal(&mut s, code as usize);
    s.append(" ");
    match reason_phrase(code) {
        Some(p) => s.append(p),
        None => s.append("<unknown status code>"),
    }
    s
}

} // verus!
