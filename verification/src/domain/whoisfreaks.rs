//! Decisions on the replies of the WhoisFreaks availability API.

use vstd::prelude::*;
use vstd::string::StringExecFns;
use super::{Availability, AvailabilityView};
use crate::http::{status_display, status_text};
use crate::text::{str_eq, to_uppercase, uppercase};
use crate::json::{json_parse, member, member_of, parse_json, JsonValue};

verus! {

/// The status that the API's `domainAvailability` value gives, compared
/// in uppercase.
pub open spec fn reported_status(value: Seq<char>) -> AvailabilityView {
    let v = uppercase(value);
    if v == "AVAILABLE"@ {
        AvailabilityView::Available
    } else if v == "UNAVAILABLE"@ || v == "NOT AVAILABLE"@ || v == "REGISTERED"@ {
        AvailabilityView::Taken
    } else {
        AvailabilityView::Unknown
    }
}

/// The availability that a `domainAvailability` value reports.
pub fn classify_availability(value: &str) -> (r: Availability)
    ensures
        r@ == reported_status(value@),
{
    let v = to_uppercase(value);
    if str_eq(v.as_str(), "AVAILABLE") {
        Availability::Available
    } else if str_eq(v.as_str(), "UNAVAILABLE") || str_eq(v.as_str(), "NOT AVAILABLE") || str_eq(
        v.as_str(),
        "REGISTERED",
    ) {
        Availability::Taken
    } else {
        Availability::Unknown
    }
}

/// The domain a reply is about: the one it names, or the requested one
/// when it names none.
pub fn reported_domain(requested: &str, reported: &str) -> (r: String)
    ensures
        r@ == (if reported@.len() == 0 {
            requested@
        } else {
            reported@
        }),
{
    if reported.is_empty() {
        String::from_str(requested)
    } else {
        String::from_str(reported)
    }
}

/// The message of a failed request: the `message` of an error reply that
/// could be read, else "HTTP" and the status; when the error reply could not
/// be read at all, the status and the reply's text.
pub open spec fn failure_message(code: u16, body: Seq<char>, reply: Option<Option<Seq<char>>>) -> Seq<char> {
    match reply {
        Some(Some(m)) => m,
        Some(None) => "HTTP "@ + status_display(code),
        None => "HTTP "@ + status_display(code) + ": "@ + body,
    }
}

/// The error message for a reply with a failure status `code`. `reply` is
/// the reply read as an error object (`None` when it could not be read),
/// holding its optional `message`.
pub fn failure_text(code: u16, body: &str, reply: &Option<Option<String>>) -> (r: String)
    requires
        100 <= code <= 999,
    ensures
        r@ == failure_message(
            code,
            body@,
            match reply {
                Some(Some(m)) => Some(Some(m@)),
                Some(None) => Some(None),
                None => None,
            },
        ),
{
    match reply {
        Some(Some(m)) => m.clone(),
        Some(None) => {
            let mut s = String::from_str("HTTP ");
            s.append(status_text(code).as_str());
            s
        },
        None => {
            let mut s = String::from_str("HTTP ");
            s.append(status_text(code).as_str());
            s.append(": ");
            s.append(body);
            s
        },
    }
}

/// The availability of a failed request: an error with `failure_text`.
pub fn failure_availability(code: u16, body: &str, reply: &Option<Option<String>>) -> (r: Availability)
    requires
        100 <= code <= 999,
    ensures
        r@ == AvailabilityView::Error(
            failure_message(
                code,
                body@,
                match reply {
                    Some(Some(m)) => Some(Some(m@)),
                    Some(None) => Some(None),
                    None => None,
                },
            ),
        ),
{
    Availability::Error(failure_text(code, body, reply))
}

/// A JSON value read as an optional string: `null` is none, a string is
/// that string, anything else cannot be read (`None`).
pub open spec fn optional_string(v: JsonValue) -> Option<Option<Seq<char>>> {
    match v {
        JsonValue::Null => Some(None),
        JsonValue::Str(s) => Some(Some(s@)),
        _ => None,
    }
}

/// Whether a JSON value can be read as an optional 16-bit status: `null`,
/// or an integer from 0 to 65535.
pub open spec fn optional_u16(v: JsonValue) -> bool {
    match v {
        JsonValue::Null => true,
        JsonValue::Number(Some(n)) => n <= 65535,
        _ => false,
    }
}

/// The `message` of an error reply read as a record with an optional
/// `message` (string) and an optional `status` (integer in `0..=65535`),
/// given as an object with those members (absent members are none, others
/// are ignored) or as an array of at most two items in that order. `None`
/// when the reply cannot be read as such a record.
pub open spec fn error_reply_of(parsed: Option<JsonValue>) -> Option<Option<Seq<char>>> {
    match parsed {
        Some(JsonValue::Object(entries)) => {
            let message = match member(entries@, "message"@) {
                Some(v) => optional_string(v),
                None => Some(None),
            };
            let status_ok = match member(entries@, "status"@) {
                Some(v) => optional_u16(v),
                None => true,
            };
            if status_ok { message } else { None }
        },
        Some(JsonValue::Array(items)) => {
            if items@.len() > 2 {
                None
            } else {
                let message = if items@.len() >= 1 { optional_string(items@[0]) } else { Some(None) };
                let status_ok = if items@.len() >= 2 { optional_u16(items@[1]) } else { true };
                if status_ok { message } else { None }
            }
        },
        _ => None,
    }
}

fn read_optional_string(v: &JsonValue) -> (r: Option<Option<String>>)
    ensures
        (match r {
            Some(Some(s)) => Some(Some(s@)),
            Some(None) => Some(None),
            None => None,
        }) == optional_string(*v),
{
    match v {
        JsonValue::Null => Some(None),
        JsonValue::Str(s) => Some(Some(s.clone())),
        _ => None,
    }
}

fn reads_optional_u16(v: &JsonValue) -> (r: bool)
    ensures
        r == optional_u16(*v),
{
    match v {
        JsonValue::Null => true,
        JsonValue::Number(Some(n)) => *n <= 65535,
        _ => false,
    }
}

/// The `message` of an error reply (see `error_reply_of`).
pub fn error_reply(parsed: &Option<JsonValue>) -> (r: Option<Option<String>>)
    ensures
        (match r {
            Some(Some(s)) => Some(Some(s@)),
            Some(None) => Some(None),
            None => None,
        }) == error_reply_of(*parsed),
{
    match parsed {
        Some(JsonValue::Object(entries)) => {
            let message = match member_of(entries, "message") {
                Some(v) => read_optional_string(v),
                None => Some(None),
            };
            let status_ok = match member_of(entries, "status") {
                Some(v) => reads_optional_u16(v),
                None => true,
            };
            if status_ok { message } else { None }
        },
        Some(JsonValue::Array(items)) => {
            if items.len() > 2 {
                None
            } else {
                let message = if items.len() >= 1 { read_optional_string(&items[0]) } else { Some(None) };
                let status_ok = if items.len() >= 2 { reads_optional_u16(&items[1]) } else { true };
                if status_ok { message } else { None }
            }
        },
        _ => None,
    }
}

/// The availability of a request that failed with status `code` and the
/// error reply `body`: an error whose message is the reply's `message`, else
/// "HTTP" and the status, and the reply's text when it cannot be read.
pub fn failure_from_body(code: u16, body: &str) -> (r: Availability)
    requires
        100 <= code <= 999,
    ensures
        r@ == AvailabilityView::Error(failure_message(code, body@, error_reply_of(json_parse(body@)))),
{
    let parsed = parse_json(body);
    let reply = error_reply(&parsed);
    failure_availability(code, body, &reply)
}

} // verus!
