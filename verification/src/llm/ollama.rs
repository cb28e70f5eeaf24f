//! The local Ollama backend: model listing and the content of its replies.

use vstd::prelude::*;
use vstd::string::StringExecFns;
use crate::http::is_success;

verus! {

/// Where Ollama listens by default.
pub const DEFAULT_BASE_URL: &'static str = "http://localhost:11434";

/// The model used when none is chosen.
pub const DEFAULT_MODEL: &'static str = "llama3";

/// A model that a running Ollama instance offers.
#[derive(Clone)]
pub struct ModelInfo {
    pub name: String,
}

/// The names of the listed models, in order.
pub fn model_names(models: &Vec<ModelInfo>) -> (r: Vec<String>)
    ensures
        r@.len() == models@.len(),
        forall|i: int| 0 <= i < r@.len() ==> #[trigger] r@[i]@ == models@[i].name@,
{
    let mut out: Vec<String> = Vec::new();
    for i in 0..models.len()
        invariant
            out@.len() == i,
            forall|j: int| 0 <= j < i ==> #[trigger] out@[j]@ == models@[j].name@,
    {
        out.push(models[i].name.clone());
    }
    out
}

/// The text of the first choice, if there is one.
pub open spec fn first_choice(choices: Option<Seq<Seq<char>>>) -> Option<Seq<char>> {
    match choices {
        Some(c) => if c.len() > 0 {
            Some(c[0])
        } else {
            None
        },
        None => None,
    }
}

/// The content of a reply from the OpenAI-compatible endpoint: the first
/// choice's content, else the message's content, else empty text.
pub open spec fn compatible_content(choices: Option<Seq<Seq<char>>>, message: Option<Seq<char>>) -> Seq<char> {
    match first_choice(choices) {
        Some(c) => c,
        None => match message {
            Some(m) => m,
            None => Seq::empty(),
        },
    }
}

/// The content of a reply from the native chat endpoint: the message's
/// content, else the first choice's content, else empty text.
pub open spec fn native_content(choices: Option<Seq<Seq<char>>>, message: Option<Seq<char>>) -> Seq<char> {
    match message {
        Some(m) => m,
        None => match first_choice(choices) {
            Some(c) => c,
            None => Seq::empty(),
        },
    }
}

fn first_of(choices: &Option<Vec<String>>) -> (r: Option<String>)
    ensures
        r matches Some(c) ==> first_choice(choices.deep_view()) == Some(c@),
        r is None ==> first_choice(choices.deep_view()) is None,
{
    match choices {
        Some(c) => if c.len() > 0 {
            Some(c[0].clone())
        } else {
            None
        },
        None => None,
    }
}

/// The content of a reply from the OpenAI-compatible endpoint.
pub fn compatible_reply_content(choices: &Option<Vec<String>>, message: &Option<String>) -> (r: String)
    ensures
        r@ == compatible_content(choices.deep_view(), message.deep_view()),
{
    match first_of(choices) {
        Some(c) => c,
        None => match message {
            Some(m) => m.clone(),
            None => String::new(),
        },
    }
}

/// The content of a reply from the native chat endpoint.
pub fn native_reply_content(choices: &Option<Vec<String>>, message: &Option<String>) -> (r: String)
    ensures
        r@ == native_content(choices.deep_view(), message.deep_view()),
{
    match message {
        Some(m) => m.clone(),
        None => match first_of(choices) {
            Some(c) => c,
            None => String::new(),
        },
    }
}

/// The URL of the OpenAI-compatible chat endpoint under `base`.
pub open spec fn compatible_endpoint(base: Seq<char>) -> Seq<char> {
    base + "/v1/chat/completions"@
}

/// The URL of the native chat endpoint under `base`.
pub open spec fn native_endpoint(base: Seq<char>) -> Seq<char> {
    base + "/api/chat"@
}

/// The OpenAI-compatible chat endpoint of the instance at `base`.
pub fn compatible_url(base: &str) -> (r: String)
    ensures
        r@ == compatible_endpoint(base@),
{
    let mut u = String::from_str(base);
    u.append("/v1/chat/completions");
    u
}

/// The native chat endpoint of the instance at `base`.
pub fn native_url(base: &str) -> (r: String)
    ensures
        r@ == native_endpoint(base@),
{
    let mut u = String::from_str(base);
    u.append("/api/chat");
    u
}

/// The step after the call to the OpenAI-compatible endpoint.
#[derive(Debug, Clone, Copy, PartialEq, Eq, Structural)]
pub enum OllamaStep {
    /// The call succeeded: read its reply as an OpenAI-compatible reply.
    ReadCompatibleReply,
    /// The request failed or was not a success: call the native endpoint.
    CallNativeEndpoint,
}

/// What follows the call to the OpenAI-compatible endpoint. `status` is the
/// reply's status code, or `None` when the request failed.
pub fn after_compatible_call(status: Option<u16>) -> (r: OllamaStep)
    ensures
        r == (if status matches Some(c) && 200 <= c < 300 {
            OllamaStep::ReadCompatibleReply
        } else {
            OllamaStep::CallNativeEndpoint
        }),
{
    match status {
        Some(c) => if is_success(c) {
            OllamaStep::ReadCompatibleReply
        } else {
            OllamaStep::CallNativeEndpoint
        },
        None => OllamaStep::CallNativeEndpoint,
    }
}

/// Whether the native endpoint's reply is read: exactly when its status is
/// a success; otherwise the call is reported with `native_error`.
pub fn native_reply_readable(status: u16) -> (r: bool)
    ensures
        r == (200 <= status < 300),
{
    is_success(status)
}

/// The error of a native call whose status is not a success: "Ollama error: "
/// and the reply's text.
pub fn native_error(body: &str) -> (r: String)
    ensures
        r@ == "Ollama error: "@ + body@,
{
    let mut m = String::from_str("Ollama error: ");
    m.append(body);
    m
}

} // verus!
