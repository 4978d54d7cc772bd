//! The chat-completion exchange with the OpenAI API: what is sent, and how
//! the reply is read.  The HTTP transport is the application's.
use vstd::prelude::*;
use crate::text::{chars_of, string_of};

verus! {

/// The most tokens a reply may have.
pub const MAX_TOKENS: u32 = 1024;

/// Message in the chat completion request
#[derive(Debug, Clone)]
pub struct ChatMessage {
    pub role: String,
    pub content: String,
}

/// The single message of a request: the prompt, from the user.
pub fn user_message(prompt: &str) -> (m: ChatMessage)
    ensures
        m.role@ == "user"@,
        m.content@ == prompt@,
{
    ChatMessage { role: String::from_str("user"), content: string_of(chars_of(prompt).as_slice()) }
}

/// The value of the `Authorization` header for an API key.
pub fn authorization_value(api_key: &str) -> (r: String)
    ensures
        r@ == "Bearer "@ + api_key@,
{
    let mut r = String::from_str("Bearer ");
    r.append(api_key);
    r
}

/// The parts of a chat completion response that are read: the content of
/// each choice's message, in order, and the API's error message, if any.
#[derive(Debug, Clone)]
pub struct ChatReply {
    pub choices: Vec<String>,
    pub error: Option<String>,
}

/// Why a request gave no reply text.
#[derive(Debug, Clone)]
pub enum ApiFailure {
    /// The HTTP status was not a success.
    Status { status: String, body: String },
    /// The API reported an error.
    Api { message: String },
    /// The response held no choice.
    NoContent,
}

/// The body text shown where the body of a failed response could not be read.
pub open spec fn unknown_error() -> Seq<char> {
    "Unknown error"@
}

/// The failure of a response whose HTTP status is no success, given the
/// status as shown and the body's text where it could be read.
pub fn status_failure(status: String, body: Option<String>) -> (r: ApiFailure)
    ensures
        r matches ApiFailure::Status { status: s, body: b } && s == status && b@ == (match body {
            Some(t) => t@,
            None => unknown_error(),
        }),
{
    let body = match body {
        Some(t) => t,
        None => String::from_str("Unknown error"),
    };
    ApiFailure::Status { status, body }
}

/// The reply text of a response: an error reported by the API wins; else
/// the content of the first choice; a response without choices has none.
pub fn reply_content(reply: ChatReply) -> (r: Result<String, ApiFailure>)
    ensures
        reply.error matches Some(m) ==> (r matches Err(ApiFailure::Api { message }) && message == m),
        reply.error is None && reply.choices@.len() > 0 ==> r == Ok::<String, ApiFailure>(reply.choices@[0]),
        reply.error is None && reply.choices@.len() == 0 ==> (r matches Err(ApiFailure::NoContent)),
{
    let ChatReply { choices, error } = reply;
    if let Some(message) = error {
        return Err(ApiFailure::Api { message });
    }
    let mut choices = choices;
    if choices.len() == 0 {
        return Err(ApiFailure::NoContent);
    }
    let first = choices.swap_remove(0);
    Ok(first)
}

impl ApiFailure {
    /// The explanation shown to the user.
    pub fn message(&self) -> (m: String)
        ensures
            m@ == (match self {
                ApiFailure::Status { status, body } => "OpenAI API request failed with status "@ + status@
                    + ": "@ + body@,
                ApiFailure::Api { message } => "OpenAI API error: "@ + message@,
                ApiFailure::NoContent => "No response content in OpenAI API response"@,
            }),
    {
        match self {
            ApiFailure::Status { status, body } => {
                let mut m = String::from_str("OpenAI API request failed with status ");
                m.append(status.as_str());
                m.append(": ");
                m.append(body.as_str());
                m
            },
            ApiFailure::Api { message } => {
                let mut m = String::from_str("OpenAI API error: ");
                m.append(message.as_str());
                m
            },
            ApiFailure::NoContent => String::from_str("No response content in OpenAI API response"),
        }
    }
}

} // verus!
