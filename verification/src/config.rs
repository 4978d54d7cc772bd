//! Settings of the assistant: the API key, the model and the request timeout.
use vstd::prelude::*;
use crate::number::{decimal, law_parse_u64_reads_decimal, parse_u64, parse_u64_chars};
use crate::text::chars_of;

verus! {

/// The model used when none is configured.
pub open spec fn default_model() -> Seq<char> {
    "gpt-4o"@
}

/// The request timeout, in seconds, used when none (or no number) is configured.
pub const DEFAULT_TIMEOUT_SECS: u64 = 30;

/// The timeout that a configured value gives: its number where it is one,
/// else the default.
pub open spec fn timeout_from(value: Option<String>) -> u64 {
    match value {
        Some(t) => match parse_u64(t@) {
            Some(n) => n,
            None => DEFAULT_TIMEOUT_SECS,
        },
        None => DEFAULT_TIMEOUT_SECS,
    }
}

/// Why no configuration could be made.
#[derive(Debug, Clone, PartialEq, Eq)]
pub enum ConfigError {
    /// No API key was given.
    MissingApiKey,
}

impl ConfigError {
    /// The explanation shown to the user.
    pub fn message(&self) -> (m: String)
        ensures
            m@ == "OPENAI_API_KEY environment variable is not set.\n\nPlease set it:\n  export OPENAI_API_KEY='sk-...'"@,
    {
        String::from_str("OPENAI_API_KEY environment variable is not set.\n\nPlease set it:\n  export OPENAI_API_KEY='sk-...'")
    }
}

/// Configuration for the CLI assistant
#[derive(Debug, Clone)]
pub struct Config {
    /// OpenAI API key
    pub api_key: String,
    /// Model to use (default: gpt-4o)
    pub model: String,
    /// Timeout for API requests in seconds (default: 30)
    pub timeout: u64,
}

impl Config {
    /// The configuration made of the settings as they were read: the API key
    /// is required; a missing model is `gpt-4o`; a missing timeout, or one
    /// that is no `u64` number, is 30 seconds.
    pub fn from_values(api_key: Option<String>, model: Option<String>, timeout: Option<String>) -> (r: Result<Config, ConfigError>)
        ensures
            api_key is None ==> r == Err::<Config, ConfigError>(ConfigError::MissingApiKey),
            api_key matches Some(k) ==> (r matches Ok(c) && {
                &&& c.api_key@ == k@
                &&& c.model@ == (match model {
                    Some(m) => m@,
                    None => "gpt-4o"@,
                })
                &&& c.timeout == timeout_from(timeout)
            }),
    {
        let api_key = match api_key {
            Some(k) => k,
            None => {
                return Err(ConfigError::MissingApiKey);
            },
        };
        let model = match model {
            Some(m) => m,
            None => String::from_str("gpt-4o"),
        };
        let timeout = match timeout {
            Some(t) => {
                let digits = chars_of(t.as_str());
                match parse_u64_chars(digits.as_slice()) {
                    Some(n) => n,
                    None => DEFAULT_TIMEOUT_SECS,
                }
            },
            None => DEFAULT_TIMEOUT_SECS,
        };
        Ok(Config { api_key, model, timeout })
    }

    /// Get the API key
    pub fn api_key(&self) -> (r: &str)
        ensures
            r@ == self.api_key@,
    {
        self.api_key.as_str()
    }

    /// Get the model name
    pub fn model(&self) -> (r: &str)
        ensures
            r@ == self.model@,
    {
        self.model.as_str()
    }

    /// Get the timeout in seconds
    pub fn timeout(&self) -> (r: u64)
        ensures
            r == self.timeout,
    {
        self.timeout
    }
}

/// Without a configured timeout it is 30 seconds; a configured timeout
/// written in decimal is taken as that many seconds.
pub proof fn law_timeout_setting(t: String, n: u64)
    requires
        t@ == decimal(n as int),
    ensures
        timeout_from(None) == 30,
        timeout_from(Some(t)) == n,
{
    law_parse_u64_reads_decimal(n);
}

} // verus!
