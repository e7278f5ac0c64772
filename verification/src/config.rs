//! Runtime configuration: the access token and the API's base URL.

use vstd::prelude::*;

use crate::text::{chars_of, trim_chars, trimmed};

verus! {

broadcast use vstd::string::group_string_axioms;

/// The Asana REST API's base URL, used unless one is configured.
pub const DEFAULT_BASE_URL: &'static str = "https://app.asana.com/api/1.0";

/// Everything needed to talk to the Asana API.
pub struct Config {
    pub token: String,
    pub base_url: String,
}

impl Config {
    /// Configuration from the values of `ASANA_ACCESS_TOKEN` and
    /// `ASANA_BASE_URL`. Returns `None` when no access token is set (or it is
    /// only whitespace), which puts the app into offline "demo" mode.
    pub fn from_values(token: Option<String>, base_url: Option<String>) -> (r: Option<Config>)
        ensures
            r is Some <==> (token matches Some(t) && trimmed(t@).len() > 0),
            r matches Some(c) ==> {
                &&& token matches Some(t) && c.token@ == t@
                &&& c.base_url@ == match base_url {
                    Some(b) => b@,
                    None => DEFAULT_BASE_URL@,
                }
            },
    {
        let token = match token {
            Some(t) => t,
            None => return None,
        };
        let chars = chars_of(token.as_str());
        if trim_chars(chars.as_slice()).len() == 0 {
            return None;
        }
        let base_url = match base_url {
            Some(b) => b,
            None => String::from_str(DEFAULT_BASE_URL),
        };
        Some(Config { token, base_url })
    }

    /// Configuration with the given token and the default base URL.
    pub fn with_token(token: String) -> (c: Config)
        ensures
            c.token == token,
            c.base_url@ == DEFAULT_BASE_URL@,
    {
        Config { token, base_url: String::from_str(DEFAULT_BASE_URL) }
    }
}

/// Why logging in could not start.
#[derive(Clone, Copy, Debug, PartialEq, Eq, Structural)]
pub enum LoginError {
    /// Nothing but whitespace was entered.
    NoToken,
}

impl LoginError {
    /// The human-readable message.
    pub fn message(&self) -> (m: String)
        ensures
            m@ == "no token entered"@,
    {
        String::from_str("no token entered")
    }
}

/// The token typed at the login prompt, trimmed (`None` when the prompt could
/// not be read): an error when nothing but whitespace is left.
pub fn entered_token(input: Option<String>) -> (r: Result<String, LoginError>)
    ensures
        match r {
            Ok(t) => input matches Some(i) && t@ == trimmed(i@) && t@.len() > 0,
            Err(e) => e == LoginError::NoToken && (input matches Some(i) ==> trimmed(i@).len() == 0),
        },
{
    match input {
        Some(i) => {
            let chars = chars_of(i.as_str());
            let t = trim_chars(chars.as_slice());
            if t.len() == 0 {
                Err(LoginError::NoToken)
            } else {
                Ok(crate::text::string_of(t.as_slice()))
            }
        },
        None => Err(LoginError::NoToken),
    }
}

} // verus!
