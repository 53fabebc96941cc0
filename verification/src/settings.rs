//! Settings that come from environment variables.
use crate::message::optional;
use crate::text::{parse_unsigned, unsigned_value};
use vstd::prelude::*;
use vstd::string::StringExecFns;

verus! {

/// The limit on a reply's tokens where no valid one is set.
pub const DEFAULT_MAX_TOKENS: u32 = 8192;

/// A setting, or its default where it is not set.
pub open spec fn setting(value: Option<Seq<char>>, default: Seq<char>) -> Seq<char> {
    match value {
        Some(value) => value,
        None => default,
    }
}

/// A setting, or else another one.
pub open spec fn either(first: Option<Seq<char>>, second: Option<Seq<char>>) -> Option<Seq<char>> {
    match first {
        Some(value) => Some(value),
        None => second,
    }
}

/// The limit on a reply's tokens that a setting names, the default where it names none.
pub open spec fn token_limit(value: Option<Seq<char>>) -> u32 {
    match value {
        Some(text) => match unsigned_value(text, u32::MAX as nat) {
            Some(limit) => limit as u32,
            None => DEFAULT_MAX_TOKENS,
        },
        None => DEFAULT_MAX_TOKENS,
    }
}

/// An API key, or why there is none: the variable with this name is not set, or is empty.
pub open spec fn checked_key(key: Option<Seq<char>>, variable: Seq<char>) -> Result<
    Seq<char>,
    Seq<char>,
> {
    match key {
        Some(key) => if key.len() == 0 {
            Err(variable + " is empty"@)
        } else {
            Ok(key)
        },
        None => Err(variable + " not set"@),
    }
}

/// A setting, or its default where it is not set.
pub fn read_setting(value: Option<String>, default: &str) -> (r: String)
    ensures
        r@ == setting(optional(value), default@),
{
    match value {
        Some(value) => value,
        None => default.to_owned(),
    }
}

/// A setting, or else another one.
pub fn read_either(first: Option<String>, second: Option<String>) -> (r: Option<String>)
    ensures
        optional(r) == either(optional(first), optional(second)),
{
    match first {
        Some(value) => Some(value),
        None => second,
    }
}

/// The limit on a reply's tokens that a setting names, the default where it names none.
pub fn read_token_limit(value: Option<String>) -> (r: u32)
    ensures
        r == token_limit(optional(value)),
{
    match value {
        Some(text) => match parse_unsigned(text.as_str(), u32::MAX) {
            Some(limit) => limit,
            None => DEFAULT_MAX_TOKENS,
        },
        None => DEFAULT_MAX_TOKENS,
    }
}

/// An API key, or why there is none.
pub fn check_key(key: Option<String>, variable: &str) -> (r: Result<String, String>)
    ensures
        checked_key(optional(key), variable@) == match r {
            Ok(key) => Ok::<Seq<char>, Seq<char>>(key@),
            Err(error) => Err(error@),
        },
{
    match key {
        Some(key) => if key.as_str().is_empty() {
            Err(variable.to_owned().concat(" is empty"))
        } else {
            Ok(key)
        },
        None => Err(variable.to_owned().concat(" not set")),
    }
}

/// What the headers of a request are.
pub open spec fn header_texts(headers: Seq<(String, String)>) -> Seq<(Seq<char>, Seq<char>)> {
    headers.map_values(|h: (String, String)| (h.0@, h.1@))
}

} // verus!
