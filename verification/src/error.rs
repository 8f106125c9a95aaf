//! The daemon's error type and the text it shows for each failure.

use vstd::prelude::*;
use crate::text::{chars_of, concat_chars, string_of};

verus! {

/// The failures the daemon reports; each carries the text shown to the user.
#[derive(Debug)]
pub enum SandboxError {
    InvalidConfig(String),
    Backend(String),
    Timeout(String),
    Protocol(String),
    Conflict(String),
    NotFound(String),
    UnsupportedHost(String),
    Io { context: String, message: String },
    Json { context: String, message: String },
}

/// The rendered text of an error (its `Display`).
pub open spec fn error_text(e: SandboxError) -> Seq<char> {
    match e {
        SandboxError::InvalidConfig(m) => "invalid configuration: "@ + m@,
        SandboxError::Backend(m) => "backend failure: "@ + m@,
        SandboxError::Timeout(m) => "timeout: "@ + m@,
        SandboxError::Protocol(m) => "protocol error: "@ + m@,
        SandboxError::Conflict(m) => "conflict: "@ + m@,
        SandboxError::NotFound(m) => "not found: "@ + m@,
        SandboxError::UnsupportedHost(m) => "unsupported host: "@ + m@,
        SandboxError::Io { context, message } => context@ + ": "@ + message@,
        SandboxError::Json { context, message } => context@ + ": "@ + message@,
    }
}

/// The message carried by the error, without the kind's prefix.
pub open spec fn error_message(e: SandboxError) -> Seq<char> {
    match e {
        SandboxError::InvalidConfig(m) => m@,
        SandboxError::Backend(m) => m@,
        SandboxError::Timeout(m) => m@,
        SandboxError::Protocol(m) => m@,
        SandboxError::Conflict(m) => m@,
        SandboxError::NotFound(m) => m@,
        SandboxError::UnsupportedHost(m) => m@,
        SandboxError::Io { context, message } => message@,
        SandboxError::Json { context, message } => message@,
    }
}

/// `prefix` then `m`, as a `String`.
pub fn prefixed(prefix: &str, m: &String) -> (s: String)
    ensures
        s@ == prefix@ + m@,
{
    let p = chars_of(prefix);
    let b = chars_of(m.as_str());
    string_of(&concat_chars(&p, &b))
}

impl SandboxError {
    /// The text shown for this error.
    pub fn to_message(&self) -> (s: String)
        ensures
            s@ == error_text(*self),
    {
        match self {
            SandboxError::InvalidConfig(m) => prefixed("invalid configuration: ", m),
            SandboxError::Backend(m) => prefixed("backend failure: ", m),
            SandboxError::Timeout(m) => prefixed("timeout: ", m),
            SandboxError::Protocol(m) => prefixed("protocol error: ", m),
            SandboxError::Conflict(m) => prefixed("conflict: ", m),
            SandboxError::NotFound(m) => prefixed("not found: ", m),
            SandboxError::UnsupportedHost(m) => prefixed("unsupported host: ", m),
            SandboxError::Io { context, message } | SandboxError::Json { context, message } => {
                let a = chars_of(context.as_str());
                let b = chars_of(": ");
                let c = chars_of(message.as_str());
                let ab = concat_chars(&a, &b);
                string_of(&concat_chars(&ab, &c))
            },
        }
    }

    pub fn invalid(message: String) -> (e: SandboxError)
        ensures
            e == SandboxError::InvalidConfig(message),
    {
        SandboxError::InvalidConfig(message)
    }

    pub fn backend(message: String) -> (e: SandboxError)
        ensures
            e == SandboxError::Backend(message),
    {
        SandboxError::Backend(message)
    }

    pub fn timeout(message: String) -> (e: SandboxError)
        ensures
            e == SandboxError::Timeout(message),
    {
        SandboxError::Timeout(message)
    }

    pub fn protocol(message: String) -> (e: SandboxError)
        ensures
            e == SandboxError::Protocol(message),
    {
        SandboxError::Protocol(message)
    }

    pub fn conflict(message: String) -> (e: SandboxError)
        ensures
            e == SandboxError::Conflict(message),
    {
        SandboxError::Conflict(message)
    }

    pub fn not_found(message: String) -> (e: SandboxError)
        ensures
            e == SandboxError::NotFound(message),
    {
        SandboxError::NotFound(message)
    }

    pub fn io(context: String, message: String) -> (e: SandboxError)
        ensures
            e == (SandboxError::Io { context, message }),
    {
        SandboxError::Io { context, message }
    }

    pub fn json(context: String, message: String) -> (e: SandboxError)
        ensures
            e == (SandboxError::Json { context, message }),
    {
        SandboxError::Json { context, message }
    }
}

} // verus!
