//! The error taxonomy every part of the dispatcher reports through.

use crate::strutil::{dec_digits, push_char, u64_to_string};
use vstd::prelude::*;

verus! {

/// The result type of dispatcher operations.
pub type HookResult<T> = Result<T, HookError>;

/// The model of a dispatch error.
pub ghost enum HookErrorV {
    HandlerNotFound(Seq<char>),
    ExecutionFailed { handler: Seq<char>, source: Seq<char> },
    Timeout { handler: Seq<char>, duration_ms: int },
    InvalidConfiguration(Seq<char>),
    SecurityViolation(Seq<char>),
    RateLimitExceeded { handler: Seq<char>, limit: int, window_ms: int },
    ResourceLimitExceeded(Seq<char>),
    SerializationError(Seq<char>),
    IoError(Seq<char>),
    RegistrationFailed(Seq<char>),
    NotInitialized,
    Custom(Seq<char>),
}

/// A classified dispatch failure.
#[derive(Debug)]
pub enum HookError {
    /// No handler is registered under the given name.
    HandlerNotFound(String),
    /// A handler failed; `source` describes the underlying problem.
    ExecutionFailed { handler: String, source: String },
    /// A handler ran longer than the allowed duration.
    Timeout { handler: String, duration_ms: u64 },
    /// The configuration document is not usable.
    InvalidConfiguration(String),
    /// A security policy refused the operation.
    SecurityViolation(String),
    /// A handler's sliding window is full.
    RateLimitExceeded { handler: String, limit: u32, window_ms: u64 },
    /// A resource limit was hit.
    ResourceLimitExceeded(String),
    /// A value could not be serialised or parsed.
    SerializationError(String),
    /// An input/output failure, described as text.
    IoError(String),
    /// The handler could not be registered.
    RegistrationFailed(String),
    /// The dispatcher has not been set up.
    NotInitialized,
    /// Any other failure.
    Custom(String),
}

/// What an error value denotes.
pub open spec fn error_view(e: HookError) -> HookErrorV {
    match e {
        HookError::HandlerNotFound(n) => HookErrorV::HandlerNotFound(n@),
        HookError::ExecutionFailed { handler, source } => HookErrorV::ExecutionFailed {
            handler: handler@,
            source: source@,
        },
        HookError::Timeout { handler, duration_ms } => HookErrorV::Timeout {
            handler: handler@,
            duration_ms: duration_ms as int,
        },
        HookError::InvalidConfiguration(m) => HookErrorV::InvalidConfiguration(m@),
        HookError::SecurityViolation(m) => HookErrorV::SecurityViolation(m@),
        HookError::RateLimitExceeded { handler, limit, window_ms } => HookErrorV::RateLimitExceeded {
            handler: handler@,
            limit: limit as int,
            window_ms: window_ms as int,
        },
        HookError::ResourceLimitExceeded(m) => HookErrorV::ResourceLimitExceeded(m@),
        HookError::SerializationError(m) => HookErrorV::SerializationError(m@),
        HookError::IoError(m) => HookErrorV::IoError(m@),
        HookError::RegistrationFailed(m) => HookErrorV::RegistrationFailed(m@),
        HookError::NotInitialized => HookErrorV::NotInitialized,
        HookError::Custom(m) => HookErrorV::Custom(m@),
    }
}

impl View for HookError {
    type V = HookErrorV;

    open spec fn view(&self) -> HookErrorV {
        error_view(*self)
    }
}

/// The fractional-second digits of a duration: the millisecond remainder
/// as three digits, trailing zeros trimmed (the remainder is not zero).
pub open spec fn frac_digits(frac: int) -> Seq<char> {
    let c2 = ((frac / 100 + 48) as u8) as char;
    let c1 = ((frac / 10 % 10 + 48) as u8) as char;
    let c0 = ((frac % 10 + 48) as u8) as char;
    if frac % 10 != 0 {
        seq![c2, c1, c0]
    } else if frac / 10 % 10 != 0 {
        seq![c2, c1]
    } else {
        seq![c2]
    }
}

/// A millisecond duration in the fixed format the error messages use:
/// whole or fractional seconds from one second up (`5s`, `1.5s`),
/// milliseconds below that (`50ms`, `0ms`).
pub open spec fn duration_text(ms: int) -> Seq<char> {
    if ms >= 1000 {
        if ms % 1000 == 0 {
            dec_digits((ms / 1000) as nat) + "s"@
        } else {
            dec_digits((ms / 1000) as nat) + "."@ + frac_digits(ms % 1000) + "s"@
        }
    } else {
        dec_digits(ms as nat) + "ms"@
    }
}

/// A millisecond duration rendered as [`duration_text`] says.
pub fn duration_to_string(ms: u64) -> (r: String)
    ensures
        r@ == duration_text(ms as int),
{
    if ms >= 1000 {
        let frac = ms % 1000;
        let mut s = u64_to_string(ms / 1000);
        if frac == 0 {
            s.append("s");
            s
        } else {
            s.append(".");
            let c2 = ((frac / 100) as u8 + 48) as char;
            let c1 = ((frac / 10 % 10) as u8 + 48) as char;
            let c0 = ((frac % 10) as u8 + 48) as char;
            if frac % 10 != 0 {
                push_char(&mut s, c2);
                push_char(&mut s, c1);
                push_char(&mut s, c0);
            } else if frac / 10 % 10 != 0 {
                push_char(&mut s, c2);
                push_char(&mut s, c1);
            } else {
                push_char(&mut s, c2);
            }
            s.append("s");
            assert(s@ =~= dec_digits((ms / 1000) as nat) + "."@ + frac_digits(ms as int % 1000)
                + "s"@);
            s
        }
    } else {
        let mut s = u64_to_string(ms);
        s.append("ms");
        s
    }
}

/// The fixed-format human rendering of an error, so downstream tooling can
/// match by prefix.
pub open spec fn error_message(e: HookErrorV) -> Seq<char> {
    match e {
        HookErrorV::HandlerNotFound(n) => "Hook handler not found: "@ + n,
        HookErrorV::ExecutionFailed { handler, source } => "Hook handler '"@ + handler
            + "' execution failed: "@ + source,
        HookErrorV::Timeout { handler, duration_ms } => "Hook handler '"@ + handler
            + "' timed out after "@ + duration_text(duration_ms),
        HookErrorV::InvalidConfiguration(m) => "Invalid configuration: "@ + m,
        HookErrorV::SecurityViolation(m) => "Security violation: "@ + m,
        HookErrorV::RateLimitExceeded { handler, limit, window_ms } => "Rate limit exceeded for handler '"@
            + handler + "': "@ + dec_digits(limit as nat) + " calls per "@ + duration_text(
            window_ms,
        ),
        HookErrorV::ResourceLimitExceeded(m) => "Resource limit exceeded: "@ + m,
        HookErrorV::SerializationError(m) => "Serialization error: "@ + m,
        HookErrorV::IoError(m) => "IO error: "@ + m,
        HookErrorV::RegistrationFailed(m) => "Handler registration failed: "@ + m,
        HookErrorV::NotInitialized => "Hook system not initialized"@,
        HookErrorV::Custom(m) => m,
    }
}

impl HookError {
    /// An execution failure naming the handler and the underlying problem.
    pub fn execution_failed(handler: String, source: String) -> (r: Self)
        ensures
            r@ == (HookErrorV::ExecutionFailed { handler: handler@, source: source@ }),
    {
        HookError::ExecutionFailed { handler, source }
    }

    /// A timeout for the named handler after `duration_ms` milliseconds.
    pub fn timeout(handler: String, duration_ms: u64) -> (r: Self)
        ensures
            r@ == (HookErrorV::Timeout { handler: handler@, duration_ms: duration_ms as int }),
    {
        HookError::Timeout { handler, duration_ms }
    }

    /// An invalid-configuration error.
    pub fn invalid_config(message: String) -> (r: Self)
        ensures
            r@ == HookErrorV::InvalidConfiguration(message@),
    {
        HookError::InvalidConfiguration(message)
    }

    /// A security violation.
    pub fn security_violation(message: String) -> (r: Self)
        ensures
            r@ == HookErrorV::SecurityViolation(message@),
    {
        HookError::SecurityViolation(message)
    }

    /// A rate-limit denial for the named handler.
    pub fn rate_limit_exceeded(handler: String, limit: u32, window_ms: u64) -> (r: Self)
        ensures
            r@ == (HookErrorV::RateLimitExceeded {
                handler: handler@,
                limit: limit as int,
                window_ms: window_ms as int,
            }),
    {
        HookError::RateLimitExceeded { handler, limit, window_ms }
    }

    /// Any other failure, rendered verbatim.
    pub fn custom(message: String) -> (r: Self)
        ensures
            r@ == HookErrorV::Custom(message@),
    {
        HookError::Custom(message)
    }

    /// The fixed-format human rendering of this error.
    pub fn message(&self) -> (r: String)
        ensures
            r@ == error_message(self@),
    {
        match self {
            HookError::HandlerNotFound(n) => {
                let mut s = String::from_str("Hook handler not found: ");
                s.append(n.as_str());
                s
            },
            HookError::ExecutionFailed { handler, source } => {
                let mut s = String::from_str("Hook handler '");
                s.append(handler.as_str());
                s.append("' execution failed: ");
                s.append(source.as_str());
                s
            },
            HookError::Timeout { handler, duration_ms } => {
                let mut s = String::from_str("Hook handler '");
                s.append(handler.as_str());
                s.append("' timed out after ");
                s.append(duration_to_string(*duration_ms).as_str());
                s
            },
            HookError::InvalidConfiguration(m) => {
                let mut s = String::from_str("Invalid configuration: ");
                s.append(m.as_str());
                s
            },
            HookError::SecurityViolation(m) => {
                let mut s = String::from_str("Security violation: ");
                s.append(m.as_str());
                s
            },
            HookError::RateLimitExceeded { handler, limit, window_ms } => {
                let mut s = String::from_str("Rate limit exceeded for handler '");
                s.append(handler.as_str());
                s.append("': ");
                s.append(u64_to_string(*limit as u64).as_str());
                s.append(" calls per ");
                s.append(duration_to_string(*window_ms).as_str());
                s
            },
            HookError::ResourceLimitExceeded(m) => {
                let mut s = String::from_str("Resource limit exceeded: ");
                s.append(m.as_str());
                s
            },
            HookError::SerializationError(m) => {
                let mut s = String::from_str("Serialization error: ");
                s.append(m.as_str());
                s
            },
            HookError::IoError(m) => {
                let mut s = String::from_str("IO error: ");
                s.append(m.as_str());
                s
            },
            HookError::RegistrationFailed(m) => {
                let mut s = String::from_str("Handler registration failed: ");
                s.append(m.as_str());
                s
            },
            HookError::NotInitialized => String::from_str("Hook system not initialized"),
            HookError::Custom(m) => m.clone(),
        }
    }
}

impl Clone for HookError {
    /// A copy that denotes the same error.
    fn clone(&self) -> (res: HookError)
        ensures
            res@ == self@,
    {
        match self {
            HookError::HandlerNotFound(n) => HookError::HandlerNotFound(n.clone()),
            HookError::ExecutionFailed { handler, source } => HookError::ExecutionFailed {
                handler: handler.clone(),
                source: source.clone(),
            },
            HookError::Timeout { handler, duration_ms } => HookError::Timeout {
                handler: handler.clone(),
                duration_ms: *duration_ms,
            },
            HookError::InvalidConfiguration(m) => HookError::InvalidConfiguration(m.clone()),
            HookError::SecurityViolation(m) => HookError::SecurityViolation(m.clone()),
            HookError::RateLimitExceeded { handler, limit, window_ms } => HookError::RateLimitExceeded {
                handler: handler.clone(),
                limit: *limit,
                window_ms: *window_ms,
            },
            HookError::ResourceLimitExceeded(m) => HookError::ResourceLimitExceeded(m.clone()),
            HookError::SerializationError(m) => HookError::SerializationError(m.clone()),
            HookError::IoError(m) => HookError::IoError(m.clone()),
            HookError::RegistrationFailed(m) => HookError::RegistrationFailed(m.clone()),
            HookError::NotInitialized => HookError::NotInitialized,
            HookError::Custom(m) => HookError::Custom(m.clone()),
        }
    }
}

} // verus!
