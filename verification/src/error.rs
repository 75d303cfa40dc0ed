//! Error kinds of the agenda library.

use vstd::prelude::*;

verus! {

/// What can go wrong while authenticating, talking to the calendar
/// provider, reading configuration or parsing provider data.
#[derive(Debug)]
pub enum CalendarError {
    AuthenticationFailed(String),
    ApiError(String),
    ConfigError(String),
    ParseError(String),
}

/// The kind of an error, without its message.
#[derive(Debug, Clone, Copy, PartialEq, Eq, Structural)]
pub enum ErrorKind {
    Authentication,
    Api,
    Config,
    Parse,
}

impl CalendarError {
    /// The kind of this error.
    pub open spec fn kind(&self) -> ErrorKind {
        match self {
            CalendarError::AuthenticationFailed(_) => ErrorKind::Authentication,
            CalendarError::ApiError(_) => ErrorKind::Api,
            CalendarError::ConfigError(_) => ErrorKind::Config,
            CalendarError::ParseError(_) => ErrorKind::Parse,
        }
    }

    /// The detail text carried by this error.
    pub open spec fn detail(&self) -> Seq<char> {
        match self {
            CalendarError::AuthenticationFailed(m) => m@,
            CalendarError::ApiError(m) => m@,
            CalendarError::ConfigError(m) => m@,
            CalendarError::ParseError(m) => m@,
        }
    }

    /// The fixed text that introduces an error of the given kind.
    pub open spec fn prefix(kind: ErrorKind) -> Seq<char> {
        match kind {
            ErrorKind::Authentication => "Authentication failed: "@,
            ErrorKind::Api => "API error: "@,
            ErrorKind::Config => "Configuration error: "@,
            ErrorKind::Parse => "Parse error: "@,
        }
    }

    /// The text shown to the user: the kind's prefix followed by the detail.
    pub open spec fn spec_message(&self) -> Seq<char> {
        Self::prefix(self.kind()) + self.detail()
    }

    /// Renders the error for display.
    pub fn message(&self) -> (text: String)
        ensures
            text@ == self.spec_message(),
    {
        match self {
            CalendarError::AuthenticationFailed(m) => {
                String::from_str("Authentication failed: ").concat(m.as_str())
            },
            CalendarError::ApiError(m) => String::from_str("API error: ").concat(m.as_str()),
            CalendarError::ConfigError(m) => {
                String::from_str("Configuration error: ").concat(m.as_str())
            },
            CalendarError::ParseError(m) => String::from_str("Parse error: ").concat(m.as_str()),
        }
    }

    /// Which kind of error this is.
    pub fn error_kind(&self) -> (k: ErrorKind)
        ensures
            k == self.kind(),
    {
        match self {
            CalendarError::AuthenticationFailed(_) => ErrorKind::Authentication,
            CalendarError::ApiError(_) => ErrorKind::Api,
            CalendarError::ConfigError(_) => ErrorKind::Config,
            CalendarError::ParseError(_) => ErrorKind::Parse,
        }
    }
}

} // verus!
