//! The error type shared by every component.

use vstd::prelude::*;
use vstd::string::StringExecFns;

verus! {

/// What can go wrong, by category. Every variant carries a human-readable
/// message; callers decide by the variant alone.
#[derive(Debug, Clone, PartialEq, Eq)]
pub enum AppError {
    /// Filesystem or socket failure.
    Io(String),
    /// Filesystem or socket failure with a note on what was attempted.
    IoWithContext { context: String, source: String },
    /// A JSON payload that does not parse.
    JsonError(String),
    /// Base58 text that does not decode.
    Bs58Error(String),
    /// A payload that is not UTF-8.
    Utf8Error(String),
    /// A violation of the wire protocol or of the transcript format.
    ParseError(String),
    /// A connection-level failure: an unexpected packet, a disconnect.
    NetworkError(String),
    /// A persistence failure.
    DbError(String),
    /// The provider call failed, or there was nothing to send.
    AiServiceError(String),
    /// A model identifier that maps to no configured endpoint.
    ConfigError(String),
    /// The handshake or a signature check failed.
    AuthError(String),
}

impl AppError {
    /// The text shown to users and sent in `Error` frames.
    pub open spec fn display(self) -> Seq<char> {
        match self {
            AppError::Io(m) => "I/O Error: "@ + m@,
            AppError::IoWithContext { context, source } => "I/O Error: "@ + context@ + " ("@
                + source@ + ")"@,
            AppError::JsonError(m) => "JSON parsing error: "@ + m@,
            AppError::Bs58Error(m) => "Base58 decoding error: "@ + m@,
            AppError::Utf8Error(m) => "UTF-8 conversion error: "@ + m@,
            AppError::ParseError(m) => "Protocol parsing error: "@ + m@,
            AppError::NetworkError(m) => "Network error: "@ + m@,
            AppError::DbError(m) => "Database error: "@ + m@,
            AppError::AiServiceError(m) => "AI service error: "@ + m@,
            AppError::ConfigError(m) => "Configuration error: "@ + m@,
            AppError::AuthError(m) => "Authentication failed: "@ + m@,
        }
    }

    /// Renders the error as its display text.
    pub fn to_text(&self) -> (text: String)
        ensures
            text@ == self.display(),
    {
        match self {
            AppError::Io(m) => String::from_str("I/O Error: ").concat(m.as_str()),
            AppError::IoWithContext { context, source } => String::from_str("I/O Error: ").concat(
                context.as_str(),
            ).concat(" (").concat(source.as_str()).concat(")"),
            AppError::JsonError(m) => String::from_str("JSON parsing error: ").concat(m.as_str()),
            AppError::Bs58Error(m) => String::from_str("Base58 decoding error: ").concat(
                m.as_str(),
            ),
            AppError::Utf8Error(m) => String::from_str("UTF-8 conversion error: ").concat(
                m.as_str(),
            ),
            AppError::ParseError(m) => String::from_str("Protocol parsing error: ").concat(
                m.as_str(),
            ),
            AppError::NetworkError(m) => String::from_str("Network error: ").concat(m.as_str()),
            AppError::DbError(m) => String::from_str("Database error: ").concat(m.as_str()),
            AppError::AiServiceError(m) => String::from_str("AI service error: ").concat(
                m.as_str(),
            ),
            AppError::ConfigError(m) => String::from_str("Configuration error: ").concat(
                m.as_str(),
            ),
            AppError::AuthError(m) => String::from_str("Authentication failed: ").concat(
                m.as_str(),
            ),
        }
    }
}

} // verus!
