//! The library's error type.
use vstd::prelude::*;

use crate::text::{chars_of, concat, string_of};

verus! {

/// What went wrong, with a human-readable detail.
#[derive(Debug, Clone, PartialEq, Eq)]
pub enum AppError {
    ServerNotFound(String),
    AlreadyConnected(String),
    ConnectionFailed(String),
    Protocol(String),
    Transport(String),
    AuthRequired(String),
    OAuth(String),
    IntegrationNotFound(String),
    DependencyNotFound(String),
    Io(String),
    Json(String),
}

/// The fixed text that opens the message of each kind of error.
pub open spec fn error_prefix(e: AppError) -> Seq<char> {
    match e {
        AppError::ServerNotFound(_) => "Server not found: "@,
        AppError::AlreadyConnected(_) => "Server already connected: "@,
        AppError::ConnectionFailed(_) => "Connection failed: "@,
        AppError::Protocol(_) => "MCP protocol error: "@,
        AppError::Transport(_) => "Transport error: "@,
        AppError::AuthRequired(_) => "Authentication required: "@,
        AppError::OAuth(_) => "OAuth error: "@,
        AppError::IntegrationNotFound(_) => "Integration not found: "@,
        AppError::DependencyNotFound(_) => "Dependency not found: "@,
        AppError::Io(_) => "IO error: "@,
        AppError::Json(_) => "JSON error: "@,
    }
}

/// The detail that an error carries.
pub open spec fn error_detail(e: AppError) -> Seq<char> {
    match e {
        AppError::ServerNotFound(s) => s@,
        AppError::AlreadyConnected(s) => s@,
        AppError::ConnectionFailed(s) => s@,
        AppError::Protocol(s) => s@,
        AppError::Transport(s) => s@,
        AppError::AuthRequired(s) => s@,
        AppError::OAuth(s) => s@,
        AppError::IntegrationNotFound(s) => s@,
        AppError::DependencyNotFound(s) => s@,
        AppError::Io(s) => s@,
        AppError::Json(s) => s@,
    }
}

/// The message shown for an error: its kind's prefix, then its detail.
pub open spec fn error_text(e: AppError) -> Seq<char> {
    error_prefix(e) + error_detail(e)
}

impl AppError {
    /// The detail carried by this error.
    pub fn detail(&self) -> (r: &String)
        ensures
            r@ == error_detail(*self),
    {
        match self {
            AppError::ServerNotFound(s) => s,
            AppError::AlreadyConnected(s) => s,
            AppError::ConnectionFailed(s) => s,
            AppError::Protocol(s) => s,
            AppError::Transport(s) => s,
            AppError::AuthRequired(s) => s,
            AppError::OAuth(s) => s,
            AppError::IntegrationNotFound(s) => s,
            AppError::DependencyNotFound(s) => s,
            AppError::Io(s) => s,
            AppError::Json(s) => s,
        }
    }

    /// Whether this error asks for an OAuth authorization.
    pub fn is_auth_required(&self) -> (r: bool)
        ensures
            r == (*self is AuthRequired),
    {
        match self {
            AppError::AuthRequired(_) => true,
            _ => false,
        }
    }

    /// The message shown for this error.
    pub fn to_message(&self) -> (r: String)
        ensures
            r@ == error_text(*self),
    {
        let prefix = match self {
            AppError::ServerNotFound(_) => chars_of("Server not found: "),
            AppError::AlreadyConnected(_) => chars_of("Server already connected: "),
            AppError::ConnectionFailed(_) => chars_of("Connection failed: "),
            AppError::Protocol(_) => chars_of("MCP protocol error: "),
            AppError::Transport(_) => chars_of("Transport error: "),
            AppError::AuthRequired(_) => chars_of("Authentication required: "),
            AppError::OAuth(_) => chars_of("OAuth error: "),
            AppError::IntegrationNotFound(_) => chars_of("Integration not found: "),
            AppError::DependencyNotFound(_) => chars_of("Dependency not found: "),
            AppError::Io(_) => chars_of("IO error: "),
            AppError::Json(_) => chars_of("JSON error: "),
        };
        let detail = chars_of(self.detail().as_str());
        string_of(concat(&prefix, &detail).as_slice())
    }
}

} // verus!
