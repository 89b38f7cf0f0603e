//! The error taxonomy shared by every component.

use vstd::prelude::*;
use vstd::string::StringExecFns;

verus! {

/// The four classes of failure.
#[derive(Debug, Clone, Copy, PartialEq, Eq, Structural)]
pub enum ErrorKind {
    /// Missing or invalid process configuration.
    Config,
    /// A store operation failed.
    Db,
    /// Derivation, connection, estimation or conversion failure.
    Internal,
    /// Malformed address or a token address without contract code.
    BadRequest,
}

/// A failure together with the text that explains it.
#[derive(Debug, PartialEq, Eq)]
pub enum AppError {
    ConfigError(String),
    DbError(String),
    InternalError(String),
    BadRequest(String),
}

/// What an [`AppError`] holds: its class and its text.
pub struct AppErrorView {
    pub kind: ErrorKind,
    pub text: Seq<char>,
}

impl View for AppError {
    type V = AppErrorView;

    open spec fn view(&self) -> AppErrorView {
        match self {
            AppError::ConfigError(m) => AppErrorView { kind: ErrorKind::Config, text: m@ },
            AppError::DbError(m) => AppErrorView { kind: ErrorKind::Db, text: m@ },
            AppError::InternalError(m) => AppErrorView { kind: ErrorKind::Internal, text: m@ },
            AppError::BadRequest(m) => AppErrorView { kind: ErrorKind::BadRequest, text: m@ },
        }
    }
}

/// The view of a configuration error with the given text.
pub open spec fn config_error(text: Seq<char>) -> AppErrorView {
    AppErrorView { kind: ErrorKind::Config, text }
}

/// The view of a store error with the given text.
pub open spec fn db_error(text: Seq<char>) -> AppErrorView {
    AppErrorView { kind: ErrorKind::Db, text }
}

/// The view of an internal error with the given text.
pub open spec fn internal_error(text: Seq<char>) -> AppErrorView {
    AppErrorView { kind: ErrorKind::Internal, text }
}

/// The view of a bad-request error with the given text.
pub open spec fn bad_request(text: Seq<char>) -> AppErrorView {
    AppErrorView { kind: ErrorKind::BadRequest, text }
}

/// The heading under which each class of error is reported.
pub open spec fn kind_heading(kind: ErrorKind) -> Seq<char> {
    match kind {
        ErrorKind::Config => "Configuration error: "@,
        ErrorKind::Db => "Database error: "@,
        ErrorKind::Internal => "Internal error: "@,
        ErrorKind::BadRequest => "Bad request: "@,
    }
}

impl AppError {
    /// An internal error carrying `text`.
    pub fn internal(text: &str) -> (e: AppError)
        ensures
            e@ == internal_error(text@),
    {
        AppError::InternalError(String::from_str(text))
    }

    /// A bad-request error carrying `text`.
    pub fn bad_request(text: &str) -> (e: AppError)
        ensures
            e@ == bad_request(text@),
    {
        AppError::BadRequest(String::from_str(text))
    }

    /// A configuration error carrying `text`.
    pub fn config(text: &str) -> (e: AppError)
        ensures
            e@ == config_error(text@),
    {
        AppError::ConfigError(String::from_str(text))
    }

    /// A store error carrying `text`.
    pub fn db(text: &str) -> (e: AppError)
        ensures
            e@ == db_error(text@),
    {
        AppError::DbError(String::from_str(text))
    }

    /// The class of this error.
    pub fn kind(&self) -> (k: ErrorKind)
        ensures
            k == self@.kind,
    {
        match self {
            AppError::ConfigError(_) => ErrorKind::Config,
            AppError::DbError(_) => ErrorKind::Db,
            AppError::InternalError(_) => ErrorKind::Internal,
            AppError::BadRequest(_) => ErrorKind::BadRequest,
        }
    }

    /// The text of this error, without its heading.
    pub fn text(&self) -> (t: &str)
        ensures
            t@ == self@.text,
    {
        match self {
            AppError::ConfigError(m) => m.as_str(),
            AppError::DbError(m) => m.as_str(),
            AppError::InternalError(m) => m.as_str(),
            AppError::BadRequest(m) => m.as_str(),
        }
    }

    /// The line shown to an operator: the heading of the class, then the text.
    pub fn message(&self) -> (m: String)
        ensures
            m@ == kind_heading(self@.kind) + self@.text,
    {
        let heading = match self {
            AppError::ConfigError(_) => "Configuration error: ",
            AppError::DbError(_) => "Database error: ",
            AppError::InternalError(_) => "Internal error: ",
            AppError::BadRequest(_) => "Bad request: ",
        };
        String::from_str(heading).concat(self.text())
    }

    /// A copy of this error.
    pub fn duplicate(&self) -> (e: AppError)
        ensures
            e@ == self@,
    {
        match self {
            AppError::ConfigError(m) => AppError::ConfigError(m.clone()),
            AppError::DbError(m) => AppError::DbError(m.clone()),
            AppError::InternalError(m) => AppError::InternalError(m.clone()),
            AppError::BadRequest(m) => AppError::BadRequest(m.clone()),
        }
    }
}

} // verus!
