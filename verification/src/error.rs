//! Errors the services report.
use vstd::prelude::*;

verus! {

pub const NOT_FOUND_PREFIX: &'static str = "Not found: ";
pub const VALIDATION_PREFIX: &'static str = "Validation error: ";
pub const INTERNAL_PREFIX: &'static str = "Internal error: ";
pub const DATABASE_PREFIX: &'static str = "Database error: ";
pub const RATE_LIMITED_PREFIX: &'static str = "Rate limited: ";
pub const CONFIG_PREFIX: &'static str = "Configuration error: ";
pub const HTTP_PREFIX: &'static str = "HTTP error: ";

/// What went wrong, with a message for the user.
#[derive(Debug, Clone, PartialEq, Eq)]
pub enum AppError {
    /// A requested record does not exist.
    NotFound(String),
    /// The request or configuration is not acceptable.
    Validation(String),
    /// An operation failed inside the service.
    Internal(String),
    /// Stored data could not be read or written.
    Database(String),
    /// A limit on size or rate was reached.
    RateLimited(String),
    /// A setting the operation needs is missing or not supported.
    Config(String),
    /// A request to another service failed or was answered badly.
    Http(String),
}

impl AppError {
    /// The message carried by the error.
    pub open spec fn message(&self) -> Seq<char> {
        match self {
            AppError::NotFound(m) => m@,
            AppError::Validation(m) => m@,
            AppError::Internal(m) => m@,
            AppError::Database(m) => m@,
            AppError::RateLimited(m) => m@,
            AppError::Config(m) => m@,
            AppError::Http(m) => m@,
        }
    }

    /// How the error reads to a person: its kind, then its message.
    pub open spec fn description(&self) -> Seq<char> {
        match self {
            AppError::NotFound(m) => NOT_FOUND_PREFIX@ + m@,
            AppError::Validation(m) => VALIDATION_PREFIX@ + m@,
            AppError::Internal(m) => INTERNAL_PREFIX@ + m@,
            AppError::Database(m) => DATABASE_PREFIX@ + m@,
            AppError::RateLimited(m) => RATE_LIMITED_PREFIX@ + m@,
            AppError::Config(m) => CONFIG_PREFIX@ + m@,
            AppError::Http(m) => HTTP_PREFIX@ + m@,
        }
    }

    /// How the error reads to a person.
    pub fn describe(&self) -> (r: String)
        ensures
            r@ == self.description(),
    {
        let (prefix, m) = match self {
            AppError::NotFound(m) => (NOT_FOUND_PREFIX, m),
            AppError::Validation(m) => (VALIDATION_PREFIX, m),
            AppError::Internal(m) => (INTERNAL_PREFIX, m),
            AppError::Database(m) => (DATABASE_PREFIX, m),
            AppError::RateLimited(m) => (RATE_LIMITED_PREFIX, m),
            AppError::Config(m) => (CONFIG_PREFIX, m),
            AppError::Http(m) => (HTTP_PREFIX, m),
        };
        let mut s = crate::text::owned(prefix);
        crate::text::push_str(&mut s, m.as_str());
        s
    }

    /// The message carried by the error.
    pub fn message_text(&self) -> (r: String)
        ensures
            r@ == self.message(),
    {
        match self {
            AppError::NotFound(m) => m.clone(),
            AppError::Validation(m) => m.clone(),
            AppError::Internal(m) => m.clone(),
            AppError::Database(m) => m.clone(),
            AppError::RateLimited(m) => m.clone(),
            AppError::Config(m) => m.clone(),
            AppError::Http(m) => m.clone(),
        }
    }
}

} // verus!
