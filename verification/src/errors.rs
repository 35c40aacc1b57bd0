//! Error taxonomy of the library: data-level validation failures, not-found
//! conditions, and internal invariant violations are distinct kinds, each
//! carrying a human-readable message.

use vstd::prelude::*;

verus! {

use crate::model::Metadata;

/// Message and optional structured details attached to an error.
pub struct ErrorDetails {
    pub message: String,
    pub details: Vec<Metadata>,
}

impl ErrorDetails {
    /// An empty message with no details.
    pub fn empty() -> (r: ErrorDetails)
        ensures
            r.message@ == Seq::<char>::empty(),
            r.details@.len() == 0,
    {
        ErrorDetails { message: String::new(), details: Vec::new() }
    }
}

impl Clone for ErrorDetails {
    fn clone(&self) -> (r: ErrorDetails) {
        ErrorDetails {
            message: self.message.clone(),
            details: crate::model::clone_metadatas(&self.details),
        }
    }
}

/// The error kinds an operation can surface.
pub enum ApiError {
    NotFound { details: ErrorDetails },
    Unauthorized { details: ErrorDetails },
    InvalidInput { details: ErrorDetails },
    InternalError { details: ErrorDetails },
    AlreadyExists { details: ErrorDetails },
    MalformedData { details: ErrorDetails },
    ExternalApiError { details: ErrorDetails },
}

/// The message carried by an error, whatever its kind.
pub open spec fn error_message(e: ApiError) -> Seq<char> {
    match e {
        ApiError::NotFound { details } => details.message@,
        ApiError::Unauthorized { details } => details.message@,
        ApiError::InvalidInput { details } => details.message@,
        ApiError::InternalError { details } => details.message@,
        ApiError::AlreadyExists { details } => details.message@,
        ApiError::MalformedData { details } => details.message@,
        ApiError::ExternalApiError { details } => details.message@,
    }
}

/// Whether an error carries no structured details beyond its message.
pub open spec fn error_details_empty(e: ApiError) -> bool {
    match e {
        ApiError::NotFound { details } => details.details@.len() == 0,
        ApiError::Unauthorized { details } => details.details@.len() == 0,
        ApiError::InvalidInput { details } => details.details@.len() == 0,
        ApiError::InternalError { details } => details.details@.len() == 0,
        ApiError::AlreadyExists { details } => details.details@.len() == 0,
        ApiError::MalformedData { details } => details.details@.len() == 0,
        ApiError::ExternalApiError { details } => details.details@.len() == 0,
    }
}

impl ApiError {
    /// A not-found error with the given message.
    pub fn not_found(message: &str) -> (r: ApiError)
        ensures
            r is NotFound,
            error_message(r) == message@,
            error_details_empty(r),
    {
        ApiError::NotFound {
            details: ErrorDetails { message: message.to_owned(), details: Vec::new() },
        }
    }

    /// An unauthorized error with the given message.
    pub fn unauthorized(message: &str) -> (r: ApiError)
        ensures
            r is Unauthorized,
            error_message(r) == message@,
            error_details_empty(r),
    {
        ApiError::Unauthorized {
            details: ErrorDetails { message: message.to_owned(), details: Vec::new() },
        }
    }

    /// An invalid-input error with the given message.
    pub fn invalid_input(message: &str) -> (r: ApiError)
        ensures
            r is InvalidInput,
            error_message(r) == message@,
            error_details_empty(r),
    {
        ApiError::InvalidInput {
            details: ErrorDetails { message: message.to_owned(), details: Vec::new() },
        }
    }

    /// An internal error with the given message.
    pub fn internal_error(message: &str) -> (r: ApiError)
        ensures
            r is InternalError,
            error_message(r) == message@,
            error_details_empty(r),
    {
        ApiError::InternalError {
            details: ErrorDetails { message: message.to_owned(), details: Vec::new() },
        }
    }

    /// An already-exists error with the given message.
    pub fn already_exists(message: &str) -> (r: ApiError)
        ensures
            r is AlreadyExists,
            error_message(r) == message@,
            error_details_empty(r),
    {
        ApiError::AlreadyExists {
            details: ErrorDetails { message: message.to_owned(), details: Vec::new() },
        }
    }

    /// A malformed-data error with the given message.
    pub fn malformed_data(message: &str) -> (r: ApiError)
        ensures
            r is MalformedData,
            error_message(r) == message@,
            error_details_empty(r),
    {
        ApiError::MalformedData {
            details: ErrorDetails { message: message.to_owned(), details: Vec::new() },
        }
    }

    /// An external-API error with the given message.
    pub fn external_api_error(message: &str) -> (r: ApiError)
        ensures
            r is ExternalApiError,
            error_message(r) == message@,
            error_details_empty(r),
    {
        ApiError::ExternalApiError {
            details: ErrorDetails { message: message.to_owned(), details: Vec::new() },
        }
    }
}

impl Clone for ApiError {
    fn clone(&self) -> (r: ApiError) {
        match self {
            ApiError::NotFound { details } => ApiError::NotFound { details: details.clone() },
            ApiError::Unauthorized { details } => ApiError::Unauthorized {
                details: details.clone(),
            },
            ApiError::InvalidInput { details } => ApiError::InvalidInput {
                details: details.clone(),
            },
            ApiError::InternalError { details } => ApiError::InternalError {
                details: details.clone(),
            },
            ApiError::AlreadyExists { details } => ApiError::AlreadyExists {
                details: details.clone(),
            },
            ApiError::MalformedData { details } => ApiError::MalformedData {
                details: details.clone(),
            },
            ApiError::ExternalApiError { details } => ApiError::ExternalApiError {
                details: details.clone(),
            },
        }
    }
}

} // verus!
