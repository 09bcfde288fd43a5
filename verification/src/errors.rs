//! The error taxonomy shared by the store, the reconciler and the response
//! classifiers, together with its stable wire mappings.

use vstd::prelude::*;

verus! {

/// Every failure the library can report.
///
/// `HttpRequestError` stands for a transport-level failure of a provider
/// call; `GitHubAPIClientError` and `GITrelloAPIClientError` carry the
/// message of a rejection by the respective remote service.
#[derive(Debug)]
pub enum GITrelloError {
    HttpRequestError,
    GitHubAPIClientError { message: String },
    GITrelloAPIClientError { message: String },
    NotAuthenticated,
    AlreadyExists { message: String },
    NotFound { message: String },
    PermissionDenied,
    InternalError,
}

impl GITrelloError {
    /// The HTTP-equivalent status for this error: unauthorized,
    /// conflict, not-found, forbidden, or internal.
    pub open spec fn spec_status_code(&self) -> u16 {
        match self {
            GITrelloError::NotAuthenticated => 401u16,
            GITrelloError::AlreadyExists { .. } => 409u16,
            GITrelloError::NotFound { .. } => 404u16,
            GITrelloError::PermissionDenied => 403u16,
            _ => 500u16,
        }
    }

    /// The stable numeric code reported to API consumers.
    pub open spec fn spec_error_code(&self) -> i16 {
        match self {
            GITrelloError::HttpRequestError => 102i16,
            GITrelloError::GitHubAPIClientError { .. } => 103i16,
            GITrelloError::NotAuthenticated => 104i16,
            GITrelloError::InternalError => 105i16,
            GITrelloError::AlreadyExists { .. } => 106i16,
            GITrelloError::NotFound { .. } => 107i16,
            GITrelloError::GITrelloAPIClientError { .. } => 108i16,
            GITrelloError::PermissionDenied => 109i16,
        }
    }

    pub fn status_code(&self) -> (r: u16)
        ensures
            r == self.spec_status_code(),
    {
        match self {
            GITrelloError::NotAuthenticated => 401,
            GITrelloError::AlreadyExists { .. } => 409,
            GITrelloError::NotFound { .. } => 404,
            GITrelloError::PermissionDenied => 403,
            _ => 500,
        }
    }

    pub fn error_code(&self) -> (r: i16)
        ensures
            r == self.spec_error_code(),
    {
        match self {
            GITrelloError::HttpRequestError => 102,
            GITrelloError::GitHubAPIClientError { .. } => 103,
            GITrelloError::NotAuthenticated => 104,
            GITrelloError::InternalError => 105,
            GITrelloError::AlreadyExists { .. } => 106,
            GITrelloError::NotFound { .. } => 107,
            GITrelloError::GITrelloAPIClientError { .. } => 108,
            GITrelloError::PermissionDenied => 109,
        }
    }

    /// The human-readable text of the error, safe to show to a caller.
    pub fn message(&self) -> (r: String)
        ensures
            self matches GITrelloError::GitHubAPIClientError { message } ==> r@ == message@,
            self matches GITrelloError::GITrelloAPIClientError { message } ==> r@ == message@,
            self matches GITrelloError::AlreadyExists { message } ==> r@ == message@,
            self matches GITrelloError::NotFound { message } ==> r@ == message@,
            self is HttpRequestError ==> r@ == "HTTP request failed"@,
            self is NotAuthenticated ==> r@ == "Authentication required"@,
            self is PermissionDenied ==> r@ == "Permission denied"@,
            self is InternalError ==> r@ == "Internal Server Error"@,
    {
        match self {
            GITrelloError::HttpRequestError => "HTTP request failed".to_owned(),
            GITrelloError::GitHubAPIClientError { message } => message.clone(),
            GITrelloError::GITrelloAPIClientError { message } => message.clone(),
            GITrelloError::NotAuthenticated => "Authentication required".to_owned(),
            GITrelloError::AlreadyExists { message } => message.clone(),
            GITrelloError::NotFound { message } => message.clone(),
            GITrelloError::PermissionDenied => "Permission denied".to_owned(),
            GITrelloError::InternalError => "Internal Server Error".to_owned(),
        }
    }
}

} // verus!
