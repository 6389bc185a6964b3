//! The error taxonomy of the authorization server and its wire codes.
use vstd::prelude::*;

verus! {

/// Every failure of a grant, a flow step or an authentication.
#[derive(Clone, Copy, Debug, PartialEq, Eq, Structural)]
pub enum AppError {
    /// A parameter is missing or malformed.
    InvalidRequest,
    /// The client is unknown or failed its secret check.
    InvalidClient,
    /// A code or token is expired, redeemed, revoked or mismatched, or PKCE failed.
    InvalidGrant,
    /// A requested scope exceeds what the client or a prior grant allows.
    InvalidScope,
    UnsupportedGrantType,
    /// The bearer token is missing, invalid or revoked.
    Unauthorized,
    /// The token is valid but lacks the scope.
    Forbidden,
    NotFound,
    /// The entity exists already.
    Conflict,
    /// Signing, hashing or a store invariant failed.
    Internal,
}

pub type AppResult<T> = Result<T, AppError>;

impl AppError {
    /// The OAuth error code.
    pub fn code(&self) -> (r: &'static str)
        ensures
            r@ == error_code(*self),
    {
        match self {
            AppError::InvalidRequest => "invalid_request",
            AppError::InvalidClient => "invalid_client",
            AppError::InvalidGrant => "invalid_grant",
            AppError::InvalidScope => "invalid_scope",
            AppError::UnsupportedGrantType => "unsupported_grant_type",
            AppError::Unauthorized => "unauthorized",
            AppError::Forbidden => "forbidden",
            AppError::NotFound => "not_found",
            AppError::Conflict => "conflict",
            AppError::Internal => "server_error",
        }
    }

    /// The HTTP status that carries the error.
    pub fn status(&self) -> (r: u16)
        ensures
            r == error_status(*self),
    {
        match self {
            AppError::InvalidClient | AppError::Unauthorized => 401,
            AppError::Forbidden => 403,
            AppError::NotFound => 404,
            AppError::Conflict => 409,
            AppError::Internal => 500,
            _ => 400,
        }
    }
}

pub open spec fn error_code(e: AppError) -> Seq<char> {
    match e {
        AppError::InvalidRequest => "invalid_request"@,
        AppError::InvalidClient => "invalid_client"@,
        AppError::InvalidGrant => "invalid_grant"@,
        AppError::InvalidScope => "invalid_scope"@,
        AppError::UnsupportedGrantType => "unsupported_grant_type"@,
        AppError::Unauthorized => "unauthorized"@,
        AppError::Forbidden => "forbidden"@,
        AppError::NotFound => "not_found"@,
        AppError::Conflict => "conflict"@,
        AppError::Internal => "server_error"@,
    }
}

pub open spec fn error_status(e: AppError) -> u16 {
    match e {
        AppError::InvalidClient | AppError::Unauthorized => 401,
        AppError::Forbidden => 403,
        AppError::NotFound => 404,
        AppError::Conflict => 409,
        AppError::Internal => 500,
        _ => 400,
    }
}

} // verus!
