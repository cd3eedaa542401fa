//! What can go wrong in answering a request, and how it is reported.

use vstd::prelude::*;
use crate::model::LedgerError;
use crate::validation::ValidationError;

verus! {

/// Why a token was not accepted.
#[derive(Clone, Copy, Debug, PartialEq, Eq, Structural)]
pub enum TokenError {
    /// The token is past its expiry time.
    Expired,
    /// The token could not be made or read.
    Invalid,
}

/// Why a request was not answered as asked.
#[derive(Clone, Copy, Debug, PartialEq, Eq, Structural)]
pub enum AppError {
    /// The credentials do not match.
    Unauthorized,
    /// The request breaks a rule on one of its fields.
    Invalid(ValidationError),
    /// The ledger refused, or the store failed.
    Store(LedgerError),
    /// Something else failed inside the service.
    Internal,
    /// The token was not accepted.
    Token(TokenError),
}

pub type AppResult<T> = Result<T, AppError>;

/// Status of a request that was answered as asked.
pub const STATUS_OK: u16 = 200;

/// Status of a request that created something.
pub const STATUS_CREATED: u16 = 201;

/// Status of a request that breaks a rule on its form.
pub const STATUS_BAD_REQUEST: u16 = 400;

/// Status of a request whose credentials do not match.
pub const STATUS_UNAUTHORIZED: u16 = 401;

/// Status of a transfer that the sender's balance does not cover.
pub const STATUS_PAYMENT_REQUIRED: u16 = 402;

/// Status of a request for something that is not the requester's to see.
pub const STATUS_FORBIDDEN: u16 = 403;

/// Status of a request for something that does not exist.
pub const STATUS_NOT_FOUND: u16 = 404;

/// Status of a request for a name that is taken.
pub const STATUS_CONFLICT: u16 = 409;

/// Status of a request that failed inside the service.
pub const STATUS_INTERNAL_SERVER_ERROR: u16 = 500;

/// The status under which a refusal of the ledger is reported.
pub open spec fn ledger_status(e: LedgerError) -> u16 {
    match e {
        LedgerError::NotFound => STATUS_NOT_FOUND,
        LedgerError::InvalidAmount => STATUS_BAD_REQUEST,
        LedgerError::SameAccount => STATUS_BAD_REQUEST,
        LedgerError::Forbidden => STATUS_FORBIDDEN,
        LedgerError::Fault => STATUS_INTERNAL_SERVER_ERROR,
    }
}

/// The status under which an error is reported.
pub open spec fn status_of(e: AppError) -> u16 {
    match e {
        AppError::Unauthorized => STATUS_UNAUTHORIZED,
        AppError::Invalid(_) => STATUS_BAD_REQUEST,
        AppError::Store(e) => ledger_status(e),
        AppError::Internal => STATUS_INTERNAL_SERVER_ERROR,
        AppError::Token(_) => STATUS_INTERNAL_SERVER_ERROR,
    }
}

/// The status under which the result of a transfer is reported: a transfer
/// that the balance does not cover is no error, and has a status of its own.
pub open spec fn transfer_status_of(result: Result<bool, AppError>) -> u16 {
    match result {
        Ok(true) => STATUS_OK,
        Ok(false) => STATUS_PAYMENT_REQUIRED,
        Err(e) => status_of(e),
    }
}

impl AppError {
    /// The status under which this error is reported.
    pub fn status(&self) -> (code: u16)
        ensures
            code == status_of(*self),
    {
        match self {
            AppError::Unauthorized => STATUS_UNAUTHORIZED,
            AppError::Invalid(_) => STATUS_BAD_REQUEST,
            AppError::Store(LedgerError::NotFound) => STATUS_NOT_FOUND,
            AppError::Store(LedgerError::InvalidAmount) => STATUS_BAD_REQUEST,
            AppError::Store(LedgerError::SameAccount) => STATUS_BAD_REQUEST,
            AppError::Store(LedgerError::Forbidden) => STATUS_FORBIDDEN,
            AppError::Store(LedgerError::Fault) => STATUS_INTERNAL_SERVER_ERROR,
            AppError::Internal => STATUS_INTERNAL_SERVER_ERROR,
            AppError::Token(_) => STATUS_INTERNAL_SERVER_ERROR,
        }
    }
}

/// The status under which the result of a transfer is reported.
pub fn transfer_status(result: &Result<bool, AppError>) -> (code: u16)
    ensures
        code == transfer_status_of(*result),
{
    match result {
        Ok(true) => STATUS_OK,
        Ok(false) => STATUS_PAYMENT_REQUIRED,
        Err(e) => e.status(),
    }
}

} // verus!
