//! Result codes of binary-port requests.
use vstd::prelude::*;

verus! {

/// The error code indicating the result of handling a binary request.
#[derive(Debug, Clone, Copy, PartialEq, Eq, Structural)]
pub enum ErrorCode {
    /// Request executed correctly.
    NoError,
    /// This function is disabled.
    FunctionDisabled,
    /// Data not found.
    NotFound,
    /// Root not found.
    RootNotFound,
    /// Invalid item variant.
    InvalidItemVariant,
    /// Wasm preprocessing.
    WasmPreprocessing,
    /// Internal error.
    InternalError,
    /// The query failed.
    FailedQuery,
    /// Bad request.
    BadRequest,
    /// Received an unsupported type of request.
    UnsupportedRequest,
}

/// The number that stands for each code on the wire.
pub open spec fn error_code_value(e: ErrorCode) -> u16 {
    match e {
        ErrorCode::NoError => 0,
        ErrorCode::FunctionDisabled => 1,
        ErrorCode::NotFound => 2,
        ErrorCode::RootNotFound => 3,
        ErrorCode::InvalidItemVariant => 4,
        ErrorCode::WasmPreprocessing => 5,
        ErrorCode::InternalError => 6,
        ErrorCode::FailedQuery => 7,
        ErrorCode::BadRequest => 8,
        ErrorCode::UnsupportedRequest => 9,
    }
}

impl ErrorCode {
    /// Returns the number that stands for this code on the wire.
    pub fn value(self) -> (v: u16)
        ensures
            v == error_code_value(self),
    {
        match self {
            ErrorCode::NoError => 0,
            ErrorCode::FunctionDisabled => 1,
            ErrorCode::NotFound => 2,
            ErrorCode::RootNotFound => 3,
            ErrorCode::InvalidItemVariant => 4,
            ErrorCode::WasmPreprocessing => 5,
            ErrorCode::InternalError => 6,
            ErrorCode::FailedQuery => 7,
            ErrorCode::BadRequest => 8,
            ErrorCode::UnsupportedRequest => 9,
        }
    }
}

/// Distinct codes have distinct numbers.
pub proof fn lemma_error_code_value_injective(a: ErrorCode, b: ErrorCode)
    ensures
        error_code_value(a) == error_code_value(b) <==> a == b,
{
}

} // verus!
