//! The errors that a request is answered with.
use vstd::prelude::*;

verus! {

/// A JSON-RPC error: its code and its message.
#[derive(Clone, Debug, PartialEq, Eq)]
pub struct Error {
    pub code: i64,
    pub message: String,
}

/// What an `Error` is.
#[verifier::ext_equal]
pub struct ErrorView {
    pub code: i64,
    pub message: Seq<char>,
}

impl View for Error {
    type V = ErrorView;

    open spec fn view(&self) -> ErrorView {
        ErrorView { code: self.code, message: self.message@ }
    }
}

/// The JSON-RPC code of an internal error.
pub const INTERNAL_ERROR: i64 = -32603;

/// The JSON-RPC code of an invalid request.
pub const INVALID_REQUEST: i64 = -32600;

/// The error for a request that cannot be right.
pub open spec fn invalid_request_view() -> ErrorView {
    ErrorView { code: INVALID_REQUEST, message: "Invalid request"@ }
}

/// The error for a request that could not be served.
pub open spec fn internal_error_view() -> ErrorView {
    ErrorView { code: INTERNAL_ERROR, message: "Internal error"@ }
}

/// The error for a request that needs a bank where there is none.
pub open spec fn no_bank_view() -> ErrorView {
    ErrorView { code: INTERNAL_ERROR, message: "No bank available"@ }
}

/// The error for a request that needs a leader where none is known.
pub open spec fn no_leader_view() -> ErrorView {
    ErrorView { code: INTERNAL_ERROR, message: "No leader detected"@ }
}

/// Whether `r` is the error `e`.
pub open spec fn fails_with<T>(r: Result<T, Error>, e: ErrorView) -> bool {
    r matches Err(x) && x@ == e
}

impl Error {
    /// `jsonrpc_core::Error::invalid_request`: its code is -32600 and its message
    /// "Invalid request".
    #[verifier::external_body]
    pub(crate) fn invalid_request() -> (r: Error)
        ensures
            r@ == invalid_request_view(),
    {
        let e = jsonrpc_core::Error::invalid_request();
        Error { code: e.code.code(), message: e.message }
    }

    /// `jsonrpc_core::Error::internal_error`: its code is -32603 and its message
    /// "Internal error".
    #[verifier::external_body]
    pub(crate) fn internal_error() -> (r: Error)
        ensures
            r@ == internal_error_view(),
    {
        let e = jsonrpc_core::Error::internal_error();
        Error { code: e.code.code(), message: e.message }
    }

    pub(crate) fn no_bank() -> (r: Error)
        ensures
            r@ == no_bank_view(),
    {
        Error { code: INTERNAL_ERROR, message: "No bank available".to_string() }
    }

    pub(crate) fn no_leader() -> (r: Error)
        ensures
            r@ == no_leader_view(),
    {
        Error { code: INTERNAL_ERROR, message: "No leader detected".to_string() }
    }
}

} // verus!
