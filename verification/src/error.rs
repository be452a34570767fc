//! The error taxonomy of the library.

use vstd::prelude::*;

verus! {

/// Every failure the library can report.
///
/// Construction errors (`InvalidUrl`, `InvalidCredential`) surface before a
/// client exists; builder configuration errors (`InvalidRange`) surface at
/// the call that introduced them; the remaining variants describe the
/// outcome of an executed request. `NetworkError` and `Cancelled` are
/// reported by the transport layer around this library, never by the
/// rendering and interpretation functions here.
#[derive(Debug)]
pub enum ClientError {
    /// The base URL did not parse as an absolute http/https URL with a host.
    InvalidUrl,
    /// The API key was empty.
    InvalidCredential,
    /// `range(from, to)` was called with `from > to`.
    InvalidRange,
    /// The server rejected the request with a non-2xx status.
    RequestError { status: u16, body: String },
    /// Transport-level failure (DNS, TLS, timeout); safe to retry reads.
    NetworkError,
    /// The response body did not have the expected shape.
    DecodeError,
    /// A single-row request matched no row.
    NotFound,
    /// A single-row request matched more than one row.
    MultipleRowsError,
    /// The caller cancelled the request before a response arrived.
    Cancelled,
}

impl ClientError {
    /// The name of the variant, as contracts state it.
    pub open spec fn kind_spec(self) -> Seq<char> {
        match self {
            ClientError::InvalidUrl => "InvalidUrl"@,
            ClientError::InvalidCredential => "InvalidCredential"@,
            ClientError::InvalidRange => "InvalidRange"@,
            ClientError::RequestError { .. } => "RequestError"@,
            ClientError::NetworkError => "NetworkError"@,
            ClientError::DecodeError => "DecodeError"@,
            ClientError::NotFound => "NotFound"@,
            ClientError::MultipleRowsError => "MultipleRowsError"@,
            ClientError::Cancelled => "Cancelled"@,
        }
    }

    /// The name of the variant, for diagnostics.
    pub fn kind(&self) -> (r: &'static str)
        ensures
            r@ == self.kind_spec(),
    {
        match self {
            ClientError::InvalidUrl => "InvalidUrl",
            ClientError::InvalidCredential => "InvalidCredential",
            ClientError::InvalidRange => "InvalidRange",
            ClientError::RequestError { .. } => "RequestError",
            ClientError::NetworkError => "NetworkError",
            ClientError::DecodeError => "DecodeError",
            ClientError::NotFound => "NotFound",
            ClientError::MultipleRowsError => "MultipleRowsError",
            ClientError::Cancelled => "Cancelled",
        }
    }
}

} // verus!
