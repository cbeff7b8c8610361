use vstd::prelude::*;

verus! {

/// The failures that the library's operations report.
#[derive(Debug, Clone, PartialEq, Eq)]
pub enum ApiError {
    StartupError(String),
    /// Storage unavailable or a query was rejected.
    DatabaseError(String),
    /// No durable credential exists for the requested identity.
    NoCredential(String),
    /// An upstream record lacks a field that its identity is made of.
    ConversionError(String),
    /// A calendar computation became ill-defined.
    InternalConversionError(String),
    /// The upstream service was unreachable, refused the request, or sent
    /// a record that cannot be used.
    ExternalAPIError(String),
    /// The caller failed the shared-secret check.
    Unauthorized(String),
    /// A request parameter could not be read.
    BadRequest(String),
}

} // verus!
