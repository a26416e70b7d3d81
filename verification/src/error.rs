//! The unified error taxonomy: one variant per failure kind across
//! validation, transport, envelope decoding and result decoding.

use vstd::prelude::*;

verus! {

/// The mathematical model of an [`Error`], with string payloads as character
/// sequences.
pub enum ErrorSpec {
    /// A structurally empty matcher set where one is required.
    InvalidSelector,
    /// A malformed duration string, with the rule it broke.
    InvalidDuration { reason: Seq<char> },
    /// An argument outside an operation's domain, e.g. zero selectors where
    /// at least one is required, or an aggregation over a non-vector.
    InvalidFunctionArgument { message: Seq<char> },
    /// A non-2xx HTTP status, surfaced before envelope decoding.
    TransportError { status: u16 },
    /// The envelope or result JSON lacks an expected key.
    MissingField,
    /// The envelope `status` value is outside the recognized set.
    UnknownStatus { raw: Seq<char> },
    /// The server reported `status=error`; kind and message are verbatim.
    ApiError { kind: Seq<char>, message: Seq<char> },
    /// The `resultType` tag is outside the recognized set.
    UnsupportedResultType { raw: Seq<char> },
    /// A JSON shape mismatch within a recognized structure.
    DecodeError,
}

/// Why an operation failed: validation, transport, envelope or decode.
///
/// Each variant carries only the data needed for diagnostics.
#[derive(Debug, Clone)]
pub enum Error {
    /// A structurally empty matcher set where one is required.
    InvalidSelector,
    /// A malformed duration string, with the rule it broke.
    InvalidDuration { reason: String },
    /// An argument outside an operation's domain, e.g. zero selectors where
    /// at least one is required, or an aggregation over a non-vector.
    InvalidFunctionArgument { message: String },
    /// A non-2xx HTTP status, surfaced before envelope decoding.
    TransportError { status: u16 },
    /// The envelope or result JSON lacks an expected key.
    MissingField,
    /// The envelope `status` value is outside the recognized set.
    UnknownStatus { raw: String },
    /// The server reported `status=error`; kind and message are verbatim.
    ApiError { kind: String, message: String },
    /// The `resultType` tag is outside the recognized set.
    UnsupportedResultType { raw: String },
    /// A JSON shape mismatch within a recognized structure.
    DecodeError,
}

impl View for Error {
    type V = ErrorSpec;

    open spec fn view(&self) -> ErrorSpec {
        match self {
            Error::InvalidSelector => ErrorSpec::InvalidSelector,
            Error::InvalidDuration { reason } => ErrorSpec::InvalidDuration { reason: reason@ },
            Error::InvalidFunctionArgument { message } => ErrorSpec::InvalidFunctionArgument {
                message: message@,
            },
            Error::TransportError { status } => ErrorSpec::TransportError { status: *status },
            Error::MissingField => ErrorSpec::MissingField,
            Error::UnknownStatus { raw } => ErrorSpec::UnknownStatus { raw: raw@ },
            Error::ApiError { kind, message } => ErrorSpec::ApiError {
                kind: kind@,
                message: message@,
            },
            Error::UnsupportedResultType { raw } => ErrorSpec::UnsupportedResultType { raw: raw@ },
            Error::DecodeError => ErrorSpec::DecodeError,
        }
    }
}

impl Error {
    /// A short, stable name for the error's kind, for diagnostics.
    pub fn kind_name(&self) -> (s: &'static str)
        ensures
            s@ == kind_name_spec(self@),
    {
        match self {
            Error::InvalidSelector => "invalid selector",
            Error::InvalidDuration { .. } => "invalid duration",
            Error::InvalidFunctionArgument { .. } => "invalid function argument",
            Error::TransportError { .. } => "transport error",
            Error::MissingField => "missing field",
            Error::UnknownStatus { .. } => "unknown response status",
            Error::ApiError { .. } => "api error",
            Error::UnsupportedResultType { .. } => "unsupported query result type",
            Error::DecodeError => "decode error",
        }
    }
}

/// The kind name each error variant reports.
pub open spec fn kind_name_spec(e: ErrorSpec) -> Seq<char> {
    match e {
        ErrorSpec::InvalidSelector => "invalid selector"@,
        ErrorSpec::InvalidDuration { .. } => "invalid duration"@,
        ErrorSpec::InvalidFunctionArgument { .. } => "invalid function argument"@,
        ErrorSpec::TransportError { .. } => "transport error"@,
        ErrorSpec::MissingField => "missing field"@,
        ErrorSpec::UnknownStatus { .. } => "unknown response status"@,
        ErrorSpec::ApiError { .. } => "api error"@,
        ErrorSpec::UnsupportedResultType { .. } => "unsupported query result type"@,
        ErrorSpec::DecodeError => "decode error"@,
    }
}

} // verus!
