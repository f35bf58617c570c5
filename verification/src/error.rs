//! The error taxonomy of the service, and its mapping to HTTP status
//! codes. Parsing and validation errors carry enough detail to fix the
//! request; backend failures are mapped to a generic 500 at the HTTP
//! boundary, with the detail kept server-side.

use vstd::prelude::*;
use vstd::string::StringExecFns;

verus! {

#[derive(Debug, Clone)]
pub enum ApiError {
    /// A currency code that the current snapshot does not hold.
    CurrencyNotFound(String),
    /// No snapshot has ever been cached.
    NoRatesAvailable,
    /// Bad request input.
    ValidationError(String),
    /// The upstream feed could not be reached or answered a failure.
    FetchError(String),
    /// The upstream payload was malformed.
    ParseError(String),
    /// The cache backend failed.
    StoreError(String),
    /// Division by zero, or a value that left the decimal range.
    CalculationError(String),
    /// Anything else that should never reach a caller in detail.
    InternalError(String),
}

/// The HTTP status that each error kind is surfaced with.
pub open spec fn spec_status_code(e: ApiError) -> u16 {
    match e {
        ApiError::CurrencyNotFound(_) => 404,
        ApiError::NoRatesAvailable => 503,
        ApiError::ValidationError(_) => 400,
        ApiError::FetchError(_) => 500,
        ApiError::ParseError(_) => 500,
        ApiError::StoreError(_) => 500,
        ApiError::CalculationError(_) => 500,
        ApiError::InternalError(_) => 500,
    }
}

pub fn status_code_of(e: &ApiError) -> (c: u16)
    ensures
        c == spec_status_code(*e),
{
    match e {
        ApiError::CurrencyNotFound(_) => 404,
        ApiError::NoRatesAvailable => 503,
        ApiError::ValidationError(_) => 400,
        ApiError::FetchError(_) => 500,
        ApiError::ParseError(_) => 500,
        ApiError::StoreError(_) => 500,
        ApiError::CalculationError(_) => 500,
        ApiError::InternalError(_) => 500,
    }
}

/// The message a caller sees for each error kind: request-side errors
/// carry their detail so the request can be fixed; backend failures
/// are reduced to a generic line, their detail staying server-side.
pub fn client_message(e: &ApiError) -> (r: String)
    ensures
        e matches ApiError::CurrencyNotFound(c) ==> r@ == "Currency code '"@ + c@
            + "' not found in exchange rates"@,
        e matches ApiError::NoRatesAvailable ==> r@
            == "No exchange rates available. Please try again later."@,
        e matches ApiError::ValidationError(d) ==> r@ == "Invalid parameter: "@ + d@,
        e matches ApiError::FetchError(_) ==> r@ == "Failed to fetch exchange rates"@,
        e matches ApiError::ParseError(_) ==> r@ == "Failed to parse exchange rate data"@,
        e matches ApiError::StoreError(_) ==> r@ == "Database connection error"@,
        e matches ApiError::CalculationError(_) ==> r@ == "Internal server error"@,
        e matches ApiError::InternalError(_) ==> r@ == "Internal server error"@,
{
    match e {
        ApiError::CurrencyNotFound(c) => String::from_str("Currency code '").concat(
            c.as_str(),
        ).concat("' not found in exchange rates"),
        ApiError::NoRatesAvailable => String::from_str(
            "No exchange rates available. Please try again later.",
        ),
        ApiError::ValidationError(d) => String::from_str("Invalid parameter: ").concat(d.as_str()),
        ApiError::FetchError(_) => String::from_str("Failed to fetch exchange rates"),
        ApiError::ParseError(_) => String::from_str("Failed to parse exchange rate data"),
        ApiError::StoreError(_) => String::from_str("Database connection error"),
        ApiError::CalculationError(_) => String::from_str("Internal server error"),
        ApiError::InternalError(_) => String::from_str("Internal server error"),
    }
}

} // verus!
