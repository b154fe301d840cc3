//! The error type of the request descriptors.
use vstd::prelude::*;

verus! {

/// Why a descriptor could not be built or a response could not be read.
#[derive(Debug)]
pub enum Error {
    EmptyArgument(&'static str),
    EmptyBaseUrl,
    EmptyCookieHeader,
    EmptyHeaderName,
    EmptyReferenceValue,
    EmptyUrl,
    InvalidCookieHeader,
    InvalidHeaderName,
    InvalidHeaderValue,
    UnexpectedResponse(&'static str),
    ZeroLimit,
}

/// The message of each error that does not come from `serde_json`.
pub open spec fn spec_message(e: Error) -> Seq<char> {
    match e {
        Error::EmptyArgument(name) => name@ + " must not be empty"@,
        Error::EmptyBaseUrl => "base url must not be empty"@,
        Error::EmptyCookieHeader => "cookie header must not be empty"@,
        Error::EmptyHeaderName => "header name must not be empty"@,
        Error::EmptyReferenceValue => "reference value must not be empty"@,
        Error::EmptyUrl => "url must not be empty"@,
        Error::InvalidCookieHeader => "cookie header must be a single header value"@,
        Error::InvalidHeaderName => "header name must not contain CR or LF"@,
        Error::InvalidHeaderValue => "header value must not contain CR or LF"@,
        Error::UnexpectedResponse(message) => "unexpected Element response: "@ + message@,
        Error::ZeroLimit => "dynamic list limit must be greater than zero"@,
    }
}

/// A result with its success value taken by its view.
pub open spec fn viewed<T: View>(r: Result<T, Error>) -> Result<T::V, Error> {
    match r {
        Ok(t) => Ok(t@),
        Err(e) => Err(e),
    }
}

impl Error {
    /// The error's message, as its `Display` output reads.
    pub fn message(&self) -> (r: String)
        ensures
            r@ == spec_message(*self),
    {
        match self {
            Error::EmptyArgument(name) => String::from_str(*name).concat(" must not be empty"),
            Error::EmptyBaseUrl => String::from_str("base url must not be empty"),
            Error::EmptyCookieHeader => String::from_str("cookie header must not be empty"),
            Error::EmptyHeaderName => String::from_str("header name must not be empty"),
            Error::EmptyReferenceValue => String::from_str("reference value must not be empty"),
            Error::EmptyUrl => String::from_str("url must not be empty"),
            Error::InvalidCookieHeader => String::from_str(
                "cookie header must be a single header value",
            ),
            Error::InvalidHeaderName => String::from_str("header name must not contain CR or LF"),
            Error::InvalidHeaderValue => String::from_str("header value must not contain CR or LF"),
            Error::UnexpectedResponse(message) => String::from_str(
                "unexpected Element response: ",
            ).concat(*message),
            Error::ZeroLimit => String::from_str("dynamic list limit must be greater than zero"),
        }
    }
}

} // verus!
