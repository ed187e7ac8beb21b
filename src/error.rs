use vstd::prelude::*;

verus! {

/// What can go wrong while proxying a call.
#[derive(Debug, Clone, Copy, PartialEq, Eq, Structural)]
pub enum Error {
    /// The upstream reflection service listed no services.
    NoServices,
    /// A reflection stream closed, or a reply carried no message.
    NoResponse,
    /// The HTTP request is not a gRPC-Web call this proxy can forward.
    InvalidRequest,
    /// The request path does not have the shape `/<service>/<method>`.
    InvalidQuery,
    /// The path names a service that reflection did not report.
    UnknownService,
    /// The path names a method that the service does not have.
    UnknownMethod,
    /// The request body is not valid base64.
    Base64Decode,
    /// A file descriptor from the reflection service could not be decoded.
    ProstDecode,
    /// A frame payload does not fit the 32-bit length field.
    Overflow,
    /// The upstream could not be reached.
    Transport,
}

impl Error {
    /// The HTTP status code that reports this error to the client.
    pub fn http_status(&self) -> (r: u16)
        ensures
            r == error_http_status(*self),
    {
        match self {
            Error::InvalidRequest | Error::InvalidQuery | Error::Base64Decode => 400,
            Error::UnknownService | Error::UnknownMethod => 404,
            Error::Transport | Error::NoResponse => 502,
            Error::NoServices | Error::ProstDecode | Error::Overflow => 500,
        }
    }
}

/// Client errors are 400, unknown targets 404, upstream failures 502, and
/// everything else 500.
pub open spec fn error_http_status(e: Error) -> u16 {
    match e {
        Error::InvalidRequest | Error::InvalidQuery | Error::Base64Decode => 400,
        Error::UnknownService | Error::UnknownMethod => 404,
        Error::Transport | Error::NoResponse => 502,
        Error::NoServices | Error::ProstDecode | Error::Overflow => 500,
    }
}

} // verus!
