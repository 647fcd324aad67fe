//! What can go wrong while a connection is served.

use vstd::prelude::*;

verus! {

/// The failures of the server engine.
#[derive(Clone, Copy, Debug, PartialEq, Eq, Structural)]
pub enum HttpError {
    /// The header grew past `max_header_size` before its end was seen.
    HeaderTooLarge,
    /// Too many reads of the header came back short.
    HeaderReadFailedTooOften,
    /// The header is not valid UTF-8.
    InvalidEncoding,
    /// The `content-length` header is not an unsigned number.
    BadContentLength,
    /// The declared body length is above `max_body_size`.
    BodyTooLarge,
    /// Too many reads of the body came back short.
    BodyReadFailedTooOften,
    /// The stream failed in the middle of a read.
    StreamBroken,
    /// A form body is not valid UTF-8.
    InvalidFormEncoding,
    /// A form parameter without a key. Splitting a segment always yields a
    /// key, if an empty one, so the parsers of this crate never report it.
    MalformedParameter,
    /// A multipart body without a `boundary=` attribute in its content type.
    MissingBoundary,
    /// A multipart section without a `name="..."` attribute.
    MissingFieldName,
    /// A multipart section without a data part.
    MalformedSection,
    /// The certificate could not be read.
    BrokenCertificate,
    /// The private key could not be read.
    BrokenPrivateKey,
    /// The TLS session could not be set up on a connection.
    HandshakeFailed,
    /// A worker ended abnormally.
    WorkerCrashed,
}

impl HttpError {
    /// The message of each failure.
    pub open spec fn text(self) -> Seq<char> {
        match self {
            HttpError::HeaderTooLarge => "Max header size exceeded"@,
            HttpError::HeaderReadFailedTooOften => "Read header failed too often"@,
            HttpError::InvalidEncoding => "Header is not valid UTF-8"@,
            HttpError::BadContentLength => "Content-Length is not of type usize"@,
            HttpError::BodyTooLarge => "Max body size exceeded"@,
            HttpError::BodyReadFailedTooOften => "Read body failed too often"@,
            HttpError::StreamBroken => "Stream broken"@,
            HttpError::InvalidFormEncoding => "Form body is not valid UTF-8"@,
            HttpError::MalformedParameter => "broken x-www-form-urlencoded parameters"@,
            HttpError::MissingBoundary => "post upload, but no boundary"@,
            HttpError::MissingFieldName => "missing name in post body section"@,
            HttpError::MalformedSection => "broken section in post body"@,
            HttpError::BrokenCertificate => "broken certificate"@,
            HttpError::BrokenPrivateKey => "broken private key"@,
            HttpError::HandshakeFailed => "could not initialize server connection"@,
            HttpError::WorkerCrashed => "listener thread crashed"@,
        }
    }

    /// The message of this failure.
    pub fn message(&self) -> (r: &'static str)
        ensures
            r@ == self.text(),
    {
        match self {
            HttpError::HeaderTooLarge => "Max header size exceeded",
            HttpError::HeaderReadFailedTooOften => "Read header failed too often",
            HttpError::InvalidEncoding => "Header is not valid UTF-8",
            HttpError::BadContentLength => "Content-Length is not of type usize",
            HttpError::BodyTooLarge => "Max body size exceeded",
            HttpError::BodyReadFailedTooOften => "Read body failed too often",
            HttpError::StreamBroken => "Stream broken",
            HttpError::InvalidFormEncoding => "Form body is not valid UTF-8",
            HttpError::MalformedParameter => "broken x-www-form-urlencoded parameters",
            HttpError::MissingBoundary => "post upload, but no boundary",
            HttpError::MissingFieldName => "missing name in post body section",
            HttpError::MalformedSection => "broken section in post body",
            HttpError::BrokenCertificate => "broken certificate",
            HttpError::BrokenPrivateKey => "broken private key",
            HttpError::HandshakeFailed => "could not initialize server connection",
            HttpError::WorkerCrashed => "listener thread crashed",
        }
    }
}

} // verus!
