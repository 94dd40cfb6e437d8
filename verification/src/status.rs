//! Status codes of the responses that the proxy makes up itself, and the
//! status that answers each way in which reading a client request can fail.

use vstd::prelude::*;

verus! {

/// The status of a healthy upstream's answer to a probe.
pub const OK: u16 = 200;

/// Answers a request that could not be parsed.
pub const BAD_REQUEST: u16 = 400;

/// Answers a request whose body is larger than the codec accepts.
pub const PAYLOAD_TOO_LARGE: u16 = 413;

/// Answers a request that the rate limiter rejected.
pub const TOO_MANY_REQUESTS: u16 = 429;

/// Answers a request when no upstream can be reached, or the chosen one failed.
pub const BAD_GATEWAY: u16 = 502;

/// Answers a failure to read from the client's socket.
pub const SERVICE_UNAVAILABLE: u16 = 503;

/// Why the codec could not hand over a request read from the client.
#[derive(Clone, Copy, Debug, PartialEq, Eq, Structural)]
pub enum ReadError {
    /// The stream ended after this many bytes of an unfinished request.
    IncompleteRequest(usize),
    /// The bytes are not an HTTP request.
    MalformedRequest,
    /// The content-length header is not a number.
    InvalidContentLength,
    /// The body is not as long as the content-length header says.
    ContentLengthMismatch,
    /// The body is larger than the codec accepts.
    RequestBodyTooLarge,
    /// Reading from the socket failed.
    ConnectionError,
}

impl ReadError {
    /// The client closed an idle connection: no byte of a further request arrived.
    pub open spec fn is_end_of_session(self) -> bool {
        self == ReadError::IncompleteRequest(0)
    }

    /// The connection itself is broken, so no further request can be read from it.
    pub open spec fn is_connection_level(self) -> bool {
        self is ConnectionError
    }

    /// The status code of the response that answers this error.
    pub open spec fn status(self) -> u16 {
        match self {
            ReadError::IncompleteRequest(_) => BAD_REQUEST,
            ReadError::MalformedRequest => BAD_REQUEST,
            ReadError::InvalidContentLength => BAD_REQUEST,
            ReadError::ContentLengthMismatch => BAD_REQUEST,
            ReadError::RequestBodyTooLarge => PAYLOAD_TOO_LARGE,
            ReadError::ConnectionError => SERVICE_UNAVAILABLE,
        }
    }

    /// Whether the client closed an idle connection.
    pub fn ends_session(&self) -> (ends: bool)
        ensures
            ends == self.is_end_of_session(),
    {
        match self {
            ReadError::IncompleteRequest(read) => *read == 0,
            _ => false,
        }
    }

    /// Whether the connection itself is broken.
    pub fn breaks_connection(&self) -> (broken: bool)
        ensures
            broken == self.is_connection_level(),
    {
        match self {
            ReadError::ConnectionError => true,
            _ => false,
        }
    }

    /// The status code of the response that answers this error.
    pub fn status_code(&self) -> (code: u16)
        ensures
            code == self.status(),
    {
        match self {
            ReadError::IncompleteRequest(_) => BAD_REQUEST,
            ReadError::MalformedRequest => BAD_REQUEST,
            ReadError::InvalidContentLength => BAD_REQUEST,
            ReadError::ContentLengthMismatch => BAD_REQUEST,
            ReadError::RequestBodyTooLarge => PAYLOAD_TOO_LARGE,
            ReadError::ConnectionError => SERVICE_UNAVAILABLE,
        }
    }
}

} // verus!
