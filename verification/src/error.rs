//! Typed error values for every failing operation of the stack.

use vstd::prelude::*;
use vstd::string::StringExecFns;

verus! {

/// Error taxonomy of the stack.  Parse errors and protocol violations are
/// fatal to the offending connection only; registry conflicts are reported
/// to the client; configuration errors surface at startup.
#[derive(Debug, Clone, PartialEq)]
pub enum Error {
    Io(String),
    Protocol(String),
    Handshake(String),
    AmfDecode(String),
    AmfEncode(String),
    Chunk(String),
    Connection(String),
    Stream(String),
    InvalidState(String),
    NotImplemented(String),
    Timeout(String),
    AuthenticationFailed(String),
    Configuration(String),
    Unknown(String),
}

impl Error {
    /// Create an IO error from a message.
    pub fn io(msg: &str) -> (r: Error)
        ensures
            r is Io && r->Io_0@ == msg@,
    {
        Error::Io(msg.to_owned())
    }

    /// Create a protocol error.
    pub fn protocol(msg: &str) -> (r: Error)
        ensures
            r is Protocol && r->Protocol_0@ == msg@,
    {
        Error::Protocol(msg.to_owned())
    }

    /// Create a handshake error.
    pub fn handshake(msg: &str) -> (r: Error)
        ensures
            r is Handshake && r->Handshake_0@ == msg@,
    {
        Error::Handshake(msg.to_owned())
    }

    /// Create an AMF decode error.
    pub fn amf_decode(msg: &str) -> (r: Error)
        ensures
            r is AmfDecode && r->AmfDecode_0@ == msg@,
    {
        Error::AmfDecode(msg.to_owned())
    }

    /// Create an AMF encode error.
    pub fn amf_encode(msg: &str) -> (r: Error)
        ensures
            r is AmfEncode && r->AmfEncode_0@ == msg@,
    {
        Error::AmfEncode(msg.to_owned())
    }

    /// Create a chunk framing error.
    pub fn chunk(msg: &str) -> (r: Error)
        ensures
            r is Chunk && r->Chunk_0@ == msg@,
    {
        Error::Chunk(msg.to_owned())
    }

    /// Create a connection error.
    pub fn connection(msg: &str) -> (r: Error)
        ensures
            r is Connection && r->Connection_0@ == msg@,
    {
        Error::Connection(msg.to_owned())
    }

    /// Create a stream error.
    pub fn stream(msg: &str) -> (r: Error)
        ensures
            r is Stream && r->Stream_0@ == msg@,
    {
        Error::Stream(msg.to_owned())
    }

    /// Create an invalid state error.
    pub fn invalid_state(msg: &str) -> (r: Error)
        ensures
            r is InvalidState && r->InvalidState_0@ == msg@,
    {
        Error::InvalidState(msg.to_owned())
    }

    /// Create a not implemented error.
    pub fn not_implemented(msg: &str) -> (r: Error)
        ensures
            r is NotImplemented && r->NotImplemented_0@ == msg@,
    {
        Error::NotImplemented(msg.to_owned())
    }

    /// Create a timeout error.
    pub fn timeout(msg: &str) -> (r: Error)
        ensures
            r is Timeout && r->Timeout_0@ == msg@,
    {
        Error::Timeout(msg.to_owned())
    }

    /// Create an authentication error.
    pub fn auth_failed(msg: &str) -> (r: Error)
        ensures
            r is AuthenticationFailed && r->AuthenticationFailed_0@ == msg@,
    {
        Error::AuthenticationFailed(msg.to_owned())
    }

    /// Create a configuration error.
    pub fn config(msg: &str) -> (r: Error)
        ensures
            r is Configuration && r->Configuration_0@ == msg@,
    {
        Error::Configuration(msg.to_owned())
    }

    /// Create an unknown error.
    pub fn unknown(msg: &str) -> (r: Error)
        ensures
            r is Unknown && r->Unknown_0@ == msg@,
    {
        Error::Unknown(msg.to_owned())
    }

    /// The full display text of the error: a variant prefix followed by the
    /// detail message.
    pub open spec fn message_spec(self) -> Seq<char> {
        match self {
            Error::Io(m) => "IO error: "@ + m@,
            Error::Protocol(m) => "Protocol error: "@ + m@,
            Error::Handshake(m) => "Handshake error: "@ + m@,
            Error::AmfDecode(m) => "AMF decode error: "@ + m@,
            Error::AmfEncode(m) => "AMF encode error: "@ + m@,
            Error::Chunk(m) => "Chunk error: "@ + m@,
            Error::Connection(m) => "Connection error: "@ + m@,
            Error::Stream(m) => "Stream error: "@ + m@,
            Error::InvalidState(m) => "Invalid state: "@ + m@,
            Error::NotImplemented(m) => "Not implemented: "@ + m@,
            Error::Timeout(m) => "Timeout: "@ + m@,
            Error::AuthenticationFailed(m) => "Authentication failed: "@ + m@,
            Error::Configuration(m) => "Configuration error: "@ + m@,
            Error::Unknown(m) => "Unknown error: "@ + m@,
        }
    }

    /// Render the error as display text.
    pub fn message(&self) -> (r: String)
        ensures
            r@ == self.message_spec(),
    {
        match self {
            Error::Io(m) => "IO error: ".to_owned().concat(m.as_str()),
            Error::Protocol(m) => "Protocol error: ".to_owned().concat(m.as_str()),
            Error::Handshake(m) => "Handshake error: ".to_owned().concat(m.as_str()),
            Error::AmfDecode(m) => "AMF decode error: ".to_owned().concat(m.as_str()),
            Error::AmfEncode(m) => "AMF encode error: ".to_owned().concat(m.as_str()),
            Error::Chunk(m) => "Chunk error: ".to_owned().concat(m.as_str()),
            Error::Connection(m) => "Connection error: ".to_owned().concat(m.as_str()),
            Error::Stream(m) => "Stream error: ".to_owned().concat(m.as_str()),
            Error::InvalidState(m) => "Invalid state: ".to_owned().concat(m.as_str()),
            Error::NotImplemented(m) => "Not implemented: ".to_owned().concat(m.as_str()),
            Error::Timeout(m) => "Timeout: ".to_owned().concat(m.as_str()),
            Error::AuthenticationFailed(m) => {
                "Authentication failed: ".to_owned().concat(m.as_str())
            },
            Error::Configuration(m) => "Configuration error: ".to_owned().concat(m.as_str()),
            Error::Unknown(m) => "Unknown error: ".to_owned().concat(m.as_str()),
        }
    }
}

/// Declaration of the standard I/O error type so that it can cross the
/// trusted boundary below.
#[verifier::external_type_specification]
#[verifier::external_body]
pub struct ExIoError(std::io::Error);

/// Relies on the std::fmt Display rendering of std::io::Error for the
/// detail text of the converted error.
#[verifier::external_body]
pub fn from_io(e: std::io::Error) -> (r: Error)
    ensures
        r is Io,
{
    Error::Io(format!("{}", e))
}

} // verus!
