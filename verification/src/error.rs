//! The errors of the client.

use vstd::prelude::*;
use vstd::std_specs::convert::FromSpecImpl;

verus! {

/// `bincode::ErrorKind`, the error of bincode's encoders and decoders, which
/// `bincode::Error` boxes. The library carries such a value and never looks
/// into it.
#[verifier::external_type_specification]
#[verifier::external_body]
pub struct ExBincodeErrorKind(bincode::ErrorKind);

/// `std::io::Error`, the error of a stream. The library carries such a value and
/// never looks into it.
#[verifier::external_type_specification]
#[verifier::external_body]
pub struct ExIoError(std::io::Error);

/// What an operation of the client fails with.
#[derive(Debug)]
pub enum NetworkError {
    /// A message could not be encoded.
    FailedToSerialize { source: bincode::Error },
    /// The bytes of a message could not be decoded.
    FailedToDeserialize { source: bincode::Error },
    /// The channel from the background worker is closed.
    ChannelDisconnected,
    /// There is no record store behind a central server.
    DHTError,
}

/// What the framed stream to the server fails with.
#[derive(Debug)]
#[allow(inconsistent_fields)]
pub enum StreamError {
    /// The socket failed.
    Io { source: std::io::Error },
    /// A header could not be decoded.
    Decode { source: bincode::Error },
    /// The server closed the connection.
    Disconnected,
}

/// What ends a connection of the background worker.
#[derive(Debug)]
#[allow(inconsistent_fields)]
pub enum Error {
    /// The stream failed.
    Stream { source: std::io::Error },
    /// The channel to the consumers is closed.
    FailedToReceive,
    /// The queue of messages for the server is closed.
    FailedToSend,
    /// A header of the server could not be decoded.
    CouldNotDeserialize { source: bincode::Error },
    /// The connection to the server was lost.
    Disconnected,
}

impl From<StreamError> for Error {
    fn from(e: StreamError) -> (error: Self) {
        match e {
            StreamError::Io { source } => Error::Stream { source },
            StreamError::Decode { source } => Error::CouldNotDeserialize { source },
            StreamError::Disconnected => Error::Disconnected,
        }
    }
}

impl FromSpecImpl<StreamError> for Error {
    open spec fn obeys_from_spec() -> bool {
        true
    }

    open spec fn from_spec(e: StreamError) -> Error {
        match e {
            StreamError::Io { source } => Error::Stream { source },
            StreamError::Decode { source } => Error::CouldNotDeserialize { source },
            StreamError::Disconnected => Error::Disconnected,
        }
    }
}

} // verus!
