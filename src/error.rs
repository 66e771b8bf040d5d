use vstd::prelude::*;

verus! {

/// `std::io::Error`, carried through unchanged from the transport.
#[verifier::external_type_specification]
#[verifier::external_body]
pub struct ExIoError(std::io::Error);

/// Failures of the protocol and pipeline.
#[derive(Debug)]
pub enum Error {
    /// A frame failed validation or was too short to decode.
    InvalidResponse(String),
    /// The encoder refused its parameters or failed mid-stream.
    Compression(String),
    /// A caller passed a value the protocol cannot carry.
    InvalidParam(String),
    /// The underlying socket or device failed.
    Io(std::io::Error),
}

/// Result of the library's fallible operations.
pub type Result<T> = core::result::Result<T, Error>;

} // verus!
