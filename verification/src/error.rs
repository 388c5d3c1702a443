//! Errors of the logger.

use vstd::prelude::*;

verus! {

/// `std::io::Error`, carried through the library from the I/O that failed.
#[verifier::external_type_specification]
#[verifier::external_body]
pub struct ExIoError(std::io::Error);

/// Errors of the logger and of its worker.
#[derive(Debug)]
pub enum Error {
    /// The channel was closed or its other end was dropped.
    ChannelNotAvailable,
    /// An I/O operation failed.
    IO(std::io::Error),
    /// The file path is not valid.
    InvalidPath(String),
    /// The host name did not resolve to an address, or is not a valid server name.
    InvalidHost,
}

} // verus!
