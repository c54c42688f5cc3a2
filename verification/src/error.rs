//! What the crate needs to know of I/O errors.
use vstd::prelude::*;

verus! {

/// `std::io::Error`. The crate only passes such errors on, so nothing is said of what is inside.
#[verifier::external_type_specification]
#[verifier::external_body]
pub struct ExIoError(std::io::Error);

/// The kinds of I/O errors that are told apart.
#[derive(Clone, Copy, Debug, PartialEq, Eq, Structural)]
pub enum ErrorKind {
    /// The operation would have to wait.
    WouldBlock,
    /// The socket is no longer connected.
    NotConnected,
    /// Any other kind.
    Other,
}

} // verus!
