//! Linux user ABI: wire layouts, requests and the rules around them.

pub mod alsa;
pub mod bytes;
pub mod drm;
pub mod evdev;
pub mod kobject;
pub mod process;
pub mod request;
pub mod unix;
pub mod virgl;

use vstd::prelude::*;

verus! {

/// The class of a rejected request or reply.
#[derive(Clone, Copy, Debug, PartialEq, Eq, Structural)]
pub enum ErrorKind {
    /// The caller's request is inconsistent.
    InvalidInput,
    /// The kernel's or a peer's reply is inconsistent.
    InvalidData,
    /// The device lacks a feature.
    Unsupported,
    /// The device offers nothing to use.
    NotFound,
}

/// A rejected request or reply.
#[derive(Clone, Copy, Debug)]
pub struct Error {
    pub kind: ErrorKind,
    pub message: &'static str,
}

/// The caller's request is inconsistent.
pub fn invalid_input(message: &'static str) -> (result: Error)
    ensures
        result.kind == ErrorKind::InvalidInput,
        result.message@ == message@,
{
    Error { kind: ErrorKind::InvalidInput, message }
}

/// A reply is inconsistent.
pub fn invalid_data(message: &'static str) -> (result: Error)
    ensures
        result.kind == ErrorKind::InvalidData,
        result.message@ == message@,
{
    Error { kind: ErrorKind::InvalidData, message }
}

/// `error` is of a kind and says a message.
pub open spec fn says(error: Error, kind: ErrorKind, message: Seq<char>) -> bool {
    error.kind == kind && error.message@ == message
}

} // verus!
