//! The outer error taxonomy: I/O errors, format-handler errors, and the
//! structural-validity error for sources that decode but are semantically
//! unsupported (animated images, dangling palette indices).

use vstd::prelude::*;

verus! {

/// Declares `std::io::Error` so that it can be carried in [`Error::Io`];
/// the value is opaque here and only produced by callers that perform I/O.
#[verifier::external_type_specification]
#[verifier::external_body]
pub struct ExIoError(std::io::Error);

/// Marker for the error type of a format handler.
pub trait HandlerError {}

/// The outer error type: an I/O failure, a format-specific handler failure,
/// or a structurally invalid image.
#[derive(Debug)]
pub enum Error<T: HandlerError> {
    Io(std::io::Error),
    Handler(T),
    InvalidImage,
}

} // verus!
