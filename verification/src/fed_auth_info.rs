//! The FEDAUTHINFO token.
use vstd::prelude::*;
use crate::error::DecodeError;

verus! {

/// A FEDAUTHINFO token in the stream.
#[derive(Debug, Clone, Copy)]
pub struct FedAuthSpan<'a> {
    pub bytes: &'a [u8],
}

/// A FEDAUTHINFO token held by value.
#[derive(Debug, Clone, Copy)]
pub struct FedAuthInfoToken {}

/// Size of the fixed part of a FEDAUTHINFO token: token byte, length and count.
pub const FEDAUTH_FIXED_SPAN_SIZE: usize = 9;

impl<'a> FedAuthSpan<'a> {
    /// Refuses a token shorter than its fixed part. Reading the info entries of a
    /// longer token is not implemented, so such a token is no input of this function.
    pub fn new(bytes: &'a [u8]) -> (r: Result<Self, DecodeError>)
        requires
            bytes@.len() < FEDAUTH_FIXED_SPAN_SIZE,
        ensures
            r matches Err(DecodeError::InvalidData(_)),
    {
        Err(DecodeError::invalid_data())
    }
}

} // verus!
