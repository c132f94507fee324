//! The SSPI token: a security blob behind a 16-bit length.
use vstd::prelude::*;
use crate::error::DecodeError;
use crate::utils::{le_u16, r_u16_le};

verus! {

/// An SSPI token as it was received.
#[derive(Debug, Clone)]
pub struct SspiToken {
    pub(crate) ty: u8,
    pub(crate) sspi_buffer: Vec<u8>,
}

/// An SSPI token in the stream: token byte, 16-bit length, blob.
#[derive(Debug, Clone, Copy)]
pub struct SspiSpan<'a> {
    pub bytes: &'a [u8],
}

/// `b` is exactly one SSPI token: three header bytes and the blob they announce.
pub open spec fn sspi_framed(b: Seq<u8>) -> bool {
    b.len() >= 3 && b.len() == 3 + le_u16(b, 1)
}

impl<'a> SspiSpan<'a> {
    /// Accepts `bytes` when its length field covers exactly the rest of it.
    pub fn new(bytes: &'a [u8]) -> (r: Result<Self, DecodeError>)
        ensures
            sspi_framed(bytes@) ==> (r matches Ok(s) && s.bytes@ == bytes@),
            !sspi_framed(bytes@) ==> r matches Err(DecodeError::InvalidData(_)),
    {
        if bytes.len() < 3 {
            return Err(DecodeError::invalid_data());
        }
        let length = r_u16_le(bytes, 1) as usize;
        if bytes.len() - 3 != length {
            return Err(DecodeError::invalid_data());
        }
        Ok(Self { bytes })
    }

    /// The token byte.
    pub fn ty(&self) -> (r: u8)
        requires
            self.bytes@.len() >= 1,
        ensures
            r == self.bytes@[0],
    {
        self.bytes[0]
    }

    /// The length field.
    pub fn length(&self) -> (r: u16)
        requires
            self.bytes@.len() >= 3,
        ensures
            r == le_u16(self.bytes@, 1),
    {
        r_u16_le(self.bytes, 1)
    }

    /// The security blob: everything after the length field.
    pub fn sspi_buffer(&self) -> (r: &'a [u8])
        requires
            self.bytes@.len() >= 3,
        ensures
            r@ == self.bytes@.subrange(3, self.bytes@.len() as int),
    {
        vstd::slice::slice_subrange(self.bytes, 3, self.bytes.len())
    }
}

} // verus!
