//! The SESSIONSTATE token and the state entries that it carries.
use vstd::prelude::*;
use crate::error::DecodeError;
use crate::utils::{le_u32, r_u32_le};

verus! {

/// A SESSIONSTATE token in the stream: token byte, 32-bit length, sequence
/// number, status byte, then the state entries.
#[derive(Debug, Clone, Copy)]
pub struct SessionStatusSpan<'a> {
    pub bytes: &'a [u8],
}

/// `b` holds the fixed part of a SESSIONSTATE token and exactly the length it announces.
pub open spec fn session_status_framed(b: Seq<u8>) -> bool {
    b.len() >= 10 && b.len() == 5 + le_u32(b, 1)
}

impl<'a> SessionStatusSpan<'a> {
    /// Accepts `bytes` when it is one complete SESSIONSTATE token.
    pub fn new(bytes: &'a [u8]) -> (r: Result<Self, DecodeError>)
        ensures
            session_status_framed(bytes@) ==> (r matches Ok(s) && s.bytes@ == bytes@),
            !session_status_framed(bytes@) ==> r matches Err(DecodeError::InvalidData(_)),
    {
        if bytes.len() < 10 {
            return Err(DecodeError::invalid_data());
        }
        let length = r_u32_le(bytes, 1);
        if bytes.len() - 5 != length as usize || (length as u64) != ((bytes.len() - 5) as u64) {
            return Err(DecodeError::invalid_data());
        }
        Ok(Self { bytes })
    }

    /// The token byte.
    pub fn ty(&self) -> (r: u8)
        requires
            self.bytes@.len() >= 10,
        ensures
            r == self.bytes@[0],
    {
        self.bytes[0]
    }

    /// The length field.
    pub fn length(&self) -> (r: u32)
        requires
            self.bytes@.len() >= 10,
        ensures
            r == le_u32(self.bytes@, 1),
    {
        r_u32_le(self.bytes, 1)
    }

    /// The sequence number.
    pub fn seq_no(&self) -> (r: u32)
        requires
            self.bytes@.len() >= 10,
        ensures
            r == le_u32(self.bytes@, 5),
    {
        r_u32_le(self.bytes, 5)
    }

    /// The status byte.
    pub fn status(&self) -> (r: u8)
        requires
            self.bytes@.len() >= 10,
        ensures
            r == self.bytes@[9],
    {
        self.bytes[9]
    }

    /// The state entries.
    pub fn session_state_dataset(&self) -> (r: &'a [u8])
        requires
            self.bytes@.len() >= 10,
        ensures
            r@ == self.bytes@.subrange(10, self.bytes@.len() as int),
    {
        vstd::slice::slice_subrange(self.bytes, 10, self.bytes.len())
    }

    /// An iterator over the state entries, from the first.
    pub fn into_iter(&self) -> (r: SessionStatusIter<'a>)
        requires
            self.bytes@.len() >= 10,
        ensures
            r@ == (self.bytes@.subrange(10, self.bytes@.len() as int), 0int),
    {
        SessionStatusIter { bytes: self.session_state_dataset(), cursor: 0 }
    }
}

/// One state entry: its id and its value.
#[derive(Debug, Clone, Copy)]
pub struct SessionStateDataRef<'a> {
    pub state_id: u8,
    pub state_value: &'a [u8],
}

/// A cursor over the state entries of a SESSIONSTATE token.
#[derive(Debug, Clone, Copy, Default)]
pub struct SessionStatusIter<'a> {
    pub(crate) bytes: &'a [u8],
    pub(crate) cursor: usize,
}

/// One step over the entries `b` from `c`: the entry read, if any, and the new
/// cursor. An entry is an id byte, a length byte (0xff announces a 32-bit
/// length that follows) and the value. A truncated entry ends the iteration,
/// with the cursor past what was read of it.
pub open spec fn session_state_step(b: Seq<u8>, c: int) -> (Option<(u8, Seq<u8>)>, int) {
    if c >= b.len() {
        (None, c)
    } else if c + 1 >= b.len() {
        (None, c + 1)
    } else {
        let short = b[c + 1];
        let vstart = if short == 0xff { c + 6 } else { c + 2 };
        let len = if short == 0xff { le_u32(b, c + 2) } else { short as int };
        if vstart + len > b.len() {
            (None, vstart)
        } else {
            (Some((b[c], b.subrange(vstart, vstart + len))), vstart + len)
        }
    }
}

/// The step from `c` reads a 32-bit length that is cut short.
pub open spec fn session_state_step_truncates_length(b: Seq<u8>, c: int) -> bool {
    c + 1 < b.len() && b[c + 1] == 0xff && c + 6 > b.len()
}

impl<'a> View for SessionStatusIter<'a> {
    /// The entries walked and the cursor into them.
    type V = (Seq<u8>, int);

    closed spec fn view(&self) -> (Seq<u8>, int) {
        (self.bytes@, self.cursor as int)
    }
}

impl<'a> SessionStatusIter<'a> {
    /// Reads the next state entry.
    pub fn next(&mut self) -> (r: Option<SessionStateDataRef<'a>>)
        requires
            !session_state_step_truncates_length(old(self)@.0, old(self)@.1),
        ensures
            final(self)@.0 == old(self)@.0,
            final(self)@.1 == session_state_step(old(self)@.0, old(self)@.1).1,
            match session_state_step(old(self)@.0, old(self)@.1).0 {
                Some((id, v)) => r matches Some(d) && d.state_id == id && d.state_value@ == v,
                None => r is None,
            },
            r is Some ==> final(self)@.1 > old(self)@.1,
    {
        if self.cursor >= self.bytes.len() {
            return None;
        }
        let state_id = self.bytes[self.cursor];
        self.cursor = self.cursor + 1;
        if self.cursor >= self.bytes.len() {
            return None;
        }
        let length = self.bytes[self.cursor];
        self.cursor = self.cursor + 1;
        let length: usize = if length == 0xff {
            let n = r_u32_le(self.bytes, self.cursor);
            self.cursor = self.cursor + 4;
            if n as u64 > (self.bytes.len() - self.cursor) as u64 {
                return None;
            }
            n as usize
        } else {
            length as usize
        };
        if length > self.bytes.len() - self.cursor {
            return None;
        }
        let val = vstd::slice::slice_subrange(self.bytes, self.cursor, self.cursor + length);
        self.cursor = self.cursor + length;
        Some(SessionStateDataRef { state_id, state_value: val })
    }
}

/// A SESSIONSTATE token held by value.
#[derive(Debug, Clone)]
pub struct SessionStatusToken {
    pub(crate) ty: u8,
    pub(crate) length: u32,
    pub(crate) seq_no: u32,
    pub(crate) status: u8,
    pub(crate) session_state_dataset: SessionStatusDataset,
}

/// The state entries of a SESSIONSTATE token held by value.
#[derive(Debug, Clone)]
pub struct SessionStatusDataset(pub Vec<SessionStatusData>);

/// One state entry held by value.
#[derive(Debug, Clone)]
pub struct SessionStatusData {
    pub(crate) state_id: u8,
    pub(crate) state_value: Vec<u8>,
}

} // verus!
