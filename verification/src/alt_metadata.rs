//! The ALTMETADATA token of COMPUTE results.
use vstd::prelude::*;
use crate::utils::{le_u16, r_u16_le};

verus! {

/// A run of bytes whose first byte counts what follows.
#[derive(Debug, Clone, Copy)]
pub struct BVarBytesSpan<'a> {
    pub bytes: &'a [u8],
}

/// An ALTMETADATA token held by value.
#[derive(Debug, Clone)]
pub struct AltMetaDataToken {
    pub(crate) count: u16,
    pub(crate) id: u16,
    pub(crate) by_cols: Vec<u16>,
    pub(crate) num_parts: u8,
    pub(crate) part_name: Vec<u16>,
    pub(crate) col_num: Vec<u16>,
}

/// An ALTMETADATA token in the stream: token byte, column count, id, the
/// number of BY columns and their ids, then the table name parts.
#[derive(Debug, Clone, Copy)]
pub struct AltMetaDataSpan<'a> {
    pub bytes: &'a [u8],
    cch_by_cols: usize,
    ib_part_name: usize,
}

/// Offset of the BY column ids.
pub const ALT_FIXED_SPAN_OFFSET: usize = 6;

impl<'a> View for AltMetaDataSpan<'a> {
    /// The token bytes, the number of BY columns and where the part names begin.
    type V = (Seq<u8>, int, int);

    closed spec fn view(&self) -> (Seq<u8>, int, int) {
        (self.bytes@, self.cch_by_cols as int, self.ib_part_name as int)
    }
}

impl<'a> AltMetaDataSpan<'a> {
    /// Locates the parts of the token `bytes` from its BY column count.
    pub fn new(bytes: &'a [u8]) -> (r: Self)
        requires
            bytes@.len() >= 6,
        ensures
            r@ == (bytes@, bytes@[5] as int, ALT_FIXED_SPAN_OFFSET + 2 * bytes@[5] + 1),
    {
        let cch_by_cols = bytes[5] as usize;
        let ib_parts = ALT_FIXED_SPAN_OFFSET + cch_by_cols * 2;
        let ib_part_name = ib_parts + 1;
        Self { bytes, cch_by_cols, ib_part_name }
    }

    /// The token byte.
    #[allow(dead_code)]
    fn ty(&self) -> (r: u8)
        requires
            self@.0.len() >= 1,
        ensures
            r == self@.0[0],
    {
        self.bytes[0]
    }

    /// The number of columns.
    #[allow(dead_code)]
    fn count(&self) -> (r: u16)
        requires
            self@.0.len() >= 3,
        ensures
            r == le_u16(self@.0, 1),
    {
        r_u16_le(self.bytes, 1)
    }

    /// The id of the COMPUTE clause.
    #[allow(dead_code)]
    fn id(&self) -> (r: u16)
        requires
            self@.0.len() >= 5,
        ensures
            r == le_u16(self@.0, 3),
    {
        r_u16_le(self.bytes, 3)
    }

    /// The BY column count and the ids that follow it.
    #[allow(dead_code)]
    fn by_cols(&self) -> (r: BVarBytesSpan<'a>)
        requires
            self@.0.len() >= 6,
            ALT_FIXED_SPAN_OFFSET + 2 * self@.0[5] <= self@.0.len(),
        ensures
            r.bytes@ == self@.0.subrange(5, ALT_FIXED_SPAN_OFFSET + 2 * self@.0[5]),
    {
        let count = self.bytes[5] as usize;
        BVarBytesSpan {
            bytes: vstd::slice::slice_subrange(self.bytes, 5, ALT_FIXED_SPAN_OFFSET + count * 2),
        }
    }

    /// The number of table name parts.
    #[allow(dead_code)]
    fn num_parts(&self) -> (r: u8)
        requires
            1 <= self@.2 <= self@.0.len(),
        ensures
            r == self@.0[self@.2 - 1],
    {
        self.bytes[self.ib_part_name - 1]
    }
}

/// The aggregate of a COMPUTE column.
#[allow(dead_code)]
#[derive(Debug, Clone, Copy)]
enum AggregateOperator {
    StdDev,
    StdDevP,
    Var,
    VarP,
    Count,
    Sum,
    Avg,
    Min,
    Max,
}

} // verus!
