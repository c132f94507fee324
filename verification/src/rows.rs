//! Reading the values of one ROW or NBCROW token, column by column.
use vstd::prelude::*;
use crate::colmetadata::{column_value, lemma_column_value_extend, to_dtype_bytes, ColMetaDataOwned, ColMetaDataSpan, ColumnData};
use crate::token::{TOKEN_NBCROW, TOKEN_ROW};
use vstd::arithmetic::power2::{lemma2_to64, pow2};

verus! {

/// One value of a row; empty for a NULL.
#[derive(Debug, Clone, Copy)]
pub struct RowItemSpan<'a> {
    pub bytes: &'a [u8],
}

/// A cursor over the values of a row.
#[derive(Debug, Clone, Copy)]
pub struct RowSpanIter<'a> {
    pub bytes: &'a [u8],
    columns: &'a [ColumnData],
    null_bitmap: &'a [u8],
    column: usize,
}

/// What a `RowSpanIter` holds: the unread row bytes, the columns, the NULL
/// bitmap and the index of the next column.
#[verifier::ext_equal]
pub struct RowIterView {
    pub bytes: Seq<u8>,
    pub columns: Seq<ColumnData>,
    pub null_bitmap: Seq<u8>,
    pub column: int,
}

impl<'a> View for RowSpanIter<'a> {
    type V = RowIterView;

    closed spec fn view(&self) -> RowIterView {
        RowIterView {
            bytes: self.bytes@,
            columns: self.columns@,
            null_bitmap: self.null_bitmap@,
            column: self.column as int,
        }
    }
}

/// Column `c` is marked NULL in the bitmap `nb`.
pub open spec fn is_null(nb: Seq<u8>, c: int) -> bool {
    0 <= c / 8 < nb.len() && (nb[c / 8] >> ((c % 8) as u8)) & 1u8 == 1u8
}

/// Number of bitmap bytes of an NBCROW with `n` columns.
pub open spec fn bitmap_len(n: int) -> int {
    (n + 7) / 8
}

/// One step of the cursor `it`: the value read, if any, and the cursor after.
/// Past the last column nothing is read; a NULL column gives an empty value;
/// otherwise the value is split off the row bytes, and a value cut short gives
/// nothing but still moves to the next column.
pub open spec fn row_step(it: RowIterView) -> (Option<Seq<u8>>, RowIterView) {
    if it.column < 0 || it.column >= it.columns.len() {
        (None, it)
    } else {
        let c = it.column;
        let next = RowIterView { column: c + 1, ..it };
        if is_null(it.null_bitmap, c) {
            (Some(Seq::empty()), next)
        } else {
            match column_value(it.bytes, it.columns[c].type_info) {
                Some((v, n)) => (
                    Some(v),
                    RowIterView { bytes: it.bytes.subrange(n, it.bytes.len() as int), ..next },
                ),
                None => (None, next),
            }
        }
    }
}

impl<'a> RowSpanIter<'a> {
    /// A cursor over the row values `bytes`, none of them NULL, from the first column.
    pub fn new(bytes: &'a [u8], col_metadata: &'a ColMetaDataSpan<'a>) -> (r: Self)
        ensures
            r@ == (RowIterView {
                bytes: bytes@,
                columns: col_metadata.columns@,
                null_bitmap: Seq::empty(),
                column: 0,
            }),
    {
        let r = Self {
            bytes,
            columns: col_metadata.columns,
            null_bitmap: vstd::slice::slice_subrange(bytes, 0, 0),
            column: 0,
        };
        assert(r@.null_bitmap =~= Seq::<u8>::empty());
        r
    }

    /// A cursor over a whole ROW or NBCROW token: an NBCROW's bitmap (one bit per
    /// column) follows the token byte and precedes the values.
    pub fn from_owned(bytes: &'a [u8], col_metadata: &'a ColMetaDataOwned) -> (r: Self)
        requires
            bytes@.len() >= 1,
            bytes@[0] == TOKEN_ROW || bytes@[0] == TOKEN_NBCROW,
        ensures
            ({
                let bm = if bytes@[0] == TOKEN_NBCROW {
                    bitmap_len(col_metadata.column_data@.len() as int)
                } else {
                    0
                };
                r@ == RowIterView {
                    bytes: if 1 + bm <= bytes@.len() {
                        bytes@.subrange(1 + bm, bytes@.len() as int)
                    } else {
                        Seq::empty()
                    },
                    columns: col_metadata.column_data@,
                    null_bitmap: if 1 + bm <= bytes@.len() {
                        bytes@.subrange(1, 1 + bm)
                    } else {
                        Seq::empty()
                    },
                    column: 0,
                }
            }),
    {
        let columns = col_metadata.strides_as_slice();
        let bitmap: usize = if bytes[0] == TOKEN_NBCROW {
            columns.len() / 8 + if columns.len() % 8 == 0 {
                0
            } else {
                1
            }
        } else {
            0
        };
        let ok = bitmap < bytes.len();
        let r = Self {
            bytes: if ok {
                vstd::slice::slice_subrange(bytes, 1 + bitmap, bytes.len())
            } else {
                vstd::slice::slice_subrange(bytes, 0, 0)
            },
            columns,
            null_bitmap: if ok {
                vstd::slice::slice_subrange(bytes, 1, 1 + bitmap)
            } else {
                vstd::slice::slice_subrange(bytes, 0, 0)
            },
            column: 0,
        };
        assert(r@.null_bitmap =~= Seq::<u8>::empty() || ok);
        assert(r@.bytes =~= Seq::<u8>::empty() || ok);
        r
    }

    /// The row bytes not read yet.
    pub fn remaining(&self) -> (r: &'a [u8])
        ensures
            r@ == self@.bytes,
    {
        self.bytes
    }

    /// Reads the value of the next column.
    pub fn next(&mut self) -> (r: Option<RowItemSpan<'a>>)
        ensures
            final(self)@ == row_step(old(self)@).1,
            match row_step(old(self)@).0 {
                Some(v) => r matches Some(item) && item.bytes@ == v,
                None => r is None,
            },
    {
        if self.column >= self.columns.len() {
            return None;
        }
        let col = self.columns[self.column];
        let column = self.column;
        self.column = self.column + 1;
        if column / 8 < self.null_bitmap.len() {
            let b = self.null_bitmap[column / 8];
            let s = (column % 8) as u8;
            if (b >> s) & 1 == 1 {
                return Some(RowItemSpan { bytes: vstd::slice::slice_subrange(self.bytes, 0, 0) });
            }
        }
        match to_dtype_bytes(self.bytes, col.ty()) {
            Some((value, rest)) => {
                self.bytes = rest;
                Some(RowItemSpan { bytes: value })
            },
            None => None,
        }
    }
}


/// Where the values of a row end, reading from `off` at column `c`: a NULL
/// column takes no bytes; `None` where a value is cut short.
pub open spec fn values_end(b: Seq<u8>, cols: Seq<ColumnData>, nb: Seq<u8>, c: int, off: int) -> Option<
    int,
>
    decreases cols.len() - c,
{
    if c < 0 || c >= cols.len() || off < 0 || off > b.len() {
        Some(off)
    } else if is_null(nb, c) {
        values_end(b, cols, nb, c + 1, off)
    } else {
        match column_value(b.subrange(off, b.len() as int), cols[c].type_info) {
            Some((v, n)) => values_end(b, cols, nb, c + 1, off + n),
            None => None,
        }
    }
}

/// The length of the ROW or NBCROW token at the start of `b` over the columns
/// `cols`; `None` where it is not whole yet.
pub open spec fn row_frame(b: Seq<u8>, cols: Seq<ColumnData>) -> Option<int> {
    if b.len() == 0 {
        None
    } else if b[0] == TOKEN_NBCROW {
        let bm = bitmap_len(cols.len() as int);
        if 1 + bm > b.len() {
            None
        } else {
            values_end(b, cols, b.subrange(1, 1 + bm), 0, 1 + bm)
        }
    } else {
        values_end(b, cols, Seq::empty(), 0, 1)
    }
}

proof fn lemma_values_end_bound(b: Seq<u8>, cols: Seq<ColumnData>, nb: Seq<u8>, c: int, off: int)
    requires
        0 <= off <= b.len(),
    ensures
        values_end(b, cols, nb, c, off) matches Some(e) ==> off <= e <= b.len(),
    decreases cols.len() - c,
{
    if 0 <= c < cols.len() {
        if is_null(nb, c) {
            lemma_values_end_bound(b, cols, nb, c + 1, off);
        } else if let Some((v, n)) = column_value(
            b.subrange(off, b.len() as int),
            cols[c].type_info,
        ) {
            lemma_values_end_bound(b, cols, nb, c + 1, off + n);
        }
    }
}

/// A whole row lies within `b` and holds at least its token byte.
pub proof fn lemma_row_frame_bound(b: Seq<u8>, cols: Seq<ColumnData>)
    ensures
        row_frame(b, cols) matches Some(n) ==> 1 <= n <= b.len(),
{
    if b.len() > 0 {
        if b[0] == TOKEN_NBCROW {
            let bm = bitmap_len(cols.len() as int);
            if 1 + bm <= b.len() {
                lemma_values_end_bound(b, cols, b.subrange(1, 1 + bm), 0, 1 + bm);
            }
        } else {
            lemma_values_end_bound(b, cols, Seq::empty(), 0, 1);
        }
    }
}

/// Frames the ROW or NBCROW token at the start of `b` over the columns `cols`.
pub fn frame_row(b: &[u8], cols: &[ColumnData]) -> (r: Option<usize>)
    requires
        b@.len() >= 1,
    ensures
        match row_frame(b@, cols@) {
            Some(n) => r == Some(n as usize),
            None => r is None,
        },
{
    proof {
        lemma_row_frame_bound(b@, cols@);
    }
    let bm: usize = if b[0] == TOKEN_NBCROW {
        cols.len() / 8 + if cols.len() % 8 == 0 {
            0
        } else {
            1
        }
    } else {
        0
    };
    if b[0] == TOKEN_NBCROW && bm >= b.len() {
        return None;
    }
    let nb: &[u8] = if b[0] == TOKEN_NBCROW {
        vstd::slice::slice_subrange(b, 1, 1 + bm)
    } else {
        vstd::slice::slice_subrange(b, 0, 0)
    };
    assert(b@[0] != TOKEN_NBCROW ==> nb@ =~= Seq::<u8>::empty());
    let mut off: usize = 1 + bm;
    let mut c: usize = 0;
    while c < cols.len()
        invariant
            0 <= off <= b@.len(),
            c <= cols@.len(),
            row_frame(b@, cols@) == values_end(b@, cols@, nb@, c as int, off as int),
        decreases cols@.len() - c,
    {
        let cb = c / 8;
        let null = if cb < nb.len() {
            let byte = nb[cb];
            let sh = (c % 8) as u8;
            (byte >> sh) & 1 == 1
        } else {
            false
        };
        if !null {
            let rest = vstd::slice::slice_subrange(b, off, b.len());
            match to_dtype_bytes(rest, cols[c].ty()) {
                Some((value, after)) => {
                    off = b.len() - after.len();
                },
                None => {
                    return None;
                },
            }
        }
        c = c + 1;
    }
    Some(off)
}


proof fn lemma_values_end_extend(
    b: Seq<u8>,
    x: Seq<u8>,
    cols: Seq<ColumnData>,
    nb: Seq<u8>,
    c: int,
    off: int,
)
    requires
        0 <= off <= b.len(),
        values_end(b, cols, nb, c, off) is Some,
    ensures
        values_end(b + x, cols, nb, c, off) == values_end(b, cols, nb, c, off),
    decreases cols.len() - c,
{
    if 0 <= c < cols.len() {
        if is_null(nb, c) {
            lemma_values_end_extend(b, x, cols, nb, c + 1, off);
        } else {
            let s = b.subrange(off, b.len() as int);
            assert((b + x).subrange(off, (b + x).len() as int) =~= s + x);
            lemma_column_value_extend(s, x, cols[c].type_info);
            let vn = column_value(s, cols[c].type_info)->0;
            lemma_values_end_extend(b, x, cols, nb, c + 1, off + vn.1);
        }
    }
}

/// More bytes after a row that is whole do not change its framing.
pub proof fn lemma_row_frame_extend(b: Seq<u8>, x: Seq<u8>, cols: Seq<ColumnData>)
    requires
        row_frame(b, cols) is Some,
    ensures
        row_frame(b + x, cols) == row_frame(b, cols),
{
    let bx = b + x;
    assert(bx[0] == b[0]);
    if b[0] == TOKEN_NBCROW {
        let bm = bitmap_len(cols.len() as int);
        assert(bx.subrange(1, 1 + bm) =~= b.subrange(1, 1 + bm));
        lemma_values_end_extend(b, x, cols, b.subrange(1, 1 + bm), 0, 1 + bm);
    } else {
        lemma_values_end_extend(b, x, cols, Seq::empty(), 0, 1);
    }
}


/// Bit `k` of the byte `x`, read by division.
proof fn lemma_bit_by_division(x: u8, k: int)
    requires
        0 <= k < 8,
    ensures
        ((x >> (k as u8)) & 1u8 == 1u8) <==> ((x as nat / pow2(k as nat)) % 2 == 1),
{
    lemma2_to64();
    if k == 0 {
        assert(((x >> 0u8) & 1u8 == 1u8) <==> ((x / 1u8) % 2u8 == 1u8)) by (bit_vector);
    } else if k == 1 {
        assert(((x >> 1u8) & 1u8 == 1u8) <==> ((x / 2u8) % 2u8 == 1u8)) by (bit_vector);
    } else if k == 2 {
        assert(((x >> 2u8) & 1u8 == 1u8) <==> ((x / 4u8) % 2u8 == 1u8)) by (bit_vector);
    } else if k == 3 {
        assert(((x >> 3u8) & 1u8 == 1u8) <==> ((x / 8u8) % 2u8 == 1u8)) by (bit_vector);
    } else if k == 4 {
        assert(((x >> 4u8) & 1u8 == 1u8) <==> ((x / 16u8) % 2u8 == 1u8)) by (bit_vector);
    } else if k == 5 {
        assert(((x >> 5u8) & 1u8 == 1u8) <==> ((x / 32u8) % 2u8 == 1u8)) by (bit_vector);
    } else if k == 6 {
        assert(((x >> 6u8) & 1u8 == 1u8) <==> ((x / 64u8) % 2u8 == 1u8)) by (bit_vector);
    } else {
        assert(((x >> 7u8) & 1u8 == 1u8) <==> ((x / 128u8) % 2u8 == 1u8)) by (bit_vector);
    }
}

/// A column is NULL exactly when the NULL bitmap marks it: the bitmap has a
/// byte `c / 8` and bit `c % 8` of it (counting from the least significant)
/// is set. This holds for every column, however many the row has.
pub proof fn lemma_null_bitmap_marks(nb: Seq<u8>, c: int)
    requires
        c >= 0,
    ensures
        is_null(nb, c) <==> (c / 8 < nb.len() && (nb[c / 8] as nat / pow2((c % 8) as nat)) % 2 == 1),
{
    if c / 8 < nb.len() {
        lemma_bit_by_division(nb[c / 8], c % 8);
    }
}

/// Reading a column that the bitmap marks NULL gives an empty value, reads
/// no bytes and moves to the next column.
pub proof fn lemma_null_column_reads_empty(it: RowIterView)
    requires
        0 <= it.column < it.columns.len(),
        it.column / 8 < it.null_bitmap.len(),
        (it.null_bitmap[it.column / 8] as nat / pow2((it.column % 8) as nat)) % 2 == 1,
    ensures
        row_step(it) == (Some(Seq::<u8>::empty()), RowIterView { column: it.column + 1, ..it }),
{
    lemma_null_bitmap_marks(it.null_bitmap, it.column);
}

/// Framing a row skips a column that the bitmap marks NULL: its end is where
/// the next column starts.
pub proof fn lemma_null_column_takes_no_bytes(
    b: Seq<u8>,
    cols: Seq<ColumnData>,
    nb: Seq<u8>,
    c: int,
    off: int,
)
    requires
        0 <= c < cols.len(),
        0 <= off <= b.len(),
        c / 8 < nb.len(),
        (nb[c / 8] as nat / pow2((c % 8) as nat)) % 2 == 1,
    ensures
        values_end(b, cols, nb, c, off) == values_end(b, cols, nb, c + 1, off),
{
    lemma_null_bitmap_marks(nb, c);
}

/// The NULL bitmap of an NBCROW has the fewest bytes that give every one of
/// its `n` columns a bit.
pub proof fn lemma_bitmap_covers_columns(n: int)
    requires
        n >= 0,
    ensures
        8 * bitmap_len(n) >= n,
        8 * bitmap_len(n) < n + 8,
{
}

} // verus!
