//! Bulk load: packet framing of the outgoing stream and the encoding of rows.
use vstd::prelude::*;
use crate::colmetadata::{column_value, ColMetaDataToken, ColumnData, TypeInfo, TypeInfoVarLen};
use crate::rows::{bitmap_len, is_null, row_step, RowIterView};
use crate::token::{TOKEN_NBCROW, TOKEN_ROW};
use crate::utils::{le_u16, le_u32};

verus! {

/// Packet type of bulk load data.
pub const PACKET_TYPE_BULK_LOAD: u8 = 0x07;
/// Packet status: more packets of this message follow.
pub const STATUS_NORMAL: u8 = 0x00;
/// Packet status: last packet of the message.
pub const STATUS_END_OF_MESSAGE: u8 = 0x01;
/// Size of a packet header.
pub const PACKET_HEADER_SIZE: usize = 8;

/// Splits outgoing bulk load messages into packets and numbers them.
#[derive(Debug)]
pub struct BulkLoadWriter {
    packet_size: usize,
    packet_id: u8,
}

/// What a `BulkLoadWriter` holds.
pub struct BulkLoadWriterView {
    pub packet_size: usize,
    pub packet_id: u8,
}

impl View for BulkLoadWriter {
    type V = BulkLoadWriterView;

    closed spec fn view(&self) -> BulkLoadWriterView {
        BulkLoadWriterView { packet_size: self.packet_size, packet_id: self.packet_id }
    }
}

/// Most payload bytes in one packet of size `packet_size`: what the header
/// leaves, and at least one.
pub open spec fn max_payload(packet_size: usize) -> int {
    if packet_size > 9 {
        packet_size - 8
    } else {
        1
    }
}

/// The header of a bulk load packet with `chunk` payload bytes.
pub open spec fn packet_header(status: u8, chunk: int, packet_id: u8) -> Seq<u8> {
    let length = (8 + chunk) % 0x10000;
    seq![PACKET_TYPE_BULK_LOAD, status, (length / 256) as u8, (length % 256) as u8, 0u8, 0u8, packet_id, 0u8]
}

impl BulkLoadWriter {
    /// A writer for packets of `packet_size` bytes, numbering from 0.
    pub fn new(packet_size: usize) -> (r: Self)
        ensures
            r@ == (BulkLoadWriterView { packet_size, packet_id: 0 }),
    {
        Self { packet_size, packet_id: 0 }
    }

    /// Frames the next packet of `payload` from `offset`: its header and where
    /// its chunk ends. The chunk takes as many bytes as a packet carries; the
    /// last chunk of a message sent with `eom` has the end-of-message status.
    /// The packet number goes up by one, wrapping.
    pub fn next_packet(&mut self, payload: &[u8], offset: usize, eom: bool) -> (r: (
        Vec<u8>,
        usize,
    ))
        requires
            offset < payload@.len(),
        ensures
            final(self)@.packet_size == old(self)@.packet_size,
            final(self)@.packet_id == (old(self)@.packet_id + 1) % 256,
            offset < r.1 <= payload@.len(),
            r.1 == if offset + max_payload(old(self)@.packet_size) <= payload@.len() {
                offset + max_payload(old(self)@.packet_size)
            } else {
                payload@.len() as int
            },
            r.0@ == packet_header(
                if eom && r.1 == payload@.len() {
                    STATUS_END_OF_MESSAGE
                } else {
                    STATUS_NORMAL
                },
                r.1 - offset,
                old(self)@.packet_id,
            ),
    {
        let max_payload_size: usize = if self.packet_size > 9 {
            self.packet_size - 8
        } else {
            1
        };
        let end = if max_payload_size <= payload.len() - offset {
            offset + max_payload_size
        } else {
            payload.len()
        };
        let is_last = end == payload.len();
        let status = if eom && is_last {
            STATUS_END_OF_MESSAGE
        } else {
            STATUS_NORMAL
        };
        let chunk = end - offset;
        let length: u16 = ((chunk % 0x10000 + 8) % 0x10000) as u16;
        assert(length == (8 + chunk) % 0x10000) by {
            assert((chunk % 0x10000 + 8) % 0x10000 == (8 + chunk as int) % 0x10000) by (nonlinear_arith);
        }
        let mut header: Vec<u8> = Vec::new();
        header.push(PACKET_TYPE_BULK_LOAD);
        header.push(status);
        header.push((length / 256) as u8);
        header.push((length % 256) as u8);
        header.push(0);
        header.push(0);
        header.push(self.packet_id);
        header.push(0);
        assert(header@ =~= packet_header(status, chunk as int, self.packet_id));
        self.packet_id = if self.packet_id == 255 {
            0
        } else {
            self.packet_id + 1
        };
        (header, end)
    }
}

/// The two little-endian bytes of `x` modulo 2^16.
pub open spec fn u16_le_bytes(x: int) -> Seq<u8> {
    seq![(x % 256) as u8, (x / 256 % 256) as u8]
}

/// The four little-endian bytes of `x` modulo 2^32.
pub open spec fn u32_le_bytes(x: int) -> Seq<u8> {
    seq![(x % 256) as u8, (x / 256 % 256) as u8, (x / 65536 % 256) as u8, (x / 16777216 % 256) as u8]
}

/// The encoding of the value `v` in a column of type `ti`: its length in the
/// width that the type announces (truncated to that width), then the value.
pub open spec fn value_encoding(v: Seq<u8>, ti: TypeInfo) -> Seq<u8> {
    match ti.dtype_max_len {
        Some(TypeInfoVarLen::Byte(_)) => seq![(v.len() % 256) as u8] + v,
        Some(TypeInfoVarLen::Ushort(_)) => u16_le_bytes(v.len() as int) + v,
        Some(TypeInfoVarLen::Long(_)) => u32_le_bytes(v.len() as int) + v,
        None => v,
    }
}

/// Number of values that a row of `vals` over the columns `cols` encodes.
pub open spec fn row_arity(vals: Seq<Seq<u8>>, cols: Seq<ColumnData>) -> int {
    if vals.len() <= cols.len() {
        vals.len() as int
    } else {
        cols.len() as int
    }
}

/// The encodings of the first `i` values.
pub open spec fn row_prefix(vals: Seq<Seq<u8>>, cols: Seq<ColumnData>, i: int) -> Seq<u8>
    decreases i,
{
    if i <= 0 {
        Seq::empty()
    } else {
        row_prefix(vals, cols, i - 1) + value_encoding(vals[i - 1], cols[i - 1].type_info)
    }
}

/// The encodings of the values from `k` on.
pub open spec fn row_suffix(vals: Seq<Seq<u8>>, cols: Seq<ColumnData>, k: int) -> Seq<u8>
    decreases row_arity(vals, cols) - k,
{
    if k < 0 || k >= row_arity(vals, cols) {
        Seq::empty()
    } else {
        value_encoding(vals[k], cols[k].type_info) + row_suffix(vals, cols, k + 1)
    }
}

/// The values of a row, after its token byte: each value encoded for its
/// column, as many as there are both values and columns.
pub open spec fn row_body(vals: Seq<Seq<u8>>, cols: Seq<ColumnData>) -> Seq<u8> {
    row_prefix(vals, cols, row_arity(vals, cols))
}

proof fn lemma_prefix_suffix(vals: Seq<Seq<u8>>, cols: Seq<ColumnData>, i: int)
    requires
        0 <= i <= row_arity(vals, cols),
    ensures
        row_prefix(vals, cols, i) + row_suffix(vals, cols, i) == row_suffix(vals, cols, 0),
    decreases i,
{
    if i > 0 {
        lemma_prefix_suffix(vals, cols, i - 1);
        assert(row_prefix(vals, cols, i) + row_suffix(vals, cols, i) =~= row_prefix(
            vals,
            cols,
            i - 1,
        ) + row_suffix(vals, cols, i - 1));
    } else {
        assert(row_prefix(vals, cols, 0) + row_suffix(vals, cols, 0) =~= row_suffix(
            vals,
            cols,
            0,
        ));
    }
}

/// The value `v` can be encoded in a column of type `ti` and read back: its
/// length fits the announced width, or equals the fixed length.
pub open spec fn value_fits(v: Seq<u8>, ti: TypeInfo) -> bool {
    match ti.dtype_max_len {
        Some(TypeInfoVarLen::Byte(_)) => v.len() < 0x100,
        Some(TypeInfoVarLen::Ushort(_)) => v.len() < 0x1_0000,
        Some(TypeInfoVarLen::Long(_)) => v.len() < 0x1_0000_0000,
        None => v.len() == ti.fixed_len,
    }
}

proof fn lemma_value_roundtrip(v: Seq<u8>, ti: TypeInfo, rest: Seq<u8>)
    requires
        value_fits(v, ti),
    ensures
        column_value(value_encoding(v, ti) + rest, ti) == Some(
            (v, value_encoding(v, ti).len() as int),
        ),
{
    let e = value_encoding(v, ti);
    let b = e + rest;
    let n = v.len() as int;
    match ti.dtype_max_len {
        Some(TypeInfoVarLen::Byte(_)) => {
            assert(b[0] == n);
            assert(b.subrange(1, 1 + n) =~= v);
        },
        Some(TypeInfoVarLen::Ushort(_)) => {
            assert(le_u16(b, 0) == n % 256 + 256 * (n / 256 % 256));
            assert(n % 256 + 256 * (n / 256 % 256) == n);
            assert(b.subrange(2, 2 + n) =~= v);
        },
        Some(TypeInfoVarLen::Long(_)) => {
            assert(le_u32(b, 0) == n % 256 + 256 * (n / 256 % 256) + 65536 * (n / 65536 % 256)
                + 16777216 * (n / 16777216 % 256));
            assert(n % 256 + 256 * (n / 256 % 256) + 65536 * (n / 65536 % 256) + 16777216 * (n
                / 16777216 % 256) == n);
            assert(b.subrange(4, 4 + n) =~= v);
        },
        None => {
            assert(b.subrange(0, n) =~= v);
        },
    }
}

/// Every value read by the cursor `it` until its last column, in order.
pub open spec fn read_all(it: RowIterView) -> Seq<Option<Seq<u8>>>
    decreases it.columns.len() - it.column,
{
    if it.column < 0 || it.column >= it.columns.len() {
        Seq::empty()
    } else {
        seq![row_step(it).0] + read_all(row_step(it).1)
    }
}

proof fn lemma_read_suffix(
    vals: Seq<Seq<u8>>,
    cols: Seq<ColumnData>,
    k: int,
    tail: Seq<u8>,
    nb: Seq<u8>,
)
    requires
        vals.len() == cols.len(),
        0 <= k <= cols.len(),
        forall|i: int| 0 <= i < vals.len() ==> value_fits(#[trigger] vals[i], cols[i].type_info),
        forall|c: int| 0 <= c < cols.len() ==> !#[trigger] is_null(nb, c),
    ensures
        read_all(
            RowIterView {
                bytes: row_suffix(vals, cols, k) + tail,
                columns: cols,
                null_bitmap: nb,
                column: k,
            },
        ) == vals.subrange(k, vals.len() as int).map_values(|v: Seq<u8>| Some(v)),
    decreases cols.len() - k,
{
    let it = RowIterView {
        bytes: row_suffix(vals, cols, k) + tail,
        columns: cols,
        null_bitmap: nb,
        column: k,
    };
    if k == cols.len() {
        assert(vals.subrange(k, vals.len() as int).map_values(|v: Seq<u8>| Some(v)) =~= Seq::<
            Option<Seq<u8>>,
        >::empty());
    } else {
        assert(!is_null(nb, k));
        let e = value_encoding(vals[k], cols[k].type_info);
        let rest = row_suffix(vals, cols, k + 1) + tail;
        assert(it.bytes =~= e + rest);
        lemma_value_roundtrip(vals[k], cols[k].type_info, rest);
        assert((e + rest).subrange(e.len() as int, (e + rest).len() as int) =~= rest);
        lemma_read_suffix(vals, cols, k + 1, tail, nb);
        assert(row_step(it).1 == RowIterView {
            bytes: rest,
            columns: cols,
            null_bitmap: nb,
            column: k + 1,
        });
        assert(vals.subrange(k, vals.len() as int).map_values(|v: Seq<u8>| Some(v)) =~= seq![
            Some(vals[k]),
        ] + vals.subrange(k + 1, vals.len() as int).map_values(|v: Seq<u8>| Some(v)));
    }
}

/// Reading back a written row: a cursor over the body of a row that
/// `push_row` encoded (no NULL bitmap, from the first column) yields every
/// value in order, when each value fits its column.
pub proof fn lemma_row_roundtrip(vals: Seq<Seq<u8>>, cols: Seq<ColumnData>)
    requires
        vals.len() == cols.len(),
        forall|i: int| 0 <= i < vals.len() ==> value_fits(#[trigger] vals[i], cols[i].type_info),
    ensures
        read_all(
            RowIterView {
                bytes: row_body(vals, cols),
                columns: cols,
                null_bitmap: Seq::empty(),
                column: 0,
            },
        ) == vals.map_values(|v: Seq<u8>| Some(v)),
{
    lemma_prefix_suffix(vals, cols, row_arity(vals, cols));
    assert(row_suffix(vals, cols, row_arity(vals, cols)) =~= Seq::<u8>::empty());
    assert(row_body(vals, cols) =~= row_suffix(vals, cols, 0) + Seq::<u8>::empty());
    lemma_read_suffix(vals, cols, 0, Seq::empty(), Seq::empty());
    assert(vals.subrange(0, vals.len() as int) =~= vals);
}

/// An ongoing bulk load: the columns it loads, its packet writer and the
/// encoding of the last row.
#[derive(Debug)]
pub struct BulkLoad {
    col_metadata: ColMetaDataToken,
    writer: BulkLoadWriter,
    buf: Vec<u8>,
}

/// What a `BulkLoad` holds.
pub struct BulkLoadView {
    pub columns: Seq<ColumnData>,
    pub metadata: Seq<u8>,
    pub writer: BulkLoadWriterView,
    pub buf: Seq<u8>,
}

impl View for BulkLoad {
    type V = BulkLoadView;

    closed spec fn view(&self) -> BulkLoadView {
        BulkLoadView {
            columns: self.col_metadata.column_data@,
            metadata: self.col_metadata.bytes@,
            writer: self.writer@,
            buf: self.buf@,
        }
    }
}

/// The contents of the vectors `v`.
pub open spec fn values_view(v: Seq<Vec<u8>>) -> Seq<Seq<u8>> {
    v.map_values(|x: Vec<u8>| x@)
}

/// Appends the bytes of `s` to `v`.
fn extend(v: &mut Vec<u8>, s: &[u8])
    ensures
        final(v)@ == old(v)@ + s@,
{
    let mut i: usize = 0;
    while i < s.len()
        invariant
            i <= s@.len(),
            v@ == old(v)@ + s@.subrange(0, i as int),
        decreases s@.len() - i,
    {
        v.push(s[i]);
        i = i + 1;
        assert(s@.subrange(0, i as int) =~= s@.subrange(0, i - 1).push(s@[i - 1]));
    }
    assert(s@.subrange(0, s@.len() as int) =~= s@);
}

/// Appends the encoding of the value `bytes` in a column of type `ti`.
fn push_value(buf: &mut Vec<u8>, bytes: &[u8], ti: TypeInfo)
    ensures
        final(buf)@ == old(buf)@ + value_encoding(bytes@, ti),
{
    let n = bytes.len();
    let ghost before = buf@;
    match ti.dtype_max_len {
        Some(TypeInfoVarLen::Byte(_)) => {
            buf.push((n % 256) as u8);
        },
        Some(TypeInfoVarLen::Ushort(_)) => {
            buf.push((n % 256) as u8);
            buf.push((n / 256 % 256) as u8);
        },
        Some(TypeInfoVarLen::Long(_)) => {
            buf.push((n % 256) as u8);
            buf.push((n / 256 % 256) as u8);
            buf.push((n / 65536 % 256) as u8);
            buf.push((n / 16777216 % 256) as u8);
        },
        None => {},
    }
    let ghost mid = buf@;
    extend(buf, bytes);
    assert(buf@ =~= before + value_encoding(bytes@, ti));
}

/// The contents of the optional vectors `v`.
pub open spec fn opt_values_view(v: Seq<Option<Vec<u8>>>) -> Seq<Option<Seq<u8>>> {
    v.map_values(
        |x: Option<Vec<u8>>|
            match x {
                Some(b) => Some(b@),
                None => None,
            },
    )
}

/// Number of values that an NBCROW of `vals` over the columns `cols` encodes.
pub open spec fn nbc_arity(vals: Seq<Option<Seq<u8>>>, cols: Seq<ColumnData>) -> int {
    if vals.len() <= cols.len() {
        vals.len() as int
    } else {
        cols.len() as int
    }
}

/// The bit that the NBCROW encoder sets for a NULL at position `j` of a bitmap
/// byte: the bit numbered by the mask `1 << j`, which stays below 8 only for `j < 3`.
pub open spec fn nbc_null_bit(j: int) -> u8 {
    if j == 0 {
        2
    } else if j == 1 {
        4
    } else {
        16
    }
}

/// The NULL bitmap of `nbytes` bytes after the first `i` values of `vals`.
pub open spec fn nbc_bitmap(vals: Seq<Option<Seq<u8>>>, i: int, nbytes: int) -> Seq<u8>
    decreases i,
{
    if i <= 0 {
        Seq::new(nbytes as nat, |k: int| 0u8)
    } else {
        let bm = nbc_bitmap(vals, i - 1, nbytes);
        if vals[i - 1] is None {
            bm.update((i - 1) / 8, bm[(i - 1) / 8] | nbc_null_bit((i - 1) % 8))
        } else {
            bm
        }
    }
}

/// The encodings of the values that are present among the first `i`.
pub open spec fn nbc_values(vals: Seq<Option<Seq<u8>>>, cols: Seq<ColumnData>, i: int) -> Seq<u8>
    decreases i,
{
    if i <= 0 {
        Seq::empty()
    } else {
        nbc_values(vals, cols, i - 1) + match vals[i - 1] {
            Some(v) => value_encoding(v, cols[i - 1].type_info),
            None => Seq::empty(),
        }
    }
}

/// Every NULL among the values that an NBCROW encodes stands at a position
/// below 3 of its bitmap byte, where the encoder's mask shift stays in range.
pub open spec fn nbc_nulls_encodable(vals: Seq<Option<Seq<u8>>>, cols: Seq<ColumnData>) -> bool {
    forall|i: int| 0 <= i < nbc_arity(vals, cols) && #[trigger] vals[i] is None ==> i % 8 < 3
}

proof fn lemma_nbc_without_nulls(vals: Seq<Seq<u8>>, cols: Seq<ColumnData>, i: int, nbytes: int)
    requires
        0 <= i <= vals.len(),
        vals.len() <= cols.len(),
        nbytes >= 0,
    ensures
        nbc_bitmap(vals.map_values(|v: Seq<u8>| Some(v)), i, nbytes) == Seq::new(
            nbytes as nat,
            |k: int| 0u8,
        ),
        nbc_values(vals.map_values(|v: Seq<u8>| Some(v)), cols, i) == row_prefix(vals, cols, i),
    decreases i,
{
    if i > 0 {
        lemma_nbc_without_nulls(vals, cols, i - 1, nbytes);
        let opt = vals.map_values(|v: Seq<u8>| Some(v));
        assert(opt[i - 1] == Some(vals[i - 1]));
    }
}

/// Reading back a written NBCROW: when no value is NULL, a cursor over the
/// bitmap and values that `push_nbc_row` encoded (from the first column)
/// yields every value in order, each fitting its column.
pub proof fn lemma_nbc_row_roundtrip(vals: Seq<Seq<u8>>, cols: Seq<ColumnData>)
    requires
        vals.len() == cols.len(),
        forall|i: int| 0 <= i < vals.len() ==> value_fits(#[trigger] vals[i], cols[i].type_info),
    ensures
        ({
            let opt = vals.map_values(|v: Seq<u8>| Some(v));
            let n = nbc_arity(opt, cols);
            read_all(
                RowIterView {
                    bytes: nbc_values(opt, cols, n),
                    columns: cols,
                    null_bitmap: nbc_bitmap(opt, n, bitmap_len(cols.len() as int)),
                    column: 0,
                },
            ) == opt
        }),
{
    let opt = vals.map_values(|v: Seq<u8>| Some(v));
    let n = vals.len() as int;
    let nbytes = bitmap_len(cols.len() as int);
    lemma_nbc_without_nulls(vals, cols, n, nbytes);
    let nb = Seq::new(nbytes as nat, |k: int| 0u8);
    assert(forall|k: u8| (0u8 >> k) & 1u8 == 0u8) by (bit_vector);
    assert forall|c: int| 0 <= c < cols.len() implies !#[trigger] is_null(nb, c) by {
        if 0 <= c / 8 < nb.len() {
            assert(nb[c / 8] == 0u8);
            assert((0u8 >> ((c % 8) as u8)) & 1u8 == 0u8);
        }
    }
    lemma_prefix_suffix(vals, cols, n);
    assert(row_suffix(vals, cols, n) =~= Seq::<u8>::empty());
    assert(row_prefix(vals, cols, n) =~= row_suffix(vals, cols, 0) + Seq::<u8>::empty());
    lemma_read_suffix(vals, cols, 0, Seq::empty(), nb);
    assert(vals.subrange(0, vals.len() as int) =~= vals);
}

impl BulkLoad {
    /// A bulk load of the columns of `col_metadata` in packets of `packet_size`
    /// bytes; its metadata is the first message to send.
    pub fn prepare(col_metadata: ColMetaDataToken, packet_size: usize) -> (r: Self)
        ensures
            r@.columns == col_metadata.column_data@,
            r@.metadata == col_metadata.bytes@,
            r@.writer == (BulkLoadWriterView { packet_size, packet_id: 0 }),
            r@.buf == Seq::<u8>::empty(),
    {
        BulkLoad { col_metadata, writer: BulkLoadWriter::new(packet_size), buf: Vec::new() }
    }

    /// The encoding of the last row pushed.
    pub fn row_bytes(&self) -> (r: &[u8])
        ensures
            r@ == self@.buf,
    {
        self.buf.as_slice()
    }

    /// The wire form of the column metadata.
    pub fn metadata_bytes(&self) -> (r: &[u8])
        ensures
            r@ == self@.metadata,
    {
        self.col_metadata.as_bytes()
    }

    /// Frames the next packet of `payload` from `offset` with this load's writer.
    pub fn next_packet(&mut self, payload: &[u8], offset: usize, eom: bool) -> (r: (Vec<u8>, usize))
        requires
            offset < payload@.len(),
        ensures
            final(self)@.columns == old(self)@.columns,
            final(self)@.metadata == old(self)@.metadata,
            final(self)@.buf == old(self)@.buf,
            final(self)@.writer.packet_size == old(self)@.writer.packet_size,
            final(self)@.writer.packet_id == (old(self)@.writer.packet_id + 1) % 256,
            offset < r.1 <= payload@.len(),
            r.1 == if offset + max_payload(old(self)@.writer.packet_size) <= payload@.len() {
                offset + max_payload(old(self)@.writer.packet_size)
            } else {
                payload@.len() as int
            },
            r.0@ == packet_header(
                if eom && r.1 == payload@.len() {
                    STATUS_END_OF_MESSAGE
                } else {
                    STATUS_NORMAL
                },
                r.1 - offset,
                old(self)@.writer.packet_id,
            ),
    {
        self.writer.next_packet(payload, offset, eom)
    }

    /// Frames the next packet of the last row pushed, from `offset`; row
    /// messages never end the bulk load.
    pub fn next_row_packet(&mut self, offset: usize) -> (r: (Vec<u8>, usize))
        requires
            offset < old(self)@.buf.len(),
        ensures
            final(self)@.columns == old(self)@.columns,
            final(self)@.metadata == old(self)@.metadata,
            final(self)@.buf == old(self)@.buf,
            final(self)@.writer.packet_size == old(self)@.writer.packet_size,
            final(self)@.writer.packet_id == (old(self)@.writer.packet_id + 1) % 256,
            offset < r.1 <= old(self)@.buf.len(),
            r.1 == if offset + max_payload(old(self)@.writer.packet_size) <= old(self)@.buf.len() {
                offset + max_payload(old(self)@.writer.packet_size)
            } else {
                old(self)@.buf.len() as int
            },
            r.0@ == packet_header(STATUS_NORMAL, r.1 - offset, old(self)@.writer.packet_id),
    {
        self.writer.next_packet(self.buf.as_slice(), offset, false)
    }

    /// Encodes a row in place of the last one: the ROW token byte, then each
    /// value encoded for its column, as many as there are both values and columns.
    pub fn push_row(&mut self, columns: &[Vec<u8>])
        ensures
            final(self)@.columns == old(self)@.columns,
            final(self)@.metadata == old(self)@.metadata,
            final(self)@.writer == old(self)@.writer,
            final(self)@.buf == seq![TOKEN_ROW] + row_body(values_view(columns@), old(self)@.columns),
    {
        self.buf.clear();
        self.buf.push(TOKEN_ROW);
        let n = if columns.len() <= self.col_metadata.column_data.len() {
            columns.len()
        } else {
            self.col_metadata.column_data.len()
        };
        let ghost vals = values_view(columns@);
        let ghost cols = self.col_metadata.column_data@;
        let mut i: usize = 0;
        while i < n
            invariant
                i <= n,
                n == row_arity(vals, cols),
                n <= columns@.len(),
                n <= cols.len(),
                vals == values_view(columns@),
                cols == self.col_metadata.column_data@,
                self@.metadata == old(self)@.metadata,
                self@.writer == old(self)@.writer,
                self@.columns == old(self)@.columns,
                self.buf@ == seq![TOKEN_ROW] + row_prefix(vals, cols, i as int),
            decreases n - i,
        {
            let ti = self.col_metadata.column_data[i].type_info;
            push_value(&mut self.buf, columns[i].as_slice(), ti);
            i = i + 1;
            assert(self.buf@ =~= seq![TOKEN_ROW] + row_prefix(vals, cols, i as int));
        }
    }

    /// Encodes a row with NULLs in place of the last one: the NBCROW token
    /// byte, a bitmap of one bit per column in which each NULL sets
    /// `nbc_null_bit`, then each present value encoded for its column.
    pub fn push_nbc_row(&mut self, columns: &[Option<Vec<u8>>])
        requires
            nbc_nulls_encodable(opt_values_view(columns@), old(self)@.columns),
        ensures
            final(self)@.columns == old(self)@.columns,
            final(self)@.metadata == old(self)@.metadata,
            final(self)@.writer == old(self)@.writer,
            ({
                let vals = opt_values_view(columns@);
                let cols = old(self)@.columns;
                let n = nbc_arity(vals, cols);
                final(self)@.buf == seq![TOKEN_NBCROW] + nbc_bitmap(
                    vals,
                    n,
                    bitmap_len(cols.len() as int),
                ) + nbc_values(vals, cols, n)
            }),
    {
        self.buf.clear();
        self.buf.push(TOKEN_NBCROW);
        let ncols = self.col_metadata.column_data.len();
        let bitmap = ncols / 8 + if ncols % 8 == 0 {
            0
        } else {
            1
        };
        let mut k: usize = 0;
        let ghost vals = opt_values_view(columns@);
        let ghost cols = self.col_metadata.column_data@;
        while k < bitmap
            invariant
                k <= bitmap,
                self@.metadata == old(self)@.metadata,
                self@.writer == old(self)@.writer,
                self@.columns == old(self)@.columns,
                self.buf@ == seq![TOKEN_NBCROW] + Seq::new(k as nat, |j: int| 0u8),
            decreases bitmap - k,
        {
            self.buf.push(0);
            k = k + 1;
            assert(self.buf@ =~= seq![TOKEN_NBCROW] + Seq::new(k as nat, |j: int| 0u8));
        }
        let n = if columns.len() <= ncols {
            columns.len()
        } else {
            ncols
        };
        let mut i: usize = 0;
        assert(nbc_bitmap(vals, 0, bitmap as int) =~= Seq::new(bitmap as nat, |j: int| 0u8));
        assert(self.buf@ =~= seq![TOKEN_NBCROW] + nbc_bitmap(vals, 0, bitmap as int) + nbc_values(vals, cols, 0));
        while i < n
            invariant
                i <= n,
                n == nbc_arity(vals, cols),
                n <= columns@.len(),
                n <= cols.len(),
                ncols == cols.len(),
                bitmap == bitmap_len(cols.len() as int),
                vals == opt_values_view(columns@),
                cols == self.col_metadata.column_data@,
                nbc_nulls_encodable(vals, cols),
                self@.metadata == old(self)@.metadata,
                self@.writer == old(self)@.writer,
                self@.columns == old(self)@.columns,
                nbc_bitmap(vals, i as int, bitmap as int).len() == bitmap,
                self.buf@ == seq![TOKEN_NBCROW] + nbc_bitmap(vals, i as int, bitmap as int)
                    + nbc_values(vals, cols, i as int),
            decreases n - i,
        {
            let ti = self.col_metadata.column_data[i].type_info;
            let ghost bm = nbc_bitmap(vals, i as int, bitmap as int);
            let ghost vs = nbc_values(vals, cols, i as int);
            match &columns[i] {
                None => {
                    assert(vals[i as int] is None);
                    let idx = 1 + i / 8;
                    let bit: u8 = if i % 8 == 0 {
                        2
                    } else if i % 8 == 1 {
                        4
                    } else {
                        16
                    };
                    let cur = self.buf[idx];
                    self.buf.set(idx, cur | bit);
                    assert(self.buf@ =~= seq![TOKEN_NBCROW] + bm.update(
                        (i / 8) as int,
                        bm[(i / 8) as int] | nbc_null_bit((i % 8) as int),
                    ) + vs);
                },
                Some(bytes) => {
                    assert(vals[i as int] == Some(bytes@));
                    push_value(&mut self.buf, bytes.as_slice(), ti);
                    assert(self.buf@ =~= seq![TOKEN_NBCROW] + bm + (vs + value_encoding(bytes@, ti)));
                },
            }
            i = i + 1;
        }
    }
}

} // verus!
