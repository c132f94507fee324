//! SQL batch requests: ALL_HEADERS, the UTF-16 text and the packet around them.
use vstd::prelude::*;
use crate::bulk_load::{u16_le_bytes, u32_le_bytes};
use crate::error::EncodeError;
use crate::session::SessionBuffer;
use crate::text::string_chars_utf16_le;

verus! {

/// Packet type of a SQL batch.
pub const PACKET_TYPE_SQL_BATCH: u8 = 0x01;
/// ALL_HEADERS type of a transaction descriptor header.
pub const HEADER_TYPE_TRANSACTION_DESCRIPTOR: u16 = 0x0002;
/// Length of a transaction descriptor header.
pub const TRANSACTION_DESCRIPTOR_HEADER_LENGTH: u32 = 18;

/// The transaction that a request runs in, and how many requests are outstanding.
#[derive(Debug, Clone, Copy, PartialEq, Eq)]
pub struct TransactionDescriptorHeader {
    pub transaction_descriptor: u64,
    pub outstanding_request_count: u32,
}

/// One header of ALL_HEADERS.
#[derive(Debug, Clone, Copy, PartialEq, Eq)]
pub enum DataStreamHeaderType {
    TransactionDescriptor(TransactionDescriptorHeader),
}

/// The headers that precede a request.
#[derive(Debug, Clone)]
pub struct AllHeaders {
    pub headers: Vec<DataStreamHeaderType>,
}

/// The eight little-endian bytes of `x`.
pub open spec fn u64_le_bytes(x: u64) -> Seq<u8> {
    u32_le_bytes((x % 0x1_0000_0000) as int) + u32_le_bytes((x / 0x1_0000_0000) as int)
}

/// The encoding of one header: its length, its type, its data.
pub open spec fn header_bytes(h: DataStreamHeaderType) -> Seq<u8> {
    match h {
        DataStreamHeaderType::TransactionDescriptor(t) => u32_le_bytes(
            TRANSACTION_DESCRIPTOR_HEADER_LENGTH as int,
        ) + u16_le_bytes(HEADER_TYPE_TRANSACTION_DESCRIPTOR as int) + u64_le_bytes(
            t.transaction_descriptor,
        ) + u32_le_bytes(t.outstanding_request_count as int),
    }
}

/// The encodings of the headers `hs`, one after the other.
pub open spec fn headers_bytes(hs: Seq<DataStreamHeaderType>) -> Seq<u8>
    decreases hs.len(),
{
    if hs.len() == 0 {
        Seq::empty()
    } else {
        headers_bytes(hs.drop_last()) + header_bytes(hs.last())
    }
}

/// ALL_HEADERS: its total length, then the headers.
pub open spec fn all_headers_bytes(hs: Seq<DataStreamHeaderType>) -> Seq<u8> {
    u32_le_bytes(4 + headers_bytes(hs).len() as int) + headers_bytes(hs)
}

impl AllHeaders {
    /// The headers `headers`, in order.
    pub fn new(headers: Vec<DataStreamHeaderType>) -> (r: Self)
        ensures
            r.headers@ == headers@,
    {
        AllHeaders { headers }
    }

    /// The wire form of these headers.
    pub fn encode(&self, out: &mut Vec<u8>)
        requires
            self.headers@.len() * 18 + 4 < 0x1_0000_0000,
        ensures
            final(out)@ == old(out)@ + all_headers_bytes(self.headers@),
    {
        let ghost start = out@;
        let n = self.headers.len();
        let total: u32 = 4 + (n as u32) * 18;
        proof {
            lemma_headers_len(self.headers@);
        }
        push_u32(out, total);
        let ghost after_total = out@;
        let mut i: usize = 0;
        while i < n
            invariant
                i <= n,
                n == self.headers@.len(),
                out@ == after_total + headers_bytes(self.headers@.subrange(0, i as int)),
            decreases n - i,
        {
            match self.headers[i] {
                DataStreamHeaderType::TransactionDescriptor(t) => {
                    push_u32(out, TRANSACTION_DESCRIPTOR_HEADER_LENGTH);
                    push_u16(out, HEADER_TYPE_TRANSACTION_DESCRIPTOR);
                    push_u32(out, (t.transaction_descriptor % 0x1_0000_0000) as u32);
                    push_u32(out, (t.transaction_descriptor / 0x1_0000_0000) as u32);
                    push_u32(out, t.outstanding_request_count);
                },
            }
            proof {
                let hs = self.headers@.subrange(0, i + 1);
                assert(hs.drop_last() =~= self.headers@.subrange(0, i as int));
            }
            i = i + 1;
            assert(out@ =~= after_total + headers_bytes(self.headers@.subrange(0, i as int)));
        }
        assert(self.headers@.subrange(0, n as int) =~= self.headers@);
        assert(out@ =~= start + all_headers_bytes(self.headers@));
    }
}

proof fn lemma_headers_len(hs: Seq<DataStreamHeaderType>)
    ensures
        headers_bytes(hs).len() == 18 * hs.len(),
    decreases hs.len(),
{
    if hs.len() > 0 {
        lemma_headers_len(hs.drop_last());
    }
}

/// Appends the little-endian bytes of `x`.
fn push_u16(out: &mut Vec<u8>, x: u16)
    ensures
        final(out)@ == old(out)@ + u16_le_bytes(x as int),
{
    out.push((x % 256) as u8);
    out.push((x / 256 % 256) as u8);
    assert(out@ =~= old(out)@ + u16_le_bytes(x as int));
}

/// Appends the little-endian bytes of `x`.
fn push_u32(out: &mut Vec<u8>, x: u32)
    ensures
        final(out)@ == old(out)@ + u32_le_bytes(x as int),
{
    out.push((x % 256) as u8);
    out.push((x / 256 % 256) as u8);
    out.push((x / 65536 % 256) as u8);
    out.push((x / 16777216 % 256) as u8);
    assert(out@ =~= old(out)@ + u32_le_bytes(x as int));
}

/// The header of a packet: type, status, big-endian length, server process
/// id, packet number and window.
#[derive(Debug, Clone, Copy, PartialEq, Eq)]
pub struct SQLBatchHeader {
    pub ty: u8,
    pub status: u8,
    pub length: u16,
    pub spid: u16,
    pub packet_id: u8,
    pub window: u8,
}

impl SQLBatchHeader {
    /// A header of a SQL batch that is a whole message in one packet.
    pub fn new() -> (r: Self)
        ensures
            r == (SQLBatchHeader {
                ty: PACKET_TYPE_SQL_BATCH,
                status: 0x01,
                length: 0,
                spid: 0,
                packet_id: 0,
                window: 0,
            }),
    {
        SQLBatchHeader { ty: PACKET_TYPE_SQL_BATCH, status: 0x01, length: 0, spid: 0, packet_id: 0, window: 0 }
    }
}

impl Default for SQLBatchHeader {
    fn default() -> (r: Self)
        ensures
            r == (SQLBatchHeader {
                ty: PACKET_TYPE_SQL_BATCH,
                status: 0x01,
                length: 0,
                spid: 0,
                packet_id: 0,
                window: 0,
            }),
    {
        SQLBatchHeader::new()
    }
}

/// The eight bytes of the packet header `h`.
pub open spec fn packet_header_bytes(h: SQLBatchHeader) -> Seq<u8> {
    seq![
        h.ty,
        h.status,
        (h.length / 256) as u8,
        (h.length % 256) as u8,
        (h.spid / 256) as u8,
        (h.spid % 256) as u8,
        h.packet_id,
        h.window,
    ]
}

/// A SQL batch: the headers and the text of the statements.
#[derive(Debug, Clone)]
pub struct SQLBatch {
    pub(crate) all_headers: AllHeaders,
    pub(crate) sql_text: String,
}

/// The enclave package that TDS 8.0 lets a batch carry.
pub struct EnclavePackage;

/// The payload of a batch: ALL_HEADERS, then the text in UTF-16LE.
pub open spec fn batch_payload(hs: Seq<DataStreamHeaderType>, text: Seq<char>) -> Seq<u8> {
    all_headers_bytes(hs) + crate::text::utf16_le_of(text)
}

impl SQLBatch {
    /// A batch of `sql_text` behind `all_headers`.
    pub fn new(all_headers: AllHeaders, sql_text: String) -> (r: Self)
        ensures
            r.headers_view() == all_headers.headers@,
            r.text_view() == sql_text@,
    {
        SQLBatch { all_headers, sql_text }
    }

    /// The headers, borrowed.
    pub fn all_headers(&self) -> (r: &AllHeaders)
        ensures
            r.headers@ == self.headers_view(),
    {
        &self.all_headers
    }

    /// The text, borrowed.
    pub fn sql_text(&self) -> (r: &str)
        ensures
            r@ == self.text_view(),
    {
        self.sql_text.as_str()
    }

    /// The headers.
    pub closed spec fn headers_view(&self) -> Seq<DataStreamHeaderType> {
        self.all_headers.headers@
    }

    /// The text.
    pub closed spec fn text_view(&self) -> Seq<char> {
        self.sql_text@
    }

    /// Encodes the batch as one packet into `buffer`: sets the header's length
    /// to the packet's and gives that length. A packet longer than the
    /// buffer's packet size, or than a 16-bit length can say, is refused.
    pub fn oneshot(&self, buffer: &mut SessionBuffer, header: &mut SQLBatchHeader) -> (r: Result<
        usize,
        EncodeError,
    >)
        requires
            self.headers_view().len() * 18 + 4 < 0x1_0000_0000,
        ensures
            ({
                let payload = batch_payload(self.headers_view(), self.text_view());
                let total = 8 + payload.len();
                if total <= old(buffer)@.maximum && total <= 0xffff {
                    &&& r == Ok::<usize, EncodeError>(total as usize)
                    &&& *final(header) == (SQLBatchHeader { length: total as u16, ..*old(header) })
                    &&& final(buffer)@.bytes == packet_header_bytes(*final(header)) + payload
                    &&& final(buffer)@.readable == 0
                    &&& final(buffer)@.maximum == old(buffer)@.maximum
                } else {
                    &&& r matches Err(EncodeError::BufferTooSmall { required, available })
                    &&& required == if total <= usize::MAX {
                        total as int
                    } else {
                        usize::MAX as int
                    }
                    &&& available == old(buffer)@.maximum
                    &&& *final(header) == *old(header)
                    &&& final(buffer)@ == old(buffer)@
                }
            }),
    {
        let mut payload: Vec<u8> = Vec::new();
        self.all_headers.encode(&mut payload);
        let ghost hb = payload@;
        string_chars_utf16_le(&self.sql_text, &mut payload);
        assert(payload@ =~= batch_payload(self.headers_view(), self.text_view()));
        let available = buffer.buffer_size();
        if payload.len() > 0xffff - 8 || 8 + payload.len() > available {
            let required = if payload.len() <= usize::MAX - 8 {
                8 + payload.len()
            } else {
                usize::MAX
            };
            return Err(EncodeError::BufferTooSmall { required, available });
        }
        let total = 8 + payload.len();
        header.length = total as u16;
        let mut packet: Vec<u8> = Vec::new();
        packet.push(header.ty);
        packet.push(header.status);
        packet.push((header.length / 256) as u8);
        packet.push((header.length % 256) as u8);
        packet.push((header.spid / 256) as u8);
        packet.push((header.spid % 256) as u8);
        packet.push(header.packet_id);
        packet.push(header.window);
        let ghost hdr = packet@;
        let mut i: usize = 0;
        while i < payload.len()
            invariant
                i <= payload@.len(),
                packet@ == hdr + payload@.subrange(0, i as int),
            decreases payload@.len() - i,
        {
            packet.push(payload[i]);
            i = i + 1;
            assert(packet@ =~= hdr + payload@.subrange(0, i as int));
        }
        assert(payload@.subrange(0, payload@.len() as int) =~= payload@);
        assert(hdr =~= packet_header_bytes(*header));
        buffer.store(packet);
        Ok(total)
    }
}

} // verus!
