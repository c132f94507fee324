//! Reading a response that spans packets: the buffer of received payload and
//! the decoding of its tokens, result sets with their column metadata and rows
//! included.
use vstd::prelude::*;
use crate::decode::{tokens_view, DecodeOutput, QueryResult, QueryResults};
use crate::env_change::{apply_env_change, env_effect, route_error_matches, route_view, RouteError, RouteView, Routing};
use crate::error::SessionError;
use crate::colmetadata::{colmetadata_at, lemma_colmetadata_extend, ColMetaDataToken, ColumnData};
use crate::rows::{frame_row, lemma_row_frame_bound, lemma_row_frame_extend, row_frame};
use crate::token::{
    done_of, frame_of, is_done_token, lemma_frame_bounds, lemma_frame_extend, DoneToken,
    ErrorInfoToken, Frame, NoContextStep, ReturnStatusToken, TokenDecoder, TOKEN_COLMETADATA,
    TOKEN_DONE, TOKEN_DONEINPROC, TOKEN_DONEPROC, TOKEN_ENVCHANGE, TOKEN_ERROR, TOKEN_NBCROW,
    TOKEN_RETURNSTATUS, TOKEN_ROW,
};
use crate::utils::{be_u16, le_u32, r_u16_be, signed};

verus! {

/// Largest TDS packet.
pub const MAX_TDS_PACKET_BYTES: usize = 32768;
/// Packet type of a server response.
pub const SERVER_PACKET_TYPE: u8 = 0x04;
/// Packet status bit: last packet of the message.
pub const END_OF_MESSAGE: u8 = 0x01;
/// Size of a packet header.
pub const HEADER_LENGTH: usize = 8;

/// The payload of the packets received so far: the bytes between `head` and
/// `tail` are unread; `eof` says that the last packet of the message came.
pub struct StreamingBuffer {
    bytes: Vec<u8>,
    head: usize,
    tail: usize,
    eof: bool,
}

/// What a `StreamingBuffer` holds.
pub struct StreamingBufferView {
    pub bytes: Seq<u8>,
    pub head: int,
    pub tail: int,
    pub eof: bool,
}

impl View for StreamingBuffer {
    type V = StreamingBufferView;

    closed spec fn view(&self) -> StreamingBufferView {
        StreamingBufferView {
            bytes: self.bytes@,
            head: self.head as int,
            tail: self.tail as int,
            eof: self.eof,
        }
    }
}

impl StreamingBufferView {
    /// The unread bytes.
    pub open spec fn unread(self) -> Seq<u8> {
        self.bytes.subrange(self.head, self.tail)
    }
}

/// What the header of a server packet says: the payload length and whether
/// the message ends with this packet; or why the packet is refused.
pub open spec fn packet_header_result(h: Seq<u8>) -> Result<(int, bool), SessionError> {
    if h[0] != SERVER_PACKET_TYPE {
        Err(SessionError::InvalidPacketType { got: h[0] })
    } else if be_u16(h, 2) < HEADER_LENGTH {
        Err(SessionError::PartialRead)
    } else {
        Ok((be_u16(h, 2) - HEADER_LENGTH, h[1] % 2 == 1))
    }
}

/// Checks the header of a received packet: it must be a server response whose
/// length covers the header; gives the payload length and the end-of-message bit.
pub fn check_packet_header(header: &[u8]) -> (r: Result<(usize, bool), SessionError>)
    requires
        header@.len() == HEADER_LENGTH,
    ensures
        match packet_header_result(header@) {
            Ok((n, eom)) => r matches Ok((m, e)) && m == n && e == eom,
            Err(SessionError::InvalidPacketType { got }) => r matches Err(
                SessionError::InvalidPacketType { got: g },
            ) && g == got,
            Err(_) => r matches Err(SessionError::PartialRead),
        },
{
    let ty = header[0];
    if ty != SERVER_PACKET_TYPE {
        return Err(SessionError::InvalidPacketType { got: ty });
    }
    let status = header[1];
    let length = r_u16_be(header, 2) as usize;
    if length < HEADER_LENGTH {
        return Err(SessionError::PartialRead);
    }
    Ok((length - HEADER_LENGTH, status % 2 == 1))
}

impl StreamingBuffer {
    /// The read and write positions lie within the buffer, which has room for two packets.
    pub open spec fn wf(&self) -> bool {
        &&& self@.head <= self@.tail <= self@.bytes.len()
        &&& self@.bytes.len() == 2 * MAX_TDS_PACKET_BYTES
    }

    /// An empty buffer with room for two packets.
    pub fn new() -> (r: Self)
        ensures
            r.wf(),
            r@.head == 0,
            r@.tail == 0,
            !r@.eof,
            r@.bytes.len() == 2 * MAX_TDS_PACKET_BYTES,
    {
        let bytes: Vec<u8> = vec![0u8; 2 * MAX_TDS_PACKET_BYTES];
        StreamingBuffer { bytes, head: 0, tail: 0, eof: false }
    }

    /// The unread bytes.
    pub fn unread(&self) -> (r: &[u8])
        requires
            self.wf(),
        ensures
            r@ == self@.unread(),
    {
        vstd::slice::slice_subrange(self.bytes.as_slice(), self.head, self.tail)
    }

    /// Where the unread bytes begin.
    pub fn head(&self) -> (r: usize)
        ensures
            r == self@.head,
    {
        self.head
    }

    /// Where the unread bytes end.
    pub fn tail(&self) -> (r: usize)
        ensures
            r == self@.tail,
    {
        self.tail
    }

    /// The message's last packet has come.
    pub fn eof(&self) -> (r: bool)
        ensures
            r == self@.eof,
    {
        self.eof
    }

    /// Room left after the unread bytes.
    pub fn room(&self) -> (r: usize)
        requires
            self.wf(),
        ensures
            r == self@.bytes.len() - self@.tail,
    {
        self.bytes.len() - self.tail
    }

    /// Moves the unread bytes to the start of the buffer.
    pub fn compact(&mut self)
        requires
            old(self).wf(),
        ensures
            final(self).wf(),
            final(self)@.unread() == old(self)@.unread(),
            final(self)@.eof == old(self)@.eof,
            old(self)@.head > 0 ==> final(self)@.head == 0 && final(self)@.tail == old(self)@.tail
                - old(self)@.head,
            old(self)@.head == 0 ==> final(self)@ == old(self)@,
    {
        if self.head > 0 {
            let remaining = self.tail - self.head;
            let ghost old_unread = self@.unread();
            let ghost old_bytes = self.bytes@;
            let mut i: usize = 0;
            while i < remaining
                invariant
                    0 < self.head <= self.tail <= self.bytes@.len(),
                    self.bytes@.len() == 2 * MAX_TDS_PACKET_BYTES,
                    old_bytes.len() == self.bytes@.len(),
                    remaining == self.tail - self.head,
                    i <= remaining,
                    old_unread == old(self)@.unread(),
                    old_unread == old_bytes.subrange(self.head as int, self.tail as int),
                    self.head == old(self).head,
                    self.tail == old(self).tail,
                    self.eof == old(self).eof,
                    forall|j: int| 0 <= j < i ==> #[trigger] self.bytes@[j] == old_bytes[self.head + j],
                    forall|j: int| self.head + i <= j < self.bytes@.len() ==> #[trigger] self.bytes@[j]
                        == old_bytes[j],
                decreases remaining - i,
            {
                let b = self.bytes[self.head + i];
                self.bytes.set(i, b);
                i = i + 1;
            }
            self.head = 0;
            self.tail = remaining;
            assert(self@.unread() =~= old_unread);
        }
    }

    /// Appends a packet's payload to the unread bytes, and notes the end of the
    /// message when the packet says so.
    pub fn append_payload(&mut self, payload: &[u8], eom: bool)
        requires
            old(self).wf(),
            old(self)@.tail + payload@.len() <= old(self)@.bytes.len(),
        ensures
            final(self).wf(),
            final(self)@.unread() == old(self)@.unread() + payload@,
            final(self)@.head == old(self)@.head,
            final(self)@.tail == old(self)@.tail + payload@.len(),
            final(self)@.eof == (old(self)@.eof || eom),
    {
        let ghost old_unread = self@.unread();
        let mut i: usize = 0;
        while i < payload.len()
            invariant
                self.head <= self.tail <= self.bytes@.len(),
                self.bytes@.len() == 2 * MAX_TDS_PACKET_BYTES,
                self.head == old(self).head,
                self.tail == old(self).tail,
                self.eof == old(self).eof,
                self.tail + payload@.len() <= self.bytes@.len(),
                i <= payload@.len(),
                self.bytes@.subrange(self.head as int, self.tail + i) == old_unread
                    + payload@.subrange(0, i as int),
            decreases payload@.len() - i,
        {
            let ghost before = self.bytes@;
            self.bytes.set(self.tail + i, payload[i]);
            proof {
                assert(self.bytes@.subrange(self.head as int, self.tail + i) == before.subrange(
                    self.head as int,
                    self.tail + i,
                ));
                assert(self.bytes@.subrange(self.head as int, self.tail + i + 1) =~= self.bytes@.subrange(
                    self.head as int,
                    self.tail + i,
                ).push(payload@[i as int]));
                assert(payload@.subrange(0, i + 1) =~= payload@.subrange(0, i as int).push(
                    payload@[i as int],
                ));
            }
            i = i + 1;
        }
        self.tail = self.tail + payload.len();
        if eom {
            self.eof = true;
        }
        assert(payload@.subrange(0, payload@.len() as int) =~= payload@);
    }

    /// Marks the first `n` unread bytes as read.
    pub fn consume(&mut self, n: usize)
        requires
            old(self).wf(),
            old(self)@.head + n <= old(self)@.tail,
        ensures
            final(self).wf(),
            final(self)@.unread() == old(self)@.unread().subrange(n as int, old(self)@.unread().len() as int),
            final(self)@.head == old(self)@.head + n,
            final(self)@.eof == old(self)@.eof,
    {
        self.head = self.head + n;
        assert(self@.unread() =~= old(self)@.unread().subrange(n as int, old(self)@.unread().len() as int));
    }
}

/// What one decoding step over the unread bytes ends with.
#[derive(Debug, Clone, Copy, PartialEq, Eq)]
pub enum StreamAction {
    /// The final DONE token came.
    Finished,
    /// A DONE token that more results follow ended a result.
    ResultCompleted,
    /// A byte that is no token here stops the decoding.
    Stopped,
    /// The next token is not whole yet.
    NeedMore,
}

/// What decoding hands to the caller, in stream order: each COLMETADATA token
/// read into its columns, and each ROW or NBCROW token under the latest of them.
#[derive(Debug)]
pub enum Handout {
    ColMetaData(ColMetaDataToken),
    Row(Vec<u8>),
}

/// A handout as values: the metadata token's bytes and columns, or the row token's bytes.
pub enum HandoutView {
    ColMetaData(Seq<u8>, Seq<ColumnData>),
    Row(Seq<u8>),
}

/// The value of a handout.
pub open spec fn handout_view(h: Handout) -> HandoutView {
    match h {
        Handout::ColMetaData(t) => HandoutView::ColMetaData(t.bytes@, t.column_data@),
        Handout::Row(r) => HandoutView::Row(r@),
    }
}

/// The values of the handouts `v`.
pub open spec fn handouts_view(v: Seq<Handout>) -> Seq<HandoutView> {
    v.map_values(|h: Handout| handout_view(h))
}

/// A result as values: its DONE token, its errors and its return status.
pub type ResultView = (DoneToken, Seq<Seq<u8>>, Option<ReturnStatusToken>);

/// The state of decoding a response, as values: the completed results, the
/// errors and return status of the result under way, the final DONE token, the
/// transaction descriptor and routing, the columns of the rows being read, and
/// what was handed out and not yet taken.
pub struct StreamModel {
    pub results: Seq<ResultView>,
    pub errors: Seq<Seq<u8>>,
    pub return_status: Option<ReturnStatusToken>,
    pub done: Option<DoneToken>,
    pub td: Option<u64>,
    pub routing: Option<RouteView>,
    pub meta: Option<Seq<ColumnData>>,
    pub handed: Seq<HandoutView>,
}

/// The RETURNSTATUS token that the five bytes `b` encode.
pub open spec fn return_status_of(b: Seq<u8>) -> ReturnStatusToken {
    ReturnStatusToken { value: signed(le_u32(b, 1), 32) as i32 }
}

/// A ROW or NBCROW token type.
pub open spec fn is_row_token(t: u8) -> bool {
    t == TOKEN_ROW || t == TOKEN_NBCROW
}

/// Orders the steps of `stream_fold` that read nothing: dropping the columns.
pub open spec fn meta_rank(m: StreamModel) -> int {
    if m.meta is Some {
        1
    } else {
        0
    }
}

/// One decoding step over the unread bytes `b`, of which `consumed` bytes
/// before `b` were read in this step and `committed` are given up for good.
/// While columns are current, each ROW or NBCROW token is framed by them,
/// handed out and committed, a DONE token is read as below, and any other
/// token drops the columns. Otherwise: ENVCHANGE tokens set the transaction
/// descriptor and routing; ERROR tokens are collected; a RETURNSTATUS token is
/// kept and commits what was read; a COLMETADATA token is read into its
/// columns, which become current and are handed out, and commits what was
/// read; INFO, LOGINACK, FEATUREEXTACK, SESSIONSTATE, SSPI and RETURNVALUE
/// tokens are passed over; a DONE token ends the step, the final one with its
/// token, another one with a completed result, committing what was read only
/// when it ends rows under current columns; a token not whole yet, or a byte
/// that is no token here, ends the step committing all it read. The step gives
/// how it ended (or the routing error met), the committed position, and the
/// new state.
#[verifier::opaque]
pub open spec fn stream_fold(b: Seq<u8>, consumed: int, committed: int, m: StreamModel) -> (
    Result<StreamAction, RouteError>,
    int,
    StreamModel,
)
    decreases b.len(), meta_rank(m),
{
    if b.len() > 0 && m.meta is Some && !is_row_token(b[0]) && !is_done_token(b[0]) {
        stream_fold(b, consumed, committed, StreamModel { meta: None, ..m })
    } else if b.len() > 0 && m.meta is Some && is_row_token(b[0]) {
        match row_frame(b, m.meta->0) {
            Some(n) => if n <= 0 || n > b.len() {
                (Ok(StreamAction::Stopped), consumed, m)
            } else {
                stream_fold(
                    b.subrange(n, b.len() as int),
                    consumed + n,
                    consumed + n,
                    StreamModel { handed: m.handed.push(HandoutView::Row(b.subrange(0, n))), ..m },
                )
            },
            None => (Ok(StreamAction::NeedMore), consumed, m),
        }
    } else {
        match frame_of(b) {
            Frame::Truncated => (Ok(StreamAction::NeedMore), consumed, m),
            Frame::Unknown => (Ok(StreamAction::Stopped), consumed, m),
            Frame::Whole(n) => if n <= 0 || n > b.len() {
                (Ok(StreamAction::Stopped), consumed, m)
            } else {
                let tok = b.subrange(0, n);
                let rest = b.subrange(n, b.len() as int);
                let t = b[0];
                if t == TOKEN_ENVCHANGE {
                    match env_effect(tok, m.td, m.routing) {
                        Ok((td, routing)) => stream_fold(
                            rest,
                            consumed + n,
                            committed,
                            StreamModel { td, routing, ..m },
                        ),
                        Err(e) => (Err(e), consumed, m),
                    }
                } else if t == TOKEN_ERROR {
                    stream_fold(
                        rest,
                        consumed + n,
                        committed,
                        StreamModel { errors: m.errors.push(tok), ..m },
                    )
                } else if is_done_token(t) {
                    let d = done_of(tok);
                    let end = if m.meta is Some {
                        consumed + n
                    } else {
                        committed
                    };
                    if d.status % 2 == 0 {
                        (
                            Ok(StreamAction::Finished),
                            end,
                            StreamModel { done: Some(d), meta: None, ..m },
                        )
                    } else {
                        (
                            Ok(StreamAction::ResultCompleted),
                            end,
                            StreamModel {
                                results: m.results.push((d, m.errors, m.return_status)),
                                errors: Seq::empty(),
                                return_status: None,
                                meta: None,
                                ..m
                            },
                        )
                    }
                } else if t == TOKEN_RETURNSTATUS {
                    stream_fold(
                        rest,
                        consumed + n,
                        consumed + n,
                        StreamModel { return_status: Some(return_status_of(tok)), ..m },
                    )
                } else if t == TOKEN_COLMETADATA {
                    let cols = colmetadata_at(b)->Done_0;
                    stream_fold(
                        rest,
                        consumed + n,
                        consumed + n,
                        StreamModel {
                            meta: Some(cols),
                            handed: m.handed.push(HandoutView::ColMetaData(tok, cols)),
                            ..m
                        },
                    )
                } else {
                    stream_fold(rest, consumed + n, committed, m)
                }
            },
        }
    }
}

/// The results of `v`, as values.
pub open spec fn results_view(v: Seq<QueryResult>) -> Seq<ResultView> {
    v.map_values(|q: QueryResult| (q.done_token, tokens_view(q.errors@), q.return_status))
}

/// The columns of an optional vector.
pub open spec fn columns_view(o: Option<Vec<ColumnData>>) -> Option<Seq<ColumnData>> {
    match o {
        Some(v) => Some(v@),
        None => None,
    }
}

/// The decoding state of a response.
pub struct TokenStreamState {
    results: Vec<QueryResult>,
    errors: Vec<ErrorInfoToken>,
    return_status: Option<ReturnStatusToken>,
    done_token: Option<DoneToken>,
    transaction_descriptor: Option<u64>,
    routing: Option<Routing>,
    meta: Option<Vec<ColumnData>>,
    handed: Vec<Handout>,
}

impl View for TokenStreamState {
    type V = StreamModel;

    closed spec fn view(&self) -> StreamModel {
        StreamModel {
            results: results_view(self.results@),
            errors: tokens_view(self.errors@),
            return_status: self.return_status,
            done: self.done_token,
            td: self.transaction_descriptor,
            routing: route_view(self.routing),
            meta: columns_view(self.meta),
            handed: handouts_view(self.handed@),
        }
    }
}

/// The state before any token.
pub open spec fn stream_start() -> StreamModel {
    StreamModel {
        results: Seq::empty(),
        errors: Seq::empty(),
        return_status: None,
        done: None,
        td: None,
        routing: None,
        meta: None,
        handed: Seq::empty(),
    }
}

/// A step commits no less than was committed before it and no further than
/// the bytes it was given.
proof fn lemma_stream_fold_bound(b: Seq<u8>, consumed: int, committed: int, m: StreamModel)
    requires
        committed <= consumed,
    ensures
        committed <= stream_fold(b, consumed, committed, m).1 <= consumed + b.len(),
    decreases b.len(), meta_rank(m),
{
    reveal(stream_fold);
    lemma_frame_bounds(b);
    if b.len() > 0 && m.meta is Some && !is_row_token(b[0]) && !is_done_token(b[0]) {
        lemma_stream_fold_bound(b, consumed, committed, StreamModel { meta: None, ..m });
    } else if b.len() > 0 && m.meta is Some && is_row_token(b[0]) {
        if let Some(n) = row_frame(b, m.meta->0) {
            if 0 < n <= b.len() {
                lemma_stream_fold_bound(
                    b.subrange(n, b.len() as int),
                    consumed + n,
                    consumed + n,
                    StreamModel { handed: m.handed.push(HandoutView::Row(b.subrange(0, n))), ..m },
                );
            }
        }
    } else if let Frame::Whole(n) = frame_of(b) {
        if 0 < n <= b.len() {
            let tok = b.subrange(0, n);
            let rest = b.subrange(n, b.len() as int);
            let t = b[0];
            if t == TOKEN_ENVCHANGE {
                if let Ok((td, routing)) = env_effect(tok, m.td, m.routing) {
                    lemma_stream_fold_bound(rest, consumed + n, committed, StreamModel { td, routing, ..m });
                }
            } else if t == TOKEN_ERROR {
                lemma_stream_fold_bound(
                    rest,
                    consumed + n,
                    committed,
                    StreamModel { errors: m.errors.push(tok), ..m },
                );
            } else if is_done_token(t) {
            } else if t == TOKEN_RETURNSTATUS {
                lemma_stream_fold_bound(
                    rest,
                    consumed + n,
                    consumed + n,
                    StreamModel { return_status: Some(return_status_of(tok)), ..m },
                );
            } else if t == TOKEN_COLMETADATA {
                let cols = colmetadata_at(b)->Done_0;
                lemma_stream_fold_bound(
                    rest,
                    consumed + n,
                    consumed + n,
                    StreamModel {
                        meta: Some(cols),
                        handed: m.handed.push(HandoutView::ColMetaData(tok, cols)),
                        ..m
                    },
                );
            } else {
                lemma_stream_fold_bound(rest, consumed + n, committed, m);
            }
        }
    }
}

impl TokenStreamState {
    /// The state before any token.
    pub fn new() -> (r: Self)
        ensures
            r@ == stream_start(),
    {
        let r = TokenStreamState {
            results: Vec::new(),
            errors: Vec::new(),
            return_status: None,
            done_token: None,
            transaction_descriptor: None,
            routing: None,
            meta: None,
            handed: Vec::new(),
        };
        assert(r@.results =~= Seq::<ResultView>::empty());
        assert(r@.errors =~= Seq::<Seq<u8>>::empty());
        assert(r@.handed =~= Seq::<HandoutView>::empty());
        r
    }

    /// The final DONE token has come.
    pub fn is_finished(&self) -> (r: bool)
        ensures
            r == self@.done is Some,
    {
        self.done_token.is_some()
    }

    /// Takes what was handed out, in order.
    pub fn take_handed(&mut self) -> (r: Vec<Handout>)
        ensures
            handouts_view(r@) == old(self)@.handed,
            final(self)@ == (StreamModel { handed: Seq::empty(), ..old(self)@ }),
    {
        let mut r: Vec<Handout> = Vec::new();
        core::mem::swap(&mut r, &mut self.handed);
        assert(handouts_view(self.handed@) =~= Seq::<HandoutView>::empty());
        r
    }

    /// Decodes the tokens of `unread` as `stream_fold` says; gives how the step
    /// ended and how many bytes of `unread` it committed, or the routing error
    /// met, with the state as it stood there.
    #[verifier::rlimit(80)]
    pub fn decode_step(&mut self, unread: &[u8]) -> (r: Result<(StreamAction, usize), SessionError>)
        ensures
            ({
                let (o, c, m) = stream_fold(unread@, 0, 0, old(self)@);
                &&& final(self)@ == m
                &&& match o {
                    Ok(a) => r == Ok::<(StreamAction, usize), SessionError>((a, c as usize)),
                    Err(e) => r matches Err(err) && route_error_matches(e, err),
                }
            }),
    {
        broadcast use vstd::slice::axiom_spec_len;

        proof {
            reveal(stream_fold);
        }
        proof {
            lemma_stream_fold_bound(unread@, 0, 0, self@);
        }
        let mut head: usize = 0;
        let mut committed: usize = 0;
        let ulen = unread.len();
        let mut decoder = TokenDecoder::new(unread);
        loop
            invariant
                ulen == unread@.len(),
                head <= unread@.len(),
                committed <= head,
                decoder.bytes@ == unread@.subrange(head as int, unread@.len() as int),
                stream_fold(unread@, 0, 0, old(self)@) == stream_fold(
                    decoder.bytes@,
                    head as int,
                    committed as int,
                    self@,
                ),
            decreases decoder.bytes@.len(),
        {
            let ghost b = decoder.bytes@;
            proof {
                reveal(stream_fold);
                lemma_frame_bounds(b);
                assert(b.len() == unread@.len() - head);
            }
            let bytes = decoder.bytes;
            if bytes.len() > 0 && self.meta.is_some() {
                let t = bytes[0];
                if t == TOKEN_ROW || t == TOKEN_NBCROW {
                    let framed = match &self.meta {
                        Some(cols) => frame_row(bytes, cols.as_slice()),
                        None => None,
                    };
                    proof {
                        lemma_row_frame_bound(b, self@.meta->0);
                    }
                    match framed {
                        Some(n) => {
                            let row = vstd::slice::slice_to_vec(vstd::slice::slice_subrange(bytes, 0, n));
                            let ghost before = self.handed@;
                            self.handed.push(Handout::Row(row));
                            assert(handouts_view(self.handed@) =~= handouts_view(before).push(
                                HandoutView::Row(b.subrange(0, n as int)),
                            ));
                            head = head + n;
                            committed = head;
                            decoder = TokenDecoder { bytes: vstd::slice::slice_subrange(bytes, n, bytes.len()) };
                            assert(decoder.bytes@ =~= unread@.subrange(head as int, unread@.len() as int));
                            continue ;
                        },
                        None => {
                            return Ok((StreamAction::NeedMore, head));
                        },
                    }
                } else if !(t == TOKEN_DONE || t == TOKEN_DONEPROC || t == TOKEN_DONEINPROC) {
                    let ghost m0 = self@;
                    self.meta = None;
                    assert(self@ == StreamModel { meta: None, ..m0 });
                    assert(stream_fold(b, head as int, committed as int, m0) == stream_fold(b, head as int, committed as int, self@));
                }
            }
            assert(b.len() > 0 && self@.meta is Some ==> is_row_token(b[0]) || is_done_token(b[0]));
            let step = decoder.advance();
            match step {
                Some(NoContextStep::FeatureExtAck(span, next)) => {
                    head = head + span.bytes.len();
                    decoder = next;
                },
                Some(NoContextStep::SessionState(span, next)) => {
                    head = head + span.bytes.len();
                    decoder = next;
                },
                Some(NoContextStep::Sspi(span, next)) => {
                    head = head + span.bytes.len();
                    decoder = next;
                },
                Some(NoContextStep::ReturnValue(span, next)) => {
                    head = head + span.bytes.len();
                    decoder = next;
                },
                Some(NoContextStep::ServerError(span, next)) => {
                    head = head + span.bytes.len();
                    let ghost before = self.errors@;
                    let e = span.own();
                    self.errors.push(e);
                    assert(tokens_view(self.errors@) =~= tokens_view(before).push(span.bytes@));
                    decoder = next;
                },
                Some(NoContextStep::EnvChange(span, next)) => {
                    match apply_env_change(&span, &mut self.transaction_descriptor, &mut self.routing) {
                        Ok(()) => {},
                        Err(e) => {
                            return Err(e);
                        },
                    }
                    head = head + span.bytes.len();
                    decoder = next;
                },
                Some(NoContextStep::Info(span, next)) => {
                    head = head + span.bytes.len();
                    decoder = next;
                },
                Some(NoContextStep::LoginAck(span, next)) => {
                    head = head + span.bytes.len();
                    decoder = next;
                },
                Some(NoContextStep::ColMetaData(tk, next)) => {
                    head = head + tk.bytes.len();
                    committed = head;
                    let cols = vstd::slice::slice_to_vec(tk.column_data.as_slice());
                    self.meta = Some(cols);
                    let ghost before = self.handed@;
                    let ghost hv = handout_view(Handout::ColMetaData(tk));
                    self.handed.push(Handout::ColMetaData(tk));
                    assert(handouts_view(self.handed@) =~= handouts_view(before).push(hv));
                    decoder = next;
                },
                Some(NoContextStep::Done(span, _)) => {
                    head = head + span.bytes.len();
                    let end = if self.meta.is_some() {
                        head
                    } else {
                        committed
                    };
                    let d = span.own();
                    self.meta = None;
                    if span.is_final() {
                        self.done_token = Some(d);
                        return Ok((StreamAction::Finished, end));
                    }
                    let ghost before = self@;
                    let mut errors: Vec<ErrorInfoToken> = Vec::new();
                    core::mem::swap(&mut errors, &mut self.errors);
                    let return_status = self.return_status;
                    self.return_status = None;
                    self.results.push(QueryResult { done_token: d, errors, return_status });
                    proof {
                        assert(results_view(self.results@) =~= before.results.push((d, before.errors, before.return_status)));
                        assert(tokens_view(self.errors@) =~= Seq::<Seq<u8>>::empty());
                    }
                    return Ok((StreamAction::ResultCompleted, end));
                },
                Some(NoContextStep::ReturnStatus(span, next)) => {
                    head = head + span.bytes.len();
                    committed = head;
                    self.return_status = Some(span.own());
                    decoder = next;
                },
                Some(NoContextStep::Error(_)) => {
                    return Ok((StreamAction::Stopped, head));
                },
                None => {
                    return Ok((StreamAction::NeedMore, head));
                },
            }
        }
    }

    /// What the response amounts to once decoding stopped at the unread bytes
    /// `unread` (`head` and `tail` locate them, `eof` says whether the message
    /// was complete): the results, the final one last, with the transaction
    /// descriptor and routing; without a final DONE token, an unexpected end of
    /// the stream with the first unread byte and up to 32 of them.
    pub fn finish(self, unread: &[u8], head: usize, tail: usize, eof: bool) -> (r: Result<
        DecodeOutput,
        SessionError,
    >)
        ensures
            self@.done matches Some(d) ==> (r matches Ok(out) && results_view(out.results.results@)
                == self@.results.push((d, self@.errors, self@.return_status))
                && out.transaction_descriptor == self@.td && route_view(out.routing)
                == self@.routing),
            self@.done is None ==> (r matches Err(
                SessionError::UnexpectedEndOfStream { head: h, tail: t, eof: e, peek, hexdump },
            ) && h == head && t == tail && e == eof && peek == (if unread@.len() > 0 {
                Some(unread@[0])
            } else {
                None::<u8>
            }) && hexdump@ == unread@.subrange(
                0,
                if unread@.len() < 32 {
                    unread@.len() as int
                } else {
                    32
                },
            )),
    {
        match self.done_token {
            Some(done_token) => {
                let ghost before = self@;
                let mut results = self.results;
                results.push(
                    QueryResult {
                        done_token,
                        errors: self.errors,
                        return_status: self.return_status,
                    },
                );
                assert(results_view(results@) =~= before.results.push((done_token, before.errors, before.return_status)));
                Ok(
                    DecodeOutput {
                        results: QueryResults { results },
                        transaction_descriptor: self.transaction_descriptor,
                        routing: self.routing,
                    },
                )
            },
            None => {
                let peek = if unread.len() > 0 {
                    Some(unread[0])
                } else {
                    None
                };
                let n = if unread.len() < 32 {
                    unread.len()
                } else {
                    32
                };
                let hexdump = vstd::slice::slice_to_vec(vstd::slice::slice_subrange(unread, 0, n));
                Err(SessionError::UnexpectedEndOfStream { head, tail, eof, peek, hexdump })
            },
        }
    }
}


/// The step ends by giving up all that it read: before a token not whole yet,
/// or at a byte that is no token here.
pub open spec fn commits_read(o: Result<StreamAction, RouteError>) -> bool {
    o == Ok::<StreamAction, RouteError>(StreamAction::NeedMore) || o == Ok::<
        StreamAction,
        RouteError,
    >(StreamAction::Stopped)
}

/// Two outcomes of decoding steps agree: the same end (or error) and the same
/// state; where the step gives up all that it read, the committed positions,
/// counted from `off1` and `off2`, are the same.
pub open spec fn fold_agree(
    r1: (Result<StreamAction, RouteError>, int, StreamModel),
    off1: int,
    r2: (Result<StreamAction, RouteError>, int, StreamModel),
    off2: int,
) -> bool {
    r1.0 == r2.0 && r1.2 == r2.2 && (commits_read(r1.0) ==> r1.1 - off1 == r2.1 - off2)
}

/// Where the counting of read and committed bytes starts changes neither how
/// a step ends nor the state it leaves.
proof fn lemma_stream_fold_shift(
    b: Seq<u8>,
    c1: int,
    k1: int,
    c2: int,
    k2: int,
    m: StreamModel,
)
    ensures
        fold_agree(stream_fold(b, c1, k1, m), c1, stream_fold(b, c2, k2, m), c2),
    decreases b.len(), meta_rank(m),
{
    reveal(stream_fold);
    lemma_frame_bounds(b);
    if b.len() > 0 && m.meta is Some && !is_row_token(b[0]) && !is_done_token(b[0]) {
        lemma_stream_fold_shift(b, c1, k1, c2, k2, StreamModel { meta: None, ..m });
    } else if b.len() > 0 && m.meta is Some && is_row_token(b[0]) {
        if let Some(n) = row_frame(b, m.meta->0) {
            if 0 < n <= b.len() {
                lemma_stream_fold_shift(
                    b.subrange(n, b.len() as int),
                    c1 + n,
                    c1 + n,
                    c2 + n,
                    c2 + n,
                    StreamModel { handed: m.handed.push(HandoutView::Row(b.subrange(0, n))), ..m },
                );
            }
        }
    } else if let Frame::Whole(n) = frame_of(b) {
        if 0 < n <= b.len() {
            let tok = b.subrange(0, n);
            let rest = b.subrange(n, b.len() as int);
            let t = b[0];
            if t == TOKEN_ENVCHANGE {
                if let Ok((td, routing)) = env_effect(tok, m.td, m.routing) {
                    lemma_stream_fold_shift(rest, c1 + n, k1, c2 + n, k2, StreamModel { td, routing, ..m });
                }
            } else if t == TOKEN_ERROR {
                lemma_stream_fold_shift(
                    rest,
                    c1 + n,
                    k1,
                    c2 + n,
                    k2,
                    StreamModel { errors: m.errors.push(tok), ..m },
                );
            } else if is_done_token(t) {
            } else if t == TOKEN_RETURNSTATUS {
                lemma_stream_fold_shift(
                    rest,
                    c1 + n,
                    c1 + n,
                    c2 + n,
                    c2 + n,
                    StreamModel { return_status: Some(return_status_of(tok)), ..m },
                );
            } else if t == TOKEN_COLMETADATA {
                let cols = colmetadata_at(b)->Done_0;
                lemma_stream_fold_shift(
                    rest,
                    c1 + n,
                    c1 + n,
                    c2 + n,
                    c2 + n,
                    StreamModel {
                        meta: Some(cols),
                        handed: m.handed.push(HandoutView::ColMetaData(tok, cols)),
                        ..m
                    },
                );
            } else {
                lemma_stream_fold_shift(rest, c1 + n, k1, c2 + n, k2, m);
            }
        }
    }
}

/// The outcome of a step over `b` that asks for more bytes agrees with a step
/// over `b` followed by `x`, as the packet split says.
pub open spec fn extends_as_split(b: Seq<u8>, x: Seq<u8>, cons: int, com: int, m: StreamModel) -> bool {
    let r = stream_fold(b, cons, com, m);
    &&& cons <= r.1 <= cons + b.len()
    &&& fold_agree(
        stream_fold(b + x, cons, com, m),
        r.1,
        stream_fold(b.subrange(r.1 - cons, b.len() as int) + x, 0, 0, r.2),
        0,
    )
}

/// A step that ends asking for more bytes, having committed `c`, agrees with a
/// step over the same bytes followed by more: decoding the uncommitted rest and
/// the bytes that follow ends the same way.
proof fn lemma_stream_fold_extend(b: Seq<u8>, x: Seq<u8>, cons: int, com: int, m: StreamModel)
    requires
        com <= cons,
        stream_fold(b, cons, com, m).0 == Ok::<StreamAction, RouteError>(StreamAction::NeedMore),
    ensures
        extends_as_split(b, x, cons, com, m),
    decreases b.len(), meta_rank(m), 2int,
{
    reveal(stream_fold);
    lemma_stream_fold_bound(b, cons, com, m);
    let bx = b + x;
    if b.len() > 0 {
        assert(bx[0] == b[0]);
    }
    if b.len() > 0 && m.meta is Some && !is_row_token(b[0]) && !is_done_token(b[0]) {
        lemma_stream_fold_extend(b, x, cons, com, StreamModel { meta: None, ..m });
    } else if b.len() > 0 && m.meta is Some && is_row_token(b[0]) {
        lemma_extend_row(b, x, cons, com, m);
    } else {
        lemma_extend_frame(b, x, cons, com, m);
    }
}

/// The packet split for a step that first reads a whole token of `n` bytes.
proof fn lemma_extend_shift_rest(
    b: Seq<u8>,
    x: Seq<u8>,
    cons: int,
    com: int,
    n: int,
    m: StreamModel,
    com2: int,
    m2: StreamModel,
)
    requires
        0 < n <= b.len(),
        stream_fold(b, cons, com, m) == stream_fold(b.subrange(n, b.len() as int), cons + n, com2, m2),
        stream_fold(b + x, cons, com, m) == stream_fold(
            b.subrange(n, b.len() as int) + x,
            cons + n,
            com2,
            m2,
        ),
        extends_as_split(b.subrange(n, b.len() as int), x, cons + n, com2, m2),
    ensures
        extends_as_split(b, x, cons, com, m),
{
    let rest = b.subrange(n, b.len() as int);
    let r = stream_fold(b, cons, com, m);
    assert(rest.subrange(r.1 - (cons + n), rest.len() as int) =~= b.subrange(
        r.1 - cons,
        b.len() as int,
    ));
}

proof fn lemma_extend_row(b: Seq<u8>, x: Seq<u8>, cons: int, com: int, m: StreamModel)
    requires
        com <= cons,
        b.len() > 0,
        m.meta is Some,
        is_row_token(b[0]),
        stream_fold(b, cons, com, m).0 == Ok::<StreamAction, RouteError>(StreamAction::NeedMore),
    ensures
        extends_as_split(b, x, cons, com, m),
    decreases b.len(), meta_rank(m), 1int,
{
    reveal(stream_fold);
    lemma_stream_fold_bound(b, cons, com, m);
    let bx = b + x;
    assert(bx[0] == b[0]);
    match row_frame(b, m.meta->0) {
        Some(n) => {
            lemma_row_frame_extend(b, x, m.meta->0);
            lemma_row_frame_bound(b, m.meta->0);
            let rest = b.subrange(n, b.len() as int);
            assert(bx.subrange(n, bx.len() as int) =~= rest + x);
            assert(bx.subrange(0, n) =~= b.subrange(0, n));
            let m2 = StreamModel { handed: m.handed.push(HandoutView::Row(b.subrange(0, n))), ..m };
            lemma_stream_fold_extend(rest, x, cons + n, cons + n, m2);
            lemma_extend_shift_rest(b, x, cons, com, n, m, cons + n, m2);
        },
        None => {
            assert(b.subrange(0, b.len() as int) =~= b);
            lemma_stream_fold_shift(bx, cons, com, 0, 0, m);
        },
    }
}

proof fn lemma_extend_frame(b: Seq<u8>, x: Seq<u8>, cons: int, com: int, m: StreamModel)
    requires
        com <= cons,
        !(b.len() > 0 && m.meta is Some && !is_done_token(b[0])),
        stream_fold(b, cons, com, m).0 == Ok::<StreamAction, RouteError>(StreamAction::NeedMore),
    ensures
        extends_as_split(b, x, cons, com, m),
    decreases b.len(), meta_rank(m), 1int,
{
    reveal(stream_fold);
    lemma_frame_bounds(b);
    lemma_stream_fold_bound(b, cons, com, m);
    let bx = b + x;
    match frame_of(b) {
        Frame::Truncated => {
            assert(b.subrange(0, b.len() as int) =~= b);
            lemma_stream_fold_shift(bx, cons, com, 0, 0, m);
        },
        Frame::Whole(n) => {
            lemma_frame_extend(b, x);
            assert(bx[0] == b[0]);
            let tok = b.subrange(0, n);
            let rest = b.subrange(n, b.len() as int);
            assert(bx.subrange(0, n) =~= tok);
            assert(bx.subrange(n, bx.len() as int) =~= rest + x);
            let t = b[0];
            if t == TOKEN_ENVCHANGE {
                if let Ok((td, routing)) = env_effect(tok, m.td, m.routing) {
                    let m2 = StreamModel { td, routing, ..m };
                    lemma_stream_fold_extend(rest, x, cons + n, com, m2);
                    lemma_extend_shift_rest(b, x, cons, com, n, m, com, m2);
                }
            } else if t == TOKEN_ERROR {
                let m2 = StreamModel { errors: m.errors.push(tok), ..m };
                lemma_stream_fold_extend(rest, x, cons + n, com, m2);
                lemma_extend_shift_rest(b, x, cons, com, n, m, com, m2);
            } else if is_done_token(t) {
            } else if t == TOKEN_RETURNSTATUS {
                let m2 = StreamModel { return_status: Some(return_status_of(tok)), ..m };
                lemma_stream_fold_extend(rest, x, cons + n, cons + n, m2);
                lemma_extend_shift_rest(b, x, cons, com, n, m, cons + n, m2);
            } else if t == TOKEN_COLMETADATA {
                lemma_colmetadata_extend(b, x);
                let cols = colmetadata_at(b)->Done_0;
                let m2 = StreamModel {
                    meta: Some(cols),
                    handed: m.handed.push(HandoutView::ColMetaData(tok, cols)),
                    ..m
                };
                lemma_stream_fold_extend(rest, x, cons + n, cons + n, m2);
                lemma_extend_shift_rest(b, x, cons, com, n, m, cons + n, m2);
            } else {
                lemma_stream_fold_extend(rest, x, cons + n, com, m);
                lemma_extend_shift_rest(b, x, cons, com, n, m, com, m);
            }
        },
        _ => {},
    }
}

/// Splitting a message between packets does not change its decoding: when a
/// step over the bytes received so far ends asking for more, having committed
/// `c` of them, a step over the rest and the bytes of the next packets ends as
/// a step over all the bytes would (with the same routing error, if any), in
/// the same state, having handed out the same metadata and rows, and where it
/// gives up all it read, at the same place (counted from `c`).
pub proof fn lemma_packet_split(b: Seq<u8>, x: Seq<u8>, m: StreamModel)
    requires
        stream_fold(b, 0, 0, m).0 == Ok::<StreamAction, RouteError>(StreamAction::NeedMore),
    ensures
        ({
            let r = stream_fold(b, 0, 0, m);
            &&& 0 <= r.1 <= b.len()
            &&& fold_agree(
                stream_fold(b + x, 0, 0, m),
                r.1,
                stream_fold(b.subrange(r.1, b.len() as int) + x, 0, 0, r.2),
                0,
            )
        }),
{
    lemma_stream_fold_extend(b, x, 0, 0, m);
    let r = stream_fold(b, 0, 0, m);
    assert(b.subrange(r.1 - 0, b.len() as int) == b.subrange(r.1, b.len() as int));
}

/// Every DONE-family token ends a step: a DONE, DONEPROC or DONEINPROC token
/// (type byte 0xFD, 0xFE or 0xFF) that is whole at the start of the stream and
/// whose status has its "more results" bit (0x0001) clear ends the step as
/// Finished, with that very token, read from its bytes, as the final DONE;
/// nothing else of the state changes but that rows end. It commits what it
/// read when it ends rows, and nothing more otherwise.
pub proof fn lemma_final_done_finishes(b: Seq<u8>, consumed: int, committed: int, m: StreamModel)
    requires
        b.len() >= 13,
        b[0] == 0xfd || b[0] == 0xfe || b[0] == 0xff,
        b[1] % 2 == 0,
    ensures
        stream_fold(b, consumed, committed, m) == (
            Ok::<StreamAction, RouteError>(StreamAction::Finished),
            if m.meta is Some {
                consumed + 13
            } else {
                committed
            },
            StreamModel {
                done: Some(
                    DoneToken {
                        ty: b[0],
                        status: (b[1] + 256 * b[2]) as u16,
                        cur_cmd: (b[3] + 256 * b[4]) as u16,
                        row_count: (b[5] + 0x100 * b[6] + 0x1_0000 * b[7] + 0x100_0000 * b[8]
                            + 0x1_0000_0000 * b[9] + 0x100_0000_0000 * b[10] + 0x1_0000_0000_0000
                            * b[11] + 0x100_0000_0000_0000 * b[12]) as u64,
                    },
                ),
                meta: None,
                ..m
            },
        ),
{
    reveal(stream_fold);
    let tok = b.subrange(0, 13);
    assert(tok[1] == b[1] && tok[2] == b[2] && tok[3] == b[3] && tok[4] == b[4]);
    assert(tok[5] == b[5] && tok[6] == b[6] && tok[7] == b[7] && tok[8] == b[8]);
    assert(tok[9] == b[9] && tok[10] == b[10] && tok[11] == b[11] && tok[12] == b[12]);
    assert((b[1] + 256 * b[2]) % 2 == 0) by (nonlinear_arith)
        requires
            b[1] % 2 == 0,
    ;
}

/// A DONE-family token whose "more results" bit is set ends a step as a
/// completed result: the result holds that token, the errors collected before
/// it and the return status, and the next result starts with neither; rows
/// end, and what was read is committed only when it ended rows.
pub proof fn lemma_more_done_completes_result(
    b: Seq<u8>,
    consumed: int,
    committed: int,
    m: StreamModel,
)
    requires
        b.len() >= 13,
        b[0] == 0xfd || b[0] == 0xfe || b[0] == 0xff,
        b[1] % 2 == 1,
    ensures
        ({
            let d = DoneToken {
                ty: b[0],
                status: (b[1] + 256 * b[2]) as u16,
                cur_cmd: (b[3] + 256 * b[4]) as u16,
                row_count: (b[5] + 0x100 * b[6] + 0x1_0000 * b[7] + 0x100_0000 * b[8] + 0x1_0000_0000
                    * b[9] + 0x100_0000_0000 * b[10] + 0x1_0000_0000_0000 * b[11]
                    + 0x100_0000_0000_0000 * b[12]) as u64,
            };
            stream_fold(b, consumed, committed, m) == (
                Ok::<StreamAction, RouteError>(StreamAction::ResultCompleted),
                if m.meta is Some {
                    consumed + 13
                } else {
                    committed
                },
                StreamModel {
                    results: m.results.push((d, m.errors, m.return_status)),
                    errors: Seq::empty(),
                    return_status: None,
                    meta: None,
                    ..m
                },
            )
        }),
{
    reveal(stream_fold);
    let tok = b.subrange(0, 13);
    assert(tok[1] == b[1] && tok[2] == b[2] && tok[3] == b[3] && tok[4] == b[4]);
    assert(tok[5] == b[5] && tok[6] == b[6] && tok[7] == b[7] && tok[8] == b[8]);
    assert(tok[9] == b[9] && tok[10] == b[10] && tok[11] == b[11] && tok[12] == b[12]);
    assert((b[1] + 256 * b[2]) % 2 == 1) by (nonlinear_arith)
        requires
            b[1] % 2 == 1,
    ;
}

/// A RETURNSTATUS token outside rows is kept and decoding goes on past it: a
/// step over the token and the rest is the step over the rest, with the
/// token's 32-bit value as the return status and what was read committed.
pub proof fn lemma_return_status_continues(
    b: Seq<u8>,
    consumed: int,
    committed: int,
    m: StreamModel,
)
    requires
        b.len() >= 5,
        b[0] == 0x79,
        m.meta is None,
    ensures
        stream_fold(b, consumed, committed, m) == stream_fold(
            b.subrange(5, b.len() as int),
            consumed + 5,
            consumed + 5,
            StreamModel {
                return_status: Some(
                    ReturnStatusToken {
                        value: signed(b[1] + 256 * b[2] + 65536 * b[3] + 16777216 * b[4], 32) as i32,
                    },
                ),
                ..m
            },
        ),
{
    reveal(stream_fold);
    let tok = b.subrange(0, 5);
    assert(tok[1] == b[1] && tok[2] == b[2] && tok[3] == b[3] && tok[4] == b[4]);
}

/// An ERROR token outside rows is collected and decoding goes on past it: a
/// step over the token and the rest is the step over the rest, with the
/// token's bytes appended to the errors.
pub proof fn lemma_error_continues(b: Seq<u8>, consumed: int, committed: int, m: StreamModel)
    requires
        b.len() >= 3,
        b[0] == 0xaa,
        3 + b[1] + 256 * b[2] <= b.len(),
        m.meta is None,
    ensures
        ({
            let n = 3 + b[1] + 256 * b[2];
            stream_fold(b, consumed, committed, m) == stream_fold(
                b.subrange(n, b.len() as int),
                consumed + n,
                committed,
                StreamModel { errors: m.errors.push(b.subrange(0, n)), ..m },
            )
        }),
{
    reveal(stream_fold);
}

/// An ENVCHANGE token outside rows that is not a routing change never ends a
/// step: the step over the token and `rest` is the step over `rest` from the
/// same state, but for the transaction descriptor; after a commit, rollback
/// or defect (type bytes 9, 10 and 12) that descriptor is 0.
pub proof fn lemma_stream_env_change_continues(
    tok: Seq<u8>,
    rest: Seq<u8>,
    consumed: int,
    committed: int,
    m: StreamModel,
)
    requires
        tok.len() >= 4,
        tok[0] == 0xe3,
        tok.len() == 3 + tok[1] + 256 * tok[2],
        tok[3] != 20 && tok[3] != 21,
        m.meta is None,
    ensures
        exists|td: Option<u64>|
            stream_fold(tok + rest, consumed, committed, m) == #[trigger] stream_fold(
                rest,
                consumed + tok.len(),
                committed,
                StreamModel { td, ..m },
            ),
        (tok[3] == 9 || tok[3] == 10 || tok[3] == 12) ==> stream_fold(
            tok + rest,
            consumed,
            committed,
            m,
        ) == stream_fold(
            rest,
            consumed + tok.len(),
            committed,
            StreamModel { td: Some(0u64), ..m },
        ),
{
    reveal(stream_fold);
    let b = tok + rest;
    let n = tok.len() as int;
    assert(b[0] == tok[0] && b[1] == tok[1] && b[2] == tok[2] && b[3] == tok[3]);
    assert(frame_of(b) == Frame::Whole(n));
    assert(b.subrange(0, n) =~= tok);
    assert(b.subrange(n, b.len() as int) =~= rest);
    let (td, routing) = env_effect(tok, m.td, m.routing)->Ok_0;
    assert(routing == m.routing);
    assert(stream_fold(b, consumed, committed, m) == stream_fold(
        rest,
        consumed + n,
        committed,
        StreamModel { td, ..m },
    ));
}

/// INFO, LOGINACK and SSPI tokens outside rows are passed over: the step over
/// such a token and `rest` is the step over `rest`, with nothing changed and
/// nothing more committed.
pub proof fn lemma_stream_passes_over(
    tok: Seq<u8>,
    rest: Seq<u8>,
    consumed: int,
    committed: int,
    m: StreamModel,
)
    requires
        tok.len() >= 3,
        tok[0] == 0xab || tok[0] == 0xad || tok[0] == 0xed,
        tok.len() == 3 + tok[1] + 256 * tok[2],
        m.meta is None,
    ensures
        stream_fold(tok + rest, consumed, committed, m) == stream_fold(
            rest,
            consumed + tok.len(),
            committed,
            m,
        ),
{
    reveal(stream_fold);
    let b = tok + rest;
    let n = tok.len() as int;
    assert(b[0] == tok[0] && b[1] == tok[1] && b[2] == tok[2]);
    assert(frame_of(b) == Frame::Whole(n));
    assert(b.subrange(0, n) =~= tok);
    assert(b.subrange(n, b.len() as int) =~= rest);
}

/// What the reading of a response needs next.
#[derive(Debug, Clone, Copy, PartialEq, Eq)]
pub enum DecodePoll {
    /// Decode again from where this step left off.
    Again,
    /// Read the next packet and feed its payload.
    NeedPacket,
    /// Decoding is over: the response is complete or cannot go on.
    Finished,
}

/// The decoding of a response as its packets arrive: the received payload and
/// the decoding state.
pub struct TokenStreamDecoder {
    buf: StreamingBuffer,
    state: TokenStreamState,
}

impl View for TokenStreamDecoder {
    type V = (StreamingBufferView, StreamModel);

    closed spec fn view(&self) -> (StreamingBufferView, StreamModel) {
        (self.buf@, self.state@)
    }
}

/// How one decoding step decides what comes next: the final DONE token and a
/// byte that is no token end the decoding, a completed result asks for another
/// step, and a token cut short asks for the next packet unless the message is
/// complete.
pub open spec fn poll_of(a: StreamAction, eof: bool) -> DecodePoll {
    match a {
        StreamAction::Finished | StreamAction::Stopped => DecodePoll::Finished,
        StreamAction::ResultCompleted => DecodePoll::Again,
        StreamAction::NeedMore => if eof {
            DecodePoll::Finished
        } else {
            DecodePoll::NeedPacket
        },
    }
}

impl TokenStreamDecoder {
    /// The buffer's positions lie within it.
    pub open spec fn wf(&self) -> bool {
        &&& self@.0.head <= self@.0.tail <= self@.0.bytes.len()
        &&& self@.0.bytes.len() == 2 * MAX_TDS_PACKET_BYTES
    }

    /// A decoder before any packet.
    pub fn new() -> (r: Self)
        ensures
            r.wf(),
            r@.0.head == 0,
            r@.0.tail == 0,
            !r@.0.eof,
            r@.1 == stream_start(),
    {
        TokenStreamDecoder { buf: StreamingBuffer::new(), state: TokenStreamState::new() }
    }

    /// Room left for payload.
    pub fn room(&self) -> (r: usize)
        requires
            self.wf(),
        ensures
            r == self@.0.bytes.len() - self@.0.tail,
    {
        self.buf.room()
    }

    /// Appends the payload of a received packet; `eom` says that it was the
    /// message's last.
    pub fn feed(&mut self, payload: &[u8], eom: bool)
        requires
            old(self).wf(),
            old(self)@.0.tail + payload@.len() <= old(self)@.0.bytes.len(),
        ensures
            final(self).wf(),
            final(self)@.0.unread() == old(self)@.0.unread() + payload@,
            final(self)@.0.head == old(self)@.0.head,
            final(self)@.0.tail == old(self)@.0.tail + payload@.len(),
            final(self)@.0.eof == (old(self)@.0.eof || eom),
            final(self)@.1 == old(self)@.1,
    {
        self.buf.append_payload(payload, eom);
    }

    /// Takes what decoding handed out, in order.
    pub fn take_handed(&mut self) -> (r: Vec<Handout>)
        ensures
            handouts_view(r@) == old(self)@.1.handed,
            final(self)@.0 == old(self)@.0,
            final(self)@.1 == (StreamModel { handed: Seq::empty(), ..old(self)@.1 }),
    {
        self.state.take_handed()
    }

    /// Decodes the unread bytes as `stream_fold` says, gives up the bytes that
    /// the step committed, and says what comes next as `poll_of` decides; before a
    /// packet is read, the unread bytes move to the start of the buffer. A
    /// routing error is returned, with the state as it stood there.
    pub fn poll(&mut self) -> (r: Result<DecodePoll, SessionError>)
        requires
            old(self).wf(),
        ensures
            final(self).wf(),
            final(self)@.0.eof == old(self)@.0.eof,
            ({
                let (o, c, m) = stream_fold(old(self)@.0.unread(), 0, 0, old(self)@.1);
                &&& final(self)@.1 == m
                &&& match o {
                    Ok(a) => {
                        &&& r == Ok::<DecodePoll, SessionError>(poll_of(a, old(self)@.0.eof))
                        &&& final(self)@.0.unread() == old(self)@.0.unread().subrange(
                            c,
                            old(self)@.0.unread().len() as int,
                        )
                        &&& r == Ok::<DecodePoll, SessionError>(DecodePoll::NeedPacket)
                            ==> final(self)@.0.head == 0
                    },
                    Err(e) => r matches Err(err) && route_error_matches(e, err),
                }
            }),
    {
        proof {
            lemma_stream_fold_bound(self.buf@.unread(), 0, 0, self.state@);
        }
        let step = self.state.decode_step(self.buf.unread());
        let (action, read) = match step {
            Ok(x) => x,
            Err(e) => {
                return Err(e);
            },
        };
        self.buf.consume(read);
        match action {
            StreamAction::Finished | StreamAction::Stopped => Ok(DecodePoll::Finished),
            StreamAction::ResultCompleted => Ok(DecodePoll::Again),
            StreamAction::NeedMore => {
                if self.buf.eof() {
                    Ok(DecodePoll::Finished)
                } else {
                    self.buf.compact();
                    Ok(DecodePoll::NeedPacket)
                }
            },
        }
    }

    /// What the response amounts to, as `TokenStreamState::finish` says over
    /// the unread bytes and their place in the buffer.
    pub fn finish(self) -> (r: Result<DecodeOutput, SessionError>)
        requires
            self.wf(),
        ensures
            self@.1.done matches Some(d) ==> (r matches Ok(out) && results_view(
                out.results.results@,
            ) == self@.1.results.push((d, self@.1.errors, self@.1.return_status))
                && out.transaction_descriptor == self@.1.td && route_view(out.routing)
                == self@.1.routing),
            self@.1.done is None ==> ({
                let u = self@.0.unread();
                r matches Err(
                    SessionError::UnexpectedEndOfStream { head: h, tail: t, eof: e, peek, hexdump },
                ) && h == self@.0.head && t == self@.0.tail && e == self@.0.eof && peek == (if u.len()
                    > 0 {
                    Some(u[0])
                } else {
                    None::<u8>
                }) && hexdump@ == u.subrange(
                    0,
                    if u.len() < 32 {
                        u.len() as int
                    } else {
                        32
                    },
                )
            }),
    {
        let head = self.buf.head();
        let tail = self.buf.tail();
        let eof = self.buf.eof();
        let TokenStreamDecoder { buf, state } = self;
        state.finish(buf.unread(), head, tail, eof)
    }
}

} // verus!
