//! Framing of the server's token stream: which token comes next and where it ends.
use vstd::prelude::*;
use crate::colmetadata::{
    colmetadata_at, column_value, lemma_colmetadata_end, lemma_colmetadata_extend,
    lemma_column_value_extend, lemma_type_info_end, lemma_type_info_extend, read_colmetadata, read_type_info, to_dtype_bytes,
    type_info_at, ColMetaDataToken, Parsed, Read,
};
use crate::env_change::EnvChangeSpan;
use crate::error::DecodeError;
use crate::session_status::SessionStatusSpan;
use crate::sspi::SspiSpan;
use crate::utils::{le_u16, le_u32, le_u64, r_u16_le, r_u32_le, r_u64_le, r_i32_le, signed};

verus! {

pub const TOKEN_RETURNSTATUS: u8 = 0x79;
pub const TOKEN_COLMETADATA: u8 = 0x81;
pub const TOKEN_RETURNVALUE: u8 = 0xac;
pub const TOKEN_ERROR: u8 = 0xaa;
pub const TOKEN_INFO: u8 = 0xab;
pub const TOKEN_LOGINACK: u8 = 0xad;
pub const TOKEN_FEATUREEXTACK: u8 = 0xae;
pub const TOKEN_ROW: u8 = 0xd1;
pub const TOKEN_NBCROW: u8 = 0xd2;
pub const TOKEN_ENVCHANGE: u8 = 0xe3;
pub const TOKEN_SESSIONSTATE: u8 = 0xe4;
pub const TOKEN_SSPI: u8 = 0xed;
pub const TOKEN_DONE: u8 = 0xfd;
pub const TOKEN_DONEPROC: u8 = 0xfe;
pub const TOKEN_DONEINPROC: u8 = 0xff;
/// Size of a DONE, DONEPROC or DONEINPROC token.
pub const DONE_TOKEN_SIZE: usize = 13;
/// DONE status bit: more results follow.
pub const DONE_MORE: u16 = 0x0001;

/// A token type whose body follows a 16-bit length.
pub open spec fn is_u16_length_token(t: u8) -> bool {
    t == TOKEN_ERROR || t == TOKEN_INFO || t == TOKEN_LOGINACK || t == TOKEN_ENVCHANGE || t
        == TOKEN_SSPI
}

/// A DONE-family token type.
pub open spec fn is_done_token(t: u8) -> bool {
    t == TOKEN_DONE || t == TOKEN_DONEPROC || t == TOKEN_DONEINPROC
}

/// Where the options of a FEATUREEXTACK token that continue at `off` end: each
/// option is an id byte, a 32-bit length and data; the id 0xff ends the list.
pub open spec fn feature_ack_end(b: Seq<u8>, off: int) -> Option<int>
    decreases b.len() - off,
{
    if off < 0 || off >= b.len() {
        None
    } else if b[off] == 0xff {
        Some(off + 1)
    } else if off + 5 > b.len() {
        None
    } else {
        let next = off + 5 + le_u32(b, off + 1);
        if next > b.len() {
            None
        } else {
            feature_ack_end(b, next)
        }
    }
}

/// How the first token of `b` is framed.
pub enum Frame {
    /// The first token is whole and this long.
    Whole(int),
    /// The first token is not yet whole.
    Truncated,
    /// The first byte is not a token type that this decoder frames.
    Unknown,
}

/// How the RETURNVALUE token at the start of `b` is framed: the parameter
/// ordinal, its name (a character count and UTF-16 units), status, user type
/// and flags, its TYPE_INFO and its value.
pub open spec fn return_value_frame(b: Seq<u8>) -> Frame {
    if b.len() < 4 || 4 + 2 * b[3] + 7 > b.len() {
        Frame::Truncated
    } else {
        match type_info_at(b, 4 + 2 * b[3] + 7) {
            Parsed::Done(ti, e) => match column_value(b.subrange(e, b.len() as int), ti) {
                Some((_, n)) => Frame::Whole(e + n),
                None => Frame::Truncated,
            },
            Parsed::Short => Frame::Truncated,
            Parsed::Bad => Frame::Unknown,
        }
    }
}

/// How the first token of `b` is framed.
pub open spec fn frame_of(b: Seq<u8>) -> Frame {
    if b.len() == 0 {
        Frame::Truncated
    } else {
        let t = b[0];
        if is_u16_length_token(t) {
            if b.len() < 3 || 3 + le_u16(b, 1) > b.len() {
                Frame::Truncated
            } else {
                Frame::Whole(3 + le_u16(b, 1))
            }
        } else if t == TOKEN_SESSIONSTATE {
            if b.len() < 5 || 5 + le_u32(b, 1) > b.len() {
                Frame::Truncated
            } else {
                Frame::Whole(5 + le_u32(b, 1))
            }
        } else if is_done_token(t) {
            if b.len() < 13 {
                Frame::Truncated
            } else {
                Frame::Whole(13)
            }
        } else if t == TOKEN_RETURNSTATUS {
            if b.len() < 5 {
                Frame::Truncated
            } else {
                Frame::Whole(5)
            }
        } else if t == TOKEN_FEATUREEXTACK {
            match feature_ack_end(b, 1) {
                Some(n) => Frame::Whole(n),
                None => Frame::Truncated,
            }
        } else if t == TOKEN_COLMETADATA {
            match colmetadata_at(b) {
                Parsed::Done(_, n) => Frame::Whole(n),
                Parsed::Short => Frame::Truncated,
                Parsed::Bad => Frame::Unknown,
            }
        } else if t == TOKEN_RETURNVALUE {
            return_value_frame(b)
        } else {
            Frame::Unknown
        }
    }
}

/// An ERROR or INFO token in the stream.
#[derive(Debug, Clone, Copy)]
pub struct ErrorInfoSpan<'a> {
    pub bytes: &'a [u8],
}

/// A LOGINACK token in the stream.
#[derive(Debug, Clone, Copy)]
pub struct LoginAckSpan<'a> {
    pub bytes: &'a [u8],
}

/// A FEATUREEXTACK token in the stream.
#[derive(Debug, Clone, Copy)]
pub struct FeatureExtAckSpan<'a> {
    pub bytes: &'a [u8],
}

/// A DONE, DONEPROC or DONEINPROC token in the stream.
#[derive(Debug, Clone, Copy)]
pub struct DoneSpan<'a> {
    pub bytes: &'a [u8],
}

/// A RETURNSTATUS token in the stream.
#[derive(Debug, Clone, Copy)]
pub struct ReturnStatusSpan<'a> {
    pub bytes: &'a [u8],
}

/// A RETURNVALUE token in the stream.
#[derive(Debug, Clone, Copy)]
pub struct ReturnValueSpan<'a> {
    pub bytes: &'a [u8],
}

/// An ERROR or INFO token held by value, as it was received.
#[derive(Debug, Clone, PartialEq, Eq)]
pub struct ErrorInfoToken {
    pub bytes: Vec<u8>,
}

impl ErrorInfoToken {
    /// A copy of this token.
    pub fn duplicate(&self) -> (r: ErrorInfoToken)
        ensures
            r.bytes@ == self.bytes@,
    {
        ErrorInfoToken { bytes: vstd::slice::slice_to_vec(self.bytes.as_slice()) }
    }
}

/// A DONE-family token held by value.
#[derive(Debug, Clone, Copy, PartialEq, Eq)]
pub struct DoneToken {
    pub ty: u8,
    pub status: u16,
    pub cur_cmd: u16,
    pub row_count: u64,
}

/// A RETURNSTATUS token held by value.
#[derive(Debug, Clone, Copy, PartialEq, Eq)]
pub struct ReturnStatusToken {
    pub value: i32,
}

/// The DONE token that the 13 bytes `b` encode.
pub open spec fn done_of(b: Seq<u8>) -> DoneToken {
    DoneToken {
        ty: b[0],
        status: le_u16(b, 1) as u16,
        cur_cmd: le_u16(b, 3) as u16,
        row_count: le_u64(b, 5) as u64,
    }
}

/// The 13 bytes that encode the DONE token `d`.
pub open spec fn done_bytes(d: DoneToken) -> Seq<u8> {
    seq![
        d.ty,
        (d.status % 256) as u8,
        (d.status / 256) as u8,
        (d.cur_cmd % 256) as u8,
        (d.cur_cmd / 256) as u8,
        (d.row_count % 0x100) as u8,
        (d.row_count / 0x100 % 0x100) as u8,
        (d.row_count / 0x1_0000 % 0x100) as u8,
        (d.row_count / 0x100_0000 % 0x100) as u8,
        (d.row_count / 0x1_0000_0000 % 0x100) as u8,
        (d.row_count / 0x100_0000_0000 % 0x100) as u8,
        (d.row_count / 0x1_0000_0000_0000 % 0x100) as u8,
        (d.row_count / 0x100_0000_0000_0000 % 0x100) as u8,
    ]
}

impl DoneToken {
    /// The wire form of this token.
    pub fn as_bytes(&self) -> (r: Vec<u8>)
        ensures
            r@ == done_bytes(*self),
    {
        let mut v: Vec<u8> = Vec::new();
        v.push(self.ty);
        v.push((self.status % 256) as u8);
        v.push((self.status / 256) as u8);
        v.push((self.cur_cmd % 256) as u8);
        v.push((self.cur_cmd / 256) as u8);
        v.push((self.row_count % 0x100) as u8);
        v.push((self.row_count / 0x100 % 0x100) as u8);
        v.push((self.row_count / 0x1_0000 % 0x100) as u8);
        v.push((self.row_count / 0x100_0000 % 0x100) as u8);
        v.push((self.row_count / 0x1_0000_0000 % 0x100) as u8);
        v.push((self.row_count / 0x100_0000_0000 % 0x100) as u8);
        v.push((self.row_count / 0x1_0000_0000_0000 % 0x100) as u8);
        v.push((self.row_count / 0x100_0000_0000_0000 % 0x100) as u8);
        assert(v@ =~= done_bytes(*self));
        v
    }
}

/// Reading back the wire form of a DONE token gives the token.
pub proof fn lemma_done_roundtrip(d: DoneToken)
    ensures
        done_bytes(d).len() == DONE_TOKEN_SIZE,
        done_of(done_bytes(d)) == d,
{
    let b = done_bytes(d);
    let s = d.status;
    let c = d.cur_cmd;
    let x = d.row_count;
    assert(s == (s % 256) + 256 * (s / 256)) by (bit_vector);
    assert(c == (c % 256) + 256 * (c / 256)) by (bit_vector);
    assert(x == (x % 0x100) + 0x100 * (x / 0x100 % 0x100) + 0x1_0000 * (x / 0x1_0000 % 0x100)
        + 0x100_0000 * (x / 0x100_0000 % 0x100) + 0x1_0000_0000 * (x / 0x1_0000_0000 % 0x100)
        + 0x100_0000_0000 * (x / 0x100_0000_0000 % 0x100) + 0x1_0000_0000_0000 * (x
        / 0x1_0000_0000_0000 % 0x100) + 0x100_0000_0000_0000 * (x / 0x100_0000_0000_0000
        % 0x100)) by (bit_vector);
    assert(le_u16(b, 1) == s);
    assert(le_u16(b, 3) == c);
    assert(le_u64(b, 5) == x);
}

impl<'a> DoneSpan<'a> {
    /// No more results follow: the DONE_MORE bit of the status is clear.
    pub fn is_final(&self) -> (r: bool)
        requires
            self.bytes@.len() >= 3,
        ensures
            r == (le_u16(self.bytes@, 1) % 2 == 0),
    {
        r_u16_le(self.bytes, 1) % 2 == 0
    }

    /// The token held by value.
    pub fn own(&self) -> (r: DoneToken)
        requires
            self.bytes@.len() >= DONE_TOKEN_SIZE,
        ensures
            r == done_of(self.bytes@),
    {
        DoneToken {
            ty: self.bytes[0],
            status: r_u16_le(self.bytes, 1),
            cur_cmd: r_u16_le(self.bytes, 3),
            row_count: r_u64_le(self.bytes, 5),
        }
    }
}

impl<'a> ErrorInfoSpan<'a> {
    /// The token held by value.
    pub fn own(&self) -> (r: ErrorInfoToken)
        ensures
            r.bytes@ == self.bytes@,
    {
        ErrorInfoToken { bytes: vstd::slice::slice_to_vec(self.bytes) }
    }
}

impl<'a> ReturnStatusSpan<'a> {
    /// The token held by value.
    pub fn own(&self) -> (r: ReturnStatusToken)
        requires
            self.bytes@.len() >= 5,
        ensures
            r.value == signed(le_u32(self.bytes@, 1), 32),
    {
        ReturnStatusToken { value: r_i32_le(self.bytes, 1) }
    }
}

/// A cursor over a token stream that holds no column metadata context.
#[derive(Debug, Clone, Copy)]
pub struct TokenDecoder<'a> {
    pub bytes: &'a [u8],
}

/// One step of a `TokenDecoder`: the token read and the decoder past it.
pub enum NoContextStep<'a> {
    EnvChange(EnvChangeSpan<'a>, TokenDecoder<'a>),
    ServerError(ErrorInfoSpan<'a>, TokenDecoder<'a>),
    Info(ErrorInfoSpan<'a>, TokenDecoder<'a>),
    LoginAck(LoginAckSpan<'a>, TokenDecoder<'a>),
    FeatureExtAck(FeatureExtAckSpan<'a>, TokenDecoder<'a>),
    SessionState(SessionStatusSpan<'a>, TokenDecoder<'a>),
    Sspi(SspiSpan<'a>, TokenDecoder<'a>),
    Done(DoneSpan<'a>, TokenDecoder<'a>),
    ReturnStatus(ReturnStatusSpan<'a>, TokenDecoder<'a>),
    /// A COLMETADATA token, read into its columns: the rows that follow need it.
    ColMetaData(ColMetaDataToken, TokenDecoder<'a>),
    ReturnValue(ReturnValueSpan<'a>, TokenDecoder<'a>),
    /// The next byte is not a token that can be read here.
    Error(DecodeError),
}

/// The step `s` read the token `tok` of type `t` and left the decoder at `rest`.
pub open spec fn step_is(s: NoContextStep, t: u8, tok: Seq<u8>, rest: Seq<u8>) -> bool {
    match s {
        NoContextStep::EnvChange(x, n) => t == TOKEN_ENVCHANGE && x.bytes@ == tok && n.bytes@
            == rest,
        NoContextStep::ServerError(x, n) => t == TOKEN_ERROR && x.bytes@ == tok && n.bytes@
            == rest,
        NoContextStep::Info(x, n) => t == TOKEN_INFO && x.bytes@ == tok && n.bytes@ == rest,
        NoContextStep::LoginAck(x, n) => t == TOKEN_LOGINACK && x.bytes@ == tok && n.bytes@
            == rest,
        NoContextStep::FeatureExtAck(x, n) => t == TOKEN_FEATUREEXTACK && x.bytes@ == tok
            && n.bytes@ == rest,
        NoContextStep::SessionState(x, n) => t == TOKEN_SESSIONSTATE && x.bytes@ == tok
            && n.bytes@ == rest,
        NoContextStep::Sspi(x, n) => t == TOKEN_SSPI && x.bytes@ == tok && n.bytes@ == rest,
        NoContextStep::Done(x, n) => is_done_token(t) && x.bytes@ == tok && n.bytes@ == rest,
        NoContextStep::ReturnStatus(x, n) => t == TOKEN_RETURNSTATUS && x.bytes@ == tok
            && n.bytes@ == rest,
        NoContextStep::ReturnValue(x, n) => t == TOKEN_RETURNVALUE && x.bytes@ == tok
            && n.bytes@ == rest,
        _ => false,
    }
}

/// What one step of the decoder over `b` yields.
pub open spec fn step_of(b: Seq<u8>, r: Option<NoContextStep>) -> bool {
    match frame_of(b) {
        Frame::Truncated => r is None,
        Frame::Unknown => r matches Some(NoContextStep::Error(_)),
        Frame::Whole(n) => if b[0] == TOKEN_COLMETADATA {
            r matches Some(NoContextStep::ColMetaData(tk, nx)) && colmetadata_at(b) matches Parsed::Done(
                cs,
                _,
            ) && tk.column_data@ == cs && tk.bytes@ == b.subrange(0, n) && nx.bytes@ == b.subrange(
                n,
                b.len() as int,
            )
        } else {
            r matches Some(s) && step_is(s, b[0], b.subrange(0, n), b.subrange(n, b.len() as int))
        },
    }
}

/// Frames the RETURNVALUE token at the start of `b`: where it ends, or that it
/// is cut short or holds a type that is not read here.
pub fn frame_return_value(b: &[u8]) -> (r: Read<()>)
    requires
        b@.len() >= 1,
    ensures
        match return_value_frame(b@) {
            Frame::Whole(n) => r matches Read::Done(_, e) && e == n,
            Frame::Truncated => r is Short,
            Frame::Unknown => r is Bad,
        },
{
    if b.len() < 4 {
        return Read::Short;
    }
    let name = b[3] as usize;
    if 4 + 2 * name + 7 > b.len() {
        return Read::Short;
    }
    match read_type_info(b, 4 + 2 * name + 7) {
        Read::Done(ti, e) => {
            let rest = vstd::slice::slice_subrange(b, e, b.len());
            match to_dtype_bytes(rest, ti) {
                Some((_, after)) => Read::Done((), b.len() - after.len()),
                None => Read::Short,
            }
        },
        Read::Short => Read::Short,
        Read::Bad => Read::Bad,
    }
}

impl<'a> TokenDecoder<'a> {
    /// A decoder at the start of `bytes`.
    pub fn new(bytes: &'a [u8]) -> (r: Self)
        ensures
            r.bytes@ == bytes@,
    {
        TokenDecoder { bytes }
    }

    /// Where the FEATUREEXTACK token at the start of the stream ends, if it is whole.
    fn feature_ack_len(&self) -> (r: Option<usize>)
        requires
            self.bytes@.len() >= 1,
        ensures
            match feature_ack_end(self.bytes@, 1) {
                Some(n) => r == Some(n as usize) && 1 < n <= self.bytes@.len(),
                None => r is None,
            },
    {
        let b = self.bytes;
        proof {
            lemma_feature_ack_end_bound(b@, 1);
        }
        let mut off: usize = 1;
        while off < b.len()
            invariant
                1 <= off,
                b@ == self.bytes@,
                feature_ack_end(b@, off as int) == feature_ack_end(b@, 1),
            decreases b.len() - off,
        {
            if b[off] == 0xff {
                return Some(off + 1);
            }
            if b.len() - off < 5 {
                return None;
            }
            let len = r_u32_le(b, off + 1);
            if len as u64 > (b.len() - off - 5) as u64 {
                return None;
            }
            off = off + 5 + len as usize;
        }
        None
    }

    /// Reads the next token, if it is whole.
    pub fn advance(self) -> (r: Option<NoContextStep<'a>>)
        ensures
            step_of(self.bytes@, r),
    {
        let b = self.bytes;
        if b.len() == 0 {
            return None;
        }
        let t = b[0];
        let n: usize = if t == TOKEN_ERROR || t == TOKEN_INFO || t == TOKEN_LOGINACK || t
            == TOKEN_ENVCHANGE || t == TOKEN_SSPI {
            if b.len() < 3 {
                return None;
            }
            let len = r_u16_le(b, 1) as usize;
            if len > b.len() - 3 {
                return None;
            }
            3 + len
        } else if t == TOKEN_SESSIONSTATE {
            if b.len() < 5 {
                return None;
            }
            let len = r_u32_le(b, 1);
            if len as u64 > (b.len() - 5) as u64 {
                return None;
            }
            5 + len as usize
        } else if t == TOKEN_DONE || t == TOKEN_DONEPROC || t == TOKEN_DONEINPROC {
            if b.len() < DONE_TOKEN_SIZE {
                return None;
            }
            DONE_TOKEN_SIZE
        } else if t == TOKEN_RETURNSTATUS {
            if b.len() < 5 {
                return None;
            }
            5
        } else if t == TOKEN_FEATUREEXTACK {
            match self.feature_ack_len() {
                Some(n) => {
                    n
                },
                None => {
                    return None;
                },
            }
        } else if t == TOKEN_COLMETADATA {
            proof {
                lemma_colmetadata_end(b@);
            }
            match read_colmetadata(b) {
                Read::Done(cols, n) => {
                    let tok = vstd::slice::slice_to_vec(vstd::slice::slice_subrange(b, 0, n));
                    let next = TokenDecoder { bytes: vstd::slice::slice_subrange(b, n, b.len()) };
                    return Some(
                        NoContextStep::ColMetaData(ColMetaDataToken { bytes: tok, column_data: cols }, next),
                    );
                },
                Read::Short => {
                    return None;
                },
                Read::Bad => {
                    return Some(NoContextStep::Error(DecodeError::invalid_data()));
                },
            }
        } else if t == TOKEN_RETURNVALUE {
            match frame_return_value(b) {
                Read::Done(_, n) => n,
                Read::Short => {
                    return None;
                },
                Read::Bad => {
                    return Some(NoContextStep::Error(DecodeError::invalid_data()));
                },
            }
        } else {
            return Some(NoContextStep::Error(DecodeError::invalid_data()));
        };
        assert(frame_of(b@) == Frame::Whole(n as int));
        let tok = vstd::slice::slice_subrange(b, 0, n);
        let next = TokenDecoder { bytes: vstd::slice::slice_subrange(b, n, b.len()) };
        if t == TOKEN_ENVCHANGE {
            Some(NoContextStep::EnvChange(EnvChangeSpan { bytes: tok }, next))
        } else if t == TOKEN_ERROR {
            Some(NoContextStep::ServerError(ErrorInfoSpan { bytes: tok }, next))
        } else if t == TOKEN_INFO {
            Some(NoContextStep::Info(ErrorInfoSpan { bytes: tok }, next))
        } else if t == TOKEN_LOGINACK {
            Some(NoContextStep::LoginAck(LoginAckSpan { bytes: tok }, next))
        } else if t == TOKEN_SSPI {
            Some(NoContextStep::Sspi(SspiSpan { bytes: tok }, next))
        } else if t == TOKEN_SESSIONSTATE {
            Some(NoContextStep::SessionState(SessionStatusSpan { bytes: tok }, next))
        } else if t == TOKEN_RETURNSTATUS {
            Some(NoContextStep::ReturnStatus(ReturnStatusSpan { bytes: tok }, next))
        } else if t == TOKEN_FEATUREEXTACK {
            Some(NoContextStep::FeatureExtAck(FeatureExtAckSpan { bytes: tok }, next))
        } else if t == TOKEN_RETURNVALUE {
            Some(NoContextStep::ReturnValue(ReturnValueSpan { bytes: tok }, next))
        } else {
            Some(NoContextStep::Done(DoneSpan { bytes: tok }, next))
        }
    }
}

/// A whole first token is not empty and lies within the stream.
pub proof fn lemma_frame_bounds(b: Seq<u8>)
    ensures
        frame_of(b) matches Frame::Whole(n) ==> 0 < n <= b.len(),
{
    lemma_feature_ack_end_bound(b, 1);
    lemma_colmetadata_end(b);
    if b.len() >= 4 {
        lemma_type_info_end(b, 4 + 2 * b[3] + 7);
    }
}

proof fn lemma_feature_ack_end_bound(b: Seq<u8>, off: int)
    ensures
        feature_ack_end(b, off) matches Some(n) ==> off < n <= b.len(),
    decreases b.len() - off,
{
    if 0 <= off < b.len() && b[off] != 0xff && off + 5 <= b.len() {
        let next = off + 5 + le_u32(b, off + 1);
        if next <= b.len() {
            lemma_feature_ack_end_bound(b, next);
        }
    }
}


proof fn lemma_feature_ack_end_extend(b: Seq<u8>, x: Seq<u8>, off: int)
    requires
        feature_ack_end(b, off) is Some,
    ensures
        feature_ack_end(b + x, off) == feature_ack_end(b, off),
    decreases b.len() - off,
{
    let bx = b + x;
    assert(bx[off] == b[off]);
    if b[off] != 0xff {
        assert(bx[off + 1] == b[off + 1]);
        assert(bx[off + 2] == b[off + 2]);
        assert(bx[off + 3] == b[off + 3]);
        assert(bx[off + 4] == b[off + 4]);
        assert(le_u32(bx, off + 1) == le_u32(b, off + 1));
        lemma_feature_ack_end_extend(b, x, off + 5 + le_u32(b, off + 1));
    }
}

/// More bytes after a token that is framed already do not change its framing.
pub proof fn lemma_frame_extend(b: Seq<u8>, x: Seq<u8>)
    requires
        !(frame_of(b) is Truncated),
    ensures
        frame_of(b + x) == frame_of(b),
{
    let bx = b + x;
    assert(bx[0] == b[0]);
    let t = b[0];
    if is_u16_length_token(t) {
        assert(bx[1] == b[1]);
        assert(bx[2] == b[2]);
    } else if t == TOKEN_SESSIONSTATE {
        assert(bx[1] == b[1]);
        assert(bx[2] == b[2]);
        assert(bx[3] == b[3]);
        assert(bx[4] == b[4]);
    } else if t == TOKEN_FEATUREEXTACK {
        lemma_feature_ack_end_extend(b, x, 1);
    } else if t == TOKEN_COLMETADATA {
        lemma_colmetadata_extend(b, x);
    } else if t == TOKEN_RETURNVALUE {
        assert(bx[3] == b[3]);
        let off = 4 + 2 * b[3] + 7;
        lemma_type_info_extend(b, x, off);
        if let Parsed::Done(ti, e) = type_info_at(b, off) {
            assert(bx.subrange(e, bx.len() as int) =~= b.subrange(e, b.len() as int) + x);
            lemma_column_value_extend(b.subrange(e, b.len() as int), x, ti);
        }
    }
}

} // verus!
