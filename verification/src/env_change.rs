//! The ENVCHANGE token: transaction descriptors, packet size and routing.
use vstd::prelude::*;
use crate::error::{DecodeError, SessionError};
use crate::text::{decimal, decode_utf16_le_lossy, decode_utf16_lossy, push_chars, push_decimal, utf16_units};
use crate::utils::{le_u16, le_u32, le_u64, r_u16_le, r_u64_le};

verus! {

/// A redirection: protocol, server name and port.
pub type Routing = (u8, String, u16);

/// The kinds of environment change that the server reports.
#[derive(Debug, Clone, Copy, PartialEq, Eq)]
pub enum EnvChangeType {
    Database,
    Language,
    CharacterSet,
    PacketSize,
    UnicodeSortingLocalId,
    UnicodeSortingComparisonFlags,
    SqlCollation,
    BeginTransaction,
    CommitTransaction,
    RollbackTransaction,
    EnlistDTCTransaction,
    DefectTransaction,
    RealTimeLogShipping,
    PromoteTransaction,
    TransactionManagerAddress,
    TransactionEnded,
    ResetConnectionAck,
    SendBackUserInstanceName,
    SendRoutingInformation,
    SendEnhancedRoutingInformation,
}

/// The environment change type that the code `b` stands for.
pub open spec fn env_change_type_of(b: u8) -> Option<EnvChangeType> {
    if b == 1 {
        Some(EnvChangeType::Database)
    } else if b == 2 {
        Some(EnvChangeType::Language)
    } else if b == 3 {
        Some(EnvChangeType::CharacterSet)
    } else if b == 4 {
        Some(EnvChangeType::PacketSize)
    } else if b == 5 {
        Some(EnvChangeType::UnicodeSortingLocalId)
    } else if b == 6 {
        Some(EnvChangeType::UnicodeSortingComparisonFlags)
    } else if b == 7 {
        Some(EnvChangeType::SqlCollation)
    } else if b == 8 {
        Some(EnvChangeType::BeginTransaction)
    } else if b == 9 {
        Some(EnvChangeType::CommitTransaction)
    } else if b == 10 {
        Some(EnvChangeType::RollbackTransaction)
    } else if b == 11 {
        Some(EnvChangeType::EnlistDTCTransaction)
    } else if b == 12 {
        Some(EnvChangeType::DefectTransaction)
    } else if b == 13 {
        Some(EnvChangeType::RealTimeLogShipping)
    } else if b == 15 {
        Some(EnvChangeType::PromoteTransaction)
    } else if b == 16 {
        Some(EnvChangeType::TransactionManagerAddress)
    } else if b == 17 {
        Some(EnvChangeType::TransactionEnded)
    } else if b == 18 {
        Some(EnvChangeType::ResetConnectionAck)
    } else if b == 19 {
        Some(EnvChangeType::SendBackUserInstanceName)
    } else if b == 20 {
        Some(EnvChangeType::SendRoutingInformation)
    } else if b == 21 {
        Some(EnvChangeType::SendEnhancedRoutingInformation)
    } else {
        None
    }
}

impl EnvChangeType {
    /// The environment change type of the code `b`, if the protocol defines one.
    pub fn from_u8(b: u8) -> (r: Option<EnvChangeType>)
        ensures
            r == env_change_type_of(b),
    {
        match b {
            1 => Some(EnvChangeType::Database),
            2 => Some(EnvChangeType::Language),
            3 => Some(EnvChangeType::CharacterSet),
            4 => Some(EnvChangeType::PacketSize),
            5 => Some(EnvChangeType::UnicodeSortingLocalId),
            6 => Some(EnvChangeType::UnicodeSortingComparisonFlags),
            7 => Some(EnvChangeType::SqlCollation),
            8 => Some(EnvChangeType::BeginTransaction),
            9 => Some(EnvChangeType::CommitTransaction),
            10 => Some(EnvChangeType::RollbackTransaction),
            11 => Some(EnvChangeType::EnlistDTCTransaction),
            12 => Some(EnvChangeType::DefectTransaction),
            13 => Some(EnvChangeType::RealTimeLogShipping),
            15 => Some(EnvChangeType::PromoteTransaction),
            16 => Some(EnvChangeType::TransactionManagerAddress),
            17 => Some(EnvChangeType::TransactionEnded),
            18 => Some(EnvChangeType::ResetConnectionAck),
            19 => Some(EnvChangeType::SendBackUserInstanceName),
            20 => Some(EnvChangeType::SendRoutingInformation),
            21 => Some(EnvChangeType::SendEnhancedRoutingInformation),
            _ => None,
        }
    }
}

/// An ENVCHANGE token as it stands in the stream: the token byte, a 16-bit
/// length, the change type, then the new and old values.
#[derive(Debug, Clone, Copy)]
pub struct EnvChangeSpan<'a> {
    pub bytes: &'a [u8],
}

/// The change type of the token `b`, if it has one that the protocol defines.
pub open spec fn env_span_type(b: Seq<u8>) -> Option<EnvChangeType> {
    if b.len() >= 4 {
        env_change_type_of(b[3])
    } else {
        None
    }
}

/// The value part of the token `b`: everything after the change type.
pub open spec fn env_value_of(b: Seq<u8>) -> Seq<u8> {
    if b.len() >= 4 {
        b.subrange(4, b.len() as int)
    } else {
        Seq::empty()
    }
}

impl<'a> EnvChangeSpan<'a> {
    /// The change type.
    pub fn ty(&self) -> (r: Option<EnvChangeType>)
        ensures
            r == env_span_type(self.bytes@),
    {
        if self.bytes.len() >= 4 {
            EnvChangeType::from_u8(self.bytes[3])
        } else {
            None
        }
    }

    /// The bytes after the change type: the new value, then the old one.
    pub fn env_value_data(&self) -> (r: &'a [u8])
        ensures
            r@ == env_value_of(self.bytes@),
    {
        if self.bytes.len() >= 4 {
            vstd::slice::slice_subrange(self.bytes, 4, self.bytes.len())
        } else {
            vstd::slice::slice_subrange(self.bytes, 0, 0)
        }
    }
}

/// Where the server name of a routing token ends.
pub open spec fn routing_name_end(b: Seq<u8>) -> int {
    11 + 2 * le_u16(b, 9)
}

/// The message of a routing token of `len` bytes, shorter than its fixed part.
pub open spec fn routing_too_short_text(len: usize) -> Seq<char> {
    "routing env change too short: "@ + decimal(len as nat) + " bytes"@
}

/// The message of a server name that ends at `end`, past the end `len` of its token.
pub open spec fn routing_overrun_text(end: usize, len: usize) -> Seq<char> {
    "routing alternate server overruns token: end="@ + decimal(end as nat) + " len="@ + decimal(
        len as nat,
    )
}

/// Writes the message of a routing token of `len` bytes, shorter than its fixed part.
fn routing_too_short_message(len: usize) -> (r: String)
    ensures
        r@ == routing_too_short_text(len),
{
    let mut s = "routing env change too short: ".to_owned();
    push_decimal(&mut s, len);
    push_chars(&mut s, " bytes");
    s
}

/// Writes the message of a server name that ends at `end`, past the end `len`
/// of its token.
fn routing_overrun_message(end: usize, len: usize) -> (r: String)
    ensures
        r@ == routing_overrun_text(end, len),
{
    let mut s = "routing alternate server overruns token: end=".to_owned();
    push_decimal(&mut s, end);
    push_chars(&mut s, " len=");
    push_decimal(&mut s, len);
    s
}

/// Why a routing token does not decode.
pub enum RouteError {
    /// The token names a protocol other than TCP.
    Unsupported,
    /// The token, of this many bytes, is shorter than its fixed part.
    TooShort(usize),
    /// The server name ends at the first number, past the token's end, the second.
    Overrun(usize, usize),
}

/// A routing as a value: protocol, server name as characters, port.
pub type RouteView = (u8, Seq<char>, u16);

/// The value of an optional routing.
pub open spec fn route_view(r: Option<Routing>) -> Option<RouteView> {
    match r {
        Some((p, h, port)) => Some((p, h@, port)),
        None => None,
    }
}

/// What a routing token `b` decodes to.
pub open spec fn routing_of(b: Seq<u8>) -> Result<RouteView, RouteError> {
    if b.len() < 11 {
        Err(RouteError::TooShort(b.len() as usize))
    } else if b[6] != 0 {
        Err(RouteError::Unsupported)
    } else if routing_name_end(b) > b.len() {
        Err(RouteError::Overrun(routing_name_end(b) as usize, b.len() as usize))
    } else {
        Ok(
            (
                0u8,
                decode_utf16_lossy(utf16_units(b.subrange(11, routing_name_end(b)))),
                le_u16(b, 7) as u16,
            ),
        )
    }
}

/// The session error that a routing error is returned as, message included:
/// exactly what `parse_routing` gives.
pub open spec fn route_error_matches(e: RouteError, r: SessionError) -> bool {
    match e {
        RouteError::Unsupported => r is Unimplemented,
        RouteError::TooShort(len) => r matches SessionError::DecodeError(
            DecodeError::InvalidLength(m),
        ) && m@ == routing_too_short_text(len),
        RouteError::Overrun(end, len) => r matches SessionError::DecodeError(
            DecodeError::InvalidLength(m),
        ) && m@ == routing_overrun_text(end, len),
    }
}

/// Decodes a routing token: protocol byte at 6, port at 7, the length of the
/// server name in UTF-16 units at 9 and the name from 11.
pub fn parse_routing(span: &EnvChangeSpan<'_>) -> (r: Result<Routing, SessionError>)
    ensures
        match routing_of(span.bytes@) {
            Ok(v) => r matches Ok(route) && route_view(Some(route)) == Some(v),
            Err(e) => r matches Err(err) && route_error_matches(e, err),
        },
{
    let bytes = span.bytes;
    if bytes.len() < 11 {
        return Err(
            SessionError::DecodeError(
                DecodeError::InvalidLength(routing_too_short_message(bytes.len())),
            ),
        );
    }
    let protocol = bytes[6];
    if protocol != 0 {
        return Err(SessionError::Unimplemented);
    }
    let port = r_u16_le(bytes, 7);
    let chars = r_u16_le(bytes, 9) as usize;
    let start: usize = 11;
    if chars > (bytes.len() - start) / 2 {
        return Err(
            SessionError::DecodeError(
                DecodeError::InvalidLength(
                    routing_overrun_message(start + chars * 2, bytes.len()),
                ),
            ),
        );
    }
    let end = start + chars * 2;
    let host = decode_utf16_le_lossy(bytes, start, end);
    Ok((protocol, host, port))
}

/// The value of the decimal digits `d`, if every one of them is an ASCII digit.
pub open spec fn decimal_value(d: Seq<u8>) -> Option<int>
    decreases d.len(),
{
    if d.len() == 0 {
        Some(0)
    } else {
        match decimal_value(d.drop_last()) {
            Some(v) => if 0x30 <= d.last() <= 0x39 {
                Some(v * 10 + (d.last() - 0x30))
            } else {
                None
            },
            None => None,
        }
    }
}

/// The first byte of each UTF-16 unit in `b`.
pub open spec fn low_bytes(b: Seq<u8>) -> Seq<u8> {
    Seq::new(b.len() / 2, |i: int| b[2 * i])
}

/// The packet size that a PACKETSIZE value announces: its characters (one
/// length byte, then UTF-16 units whose low bytes must be ASCII digits) read as
/// a decimal number; 4096 when the value is truncated, is not a number or lies
/// outside 512..=32768.
pub open spec fn announced_packet_size(v: Seq<u8>) -> int {
    let chars = if v.len() > 0 { v[0] as int } else { 0 };
    let total = 1 + 2 * chars;
    if total > v.len() {
        4096
    } else {
        match decimal_value(low_bytes(v.subrange(1, total))) {
            Some(n) => if 512 <= n <= 32768 { n } else { 4096 },
            None => 4096,
        }
    }
}

proof fn lemma_decimal_value_monotone(d: Seq<u8>, k: int)
    requires
        0 <= k <= d.len(),
        decimal_value(d) is Some,
    ensures
        decimal_value(d.subrange(0, k)) is Some,
        decimal_value(d.subrange(0, k))->0 <= decimal_value(d)->0,
        decimal_value(d.subrange(0, k))->0 >= 0,
    decreases d.len(),
{
    if k == d.len() {
        assert(d.subrange(0, k) =~= d);
        if d.len() > 0 {
            lemma_decimal_value_monotone(d.drop_last(), 0);
        }
    } else {
        assert(d.drop_last().subrange(0, k) =~= d.subrange(0, k));
        lemma_decimal_value_monotone(d.drop_last(), k);
        lemma_decimal_value_monotone(d.drop_last(), d.len() - 1);
        assert(d.drop_last().subrange(0, d.len() - 1) =~= d.drop_last());
    }
}

/// Decodes the packet size that a PACKETSIZE change announces.
pub fn parse_packet_size(span: &EnvChangeSpan<'_>) -> (r: usize)
    ensures
        r == announced_packet_size(env_value_of(span.bytes@)),
        512 <= r <= 32768,
{
    let v = span.env_value_data();
    let chars: usize = if v.len() > 0 {
        v[0] as usize
    } else {
        0
    };
    let total = 1 + chars * 2;
    if total > v.len() {
        return 4096;
    }
    let ghost d = low_bytes(v@.subrange(1, total as int));
    let mut acc: usize = 0;
    let mut i: usize = 0;
    while i < chars
        invariant
            total == 1 + chars * 2,
            total <= v@.len(),
            v@ == env_value_of(span.bytes@),
            v@.len() > 0 && chars == v@[0],
            i <= chars,
            d == low_bytes(v@.subrange(1, total as int)),
            d.len() == chars,
            decimal_value(d.subrange(0, i as int)) == Some(acc as int),
        decreases chars - i,
    {
        let b = v[1 + 2 * i];
        assert(b == d[i as int]);
        assert(d.subrange(0, i + 1).drop_last() =~= d.subrange(0, i as int));
        if b < 0x30 || b > 0x39 {
            proof {
                let p = d.subrange(0, i + 1);
                assert(p.drop_last() =~= d.subrange(0, i as int));
                assert(p.last() == b);
                if decimal_value(d) is Some {
                    lemma_decimal_value_monotone(d, i + 1);
                }
                assert(decimal_value(p) is None);
                assert(decimal_value(d) is None);
            }
            return 4096;
        }
        if acc > (usize::MAX - 9) / 10 {
            proof {
                let p = d.subrange(0, i + 1);
                assert(p.drop_last() =~= d.subrange(0, i as int));
                assert(p.last() == b);
                if decimal_value(d) is Some {
                    lemma_decimal_value_monotone(d, i + 1);
                }
            }
            return 4096;
        }
        acc = acc * 10 + (b - 0x30) as usize;
        i = i + 1;
    }
    assert(d.subrange(0, chars as int) =~= d);
    if 512 <= acc && acc <= 32768 {
        acc
    } else {
        4096
    }
}

/// The transaction descriptor and routing after the environment change `b`,
/// or the error that the change raises.
pub open spec fn env_effect(b: Seq<u8>, td: Option<u64>, route: Option<RouteView>) -> Result<
    (Option<u64>, Option<RouteView>),
    RouteError,
> {
    let ty = env_span_type(b);
    if ty == Some(EnvChangeType::BeginTransaction) || ty == Some(
        EnvChangeType::EnlistDTCTransaction,
    ) {
        if b.len() >= 13 {
            Ok((Some(le_u64(b, 5) as u64), route))
        } else {
            Ok((td, route))
        }
    } else if ty == Some(EnvChangeType::CommitTransaction) || ty == Some(
        EnvChangeType::RollbackTransaction,
    ) || ty == Some(EnvChangeType::DefectTransaction) {
        Ok((Some(0u64), route))
    } else if ty == Some(EnvChangeType::SendRoutingInformation) || ty == Some(
        EnvChangeType::SendEnhancedRoutingInformation,
    ) {
        match routing_of(b) {
            Ok(v) => Ok((td, Some(v))),
            Err(e) => Err(e),
        }
    } else {
        Ok((td, route))
    }
}

/// Commit, rollback and defect (type bytes 9, 10 and 12) end the transaction:
/// whatever the descriptor was, it is 0 afterwards, and the routing stays.
pub proof fn lemma_transaction_end_clears_descriptor(
    b: Seq<u8>,
    td: Option<u64>,
    route: Option<RouteView>,
)
    requires
        b.len() >= 4,
        b[3] == 9 || b[3] == 10 || b[3] == 12,
    ensures
        env_effect(b, td, route) matches Ok((d, r)) && d == Some(0u64) && r == route,
{
}

/// Begin and enlist (type bytes 8 and 11) with their eight descriptor bytes
/// present set the descriptor to the little-endian value of bytes 5 to 12;
/// the routing stays.
pub proof fn lemma_transaction_begin_sets_descriptor(
    b: Seq<u8>,
    td: Option<u64>,
    route: Option<RouteView>,
)
    requires
        b.len() >= 13,
        b[3] == 8 || b[3] == 11,
    ensures
        env_effect(b, td, route) matches Ok((Some(d), r)) && r == route && d == b[5] + 256 * b[6]
            + 65536 * b[7] + 16777216 * b[8] + 4294967296 * (b[9] + 256 * b[10] + 65536 * b[11]
            + 16777216 * b[12]),
{
    let lo = le_u32(b, 5);
    let hi = le_u32(b, 9);
    assert(0 <= lo < 4294967296);
    assert(0 <= hi < 4294967296);
    assert(0 <= lo + 4294967296 * hi < 18446744073709551616) by (nonlinear_arith)
        requires
            0 <= lo < 4294967296,
            0 <= hi < 4294967296,
    ;
}

/// A change of any type but the transaction and routing ones (type bytes 8 to
/// 12, 20 and 21) leaves the descriptor and the routing as they were.
pub proof fn lemma_other_env_change_keeps_state(
    b: Seq<u8>,
    td: Option<u64>,
    route: Option<RouteView>,
)
    requires
        b.len() < 4 || !(8 <= b[3] <= 12 || b[3] == 20 || b[3] == 21),
    ensures
        env_effect(b, td, route) == Ok::<(Option<u64>, Option<RouteView>), RouteError>((td, route)),
{
}

/// A routing change (type bytes 20 and 21) never touches the descriptor: it
/// fails exactly when the token is shorter than its fixed part, names a
/// protocol other than TCP or has its server name run past its end, and
/// otherwise replaces the routing.
pub proof fn lemma_routing_change_keeps_descriptor(
    b: Seq<u8>,
    td: Option<u64>,
    route: Option<RouteView>,
)
    requires
        b.len() >= 4,
        b[3] == 20 || b[3] == 21,
    ensures
        (env_effect(b, td, route) is Err) <==> (b.len() < 11 || b[6] != 0 || 11 + 2 * (b[9] + 256
            * b[10]) > b.len()),
        env_effect(b, td, route) matches Ok((d, r)) ==> d == td && r is Some,
{
}

/// Applies an environment change to the transaction descriptor and the routing
/// that a response carries; on an error both stay as they were.
pub fn apply_env_change(
    env_change_span: &EnvChangeSpan<'_>,
    transaction_descriptor: &mut Option<u64>,
    routing: &mut Option<Routing>,
) -> (r: Result<(), SessionError>)
    ensures
        match env_effect(
            env_change_span.bytes@,
            *old(transaction_descriptor),
            route_view(*old(routing)),
        ) {
            Ok((td, route)) => r is Ok && *final(transaction_descriptor) == td && route_view(
                *final(routing),
            ) == route,
            Err(e) => r matches Err(err) && route_error_matches(e, err)
                && *final(transaction_descriptor) == *old(transaction_descriptor) && route_view(
                *final(routing),
            ) == route_view(*old(routing)),
        },
{
    match env_change_span.ty() {
        Some(EnvChangeType::BeginTransaction) | Some(EnvChangeType::EnlistDTCTransaction) => {
            if env_change_span.bytes.len() >= 13 {
                *transaction_descriptor = Some(r_u64_le(env_change_span.bytes, 5));
            }
        },
        Some(EnvChangeType::CommitTransaction)
        | Some(EnvChangeType::RollbackTransaction)
        | Some(EnvChangeType::DefectTransaction) => {
            *transaction_descriptor = Some(0);
        },
        Some(EnvChangeType::SendRoutingInformation)
        | Some(EnvChangeType::SendEnhancedRoutingInformation) => {
            match parse_routing(env_change_span) {
                Ok(route) => {
                    *routing = Some(route);
                },
                Err(e) => {
                    return Err(e);
                },
            }
        },
        _ => {},
    }
    Ok(())
}

} // verus!
