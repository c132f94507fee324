//! What the token stream of a response amounts to: query results and the
//! outcome of a login.
use vstd::prelude::*;
use crate::env_change::{
    announced_packet_size, apply_env_change, env_effect, env_span_type, env_value_of,
    parse_packet_size, route_error_matches, route_view, EnvChangeType, RouteError, RouteView,
    Routing,
};
use crate::error::SessionError;
use crate::token::{
    frame_of, lemma_frame_bounds, DoneToken, ErrorInfoToken, Frame, NoContextStep, ReturnStatusToken, TokenDecoder,
    TOKEN_ENVCHANGE, TOKEN_ERROR, TOKEN_FEATUREEXTACK, TOKEN_INFO, TOKEN_LOGINACK,
    TOKEN_SESSIONSTATE, TOKEN_SSPI,
};

verus! {

/// The bytes of each token in `v`.
pub open spec fn tokens_view(v: Seq<ErrorInfoToken>) -> Seq<Seq<u8>> {
    v.map_values(|e: ErrorInfoToken| e.bytes@)
}

/// The results of one statement: its DONE token, the errors before it and its
/// return status.
#[derive(Debug)]
pub struct QueryResult {
    pub done_token: DoneToken,
    pub errors: Vec<ErrorInfoToken>,
    pub return_status: Option<ReturnStatusToken>,
}

/// The results of every statement of a request.
#[derive(Debug)]
pub struct QueryResults {
    pub results: Vec<QueryResult>,
}

/// The errors of the results `rs`, in order.
pub open spec fn all_errors(rs: Seq<QueryResult>) -> Seq<Seq<u8>>
    decreases rs.len(),
{
    if rs.len() == 0 {
        Seq::empty()
    } else {
        all_errors(rs.drop_last()) + tokens_view(rs.last().errors@)
    }
}

impl QueryResults {
    /// Every error of every result, in order.
    pub fn errors(&self) -> (r: Vec<ErrorInfoToken>)
        ensures
            tokens_view(r@) == all_errors(self.results@),
    {
        let mut out: Vec<ErrorInfoToken> = Vec::new();
        let mut i: usize = 0;
        while i < self.results.len()
            invariant
                i <= self.results@.len(),
                tokens_view(out@) == all_errors(self.results@.subrange(0, i as int)),
            decreases self.results@.len() - i,
        {
            let errs = &self.results[i].errors;
            let ghost before = out@;
            let mut j: usize = 0;
            while j < errs.len()
                invariant
                    j <= errs@.len(),
                    tokens_view(out@) == tokens_view(before) + tokens_view(errs@.subrange(0, j as int)),
                decreases errs@.len() - j,
            {
                let e = errs[j].duplicate();
                let ghost mid = out@;
                out.push(e);
                proof {
                    assert(errs@.subrange(0, j + 1) =~= errs@.subrange(0, j as int).push(errs@[j as int]));
                    assert(tokens_view(out@) =~= tokens_view(mid).push(e.bytes@));
                    assert(tokens_view(errs@.subrange(0, j + 1)) =~= tokens_view(errs@.subrange(0, j as int)).push(errs@[j as int].bytes@));
                    assert(tokens_view(out@) =~= tokens_view(before) + tokens_view(errs@.subrange(0, j + 1)));
                }
                j = j + 1;
            }
            proof {
                assert(errs@.subrange(0, errs@.len() as int) =~= errs@);
                let rs = self.results@.subrange(0, i + 1);
                assert(rs.drop_last() =~= self.results@.subrange(0, i as int));
                assert(rs.last() == self.results@[i as int]);
            }
            i = i + 1;
        }
        assert(self.results@.subrange(0, self.results@.len() as int) =~= self.results@);
        out
    }
}

/// What a request's token stream amounts to.
#[derive(Debug)]
pub struct DecodeOutput {
    pub results: QueryResults,
    pub transaction_descriptor: Option<u64>,
    pub routing: Option<Routing>,
}

/// What the server answered to a login.
#[derive(Debug)]
pub struct LoginResponse {
    pub errors: Vec<ErrorInfoToken>,
    pub infos: Vec<ErrorInfoToken>,
    pub login_ack: bool,
    pub sspi_challenge: Option<Vec<u8>>,
    pub routing: Option<Routing>,
    pub transaction_descriptor: u64,
    pub packet_size: Option<usize>,
}

/// The state of reading a login response, as values.
pub struct LoginModel {
    pub errors: Seq<Seq<u8>>,
    pub infos: Seq<Seq<u8>>,
    pub login_ack: bool,
    pub sspi: Option<Seq<u8>>,
    pub routing: Option<RouteView>,
    pub td: Option<u64>,
    pub packet_size: Option<usize>,
}

/// The state before any token.
pub open spec fn login_start() -> LoginModel {
    LoginModel {
        errors: Seq::empty(),
        infos: Seq::empty(),
        login_ack: false,
        sspi: None,
        routing: None,
        td: None,
        packet_size: None,
    }
}

/// Reads the login response tokens `b` on from the state `m`: ENVCHANGE
/// tokens set the packet size, the transaction descriptor and the routing,
/// ERROR and INFO tokens are collected, LOGINACK is noted, an SSPI token gives
/// the challenge, FEATUREEXTACK and SESSIONSTATE are passed over; any other
/// token, an unknown byte or a truncated token ends the reading.
pub open spec fn login_fold(b: Seq<u8>, m: LoginModel) -> Result<LoginModel, RouteError>
    decreases b.len(),
{
    match frame_of(b) {
        Frame::Whole(n) => if n <= 0 || n > b.len() {
            Ok(m)
        } else {
            let tok = b.subrange(0, n);
            let rest = b.subrange(n, b.len() as int);
            let t = b[0];
            if t == TOKEN_ENVCHANGE {
                let m1 = if env_span_type(tok) == Some(EnvChangeType::PacketSize) {
                    LoginModel {
                        packet_size: Some(announced_packet_size(env_value_of(tok)) as usize),
                        ..m
                    }
                } else {
                    m
                };
                match env_effect(tok, m1.td, m1.routing) {
                    Ok((td, routing)) => login_fold(rest, LoginModel { td, routing, ..m1 }),
                    Err(e) => Err(e),
                }
            } else if t == TOKEN_ERROR {
                login_fold(rest, LoginModel { errors: m.errors.push(tok), ..m })
            } else if t == TOKEN_INFO {
                login_fold(rest, LoginModel { infos: m.infos.push(tok), ..m })
            } else if t == TOKEN_LOGINACK {
                login_fold(rest, LoginModel { login_ack: true, ..m })
            } else if t == TOKEN_FEATUREEXTACK || t == TOKEN_SESSIONSTATE {
                login_fold(rest, m)
            } else if t == TOKEN_SSPI {
                login_fold(rest, LoginModel { sspi: Some(tok.subrange(3, n)), ..m })
            } else {
                Ok(m)
            }
        },
        _ => Ok(m),
    }
}

/// The packet size of `m`, if any, is one that a session accepts.
pub open spec fn packet_size_acceptable(m: LoginModel) -> bool {
    m.packet_size matches Some(p) ==> 512 <= p <= 32768
}

proof fn lemma_login_fold_packet_size(b: Seq<u8>, m: LoginModel)
    requires
        packet_size_acceptable(m),
    ensures
        login_fold(b, m) matches Ok(m2) ==> packet_size_acceptable(m2),
    decreases b.len(),
{
    lemma_frame_bounds(b);
    if let Frame::Whole(n) = frame_of(b) {
        if 0 < n <= b.len() {
            let tok = b.subrange(0, n);
            let rest = b.subrange(n, b.len() as int);
            let t = b[0];
            if t == TOKEN_ENVCHANGE {
                let m1 = if env_span_type(tok) == Some(EnvChangeType::PacketSize) {
                    LoginModel {
                        packet_size: Some(announced_packet_size(env_value_of(tok)) as usize),
                        ..m
                    }
                } else {
                    m
                };
                if let Ok((td, routing)) = env_effect(tok, m1.td, m1.routing) {
                    lemma_login_fold_packet_size(rest, LoginModel { td, routing, ..m1 });
                }
            } else if t == TOKEN_ERROR {
                lemma_login_fold_packet_size(rest, LoginModel { errors: m.errors.push(tok), ..m });
            } else if t == TOKEN_INFO {
                lemma_login_fold_packet_size(rest, LoginModel { infos: m.infos.push(tok), ..m });
            } else if t == TOKEN_LOGINACK {
                lemma_login_fold_packet_size(rest, LoginModel { login_ack: true, ..m });
            } else if t == TOKEN_FEATUREEXTACK || t == TOKEN_SESSIONSTATE {
                lemma_login_fold_packet_size(rest, m);
            } else if t == TOKEN_SSPI {
                lemma_login_fold_packet_size(rest, LoginModel { sspi: Some(tok.subrange(3, n)), ..m });
            }
        }
    }
}

/// A login response read from the wire announces, if any, a packet size of
/// 512 to 32768 bytes, so concluding the login never fails on it.
pub proof fn lemma_login_packet_size_acceptable(b: Seq<u8>)
    ensures
        login_fold(b, login_start()) matches Ok(m) ==> packet_size_acceptable(m),
{
    lemma_login_fold_packet_size(b, login_start());
}

/// An ENVCHANGE token that is not a routing change never ends the reading of a
/// login response: reading the token and then `rest` is reading `rest` from
/// the same state, but for the transaction descriptor and the packet size
/// that the change may set. So the LOGINACK, errors, infos, SSPI challenge and
/// routing read from `rest` are all kept.
pub proof fn lemma_login_env_change_continues(tok: Seq<u8>, rest: Seq<u8>, m: LoginModel)
    requires
        tok.len() >= 4,
        tok[0] == 0xe3,
        tok.len() == 3 + tok[1] + 256 * tok[2],
        tok[3] != 20 && tok[3] != 21,
    ensures
        exists|td: Option<u64>, ps: Option<usize>|
            login_fold(tok + rest, m) == #[trigger] login_fold(
                rest,
                LoginModel { td, packet_size: ps, ..m },
            ),
{
    let b = tok + rest;
    assert(b[0] == tok[0] && b[1] == tok[1] && b[2] == tok[2] && b[3] == tok[3]);
    let n = tok.len() as int;
    assert(frame_of(b) == Frame::Whole(n));
    assert(b.subrange(0, n) =~= tok);
    assert(b.subrange(n, b.len() as int) =~= rest);
    let m1 = if env_span_type(tok) == Some(EnvChangeType::PacketSize) {
        LoginModel { packet_size: Some(announced_packet_size(env_value_of(tok)) as usize), ..m }
    } else {
        m
    };
    let (td, routing) = env_effect(tok, m1.td, m1.routing)->Ok_0;
    assert(routing == m.routing);
    assert(login_fold(b, m) == login_fold(rest, LoginModel { td, packet_size: m1.packet_size, ..m }));
}

/// A LOGINACK token is noted and reading goes on: reading the token and then
/// `rest` is reading `rest` with the login acknowledged.
pub proof fn lemma_login_ack_noted(tok: Seq<u8>, rest: Seq<u8>, m: LoginModel)
    requires
        tok.len() >= 3,
        tok[0] == 0xad,
        tok.len() == 3 + tok[1] + 256 * tok[2],
    ensures
        login_fold(tok + rest, m) == login_fold(rest, LoginModel { login_ack: true, ..m }),
{
    let b = tok + rest;
    let n = tok.len() as int;
    assert(b[0] == tok[0] && b[1] == tok[1] && b[2] == tok[2]);
    assert(frame_of(b) == Frame::Whole(n));
    assert(b.subrange(0, n) =~= tok);
    assert(b.subrange(n, b.len() as int) =~= rest);
}

/// ERROR and INFO tokens are collected, in order, and reading goes on.
pub proof fn lemma_login_messages_collected(tok: Seq<u8>, rest: Seq<u8>, m: LoginModel)
    requires
        tok.len() >= 3,
        tok[0] == 0xaa || tok[0] == 0xab,
        tok.len() == 3 + tok[1] + 256 * tok[2],
    ensures
        tok[0] == 0xaa ==> login_fold(tok + rest, m) == login_fold(
            rest,
            LoginModel { errors: m.errors.push(tok), ..m },
        ),
        tok[0] == 0xab ==> login_fold(tok + rest, m) == login_fold(
            rest,
            LoginModel { infos: m.infos.push(tok), ..m },
        ),
{
    let b = tok + rest;
    let n = tok.len() as int;
    assert(b[0] == tok[0] && b[1] == tok[1] && b[2] == tok[2]);
    assert(frame_of(b) == Frame::Whole(n));
    assert(b.subrange(0, n) =~= tok);
    assert(b.subrange(n, b.len() as int) =~= rest);
}

/// Once acknowledged, a login stays acknowledged: no token read after the
/// LOGINACK takes the acknowledgement back.
pub proof fn lemma_login_ack_kept(b: Seq<u8>, m: LoginModel)
    requires
        m.login_ack,
    ensures
        login_fold(b, m) matches Ok(m2) ==> m2.login_ack,
    decreases b.len(),
{
    lemma_frame_bounds(b);
    if let Frame::Whole(n) = frame_of(b) {
        if 0 < n <= b.len() {
            let tok = b.subrange(0, n);
            let rest = b.subrange(n, b.len() as int);
            let t = b[0];
            if t == TOKEN_ENVCHANGE {
                let m1 = if env_span_type(tok) == Some(EnvChangeType::PacketSize) {
                    LoginModel {
                        packet_size: Some(announced_packet_size(env_value_of(tok)) as usize),
                        ..m
                    }
                } else {
                    m
                };
                if let Ok((td, routing)) = env_effect(tok, m1.td, m1.routing) {
                    lemma_login_ack_kept(rest, LoginModel { td, routing, ..m1 });
                }
            } else if t == TOKEN_ERROR {
                lemma_login_ack_kept(rest, LoginModel { errors: m.errors.push(tok), ..m });
            } else if t == TOKEN_INFO {
                lemma_login_ack_kept(rest, LoginModel { infos: m.infos.push(tok), ..m });
            } else if t == TOKEN_LOGINACK {
                lemma_login_ack_kept(rest, LoginModel { login_ack: true, ..m });
            } else if t == TOKEN_FEATUREEXTACK || t == TOKEN_SESSIONSTATE {
                lemma_login_ack_kept(rest, m);
            } else if t == TOKEN_SSPI {
                lemma_login_ack_kept(rest, LoginModel { sspi: Some(tok.subrange(3, n)), ..m });
            }
        }
    }
}

/// The optional bytes of an optional vector.
pub open spec fn opt_bytes(o: Option<Vec<u8>>) -> Option<Seq<u8>> {
    match o {
        Some(v) => Some(v@),
        None => None,
    }
}

impl LoginResponse {
    /// This response is the final state `m` of the reading.
    pub open spec fn is_model(&self, m: LoginModel) -> bool {
        &&& tokens_view(self.errors@) == m.errors
        &&& tokens_view(self.infos@) == m.infos
        &&& self.login_ack == m.login_ack
        &&& opt_bytes(self.sspi_challenge) == m.sspi
        &&& route_view(self.routing) == m.routing
        &&& self.transaction_descriptor == match m.td {
            Some(td) => td,
            None => 0u64,
        }
        &&& self.packet_size == m.packet_size
    }

    /// Reads the tokens of a login response.
    pub fn new(readable: &[u8]) -> (r: Result<LoginResponse, SessionError>)
        ensures
            match login_fold(readable@, login_start()) {
                Ok(m) => r matches Ok(res) && res.is_model(m),
                Err(e) => r matches Err(err) && route_error_matches(e, err),
            },
            r matches Ok(res) ==> (res.packet_size matches Some(p) ==> 512 <= p <= 32768),
    {
        proof {
            lemma_login_packet_size_acceptable(readable@);
        }
        let mut errors: Vec<ErrorInfoToken> = Vec::new();
        let mut infos: Vec<ErrorInfoToken> = Vec::new();
        let mut login_ack = false;
        let mut sspi_challenge: Option<Vec<u8>> = None;
        let mut routing: Option<Routing> = None;
        let mut packet_size: Option<usize> = None;
        let mut transaction_descriptor: Option<u64> = None;
        let mut decoder = TokenDecoder::new(readable);
        assert(tokens_view(errors@) =~= Seq::<Seq<u8>>::empty());
        assert(tokens_view(infos@) =~= Seq::<Seq<u8>>::empty());
        loop
            invariant
                login_fold(readable@, login_start()) == login_fold(
                    decoder.bytes@,
                    LoginModel {
                        errors: tokens_view(errors@),
                        infos: tokens_view(infos@),
                        login_ack,
                        sspi: opt_bytes(sspi_challenge),
                        routing: route_view(routing),
                        td: transaction_descriptor,
                        packet_size,
                    },
                ),
            ensures
                login_fold(readable@, login_start()) == Ok::<LoginModel, RouteError>(
                    LoginModel {
                        errors: tokens_view(errors@),
                        infos: tokens_view(infos@),
                        login_ack,
                        sspi: opt_bytes(sspi_challenge),
                        routing: route_view(routing),
                        td: transaction_descriptor,
                        packet_size,
                    },
                ),
            decreases decoder.bytes@.len(),
        {
            let ghost b = decoder.bytes@;
            proof {
                lemma_frame_bounds(b);
            }
            let step = decoder.advance();
            match step {
                Some(NoContextStep::EnvChange(x, next)) => {
                    if let Some(EnvChangeType::PacketSize) = x.ty() {
                        packet_size = Some(parse_packet_size(&x));
                    }
                    match apply_env_change(&x, &mut transaction_descriptor, &mut routing) {
                        Ok(()) => {},
                        Err(e) => {
                            return Err(e);
                        },
                    }
                    decoder = next;
                },
                Some(NoContextStep::ServerError(x, next)) => {
                    let ghost before = errors@;
                    let e = x.own();
                    errors.push(e);
                    assert(tokens_view(errors@) =~= tokens_view(before).push(x.bytes@));
                    decoder = next;
                },
                Some(NoContextStep::Info(x, next)) => {
                    let ghost before = infos@;
                    let e = x.own();
                    infos.push(e);
                    assert(tokens_view(infos@) =~= tokens_view(before).push(x.bytes@));
                    decoder = next;
                },
                Some(NoContextStep::LoginAck(_, next)) => {
                    login_ack = true;
                    decoder = next;
                },
                Some(NoContextStep::FeatureExtAck(_, next)) => {
                    decoder = next;
                },
                Some(NoContextStep::SessionState(_, next)) => {
                    decoder = next;
                },
                Some(NoContextStep::Sspi(x, next)) => {
                    sspi_challenge = Some(vstd::slice::slice_to_vec(x.sspi_buffer()));
                    decoder = next;
                },
                _ => {
                    break ;
                },
            }
        }
        let td = match transaction_descriptor {
            Some(td) => td,
            None => 0,
        };
        Ok(
            LoginResponse {
                errors,
                infos,
                login_ack,
                sspi_challenge,
                routing,
                transaction_descriptor: td,
                packet_size,
            },
        )
    }
}

} // verus!
