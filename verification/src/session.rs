//! The session state machine: its states and the decisions that move a
//! session from one to the next once the I/O of a step is done.
use vstd::prelude::*;
use crate::bulk_load::BulkLoad;
use crate::decode::{all_errors, tokens_view, DecodeOutput, LoginResponse, QueryResults};
use crate::error::SessionError;
use crate::prelogin::PreLoginOutcome;
use crate::token::ErrorInfoToken;

verus! {

/// Before anything is sent.
#[derive(Debug, Default)]
pub struct InitialState;

/// TLS is negotiated inside PRELOGIN packets (TDS 7.x).
#[derive(Debug, Default)]
pub struct TlsSslNegotiationState;

/// TLS is negotiated before anything else (TDS 8.0).
#[derive(Debug, Default)]
pub struct TlsNegotiationState;

/// TLS is up and PRELOGIN comes next (TDS 8.0).
#[derive(Debug, Default)]
pub struct PreLoginReadyState;

/// Multiple active result sets.
#[derive(Debug, Default)]
pub struct MARS;

/// PRELOGIN is done and LOGIN7 comes next.
#[derive(Debug, Default)]
pub struct LoginReadyState;

/// An SSPI exchange is under way.
#[derive(Debug, Default)]
pub struct SpnegoNegotiationState;

/// The server asked for federated authentication.
#[derive(Debug, Default)]
pub struct FederatedAuthenticationReadyState;

/// Logged in, with no request under way.
#[derive(Debug, Clone, Copy, Default)]
pub struct LoggedInState {
    pub transaction_descriptor: u64,
}

/// A request was sent and its response is awaited.
#[derive(Debug)]
pub struct ClientRequestExecutionState {
    pub transaction_descriptor: u64,
}

/// An attention was sent and its acknowledgement is awaited.
#[derive(Debug, Default)]
pub struct SentAttentionState {
    pub transaction_descriptor: u64,
}

/// The server redirected the client.
#[derive(Debug, Default)]
pub struct RoutingCompletedState {
    pub protocol: u8,
    pub host: String,
    pub port: u16,
}

/// The session is over.
#[derive(Debug, Default)]
pub struct FinalState;

/// A bulk load is under way.
#[derive(Debug)]
pub struct BulkLoadState {
    pub transaction_descriptor: u64,
    pub bulk: BulkLoad,
}

/// A session in the state `S` over the transport `T`, reporting to the observer `O`.
#[derive(Debug)]
pub struct Session<S, T, O> {
    pub stream: T,
    pub observer: O,
    pub timers: Timers,
    pub buffer: SessionBuffer,
    pub state: S,
}

/// Time limits of the session's steps.
#[derive(Debug, Clone, Copy, Default)]
pub struct Timers {
    pub connection: Option<core::time::Duration>,
    pub request: Option<core::time::Duration>,
    pub cancel: Option<core::time::Duration>,
}

/// The message bytes of a session: the last message written or read, how
/// much of it is readable, and the largest packet that the session uses.
#[derive(Debug)]
pub struct SessionBuffer {
    bytes: Vec<u8>,
    readable: usize,
    maximum: usize,
}

/// Packet size before the server announces one.
pub const DEFAULT_PACKET_SIZE: usize = 4096;
/// Smallest packet size that a server may announce.
pub const MIN_PACKET_SIZE: usize = 512;
/// Largest packet size that a server may announce.
pub const MAX_PACKET_SIZE: usize = 32768;

/// What a `SessionBuffer` holds.
pub struct SessionBufferView {
    pub bytes: Seq<u8>,
    pub readable: int,
    pub maximum: int,
}

impl View for SessionBuffer {
    type V = SessionBufferView;

    closed spec fn view(&self) -> SessionBufferView {
        SessionBufferView {
            bytes: self.bytes@,
            readable: self.readable as int,
            maximum: self.maximum as int,
        }
    }
}

impl SessionBuffer {
    #[verifier::type_invariant]
    closed spec fn inv(&self) -> bool {
        self.readable <= self.bytes@.len()
    }

    /// An empty buffer for packets of the default size.
    pub fn new() -> (r: Self)
        ensures
            r@.bytes == Seq::<u8>::empty(),
            r@.readable == 0,
            r@.maximum == DEFAULT_PACKET_SIZE,
    {
        SessionBuffer { bytes: Vec::new(), readable: 0, maximum: DEFAULT_PACKET_SIZE }
    }

    /// The packet size.
    pub fn buffer_size(&self) -> (r: usize)
        ensures
            r == self@.maximum,
    {
        self.maximum
    }

    /// Takes the packet size that the server announced.
    pub fn set_buffer_maximum_size(&mut self, size: usize) -> (r: Result<(), SessionError>)
        ensures
            MIN_PACKET_SIZE <= size <= MAX_PACKET_SIZE ==> r is Ok && final(self)@.maximum == size,
            !(MIN_PACKET_SIZE <= size <= MAX_PACKET_SIZE) ==> (r matches Err(
                SessionError::InvalidPacketSize { requested },
            ) && requested == size && final(self)@.maximum == old(self)@.maximum),
            final(self)@.bytes == old(self)@.bytes,
            final(self)@.readable == old(self)@.readable,
    {
        proof {
            use_type_invariant(&*self);
        }
        if size < MIN_PACKET_SIZE || size > MAX_PACKET_SIZE {
            return Err(SessionError::InvalidPacketSize { requested: size });
        }
        self.maximum = size;
        Ok(())
    }

    /// Holds the message `bytes`, of which none is readable yet.
    pub fn store(&mut self, bytes: Vec<u8>)
        ensures
            final(self)@.bytes == bytes@,
            final(self)@.readable == 0,
            final(self)@.maximum == old(self)@.maximum,
    {
        self.readable = 0;
        self.bytes = bytes;
    }

    /// Makes the first `n` bytes readable, as far as the buffer holds them, and
    /// returns how many are.
    pub fn tail(&mut self, n: usize) -> (r: usize)
        ensures
            r == if n <= old(self)@.bytes.len() {
                n as int
            } else {
                old(self)@.bytes.len() as int
            },
            final(self)@.readable == r,
            final(self)@.bytes == old(self)@.bytes,
            final(self)@.maximum == old(self)@.maximum,
    {
        let r = if n <= self.bytes.len() {
            n
        } else {
            self.bytes.len()
        };
        self.readable = r;
        r
    }

    /// The readable bytes.
    pub fn readable(&self) -> (r: &[u8])
        ensures
            r@ == self@.bytes.subrange(0, self@.readable),
    {
        proof {
            use_type_invariant(self);
        }
        vstd::slice::slice_subrange(self.bytes.as_slice(), 0, self.readable)
    }
}

impl Default for SessionBuffer {
    fn default() -> (r: Self)
        ensures
            r@.bytes == Seq::<u8>::empty(),
            r@.readable == 0,
            r@.maximum == DEFAULT_PACKET_SIZE,
    {
        SessionBuffer::new()
    }
}

impl<S, T, O> Session<S, T, O> {
    /// The same session in the state `state`.
    pub fn with_state<S2>(self, state: S2) -> (r: Session<S2, T, O>)
        ensures
            r.stream == self.stream,
            r.observer == self.observer,
            r.timers == self.timers,
            r.buffer == self.buffer,
            r.state == state,
    {
        Session {
            stream: self.stream,
            observer: self.observer,
            timers: self.timers,
            buffer: self.buffer,
            state,
        }
    }
}

impl<T, O> Session<BulkLoadState, T, O> {
    /// The transaction that the bulk load runs in.
    pub fn transaction_descriptor(&self) -> (r: u64)
        ensures
            r == self.state.transaction_descriptor,
    {
        self.state.transaction_descriptor
    }
}

impl<T, O> Session<LoggedInState, T, O> {
    /// The current transaction.
    pub fn transaction_descriptor(&self) -> (r: u64)
        ensures
            r == self.state.transaction_descriptor,
    {
        self.state.transaction_descriptor
    }
}

impl<T, O> Session<ClientRequestExecutionState, T, O> {
    /// The transaction that the request runs in.
    pub fn transaction_descriptor(&self) -> (r: u64)
        ensures
            r == self.state.transaction_descriptor,
    {
        self.state.transaction_descriptor
    }
}

impl<T, O> Session<RoutingCompletedState, T, O> {
    /// The server to connect to instead.
    pub fn host(&self) -> (r: &str)
        ensures
            r@ == self.state.host@,
    {
        self.state.host.as_str()
    }

    /// Its port.
    pub fn port(&self) -> (r: u16)
        ensures
            r == self.state.port,
    {
        self.state.port
    }

    /// The protocol of the route.
    pub fn protocol(&self) -> (r: u8)
        ensures
            r == self.state.protocol,
    {
        self.state.protocol
    }

    /// The route: server and port.
    pub fn into_route(self) -> (r: (String, u16))
        ensures
            r.0 == self.state.host,
            r.1 == self.state.port,
    {
        (self.state.host, self.state.port)
    }

    /// Ends the session.
    pub fn disconnect(self) -> (r: Session<FinalState, T, O>)
        ensures
            r.stream == self.stream,
            r.observer == self.observer,
            r.timers == self.timers,
            r.buffer == self.buffer,
    {
        self.with_state(FinalState)
    }
}

impl<T, O> Session<FinalState, T, O> {
    /// The transport, given back.
    pub fn into_transport(self) -> (r: T)
        ensures
            r == self.stream,
    {
        self.stream
    }
}

/// Marks the states from which a PRELOGIN exchange starts.
pub trait PreLoginPhase {}

impl PreLoginPhase for InitialState {}

/// Marks the states in which the server's login response is awaited.
pub trait LoginPhase {}

impl LoginPhase for LoginReadyState {}

impl LoginPhase for SpnegoNegotiationState {}

/// Where a session goes from the initial state.
#[derive(Debug)]
pub enum InitialStateTransition<T, O> {
    TlsSslNegotiation(Session<TlsSslNegotiationState, T, O>),
    LoginReady(Session<LoginReadyState, T, O>),
    TlsNegotiation(Session<TlsNegotiationState, T, O>),
}

impl<T, O> Session<InitialState, T, O> {
    /// TDS 8.0: TLS is negotiated before anything else.
    pub fn transition(self) -> (r: InitialStateTransition<T, O>)
        ensures
            r matches InitialStateTransition::TlsNegotiation(s) && s.stream == self.stream
                && s.observer == self.observer && s.timers == self.timers && s.buffer
                == self.buffer,
    {
        InitialStateTransition::TlsNegotiation(self.with_state(TlsNegotiationState))
    }

    /// TDS 7.x: goes where the PRELOGIN exchange decided.
    pub fn conclude_prelogin(self, outcome: PreLoginOutcome) -> (r: InitialStateTransition<T, O>)
        ensures
            outcome == PreLoginOutcome::LoginReady ==> (r matches InitialStateTransition::LoginReady(
                s,
            ) && s.stream == self.stream && s.observer == self.observer && s.timers
                == self.timers && s.buffer == self.buffer),
            outcome == PreLoginOutcome::TlsSslNegotiation ==> (r matches InitialStateTransition::TlsSslNegotiation(
                s,
            ) && s.stream == self.stream && s.observer == self.observer && s.timers
                == self.timers && s.buffer == self.buffer),
    {
        match outcome {
            PreLoginOutcome::LoginReady => InitialStateTransition::LoginReady(
                self.with_state(LoginReadyState),
            ),
            PreLoginOutcome::TlsSslNegotiation => InitialStateTransition::TlsSslNegotiation(
                self.with_state(TlsSslNegotiationState),
            ),
        }
    }
}

impl<T, O> Session<PreLoginReadyState, T, O> {
    /// TDS 8.0: PRELOGIN is done and LOGIN7 comes next.
    pub fn conclude_prelogin(self) -> (r: Session<LoginReadyState, T, O>)
        ensures
            r.stream == self.stream,
            r.observer == self.observer,
            r.timers == self.timers,
            r.buffer == self.buffer,
    {
        self.with_state(LoginReadyState)
    }
}

/// Where a login takes a session.
pub enum LoginReadyStateTransition<T, O> {
    LoggedIn { session: Session<LoggedInState, T, O> },
    AuthenticationRequired { session: Session<LoginReadyState, T, O>, errors: Vec<ErrorInfoToken> },
    Routed { session: Session<RoutingCompletedState, T, O> },
    SspiContinue { session: Session<SpnegoNegotiationState, T, O>, challenge: Vec<u8> },
    FedAuthRequired { session: Session<FederatedAuthenticationReadyState, T, O>, info: Vec<u8> },
}

/// The same transport, observer and timers.
pub open spec fn same_parts<S1, S2, T, O>(a: Session<S1, T, O>, b: Session<S2, T, O>) -> bool {
    a.stream == b.stream && a.observer == b.observer && a.timers == b.timers
}

impl<T, O> Session<LoginReadyState, T, O> {
    /// Goes where the server's login response leads: a routing redirects; without
    /// a LOGINACK an SSPI challenge continues the exchange and anything else
    /// asks for authentication again; with it the session is logged in, in the
    /// transaction that the response named, with the packet size it announced.
    pub fn conclude_login(self, res: LoginResponse) -> (r: Result<
        LoginReadyStateTransition<T, O>,
        SessionError,
    >)
        ensures
            res.routing matches Some((p, h, port)) ==> (r matches Ok(
                LoginReadyStateTransition::Routed { session },
            ) && same_parts(session, self) && session.buffer == self.buffer
                && session.state.protocol == p && session.state.host == h && session.state.port
                == port),
            res.routing is None && !res.login_ack && res.sspi_challenge is Some ==> (r matches Ok(
                LoginReadyStateTransition::SspiContinue { session, challenge },
            ) && same_parts(session, self) && session.buffer == self.buffer && Some(challenge)
                == res.sspi_challenge),
            res.routing is None && !res.login_ack && res.sspi_challenge is None ==> (r matches Ok(
                LoginReadyStateTransition::AuthenticationRequired { session, errors },
            ) && same_parts(session, self) && session.buffer == self.buffer && errors
                == res.errors),
            res.routing is None && res.login_ack && res.packet_size is None ==> (r matches Ok(
                LoginReadyStateTransition::LoggedIn { session },
            ) && same_parts(session, self) && session.buffer == self.buffer
                && session.state.transaction_descriptor == res.transaction_descriptor),
            res.routing is None && res.login_ack && res.packet_size is Some && MIN_PACKET_SIZE
                <= res.packet_size->0 <= MAX_PACKET_SIZE ==> (r matches Ok(
                LoginReadyStateTransition::LoggedIn { session },
            ) && same_parts(session, self) && session.buffer@.maximum == res.packet_size->0
                && session.buffer@.bytes == self.buffer@.bytes && session.buffer@.readable
                == self.buffer@.readable && session.state.transaction_descriptor
                == res.transaction_descriptor),
            res.routing is None && res.login_ack && res.packet_size is Some && !(MIN_PACKET_SIZE
                <= res.packet_size->0 <= MAX_PACKET_SIZE) ==> (r matches Err(
                SessionError::InvalidPacketSize { .. },
            )),
    {
        let mut this = self;
        if let Some((protocol, host, port)) = res.routing {
            return Ok(
                LoginReadyStateTransition::Routed {
                    session: this.with_state(RoutingCompletedState { protocol, host, port }),
                },
            );
        }
        if !res.login_ack {
            if let Some(challenge) = res.sspi_challenge {
                return Ok(
                    LoginReadyStateTransition::SspiContinue {
                        session: this.with_state(SpnegoNegotiationState),
                        challenge,
                    },
                );
            }
            return Ok(
                LoginReadyStateTransition::AuthenticationRequired {
                    session: this.with_state(LoginReadyState),
                    errors: res.errors,
                },
            );
        }
        if let Some(size) = res.packet_size {
            match this.buffer.set_buffer_maximum_size(size) {
                Ok(()) => {},
                Err(e) => {
                    return Err(e);
                },
            }
        }
        Ok(
            LoginReadyStateTransition::LoggedIn {
                session: this.with_state(
                    LoggedInState { transaction_descriptor: res.transaction_descriptor },
                ),
            },
        )
    }
}

/// What one round of an SSPI exchange leads to.
pub enum SpnegoRound<T, O> {
    /// The exchange is over.
    Finished(LoginReadyStateTransition<T, O>),
    /// The server sent another challenge.
    Continue(Session<SpnegoNegotiationState, T, O>, Vec<u8>),
}

impl<T, O> Session<SpnegoNegotiationState, T, O> {
    /// Goes where the response to an SSPI token leads: a LOGINACK logs in, a new
    /// challenge continues, anything else asks for authentication again.
    pub fn conclude_spnego_round(self, res: LoginResponse) -> (r: SpnegoRound<T, O>)
        ensures
            res.login_ack ==> (r matches SpnegoRound::Finished(
                LoginReadyStateTransition::LoggedIn { session },
            ) && same_parts(session, self) && session.buffer == self.buffer
                && session.state.transaction_descriptor == res.transaction_descriptor),
            !res.login_ack && res.sspi_challenge is Some ==> (r matches SpnegoRound::Continue(
                session,
                challenge,
            ) && same_parts(session, self) && session.buffer == self.buffer && Some(challenge)
                == res.sspi_challenge),
            !res.login_ack && res.sspi_challenge is None ==> (r matches SpnegoRound::Finished(
                LoginReadyStateTransition::AuthenticationRequired { session, errors },
            ) && same_parts(session, self) && session.buffer == self.buffer && errors
                == res.errors),
    {
        if res.login_ack {
            return SpnegoRound::Finished(
                LoginReadyStateTransition::LoggedIn {
                    session: self.with_state(
                        LoggedInState { transaction_descriptor: res.transaction_descriptor },
                    ),
                },
            );
        }
        match res.sspi_challenge {
            Some(c) => SpnegoRound::Continue(self, c),
            None => SpnegoRound::Finished(
                LoginReadyStateTransition::AuthenticationRequired {
                    session: self.with_state(LoginReadyState),
                    errors: res.errors,
                },
            ),
        }
    }
}

impl<T, O> Session<FederatedAuthenticationReadyState, T, O> {
    /// Federated authentication is not carried out: the exchange fails as
    /// unimplemented, whatever the provider and the FEDAUTHINFO.
    pub fn transition_fedauth<P: FedAuthProvider>(self, provider: P, info: Vec<u8>) -> (r: Result<
        LoginReadyStateTransition<T, O>,
        SessionError,
    >)
        ensures
            r matches Err(SessionError::Unimplemented),
    {
        Err(SessionError::Unimplemented)
    }
}

/// Where the response to a request takes a session.
pub enum ClientRequestExecutionTransition<T, O> {
    Completed { session: Session<LoggedInState, T, O>, results: QueryResults },
    Routed { session: Session<RoutingCompletedState, T, O> },
    Error { session: Session<LoggedInState, T, O>, errors: Vec<ErrorInfoToken> },
}

/// Where the response to an attention takes a session.
pub enum SentAttentionTransition<T, O> {
    Acknowledged { session: Session<LoggedInState, T, O>, results: QueryResults },
    Error { session: Session<LoggedInState, T, O>, errors: Vec<ErrorInfoToken> },
}

impl<T, O> Session<LoggedInState, T, O> {
    /// A request was sent: its response is awaited in the same transaction.
    pub fn begin_request(self) -> (r: Session<ClientRequestExecutionState, T, O>)
        ensures
            same_parts(r, self),
            r.buffer == self.buffer,
            r.state.transaction_descriptor == self.state.transaction_descriptor,
    {
        let td = self.state.transaction_descriptor;
        self.with_state(ClientRequestExecutionState { transaction_descriptor: td })
    }

    /// A bulk load started: its metadata was sent.
    pub fn begin_bulk_load(self, bulk: BulkLoad) -> (r: Session<BulkLoadState, T, O>)
        ensures
            same_parts(r, self),
            r.buffer == self.buffer,
            r.state.transaction_descriptor == self.state.transaction_descriptor,
            r.state.bulk == bulk,
    {
        let td = self.state.transaction_descriptor;
        self.with_state(BulkLoadState { transaction_descriptor: td, bulk })
    }
}

impl<T, O> Session<BulkLoadState, T, O> {
    /// The bulk load ends: its DONE token is sent with the load's writer, and
    /// the response is awaited in the same transaction.
    pub fn end_bulk_load(self) -> (r: (Session<ClientRequestExecutionState, T, O>, BulkLoad))
        ensures
            same_parts(r.0, self),
            r.0.buffer == self.buffer,
            r.0.state.transaction_descriptor == self.state.transaction_descriptor,
            r.1 == self.state.bulk,
    {
        let Session { stream, observer, timers, buffer, state } = self;
        let BulkLoadState { transaction_descriptor, bulk } = state;
        (
            Session {
                stream,
                observer,
                timers,
                buffer,
                state: ClientRequestExecutionState { transaction_descriptor },
            },
            bulk,
        )
    }
}

impl<T, O> Session<ClientRequestExecutionState, T, O> {
    /// An attention was sent: its acknowledgement is awaited.
    pub fn begin_attention(self) -> (r: Session<SentAttentionState, T, O>)
        ensures
            same_parts(r, self),
            r.buffer == self.buffer,
            r.state.transaction_descriptor == self.state.transaction_descriptor,
    {
        let td = self.state.transaction_descriptor;
        self.with_state(SentAttentionState { transaction_descriptor: td })
    }

    /// Goes where the response leads: a routing redirects; otherwise the
    /// session is logged in again, in the transaction that the response named
    /// (or the same one), with the response's errors if it has any and its
    /// results if not.
    pub fn conclude_request(self, output: DecodeOutput) -> (r: ClientRequestExecutionTransition<T, O>)
        ensures
            output.routing matches Some((p, h, port)) ==> (r matches ClientRequestExecutionTransition::Routed {
                session,
            } && same_parts(session, self) && session.buffer == self.buffer
                && session.state.protocol == p && session.state.host == h && session.state.port
                == port),
            output.routing is None && all_errors(output.results.results@).len() > 0 ==> (r matches ClientRequestExecutionTransition::Error {
                session,
                errors,
            } && same_parts(session, self) && session.buffer == self.buffer
                && session.state.transaction_descriptor == request_descriptor(output, self.state)
                && tokens_view(errors@) == all_errors(output.results.results@)),
            output.routing is None && all_errors(output.results.results@).len() == 0 ==> (r matches ClientRequestExecutionTransition::Completed {
                session,
                results,
            } && same_parts(session, self) && session.buffer == self.buffer
                && session.state.transaction_descriptor == request_descriptor(output, self.state)
                && results == output.results),
    {
        let transaction_descriptor = match output.transaction_descriptor {
            Some(td) => td,
            None => self.state.transaction_descriptor,
        };
        if let Some((protocol, host, port)) = output.routing {
            return ClientRequestExecutionTransition::Routed {
                session: self.with_state(RoutingCompletedState { protocol, host, port }),
            };
        }
        let errors = output.results.errors();
        let session = self.with_state(LoggedInState { transaction_descriptor });
        if errors.len() > 0 {
            ClientRequestExecutionTransition::Error { session, errors }
        } else {
            ClientRequestExecutionTransition::Completed { session, results: output.results }
        }
    }
}

/// The transaction after a request: the one that the response named, else the same one.
pub open spec fn request_descriptor(output: DecodeOutput, state: ClientRequestExecutionState) -> u64 {
    match output.transaction_descriptor {
        Some(td) => td,
        None => state.transaction_descriptor,
    }
}

impl<T, O> Session<SentAttentionState, T, O> {
    /// The attention was acknowledged: the session is logged in again, in the
    /// same transaction, with the response's errors if it has any and its
    /// results if not.
    pub fn conclude_attention(self, output: DecodeOutput) -> (r: SentAttentionTransition<T, O>)
        ensures
            all_errors(output.results.results@).len() > 0 ==> (r matches SentAttentionTransition::Error {
                session,
                errors,
            } && same_parts(session, self) && session.buffer == self.buffer
                && session.state.transaction_descriptor == self.state.transaction_descriptor
                && tokens_view(errors@) == all_errors(output.results.results@)),
            all_errors(output.results.results@).len() == 0 ==> (r matches SentAttentionTransition::Acknowledged {
                session,
                results,
            } && same_parts(session, self) && session.buffer == self.buffer
                && session.state.transaction_descriptor == self.state.transaction_descriptor
                && results == output.results),
    {
        let td = self.state.transaction_descriptor;
        let errors = output.results.errors();
        let session = self.with_state(LoggedInState { transaction_descriptor: td });
        if errors.len() > 0 {
            SentAttentionTransition::Error { session, errors }
        } else {
            SentAttentionTransition::Acknowledged { session, results: output.results }
        }
    }
}

} // verus!

verus! {

/// Produces the tokens of an SSPI exchange from the server's challenges;
/// `None` when it has nothing more to send.
pub trait SspiProvider {
    type Error: core::fmt::Debug;

    fn next(&mut self, challenge: &[u8]) -> Result<Option<Vec<u8>>, Self::Error>;
}

/// Produces a federated authentication token from the server's FEDAUTHINFO.
pub trait FedAuthProvider {
    type Error: core::fmt::Debug;

    fn token(&mut self, fedauth_info: &[u8]) -> Result<Vec<u8>, Self::Error>;
}

} // verus!
