use bronotdsaurs::bulk_load::BulkLoad;
use bronotdsaurs::colmetadata::ColMetaDataToken;
use bronotdsaurs::decode::{DecodeOutput, LoginResponse, QueryResult, QueryResults};
use bronotdsaurs::error::SessionError;
use bronotdsaurs::prelogin::PreLoginOutcome;
use bronotdsaurs::session::{
    ClientRequestExecutionState, ClientRequestExecutionTransition, FedAuthProvider,
    FederatedAuthenticationReadyState, InitialState, InitialStateTransition, LoggedInState,
    LoginReadyState, LoginReadyStateTransition, PreLoginReadyState, SentAttentionTransition, Session,
    SessionBuffer, SpnegoNegotiationState, SpnegoRound, Timers,
};
use bronotdsaurs::token::{DoneToken, ErrorInfoToken};

fn session<S>(state: S) -> Session<S, u32, ()> {
    Session { stream: 7, observer: (), timers: Timers::default(), buffer: SessionBuffer::new(), state }
}

fn response(login_ack: bool) -> LoginResponse {
    LoginResponse {
        errors: vec![],
        infos: vec![],
        login_ack,
        sspi_challenge: None,
        routing: None,
        transaction_descriptor: 7,
        packet_size: None,
    }
}

fn output(errors: Vec<ErrorInfoToken>, td: Option<u64>, routing: Option<(u8, String, u16)>) -> DecodeOutput {
    let d = DoneToken { ty: 0xFD, status: 0, cur_cmd: 0, row_count: 1 };
    DecodeOutput {
        results: QueryResults { results: vec![QueryResult { done_token: d, errors, return_status: None }] },
        transaction_descriptor: td,
        routing,
    }
}

struct NoToken;

impl FedAuthProvider for NoToken {
    type Error = ();
    fn token(&mut self, _fedauth_info: &[u8]) -> Result<Vec<u8>, ()> {
        Ok(vec![])
    }
}

#[test]
fn session_buffer_packet_size_limits() {
    let mut b = SessionBuffer::new();
    assert_eq!(b.buffer_size(), 4096);
    assert!(matches!(b.set_buffer_maximum_size(511), Err(SessionError::InvalidPacketSize { requested: 511 })));
    assert_eq!(b.buffer_size(), 4096);
    b.set_buffer_maximum_size(512).unwrap();
    assert_eq!(b.buffer_size(), 512);
    b.set_buffer_maximum_size(32768).unwrap();
    assert_eq!(b.buffer_size(), 32768);
    assert!(matches!(b.set_buffer_maximum_size(32769), Err(SessionError::InvalidPacketSize { requested: 32769 })));
    assert_eq!(SessionBuffer::default().buffer_size(), 4096);
}

#[test]
fn session_buffer_readable_part() {
    let mut b = SessionBuffer::new();
    assert!(b.readable().is_empty());
    b.store(vec![1, 2, 3]);
    assert!(b.readable().is_empty());
    assert_eq!(b.tail(5), 3);
    assert_eq!(b.readable(), &[1, 2, 3]);
    assert_eq!(b.tail(2), 2);
    assert_eq!(b.readable(), &[1, 2]);
}

#[test]
fn login_with_packet_size_logs_in() {
    let mut res = response(true);
    res.packet_size = Some(8192);
    match session(LoginReadyState).conclude_login(res) {
        Ok(LoginReadyStateTransition::LoggedIn { session }) => {
            assert_eq!(session.transaction_descriptor(), 7);
            assert_eq!(session.buffer.buffer_size(), 8192);
            assert_eq!(session.stream, 7);
        }
        _ => panic!("expected a login"),
    }
}

#[test]
fn login_without_packet_size_keeps_the_buffer() {
    match session(LoginReadyState).conclude_login(response(true)) {
        Ok(LoginReadyStateTransition::LoggedIn { session }) => {
            assert_eq!(session.buffer.buffer_size(), 4096);
        }
        _ => panic!("expected a login"),
    }
}

#[test]
fn login_with_bad_packet_size_fails() {
    let mut res = response(true);
    res.packet_size = Some(100);
    assert!(matches!(
        session(LoginReadyState).conclude_login(res),
        Err(SessionError::InvalidPacketSize { requested: 100 })
    ));
}

#[test]
fn login_routing_goes_first() {
    let mut res = response(true);
    res.routing = Some((0, String::from("srv"), 1433));
    match session(LoginReadyState).conclude_login(res) {
        Ok(LoginReadyStateTransition::Routed { session }) => {
            assert_eq!(session.host(), "srv");
            assert_eq!(session.port(), 1433);
            assert_eq!(session.protocol(), 0);
            let finished = session.disconnect();
            assert_eq!(finished.into_transport(), 7);
        }
        _ => panic!("expected a routing"),
    }
    let mut res = response(false);
    res.routing = Some((0, String::from("other"), 2));
    match session(LoginReadyState).conclude_login(res) {
        Ok(LoginReadyStateTransition::Routed { session }) => {
            assert_eq!(session.into_route(), (String::from("other"), 2));
        }
        _ => panic!("expected a routing"),
    }
}

#[test]
fn login_without_ack_continues_or_asks_again() {
    let mut res = response(false);
    res.sspi_challenge = Some(vec![1, 2]);
    match session(LoginReadyState).conclude_login(res) {
        Ok(LoginReadyStateTransition::SspiContinue { challenge, .. }) => assert_eq!(challenge, vec![1, 2]),
        _ => panic!("expected an SSPI challenge"),
    }
    let e = ErrorInfoToken { bytes: vec![0xAA, 1, 0, 1] };
    let mut res = response(false);
    res.errors = vec![e.clone()];
    match session(LoginReadyState).conclude_login(res) {
        Ok(LoginReadyStateTransition::AuthenticationRequired { errors, .. }) => assert_eq!(errors, vec![e]),
        _ => panic!("expected a refusal"),
    }
}

#[test]
fn spnego_rounds() {
    match session(SpnegoNegotiationState).conclude_spnego_round(response(true)) {
        SpnegoRound::Finished(LoginReadyStateTransition::LoggedIn { session }) => {
            assert_eq!(session.transaction_descriptor(), 7)
        }
        _ => panic!("expected a login"),
    }
    let mut res = response(false);
    res.sspi_challenge = Some(vec![3]);
    match session(SpnegoNegotiationState).conclude_spnego_round(res) {
        SpnegoRound::Continue(_, c) => assert_eq!(c, vec![3]),
        _ => panic!("expected another challenge"),
    }
    match session(SpnegoNegotiationState).conclude_spnego_round(response(false)) {
        SpnegoRound::Finished(LoginReadyStateTransition::AuthenticationRequired { errors, .. }) => {
            assert!(errors.is_empty())
        }
        _ => panic!("expected a refusal"),
    }
}

#[test]
fn fedauth_is_unimplemented() {
    let r = session(FederatedAuthenticationReadyState).transition_fedauth(NoToken, vec![1]);
    assert!(matches!(r, Err(SessionError::Unimplemented)));
}

#[test]
fn prelogin_transitions() {
    match session(InitialState).transition() {
        InitialStateTransition::TlsNegotiation(s) => assert_eq!(s.stream, 7),
        _ => panic!("expected TLS first"),
    }
    match session(InitialState).conclude_prelogin(PreLoginOutcome::LoginReady) {
        InitialStateTransition::LoginReady(_) => {}
        _ => panic!("expected login"),
    }
    match session(InitialState).conclude_prelogin(PreLoginOutcome::TlsSslNegotiation) {
        InitialStateTransition::TlsSslNegotiation(_) => {}
        _ => panic!("expected TLS"),
    }
    let s = session(PreLoginReadyState).conclude_prelogin();
    assert_eq!(s.stream, 7);
}

#[test]
fn request_response_takes_the_named_transaction() {
    let s = session(LoggedInState { transaction_descriptor: 3 }).begin_request();
    assert_eq!(s.transaction_descriptor(), 3);
    match s.conclude_request(output(vec![], Some(9), None)) {
        ClientRequestExecutionTransition::Completed { session, results } => {
            assert_eq!(session.transaction_descriptor(), 9);
            assert_eq!(results.results.len(), 1);
        }
        _ => panic!("expected results"),
    }
    let s = session(ClientRequestExecutionState { transaction_descriptor: 3 });
    match s.conclude_request(output(vec![], None, None)) {
        ClientRequestExecutionTransition::Completed { session, .. } => {
            assert_eq!(session.transaction_descriptor(), 3)
        }
        _ => panic!("expected results"),
    }
}

#[test]
fn request_response_errors_and_routing() {
    let e = ErrorInfoToken { bytes: vec![0xAA, 1, 0, 5] };
    let s = session(ClientRequestExecutionState { transaction_descriptor: 3 });
    match s.conclude_request(output(vec![e.clone()], Some(0), None)) {
        ClientRequestExecutionTransition::Error { session, errors } => {
            assert_eq!(errors, vec![e.clone()]);
            assert_eq!(session.transaction_descriptor(), 0);
        }
        _ => panic!("expected errors"),
    }
    let s = session(ClientRequestExecutionState { transaction_descriptor: 3 });
    match s.conclude_request(output(vec![e], None, Some((0, String::from("r"), 5)))) {
        ClientRequestExecutionTransition::Routed { session } => {
            assert_eq!(session.host(), "r");
            assert_eq!(session.port(), 5);
        }
        _ => panic!("expected a routing"),
    }
}

#[test]
fn attention_keeps_the_transaction() {
    let s = session(ClientRequestExecutionState { transaction_descriptor: 4 }).begin_attention();
    match s.conclude_attention(output(vec![], Some(9), None)) {
        SentAttentionTransition::Acknowledged { session, results } => {
            assert_eq!(session.transaction_descriptor(), 4);
            assert_eq!(results.results.len(), 1);
        }
        _ => panic!("expected an acknowledgement"),
    }
    let e = ErrorInfoToken { bytes: vec![0xAA, 1, 0, 5] };
    let s = session(ClientRequestExecutionState { transaction_descriptor: 4 }).begin_attention();
    match s.conclude_attention(output(vec![e.clone()], None, None)) {
        SentAttentionTransition::Error { session, errors } => {
            assert_eq!(errors, vec![e]);
            assert_eq!(session.transaction_descriptor(), 4);
        }
        _ => panic!("expected errors"),
    }
}

#[test]
fn bulk_load_state_round_trip() {
    let meta = ColMetaDataToken { bytes: vec![0x81], column_data: vec![] };
    let bulk = BulkLoad::prepare(meta, 4096);
    let s = session(LoggedInState { transaction_descriptor: 11 }).begin_bulk_load(bulk);
    assert_eq!(s.transaction_descriptor(), 11);
    let (next, bulk) = s.end_bulk_load();
    assert_eq!(next.transaction_descriptor(), 11);
    assert_eq!(bulk.metadata_bytes(), &[0x81]);
}
