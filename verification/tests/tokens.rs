use bronotdsaurs::decode::{LoginResponse, QueryResult, QueryResults};
use bronotdsaurs::env_change::{apply_env_change, parse_packet_size, parse_routing, EnvChangeSpan, EnvChangeType};
use bronotdsaurs::error::{DecodeError, SessionError};
use bronotdsaurs::stream::{
    check_packet_header, DecodePoll, StreamAction, StreamingBuffer, TokenStreamDecoder, TokenStreamState,
};
use bronotdsaurs::token::{DoneToken, ErrorInfoToken, ReturnStatusToken};

fn done(status: u8) -> Vec<u8> {
    vec![0xFD, status, 0x00, 0xC1, 0x00, 0x01, 0, 0, 0, 0, 0, 0, 0]
}

fn packet_size_token(digits: &str) -> Vec<u8> {
    let mut v = vec![0xE3, 0x00, 0x00, 0x04, digits.len() as u8];
    for c in digits.bytes() {
        v.push(c);
        v.push(0);
    }
    v.push(0);
    let n = v.len() - 3;
    v[1] = n as u8;
    v
}

fn routing_token(protocol: u8, port: u16, name: &str, announced: u16) -> Vec<u8> {
    let mut v = vec![0xE3, 0x00, 0x00, 0x14, 0x00, 0x00, protocol];
    v.extend_from_slice(&port.to_le_bytes());
    v.extend_from_slice(&announced.to_le_bytes());
    for u in name.encode_utf16() {
        v.extend_from_slice(&u.to_le_bytes());
    }
    v.extend_from_slice(&[0, 0]);
    let n = v.len() - 3;
    v[1] = n as u8;
    v
}

#[test]
fn done_token_wire_form_reads_back() {
    let d = DoneToken { ty: 0xFD, status: 0x0010, cur_cmd: 0x00C1, row_count: 0x0102_0304_0506_0708 };
    let b = d.as_bytes();
    assert_eq!(b, vec![0xFD, 0x10, 0x00, 0xC1, 0x00, 0x08, 0x07, 0x06, 0x05, 0x04, 0x03, 0x02, 0x01]);
    let mut st = TokenStreamState::new();
    let (action, committed) = st.decode_step(&b).unwrap();
    assert_eq!(action, StreamAction::Finished);
    assert_eq!(committed, 0);
    assert!(st.is_finished());
    let out = st.finish(&[], 0, 0, true).unwrap();
    assert_eq!(out.results.results.len(), 1);
    assert_eq!(out.results.results[0].done_token, d);
}

#[test]
fn login_response_collects_every_token() {
    let mut b = packet_size_token("8192");
    b.extend_from_slice(&[0xAD, 0x02, 0x00, 0x01, 0x02]);
    b.extend_from_slice(&[0xAB, 0x03, 0x00, 0x01, 0x02, 0x03]);
    b.extend_from_slice(&[0xAA, 0x02, 0x00, 0x09, 0x09]);
    b.extend_from_slice(&[0xE3, 0x0B, 0x00, 0x08, 0x08, 0x11, 0x22, 0, 0, 0, 0, 0, 0x80, 0x00]);
    b.extend_from_slice(&[0xED, 0x03, 0x00, 0xA1, 0xA2, 0xA3]);
    b.extend_from_slice(&done(0));
    let res = LoginResponse::new(&b).unwrap();
    assert_eq!(res.packet_size, Some(8192));
    assert!(res.login_ack);
    assert_eq!(res.infos, vec![ErrorInfoToken { bytes: vec![0xAB, 0x03, 0x00, 0x01, 0x02, 0x03] }]);
    assert_eq!(res.errors, vec![ErrorInfoToken { bytes: vec![0xAA, 0x02, 0x00, 0x09, 0x09] }]);
    assert_eq!(res.transaction_descriptor, 0x8000_0000_0000_2211);
    assert_eq!(res.sspi_challenge, Some(vec![0xA1, 0xA2, 0xA3]));
    assert!(res.routing.is_none());
}

#[test]
fn login_response_without_tokens_is_empty() {
    let res = LoginResponse::new(&[]).unwrap();
    assert!(!res.login_ack);
    assert_eq!(res.transaction_descriptor, 0);
    assert_eq!(res.packet_size, None);
    assert!(res.errors.is_empty());
    assert!(res.infos.is_empty());
    assert!(res.sspi_challenge.is_none());
}

#[test]
fn login_response_stops_at_an_unknown_token() {
    let mut b = vec![0x00];
    b.extend_from_slice(&[0xAD, 0x02, 0x00, 0x01, 0x02]);
    let res = LoginResponse::new(&b).unwrap();
    assert!(!res.login_ack);
}

#[test]
fn login_response_reads_routing() {
    let mut b = routing_token(0, 1433, "srv", 3);
    b.extend_from_slice(&done(0));
    let res = LoginResponse::new(&b).unwrap();
    assert_eq!(res.routing, Some((0, String::from("srv"), 1433)));
}

#[test]
fn parse_routing_reads_protocol_port_and_server() {
    let b = routing_token(0, 1433, "sql.example", 11);
    let r = parse_routing(&EnvChangeSpan { bytes: &b }).unwrap();
    assert_eq!(r, (0, String::from("sql.example"), 1433));
}

#[test]
fn parse_routing_replaces_unpaired_surrogates() {
    let mut b = vec![0xE3, 0x00, 0x00, 0x14, 0x00, 0x00, 0x00, 0x10, 0x00, 0x03, 0x00];
    b.extend_from_slice(&[0x61, 0x00, 0x00, 0xD8, 0x62, 0x00]);
    let r = parse_routing(&EnvChangeSpan { bytes: &b }).unwrap();
    assert_eq!(r.1, "a\u{FFFD}b");
    assert_eq!(r.2, 16);
}

#[test]
fn parse_routing_refuses_other_protocols() {
    let b = routing_token(1, 1433, "srv", 3);
    assert!(matches!(parse_routing(&EnvChangeSpan { bytes: &b }), Err(SessionError::Unimplemented)));
    let mut login = b.clone();
    login.extend_from_slice(&done(0));
    assert!(matches!(LoginResponse::new(&login), Err(SessionError::Unimplemented)));
}

#[test]
fn parse_routing_refuses_short_tokens() {
    let b = vec![0xE3, 0x07, 0x00, 0x14, 0, 0, 0, 0, 0, 0];
    assert!(matches!(
        parse_routing(&EnvChangeSpan { bytes: &b }),
        Err(SessionError::DecodeError(DecodeError::InvalidLength(_)))
    ));
    assert!(matches!(
        LoginResponse::new(&b),
        Err(SessionError::DecodeError(DecodeError::InvalidLength(_)))
    ));
    let overrun = routing_token(0, 1433, "srv", 5);
    assert!(matches!(
        parse_routing(&EnvChangeSpan { bytes: &overrun }),
        Err(SessionError::DecodeError(DecodeError::InvalidLength(_)))
    ));
}

#[test]
fn packet_size_is_read_when_it_lies_in_range() {
    let size = |d: &str| parse_packet_size(&EnvChangeSpan { bytes: &packet_size_token(d) });
    assert_eq!(size("8192"), 8192);
    assert_eq!(size("512"), 512);
    assert_eq!(size("32768"), 32768);
    assert_eq!(size("511"), 4096);
    assert_eq!(size("32769"), 4096);
    assert_eq!(size("4a96"), 4096);
    assert_eq!(size(""), 4096);
    assert_eq!(size("99999999999999999999999"), 4096);
}

#[test]
fn packet_size_of_a_truncated_value_is_the_default() {
    let b = vec![0xE3, 0x04, 0x00, 0x04, 0x05, 0x31, 0x00];
    assert_eq!(parse_packet_size(&EnvChangeSpan { bytes: &b }), 4096);
    let empty = vec![0xE3, 0x01, 0x00, 0x04];
    assert_eq!(parse_packet_size(&EnvChangeSpan { bytes: &empty }), 4096);
}

#[test]
fn env_change_types_and_values() {
    let b = packet_size_token("4096");
    let span = EnvChangeSpan { bytes: &b };
    assert_eq!(span.ty(), Some(EnvChangeType::PacketSize));
    assert_eq!(span.env_value_data(), &b[4..]);
    assert_eq!(EnvChangeType::from_u8(14), None);
    assert_eq!(EnvChangeType::from_u8(21), Some(EnvChangeType::SendEnhancedRoutingInformation));
    assert_eq!(EnvChangeSpan { bytes: &[0xE3, 0x00] }.ty(), None);
}

#[test]
fn env_change_sets_the_transaction_descriptor() {
    let mut td = None;
    let mut routing = None;
    let begin = [0xE3, 0x0B, 0x00, 0x08, 0x08, 0x01, 0x02, 0, 0, 0, 0, 0, 0, 0x00];
    apply_env_change(&EnvChangeSpan { bytes: &begin }, &mut td, &mut routing).unwrap();
    assert_eq!(td, Some(0x0201));
    let commit = [0xE3, 0x03, 0x00, 0x09, 0x00, 0x00];
    apply_env_change(&EnvChangeSpan { bytes: &commit }, &mut td, &mut routing).unwrap();
    assert_eq!(td, Some(0));
    let mut td2 = Some(9);
    let short_begin = [0xE3, 0x02, 0x00, 0x08, 0x00];
    apply_env_change(&EnvChangeSpan { bytes: &short_begin }, &mut td2, &mut routing).unwrap();
    assert_eq!(td2, Some(9));
    let database = [0xE3, 0x03, 0x00, 0x01, 0x00, 0x00];
    apply_env_change(&EnvChangeSpan { bytes: &database }, &mut td2, &mut routing).unwrap();
    assert_eq!(td2, Some(9));
    assert!(routing.is_none());
}

#[test]
fn env_change_error_leaves_state_unchanged() {
    let mut td = Some(3);
    let mut routing = Some((0, String::from("old"), 1));
    let bad = routing_token(2, 1433, "srv", 3);
    assert!(apply_env_change(&EnvChangeSpan { bytes: &bad }, &mut td, &mut routing).is_err());
    assert_eq!(td, Some(3));
    assert_eq!(routing, Some((0, String::from("old"), 1)));
    let good = routing_token(0, 1434, "new", 3);
    apply_env_change(&EnvChangeSpan { bytes: &good }, &mut td, &mut routing).unwrap();
    assert_eq!(routing, Some((0, String::from("new"), 1434)));
    assert_eq!(td, Some(3));
}

#[test]
fn query_results_errors_in_order() {
    let d = DoneToken { ty: 0xFD, status: 0, cur_cmd: 0, row_count: 0 };
    let e1 = ErrorInfoToken { bytes: vec![0xAA, 1, 0, 1] };
    let e2 = ErrorInfoToken { bytes: vec![0xAA, 1, 0, 2] };
    let e3 = ErrorInfoToken { bytes: vec![0xAA, 1, 0, 3] };
    let rs = QueryResults {
        results: vec![
            QueryResult { done_token: d, errors: vec![e1.clone()], return_status: None },
            QueryResult { done_token: d, errors: vec![], return_status: None },
            QueryResult {
                done_token: d,
                errors: vec![e2.clone(), e3.clone()],
                return_status: Some(ReturnStatusToken { value: -1 }),
            },
        ],
    };
    assert_eq!(rs.errors(), vec![e1, e2, e3]);
    assert!(QueryResults { results: vec![] }.errors().is_empty());
}

#[test]
fn token_stream_completes_results() {
    let mut stream = vec![0xAA, 0x02, 0x00, 0x09, 0x09];
    stream.extend_from_slice(&[0x79, 0xFF, 0xFF, 0xFF, 0xFF]);
    stream.extend_from_slice(&done(0x01));
    let second = stream.len();
    stream.extend_from_slice(&[0xE3, 0x03, 0x00, 0x09, 0x00, 0x00]);
    stream.extend_from_slice(&done(0x00));

    let mut st = TokenStreamState::new();
    let (action, committed) = st.decode_step(&stream).unwrap();
    assert_eq!(action, StreamAction::ResultCompleted);
    assert_eq!(committed, 10);
    assert!(!st.is_finished());
    let (action, committed) = st.decode_step(&stream[second..]).unwrap();
    assert_eq!(action, StreamAction::Finished);
    assert_eq!(committed, 0);
    let out = st.finish(&[], 0, 0, true).unwrap();
    assert_eq!(out.transaction_descriptor, Some(0));
    assert!(out.routing.is_none());
    let results = &out.results.results;
    assert_eq!(results.len(), 2);
    assert_eq!(results[0].done_token.status, 1);
    assert_eq!(results[0].errors, vec![ErrorInfoToken { bytes: vec![0xAA, 0x02, 0x00, 0x09, 0x09] }]);
    assert_eq!(results[0].return_status, Some(ReturnStatusToken { value: -1 }));
    assert_eq!(results[1].done_token.status, 0);
    assert!(results[1].errors.is_empty());
    assert_eq!(results[1].return_status, None);
}

#[test]
fn non_final_done_is_not_committed() {
    let stream = done(0x01);
    let mut st = TokenStreamState::new();
    assert_eq!(st.decode_step(&stream).unwrap(), (StreamAction::ResultCompleted, 0));
    assert_eq!(st.decode_step(&stream).unwrap(), (StreamAction::ResultCompleted, 0));
}

#[test]
fn token_stream_step_ends() {
    let mut st = TokenStreamState::new();
    assert_eq!(st.decode_step(&[0xFD, 0x00]).unwrap(), (StreamAction::NeedMore, 0));
    assert_eq!(st.decode_step(&[]).unwrap(), (StreamAction::NeedMore, 0));
    assert_eq!(st.decode_step(&[0xAA, 2, 0, 9, 9, 0xFD]).unwrap(), (StreamAction::NeedMore, 5));
    assert_eq!(st.decode_step(&[0x00]).unwrap(), (StreamAction::Stopped, 0));
    assert_eq!(st.decode_step(&[0xAB, 1, 0, 7, 0x81, 1, 0]).unwrap(), (StreamAction::NeedMore, 4));
    assert_eq!(st.decode_step(&[0xAE, 0x01, 2, 0, 0, 0, 5, 6, 0xFF, 0x42]).unwrap(), (StreamAction::Stopped, 9));
    assert_eq!(st.decode_step(&[0xE4, 5, 0, 0, 0, 1, 0, 0, 0, 0, 0x42]).unwrap(), (StreamAction::Stopped, 10));
}

#[test]
fn token_stream_routing_and_its_errors() {
    let mut st = TokenStreamState::new();
    let mut b = routing_token(0, 1500, "db", 2);
    b.extend_from_slice(&done(0));
    assert_eq!(st.decode_step(&b).unwrap(), (StreamAction::Finished, 0));
    let out = st.finish(&[], 0, 0, true).unwrap();
    assert_eq!(out.routing, Some((0, String::from("db"), 1500)));

    let mut bad = TokenStreamState::new();
    let b = routing_token(3, 1500, "db", 2);
    assert!(matches!(bad.decode_step(&b), Err(SessionError::Unimplemented)));
}

#[test]
fn token_stream_without_final_done_is_an_unexpected_end() {
    let st = TokenStreamState::new();
    match st.finish(&[1, 2, 3], 4, 7, true) {
        Err(SessionError::UnexpectedEndOfStream { head, tail, eof, peek, hexdump }) => {
            assert_eq!((head, tail, eof, peek), (4, 7, true, Some(1)));
            assert_eq!(hexdump, vec![1, 2, 3]);
        }
        _ => panic!("expected an unexpected end of stream"),
    }
    let long: Vec<u8> = (0..40).collect();
    match TokenStreamState::new().finish(&long, 0, 40, false) {
        Err(SessionError::UnexpectedEndOfStream { peek, hexdump, .. }) => {
            assert_eq!(peek, Some(0));
            assert_eq!(hexdump, long[..32].to_vec());
        }
        _ => panic!("expected an unexpected end of stream"),
    }
    match TokenStreamState::new().finish(&[], 0, 0, true) {
        Err(SessionError::UnexpectedEndOfStream { peek, hexdump, .. }) => {
            assert_eq!(peek, None);
            assert!(hexdump.is_empty());
        }
        _ => panic!("expected an unexpected end of stream"),
    }
}

#[test]
fn streaming_buffer_keeps_unread_bytes() {
    let mut buf = StreamingBuffer::new();
    assert_eq!(buf.room(), 65536);
    assert_eq!(buf.unread(), &[] as &[u8]);
    buf.append_payload(&[1, 2, 3, 4], false);
    assert_eq!(buf.unread(), &[1, 2, 3, 4]);
    assert!(!buf.eof());
    buf.consume(2);
    assert_eq!(buf.head(), 2);
    assert_eq!(buf.unread(), &[3, 4]);
    buf.compact();
    assert_eq!(buf.head(), 0);
    assert_eq!(buf.tail(), 2);
    assert_eq!(buf.unread(), &[3, 4]);
    buf.append_payload(&[5], true);
    assert!(buf.eof());
    assert_eq!(buf.unread(), &[3, 4, 5]);
    assert_eq!(buf.room(), 65533);
    buf.compact();
    assert_eq!(buf.unread(), &[3, 4, 5]);
}

#[test]
fn packet_headers_are_checked() {
    assert_eq!(check_packet_header(&[0x04, 0x01, 0x00, 0x10, 0, 0, 1, 0]).unwrap(), (8, true));
    assert_eq!(check_packet_header(&[0x04, 0x00, 0x00, 0x08, 0, 0, 1, 0]).unwrap(), (0, false));
    assert!(matches!(
        check_packet_header(&[0x12, 0x01, 0x00, 0x10, 0, 0, 1, 0]),
        Err(SessionError::InvalidPacketType { got: 0x12 })
    ));
    assert!(matches!(
        check_packet_header(&[0x04, 0x01, 0x00, 0x07, 0, 0, 1, 0]),
        Err(SessionError::PartialRead)
    ));
}

#[test]
fn decoder_reads_a_token_split_across_packets() {
    let mut dec = TokenStreamDecoder::new();
    assert_eq!(dec.room(), 65536);
    assert_eq!(dec.poll().unwrap(), DecodePoll::NeedPacket);
    dec.feed(&[0xAA, 0x02, 0x00], false);
    assert_eq!(dec.poll().unwrap(), DecodePoll::NeedPacket);
    let mut rest = vec![0x09, 0x09];
    rest.extend_from_slice(&done(0x00));
    dec.feed(&rest, true);
    assert_eq!(dec.poll().unwrap(), DecodePoll::Finished);
    let out = dec.finish().unwrap();
    assert_eq!(out.results.results.len(), 1);
    assert_eq!(out.results.results[0].errors, vec![ErrorInfoToken { bytes: vec![0xAA, 0x02, 0x00, 0x09, 0x09] }]);
}

#[test]
fn decoder_asks_again_after_a_completed_result() {
    let mut dec = TokenStreamDecoder::new();
    let mut b = vec![0x79, 0x01, 0x00, 0x00, 0x00];
    b.extend_from_slice(&done(0x01));
    b.extend_from_slice(&[0xAA, 0x01, 0x00, 0x05]);
    b.extend_from_slice(&done(0x00));
    dec.feed(&b, true);
    assert_eq!(dec.poll().unwrap(), DecodePoll::Again);
    assert_eq!(dec.poll().unwrap(), DecodePoll::Again);
    assert_eq!(dec.poll().unwrap(), DecodePoll::Again);
}

#[test]
fn decoder_stops_at_the_end_of_a_truncated_message() {
    let mut dec = TokenStreamDecoder::new();
    dec.feed(&[0xAA, 0x05, 0x00, 0x01], true);
    assert_eq!(dec.poll().unwrap(), DecodePoll::Finished);
    match dec.finish() {
        Err(SessionError::UnexpectedEndOfStream { head, tail, eof, peek, hexdump }) => {
            assert_eq!((head, tail, eof, peek), (0, 4, true, Some(0xAA)));
            assert_eq!(hexdump, vec![0xAA, 0x05, 0x00, 0x01]);
        }
        _ => panic!("expected an unexpected end of stream"),
    }
}

#[test]
fn decoder_stops_at_an_unknown_byte() {
    let mut dec = TokenStreamDecoder::new();
    dec.feed(&[0x42], true);
    assert_eq!(dec.poll().unwrap(), DecodePoll::Finished);
    assert!(matches!(dec.finish(), Err(SessionError::UnexpectedEndOfStream { peek: Some(0x42), .. })));
}

#[test]
fn routing_error_messages() {
    let b = vec![0xE3, 0x07, 0x00, 0x14, 0, 0, 0, 0, 0, 0];
    match parse_routing(&EnvChangeSpan { bytes: &b }) {
        Err(SessionError::DecodeError(DecodeError::InvalidLength(m))) => {
            assert_eq!(m, "routing env change too short: 10 bytes")
        }
        _ => panic!("expected a length error"),
    }
    let overrun = routing_token(0, 1433, "srv", 5);
    match parse_routing(&EnvChangeSpan { bytes: &overrun }) {
        Err(SessionError::DecodeError(DecodeError::InvalidLength(m))) => {
            assert_eq!(m, "routing alternate server overruns token: end=21 len=19")
        }
        _ => panic!("expected a length error"),
    }
}

fn decode_in_packets(message: &[u8], packet: usize) -> bronotdsaurs::decode::DecodeOutput {
    let mut dec = TokenStreamDecoder::new();
    let mut sent = 0;
    loop {
        match dec.poll().unwrap() {
            DecodePoll::Again => {}
            DecodePoll::NeedPacket => {
                let end = std::cmp::min(sent + packet, message.len());
                dec.feed(&message[sent..end], end == message.len());
                sent = end;
            }
            DecodePoll::Finished => break,
        }
    }
    dec.finish().unwrap()
}

#[test]
fn splitting_a_message_into_packets_does_not_change_its_decoding() {
    let mut m = vec![0xE3, 0x0B, 0x00, 0x08, 0x08, 0x05, 0, 0, 0, 0, 0, 0, 0, 0x00];
    m.extend_from_slice(&[0xAA, 0x02, 0x00, 0x09, 0x09]);
    m.extend_from_slice(&[0x79, 0x02, 0x00, 0x00, 0x00]);
    m.extend_from_slice(&[0xAB, 0x01, 0x00, 0x07]);
    m.extend_from_slice(&done(0x00));
    let whole = decode_in_packets(&m, m.len());
    for packet in 1..m.len() {
        let split = decode_in_packets(&m, packet);
        assert_eq!(split.transaction_descriptor, whole.transaction_descriptor);
        assert_eq!(split.results.results.len(), 1);
        assert_eq!(split.results.results[0].errors, whole.results.results[0].errors);
        assert_eq!(split.results.results[0].return_status, whole.results.results[0].return_status);
        assert_eq!(split.results.results[0].done_token, whole.results.results[0].done_token);
    }
    assert_eq!(whole.transaction_descriptor, Some(5));
    assert_eq!(whole.results.results[0].return_status, Some(ReturnStatusToken { value: 2 }));
}
