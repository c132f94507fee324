use bronotdsaurs::alt_metadata::AltMetaDataSpan;
use bronotdsaurs::data_classification::DataClassificationSpan;
use bronotdsaurs::error::{DecodeError, SessionError};
use bronotdsaurs::fed_auth_info::FedAuthSpan;
use bronotdsaurs::prelogin::{
    check_instance, negotiate, requested_encryption, PreLoginEncryptionOptions, PreLoginOutcome, PreLoginSpan,
};
use bronotdsaurs::session_status::SessionStatusSpan;
use bronotdsaurs::sspi::SspiSpan;

fn prelogin(enc: u8, inst: u8) -> Vec<u8> {
    vec![0x01, 0x00, 0x0B, 0x00, 0x01, 0x02, 0x00, 0x0C, 0x00, 0x01, 0xFF, enc, inst]
}

#[test]
fn sspi_span_frames_its_blob() {
    let b = [0xED, 0x02, 0x00, 0xAA, 0xBB];
    let s = SspiSpan::new(&b).unwrap();
    assert_eq!(s.ty(), 0xED);
    assert_eq!(s.length(), 2);
    assert_eq!(s.sspi_buffer(), &[0xAA, 0xBB]);
    assert!(matches!(SspiSpan::new(&[0xED, 0x03, 0x00, 0x01]), Err(DecodeError::InvalidData(_))));
    assert!(matches!(SspiSpan::new(&[0xED, 0x00]), Err(DecodeError::InvalidData(_))));
    let empty = SspiSpan::new(&[0xED, 0x00, 0x00]).unwrap();
    assert!(empty.sspi_buffer().is_empty());
}

#[test]
fn session_status_span_and_its_entries() {
    let b = [
        0xE4, 18, 0, 0, 0, 5, 0, 0, 0, 1, 1, 2, 7, 8, 2, 0xFF, 3, 0, 0, 0, 9, 9, 9,
    ];
    let s = SessionStatusSpan::new(&b).unwrap();
    assert_eq!(s.ty(), 0xE4);
    assert_eq!(s.length(), 18);
    assert_eq!(s.seq_no(), 5);
    assert_eq!(s.status(), 1);
    assert_eq!(s.session_state_dataset(), &b[10..]);
    let mut it = s.into_iter();
    let first = it.next().unwrap();
    assert_eq!(first.state_id, 1);
    assert_eq!(first.state_value, &[7, 8]);
    let second = it.next().unwrap();
    assert_eq!(second.state_id, 2);
    assert_eq!(second.state_value, &[9, 9, 9]);
    assert!(it.next().is_none());
    assert!(it.next().is_none());
}

#[test]
fn session_status_truncated_entry_ends_iteration() {
    let b = [0xE4, 8, 0, 0, 0, 0, 0, 0, 0, 0, 3, 5, 1];
    let s = SessionStatusSpan::new(&b).unwrap();
    let mut it = s.into_iter();
    assert!(it.next().is_none());
    let lone = [0xE4, 6, 0, 0, 0, 0, 0, 0, 0, 0, 3];
    let mut it = SessionStatusSpan::new(&lone).unwrap().into_iter();
    assert!(it.next().is_none());
}

#[test]
fn session_status_span_refuses_bad_lengths() {
    assert!(matches!(SessionStatusSpan::new(&[0xE4, 5, 0, 0, 0]), Err(DecodeError::InvalidData(_))));
    let wrong = [0xE4, 9, 0, 0, 0, 0, 0, 0, 0, 0];
    assert!(matches!(SessionStatusSpan::new(&wrong), Err(DecodeError::InvalidData(_))));
}

#[test]
fn fed_auth_span_refuses_a_short_token() {
    assert!(matches!(FedAuthSpan::new(&[0xEE, 0x00, 0x00]), Err(DecodeError::InvalidData(_))));
}

#[test]
fn alt_metadata_and_data_classification_spans() {
    let b = [0x88, 2, 0, 7, 0, 1, 3, 0, 1];
    let a = AltMetaDataSpan::new(&b);
    assert_eq!(a.bytes, &b);
    let d = DataClassificationSpan { bytes: &[0xA3, 0x00] };
    assert_eq!(d.ty(), 0xA3);
}

#[test]
fn prelogin_options_are_found() {
    let b = prelogin(0x02, 0x00);
    let s = PreLoginSpan::new(&b).unwrap();
    assert_eq!(s.encryption(), Some(0x02));
    assert_eq!(s.inst_opt(), Some(&[0x00][..]));
    assert_eq!(s.option(0x03), None);
    assert_eq!(s.option(0x01), Some(&[0x02][..]));
}

#[test]
fn prelogin_table_must_end_within_the_payload() {
    assert!(matches!(PreLoginSpan::new(&[0x01, 0x00, 0x20, 0x00, 0x01, 0xFF]), Err(DecodeError::InvalidLength(_))));
    assert!(matches!(PreLoginSpan::new(&[0x01, 0x00, 0x05, 0x00, 0x00]), Err(DecodeError::InvalidLength(_))));
    assert!(matches!(PreLoginSpan::new(&[]), Err(DecodeError::InvalidLength(_))));
    assert!(PreLoginSpan::new(&[0xFF]).is_ok());
}

#[test]
fn prelogin_encryption_codes() {
    assert_eq!(PreLoginEncryptionOptions::try_from(3), Ok(PreLoginEncryptionOptions::Required));
    assert_eq!(PreLoginEncryptionOptions::try_from(0), Ok(PreLoginEncryptionOptions::Off));
    assert!(matches!(PreLoginEncryptionOptions::try_from(4), Err(DecodeError::InvalidField(_))));
    assert_eq!(PreLoginEncryptionOptions::NotSupported.as_u8(), 2);
    assert_eq!(PreLoginEncryptionOptions::On.as_u8(), 1);
}

#[test]
fn prelogin_negotiation_outcomes() {
    let not_supported = prelogin(0x02, 0x00);
    let s = PreLoginSpan::new(&not_supported).unwrap();
    assert_eq!(negotiate(None, &s, false).unwrap(), PreLoginOutcome::LoginReady);
    assert_eq!(negotiate(Some(0), &s, true).unwrap(), PreLoginOutcome::LoginReady);
    assert_eq!(negotiate(Some(9), &s, true).unwrap(), PreLoginOutcome::LoginReady);
    assert!(matches!(
        negotiate(Some(1), &s, true),
        Err(SessionError::DecodeError(DecodeError::InvalidField(_)))
    ));

    let off = prelogin(0x00, 0x00);
    let s = PreLoginSpan::new(&off).unwrap();
    assert_eq!(negotiate(None, &s, true).unwrap(), PreLoginOutcome::TlsSslNegotiation);
    assert!(matches!(negotiate(None, &s, false), Err(SessionError::Unimplemented)));
    assert!(matches!(
        negotiate(Some(1), &s, true),
        Err(SessionError::DecodeError(DecodeError::InvalidField(_)))
    ));

    let required = prelogin(0x03, 0x00);
    let s = PreLoginSpan::new(&required).unwrap();
    assert_eq!(negotiate(Some(1), &s, true).unwrap(), PreLoginOutcome::TlsSslNegotiation);
    assert!(matches!(
        negotiate(Some(3), &s, true),
        Err(SessionError::DecodeError(DecodeError::InvalidField(_)))
    ));

    let undefined = prelogin(0x07, 0x00);
    let s = PreLoginSpan::new(&undefined).unwrap();
    assert!(matches!(
        negotiate(None, &s, true),
        Err(SessionError::DecodeError(DecodeError::InvalidField(_)))
    ));

    let no_option = [0xFF];
    let s = PreLoginSpan::new(&no_option).unwrap();
    assert_eq!(negotiate(None, &s, false).unwrap(), PreLoginOutcome::LoginReady);
}

#[test]
fn prelogin_instance_mismatch_is_refused() {
    let b = prelogin(0x02, 0x01);
    let s = PreLoginSpan::new(&b).unwrap();
    assert!(matches!(check_instance(&s), Err(SessionError::DecodeError(DecodeError::InvalidField(_)))));
    assert!(matches!(negotiate(None, &s, true), Err(SessionError::DecodeError(DecodeError::InvalidField(_)))));
    let ok = prelogin(0x02, 0x00);
    assert!(check_instance(&PreLoginSpan::new(&ok).unwrap()).is_ok());
}

#[test]
fn prelogin_encryption_code_reads_back() {
    for o in [
        PreLoginEncryptionOptions::Off,
        PreLoginEncryptionOptions::On,
        PreLoginEncryptionOptions::NotSupported,
        PreLoginEncryptionOptions::Required,
    ] {
        assert_eq!(PreLoginEncryptionOptions::try_from(o.as_u8()), Ok(o));
    }
}

fn invalid_field_message(r: Result<PreLoginOutcome, SessionError>) -> String {
    match r {
        Err(SessionError::DecodeError(DecodeError::InvalidField(m))) => m,
        _ => panic!("expected an invalid field"),
    }
}

#[test]
fn prelogin_refusal_messages() {
    let b = prelogin(0x02, 0x01);
    let s = PreLoginSpan::new(&b).unwrap();
    match check_instance(&s) {
        Err(SessionError::DecodeError(DecodeError::InvalidField(m))) => assert_eq!(m, "PreLogin: INSTOP mismatch"),
        _ => panic!("expected an instance mismatch"),
    }
    assert_eq!(invalid_field_message(negotiate(None, &s, true)), "PreLogin: INSTOP mismatch");

    let b = prelogin(0x02, 0x00);
    let s = PreLoginSpan::new(&b).unwrap();
    assert_eq!(
        invalid_field_message(negotiate(Some(1), &s, true)),
        "PreLogin: client requires encryption, server does not support it"
    );
    assert_eq!(
        invalid_field_message(negotiate(Some(3), &s, true)),
        "PreLogin: unsupported encryption negotiation res=NotSupported req=Required"
    );
    let b = prelogin(0x03, 0x00);
    let s = PreLoginSpan::new(&b).unwrap();
    assert_eq!(
        invalid_field_message(negotiate(Some(3), &s, true)),
        "PreLogin: unsupported encryption negotiation res=Required req=Required"
    );
}

#[test]
fn requested_encryption_is_read_from_the_packet() {
    let mut packet = vec![0x12, 0x01, 0x00, 0x15, 0, 0, 0, 0];
    packet.extend_from_slice(&prelogin(0x01, 0x00));
    assert_eq!(requested_encryption(&packet), Some(0x01));
    assert_eq!(requested_encryption(&packet[..5]), None);
    let mut bad = vec![0; 8];
    bad.extend_from_slice(&[0x01, 0x00, 0x20, 0x00, 0x01, 0xFF]);
    assert_eq!(requested_encryption(&bad), None);
}
