use bronotdsaurs::colmetadata::{ColumnData, TypeInfo, TypeInfoVarLen};
use bronotdsaurs::rows::RowSpanIter;
use bronotdsaurs::stream::{DecodePoll, Handout, StreamAction, TokenStreamDecoder, TokenStreamState};
use bronotdsaurs::token::ReturnStatusToken;

fn done(status: u8, rows: u8) -> Vec<u8> {
    vec![0xFD, status, 0x00, 0xC1, 0x00, rows, 0, 0, 0, 0, 0, 0, 0]
}

fn colmetadata() -> Vec<u8> {
    let mut b = vec![0x81, 0x02, 0x00];
    b.extend_from_slice(&[0, 0, 0, 0, 0x01, 0x00, 0x38, 0x01, b'a', 0x00]);
    b.extend_from_slice(&[0, 0, 0, 0, 0x01, 0x00, 0xE7, 100, 0, 0x09, 0x04, 0xD0, 0x00, 0x34, 0x01, b'b', 0x00]);
    b
}

fn columns() -> Vec<ColumnData> {
    vec![
        ColumnData { type_info: TypeInfo { ty: 0x38, fixed_len: 4, dtype_max_len: None } },
        ColumnData {
            type_info: TypeInfo { ty: 0xE7, fixed_len: 0, dtype_max_len: Some(TypeInfoVarLen::Ushort(100)) },
        },
    ]
}

fn result_set() -> (Vec<u8>, Vec<u8>, Vec<u8>) {
    let row = vec![0xD1, 1, 0, 0, 0, 4, 0, b'h', 0, b'i', 0];
    let nbc = vec![0xD2, 0x02, 7, 0, 0, 0];
    let mut b = colmetadata();
    b.extend_from_slice(&row);
    b.extend_from_slice(&nbc);
    b.extend_from_slice(&done(0x10, 2));
    (b, row, nbc)
}

fn decode_in_packets(message: &[u8], packet: usize) -> (Vec<Handout>, usize) {
    let mut dec = TokenStreamDecoder::new();
    let mut handed = Vec::new();
    let mut sent = 0;
    loop {
        let polled = dec.poll().unwrap();
        handed.extend(dec.take_handed());
        match polled {
            DecodePoll::Again => {}
            DecodePoll::NeedPacket => {
                let end = std::cmp::min(sent + packet, message.len());
                dec.feed(&message[sent..end], end == message.len());
                sent = end;
            }
            DecodePoll::Finished => break,
        }
    }
    let out = dec.finish().unwrap();
    (handed, out.results.results.len())
}

#[test]
fn result_set_hands_out_metadata_then_rows() {
    let (b, row, nbc) = result_set();
    let (handed, results) = decode_in_packets(&b, b.len());
    assert_eq!(results, 1);
    assert_eq!(handed.len(), 3);
    match &handed[0] {
        Handout::ColMetaData(t) => {
            assert_eq!(t.bytes, colmetadata());
            assert_eq!(t.column_data, columns());
        }
        _ => panic!("expected column metadata first"),
    }
    match (&handed[1], &handed[2]) {
        (Handout::Row(r1), Handout::Row(r2)) => {
            assert_eq!(r1, &row);
            assert_eq!(r2, &nbc);
        }
        _ => panic!("expected two rows"),
    }
}

#[test]
fn handed_rows_read_with_their_metadata() {
    let (b, _, _) = result_set();
    let (handed, _) = decode_in_packets(&b, b.len());
    let meta = match &handed[0] {
        Handout::ColMetaData(t) => t.clone(),
        _ => panic!("expected column metadata first"),
    };
    match (&handed[1], &handed[2]) {
        (Handout::Row(r1), Handout::Row(r2)) => {
            let mut it = RowSpanIter::from_owned(r1, &meta);
            assert_eq!(it.next().unwrap().bytes, &[1, 0, 0, 0]);
            assert_eq!(it.next().unwrap().bytes, &[b'h', 0, b'i', 0]);
            let mut it = RowSpanIter::from_owned(r2, &meta);
            assert_eq!(it.next().unwrap().bytes, &[7, 0, 0, 0]);
            assert!(it.next().unwrap().bytes.is_empty());
        }
        _ => panic!("expected two rows"),
    }
}

#[test]
fn result_set_split_into_packets_hands_out_the_same() {
    let (b, row, nbc) = result_set();
    for packet in 1..b.len() {
        let (handed, results) = decode_in_packets(&b, packet);
        assert_eq!(results, 1);
        assert_eq!(handed.len(), 3);
        assert!(matches!(&handed[0], Handout::ColMetaData(t) if t.bytes == colmetadata()));
        assert!(matches!(&handed[1], Handout::Row(r) if *r == row));
        assert!(matches!(&handed[2], Handout::Row(r) if *r == nbc));
    }
}

#[test]
fn two_result_sets_each_with_their_metadata() {
    let (first, _, _) = result_set();
    let mut b = first[..first.len() - 13].to_vec();
    b.extend_from_slice(&done(0x11, 2));
    b.extend_from_slice(&[0x81, 0x01, 0x00, 0, 0, 0, 0, 0, 0, 0x30, 0x00, 0xD1, 0x2A]);
    b.extend_from_slice(&done(0x10, 1));
    let (handed, results) = decode_in_packets(&b, b.len());
    assert_eq!(results, 2);
    assert_eq!(handed.len(), 5);
    match (&handed[3], &handed[4]) {
        (Handout::ColMetaData(t), Handout::Row(r)) => {
            assert_eq!(t.column_data.len(), 1);
            assert_eq!(r, &vec![0xD1, 0x2A]);
        }
        _ => panic!("expected the second result set"),
    }
}

#[test]
fn rows_after_another_token_are_not_read() {
    let mut b = colmetadata();
    b.extend_from_slice(&[0xAB, 0x01, 0x00, 0x07]);
    b.extend_from_slice(&[0xD1, 1, 0, 0, 0, 0, 0]);
    let mut st = TokenStreamState::new();
    assert_eq!(st.decode_step(&b).unwrap(), (StreamAction::Stopped, colmetadata().len() + 4));
    assert_eq!(st.take_handed().len(), 1);
}

#[test]
fn unbounded_types_are_not_read() {
    let b = vec![0x81, 0x01, 0x00, 0, 0, 0, 0, 0, 0, 0xE7, 0xFF, 0xFF, 9, 4, 0xD0, 0, 0x34, 1, b'x', 0];
    let mut st = TokenStreamState::new();
    assert_eq!(st.decode_step(&b).unwrap(), (StreamAction::Stopped, 0));
    assert!(st.take_handed().is_empty());
}

#[test]
fn truncated_row_waits_for_more() {
    let mut b = colmetadata();
    let meta_len = b.len();
    b.extend_from_slice(&[0xD1, 1, 0, 0, 0, 4, 0, b'h']);
    let mut st = TokenStreamState::new();
    assert_eq!(st.decode_step(&b).unwrap(), (StreamAction::NeedMore, meta_len));
    let mut rest = b[meta_len..].to_vec();
    rest.extend_from_slice(&[0, b'i', 0]);
    rest.extend_from_slice(&done(0x00, 1));
    assert_eq!(st.decode_step(&rest).unwrap(), (StreamAction::Finished, rest.len()));
    let handed = st.take_handed();
    assert_eq!(handed.len(), 2);
}

#[test]
fn return_value_is_passed_over() {
    let mut b = vec![0xAC, 0x01, 0x00, 0x01, b'p', 0x00, 0x01, 0, 0, 0, 0, 0, 0, 0x26, 0x04, 0x04, 5, 0, 0, 0];
    b.extend_from_slice(&[0x79, 0x00, 0x00, 0x00, 0x00]);
    b.extend_from_slice(&done(0x00, 0));
    let mut dec = TokenStreamDecoder::new();
    dec.feed(&b, true);
    assert_eq!(dec.poll().unwrap(), DecodePoll::Finished);
    let out = dec.finish().unwrap();
    assert_eq!(out.results.results.len(), 1);
    assert_eq!(out.results.results[0].return_status, Some(ReturnStatusToken { value: 0 }));
}

#[test]
fn return_value_cut_short_waits_for_more() {
    let b = vec![0xAC, 0x01, 0x00, 0x01, b'p', 0x00, 0x01, 0, 0, 0, 0, 0, 0, 0x26, 0x04, 0x04, 5, 0];
    let mut st = TokenStreamState::new();
    assert_eq!(st.decode_step(&b).unwrap(), (StreamAction::NeedMore, 0));
}
