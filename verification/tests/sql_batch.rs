use bronotdsaurs::error::EncodeError;
use bronotdsaurs::session::SessionBuffer;
use bronotdsaurs::sql_batch::{
    AllHeaders, DataStreamHeaderType, SQLBatch, SQLBatchHeader, TransactionDescriptorHeader,
};

#[test]
fn test_sql_batch_encode() {
    let bytes = [
        0x01, 0x01, 0x00, 0x5C, 0x00, 0x00, 0x01, 0x00, 0x16, 0x00, 0x00, 0x00, 0x12, 0x00, 0x00, 0x00,
        0x02, 0x00, 0x00, 0x00, 0x00, 0x00, 0x00, 0x00, 0x00, 0x01, 0x00, 0x00, 0x00, 0x00, 0x0A, 0x00,
        0x73, 0x00, 0x65, 0x00, 0x6C, 0x00, 0x65, 0x00, 0x63, 0x00, 0x74, 0x00, 0x20, 0x00, 0x27, 0x00,
        0x66, 0x00, 0x6F, 0x00, 0x6F, 0x00, 0x27, 0x00, 0x20, 0x00, 0x61, 0x00, 0x73, 0x00, 0x20, 0x00,
        0x27, 0x00, 0x62, 0x00, 0x61, 0x00, 0x72, 0x00, 0x27, 0x00, 0x0A, 0x00, 0x20, 0x00, 0x20, 0x00,
        0x20, 0x00, 0x20, 0x00, 0x20, 0x00, 0x20, 0x00, 0x20, 0x00, 0x20, 0x00,
    ];

    let all_headers = AllHeaders::new(vec![DataStreamHeaderType::TransactionDescriptor(
        TransactionDescriptorHeader {
            transaction_descriptor: 0x0100_0000_0000_0000,
            outstanding_request_count: 0,
        },
    )]);

    let sql_batch = SQLBatch::new(all_headers, String::from("\nselect 'foo' as 'bar'\n        "));

    let mut header = SQLBatchHeader { packet_id: 0x01, ..Default::default() };

    let mut buffer = SessionBuffer::default();
    let n = sql_batch.oneshot(&mut buffer, &mut header).expect("");
    let _n = buffer.tail(n);

    assert_eq!(&buffer.readable()[..n], &bytes[..]);
}

#[test]
fn sql_batch_encodes_surrogate_pairs() {
    let all_headers = AllHeaders::new(vec![]);
    let sql_batch = SQLBatch::new(all_headers, String::from("a\u{1F600}é"));
    let mut header = SQLBatchHeader::default();
    let mut buffer = SessionBuffer::default();
    let n = sql_batch.oneshot(&mut buffer, &mut header).unwrap();
    assert_eq!(n, 8 + 4 + 8);
    assert_eq!(header.length, 20);
    buffer.tail(n);
    assert_eq!(
        buffer.readable(),
        &[0x01, 0x01, 0x00, 0x14, 0, 0, 0, 0, 4, 0, 0, 0, 0x61, 0, 0x3d, 0xd8, 0x00, 0xde, 0xe9, 0x00]
    );
}

#[test]
fn sql_batch_too_large_for_buffer() {
    let text: String = std::iter::repeat('x').take(3000).collect();
    let sql_batch = SQLBatch::new(AllHeaders::new(vec![]), text);
    let mut header = SQLBatchHeader::default();
    let mut buffer = SessionBuffer::default();
    match sql_batch.oneshot(&mut buffer, &mut header) {
        Err(EncodeError::BufferTooSmall { required, available }) => {
            assert_eq!(required, 8 + 4 + 6000);
            assert_eq!(available, 4096);
        }
        other => panic!("unexpected {other:?}"),
    }
    assert_eq!(header.length, 0);
}

#[test]
fn batch_text_reads_back_from_its_encoding() {
    let text = String::from("select N'h\u{e9}llo \u{1F600}'");
    let sql_batch = SQLBatch::new(AllHeaders::new(vec![]), text.clone());
    let mut header = SQLBatchHeader::default();
    let mut buffer = SessionBuffer::default();
    let n = sql_batch.oneshot(&mut buffer, &mut header).unwrap();
    buffer.tail(n);
    let readable = buffer.readable();
    assert_eq!(bronotdsaurs::text::decode_utf16_le_lossy(readable, 12, n), text);
}
