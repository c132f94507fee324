use bronotdsaurs::bulk_load::{BulkLoad, BulkLoadWriter};
use bronotdsaurs::colmetadata::{to_dtype_bytes, ColMetaDataToken, ColumnData, TypeInfo, TypeInfoVarLen};
use bronotdsaurs::rows::RowSpanIter;

fn column(ty: u8, fixed_len: usize, dtype_max_len: Option<TypeInfoVarLen>) -> ColumnData {
    ColumnData { type_info: TypeInfo { ty, fixed_len, dtype_max_len } }
}

fn metadata() -> ColMetaDataToken {
    ColMetaDataToken {
        bytes: vec![0x81, 0x03, 0x00],
        column_data: vec![
            column(0x38, 4, None),
            column(0xE7, 0, Some(TypeInfoVarLen::Ushort(8000))),
            column(0x26, 0, Some(TypeInfoVarLen::Byte(8))),
        ],
    }
}

#[test]
fn pushed_row_reads_back() {
    let meta = metadata();
    let mut bulk = BulkLoad::prepare(meta.clone(), 4096);
    assert_eq!(bulk.metadata_bytes(), &[0x81, 0x03, 0x00]);
    assert!(bulk.row_bytes().is_empty());
    bulk.push_row(&[vec![1, 0, 0, 0], vec![b'h', 0, b'i', 0], vec![5, 6]]);
    assert_eq!(bulk.row_bytes(), &[0xD1, 1, 0, 0, 0, 4, 0, b'h', 0, b'i', 0, 2, 5, 6]);

    let row = bulk.row_bytes().to_vec();
    let mut it = RowSpanIter::from_owned(&row, &meta);
    assert_eq!(it.next().unwrap().bytes, &[1, 0, 0, 0]);
    assert_eq!(it.next().unwrap().bytes, &[b'h', 0, b'i', 0]);
    assert_eq!(it.next().unwrap().bytes, &[5, 6]);
    assert!(it.next().is_none());
    assert!(it.remaining().is_empty());
}

#[test]
fn push_row_with_long_lengths_and_extra_values() {
    let meta = ColMetaDataToken {
        bytes: vec![0x81],
        column_data: vec![column(0x22, 0, Some(TypeInfoVarLen::Long(0x7fff_ffff)))],
    };
    let mut bulk = BulkLoad::prepare(meta, 512);
    bulk.push_row(&[vec![9, 8, 7], vec![1]]);
    assert_eq!(bulk.row_bytes(), &[0xD1, 3, 0, 0, 0, 9, 8, 7]);
    bulk.push_row(&[]);
    assert_eq!(bulk.row_bytes(), &[0xD1]);
}

#[test]
fn push_row_truncates_a_length_to_its_width() {
    let meta = ColMetaDataToken { bytes: vec![], column_data: vec![column(0x26, 0, Some(TypeInfoVarLen::Byte(8)))] };
    let mut bulk = BulkLoad::prepare(meta, 512);
    bulk.push_row(&[vec![0u8; 300]]);
    assert_eq!(bulk.row_bytes().len(), 302);
    assert_eq!(bulk.row_bytes()[1], 44);
}

#[test]
fn nbc_row_null_bit_is_shifted_by_the_mask() {
    let meta = metadata();
    let mut bulk = BulkLoad::prepare(meta.clone(), 4096);
    bulk.push_nbc_row(&[None, Some(vec![b'h', 0, b'i', 0]), Some(vec![5, 6])]);
    assert_eq!(bulk.row_bytes(), &[0xD2, 0x02, 4, 0, b'h', 0, b'i', 0, 2, 5, 6]);

    let row = bulk.row_bytes().to_vec();
    let mut it = RowSpanIter::from_owned(&row, &meta);
    assert_eq!(it.next().unwrap().bytes, &[4, 0, b'h', 0]);
    assert!(it.next().unwrap().bytes.is_empty());
    assert!(it.next().is_none());

    bulk.push_nbc_row(&[Some(vec![1, 2, 3, 4]), None, None]);
    assert_eq!(bulk.row_bytes(), &[0xD2, 0x14, 1, 2, 3, 4]);
    bulk.push_nbc_row(&[Some(vec![1, 2, 3, 4]), Some(vec![]), Some(vec![7])]);
    assert_eq!(bulk.row_bytes(), &[0xD2, 0x00, 1, 2, 3, 4, 0, 0, 1, 7]);
}

#[test]
fn row_iter_reads_a_null_bitmap() {
    let meta = metadata();
    let row = [0xD2, 0x02, 1, 2, 3, 4, 1, 9];
    let mut it = RowSpanIter::from_owned(&row, &meta);
    assert_eq!(it.next().unwrap().bytes, &[1, 2, 3, 4]);
    assert!(it.next().unwrap().bytes.is_empty());
    assert_eq!(it.next().unwrap().bytes, &[9]);
    assert!(it.next().is_none());
}

#[test]
fn row_iter_without_bitmap_and_short_rows() {
    let meta = metadata();
    let span = meta.borrow();
    let values = [1, 2, 3, 4, 1, 0];
    let mut it = RowSpanIter::new(&values, &span);
    assert_eq!(it.next().unwrap().bytes, &[1, 2, 3, 4]);
    assert!(it.next().is_none());
    assert_eq!(it.next().unwrap().bytes, &[0]);
    assert!(it.next().is_none());

    let short = [0xD2];
    let mut it = RowSpanIter::from_owned(&short, &meta);
    assert!(it.remaining().is_empty());
    assert!(it.next().is_none());
}

#[test]
fn value_splitting_by_type() {
    let ti = TypeInfo { ty: 0x26, fixed_len: 0, dtype_max_len: Some(TypeInfoVarLen::Byte(8)) };
    let b = [2, 7, 8, 9];
    let (v, rest) = to_dtype_bytes(&b, ti).unwrap();
    assert_eq!(v, &[7, 8]);
    assert_eq!(rest, &[9]);
    assert!(to_dtype_bytes(&[3, 1], ti).is_none());
    let fixed = TypeInfo { ty: 0x38, fixed_len: 4, dtype_max_len: None };
    assert!(to_dtype_bytes(&[1, 2, 3], fixed).is_none());
    let long = TypeInfo { ty: 0x22, fixed_len: 0, dtype_max_len: Some(TypeInfoVarLen::Long(10)) };
    let (v, rest) = to_dtype_bytes(&[1, 0, 0, 0, 5], long).unwrap();
    assert_eq!(v, &[5]);
    assert!(rest.is_empty());
}

#[test]
fn writer_frames_packets() {
    let mut w = BulkLoadWriter::new(16);
    let payload = [0u8; 20];
    let (h, end) = w.next_packet(&payload, 0, true);
    assert_eq!(h, vec![0x07, 0x00, 0x00, 16, 0, 0, 0, 0]);
    assert_eq!(end, 8);
    let (h, end) = w.next_packet(&payload, 8, true);
    assert_eq!(h, vec![0x07, 0x00, 0x00, 16, 0, 0, 1, 0]);
    assert_eq!(end, 16);
    let (h, end) = w.next_packet(&payload, 16, true);
    assert_eq!(h, vec![0x07, 0x01, 0x00, 12, 0, 0, 2, 0]);
    assert_eq!(end, 20);
    let (h, end) = w.next_packet(&payload, 16, false);
    assert_eq!(h, vec![0x07, 0x00, 0x00, 12, 0, 0, 3, 0]);
    assert_eq!(end, 20);
}

#[test]
fn writer_of_tiny_packets_sends_one_byte_each() {
    let mut w = BulkLoadWriter::new(4);
    let (h, end) = w.next_packet(&[1, 2], 0, true);
    assert_eq!(h, vec![0x07, 0x00, 0x00, 9, 0, 0, 0, 0]);
    assert_eq!(end, 1);
    let (h, end) = w.next_packet(&[1, 2], 1, true);
    assert_eq!(h, vec![0x07, 0x01, 0x00, 9, 0, 0, 1, 0]);
    assert_eq!(end, 2);
}

#[test]
fn packet_numbers_wrap() {
    let mut w = BulkLoadWriter::new(4096);
    for _ in 0..256 {
        w.next_packet(&[1], 0, false);
    }
    let (h, _) = w.next_packet(&[1], 0, false);
    assert_eq!(h[6], 0);
}

#[test]
fn bulk_load_numbers_metadata_and_row_packets() {
    let mut bulk = BulkLoad::prepare(metadata(), 12);
    let meta = bulk.metadata_bytes().to_vec();
    let (h, end) = bulk.next_packet(&meta, 0, false);
    assert_eq!(h, vec![0x07, 0x00, 0x00, 11, 0, 0, 0, 0]);
    assert_eq!(end, 3);
    bulk.push_row(&[vec![1, 2, 3, 4], vec![], vec![]]);
    assert_eq!(bulk.row_bytes(), &[0xD1, 1, 2, 3, 4, 0, 0, 0]);
    let (h, end) = bulk.next_row_packet(0);
    assert_eq!(h, vec![0x07, 0x00, 0x00, 12, 0, 0, 1, 0]);
    assert_eq!(end, 4);
    let (h, end) = bulk.next_row_packet(4);
    assert_eq!(h, vec![0x07, 0x00, 0x00, 12, 0, 0, 2, 0]);
    assert_eq!(end, 8);
}

#[test]
fn nbc_row_without_nulls_reads_back() {
    let meta = metadata();
    let mut bulk = BulkLoad::prepare(meta.clone(), 4096);
    bulk.push_nbc_row(&[Some(vec![9, 9, 9, 9]), Some(vec![1, 2]), Some(vec![3])]);
    let row = bulk.row_bytes().to_vec();
    let mut it = RowSpanIter::from_owned(&row, &meta);
    assert_eq!(it.next().unwrap().bytes, &[9, 9, 9, 9]);
    assert_eq!(it.next().unwrap().bytes, &[1, 2]);
    assert_eq!(it.next().unwrap().bytes, &[3]);
    assert!(it.next().is_none());
}
