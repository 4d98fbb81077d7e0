use udt_info_lock::decode::{encode_udt_data, parse_udt_data, slice_vec, validate_udt_data};
use udt_info_lock::error::Error;

#[test]
fn test_load_infos() {}

#[test]
fn empty_input_is_length_not_enough() {
    assert_eq!(validate_udt_data(vec![]), Err(Error::LengthNotEnough));
}

#[test]
fn decimal_alone_is_decode_info_error() {
    assert_eq!(parse_udt_data(vec![8]), Err(Error::DecodeInfoError));
    assert_eq!(validate_udt_data(vec![8]), Err(Error::DecodeInfoError));
}

#[test]
fn full_record_decodes() {
    let data = vec![8, 4, 0x41, 0x42, 0x43, 0x44, 4, 0x58, 0x54, 0x43, 0x54];
    let decoded = parse_udt_data(data.clone()).expect("record decodes");
    assert_eq!(decoded.0, 8);
    assert_eq!(decoded.1, b"ABCD".to_vec());
    assert_eq!(decoded.2, b"XTCT".to_vec());
    assert_eq!(validate_udt_data(data), Ok(()));
}

#[test]
fn name_length_past_end_is_index_out_of_bound() {
    assert_eq!(parse_udt_data(vec![8, 10, 0x41, 0x42]), Err(Error::IndexOutOfBound));
}

#[test]
fn empty_name_decodes() {
    let decoded = parse_udt_data(vec![8, 0, 4, 0x58, 0x54, 0x43, 0x54]).expect("record decodes");
    assert_eq!(decoded.0, 8);
    assert_eq!(decoded.1, Vec::<u8>::new());
    assert_eq!(decoded.2, b"XTCT".to_vec());
}

#[test]
fn missing_symbol_length_is_index_out_of_bound() {
    // name fills the buffer exactly, so the symbol-length byte is absent
    assert_eq!(parse_udt_data(vec![8, 2, 0x41, 0x42]), Err(Error::IndexOutOfBound));
}

#[test]
fn truncated_symbol_is_index_out_of_bound() {
    assert_eq!(parse_udt_data(vec![8, 1, 0x41, 3, 0x58, 0x54]), Err(Error::IndexOutOfBound));
}

#[test]
fn encode_matches_layout() {
    let encoded = encode_udt_data(8, &b"ABCD".to_vec(), &b"XTCT".to_vec());
    assert_eq!(encoded, vec![8, 4, 0x41, 0x42, 0x43, 0x44, 4, 0x58, 0x54, 0x43, 0x54]);
}

#[test]
fn encode_decode_round_trip() {
    let name = b"Example Token".to_vec();
    let symbol = b"XTCT".to_vec();
    let decoded = parse_udt_data(encode_udt_data(18, &name, &symbol)).expect("record decodes");
    assert_eq!(decoded, (18, name, symbol));
}

#[test]
fn encode_decode_round_trip_empty_fields() {
    let decoded = parse_udt_data(encode_udt_data(0, &vec![], &vec![])).expect("record decodes");
    assert_eq!(decoded, (0, vec![], vec![]));
}

#[test]
fn encode_decode_round_trip_longest_fields() {
    let name = vec![0xAA; 255];
    let symbol = vec![0xBB; 255];
    let decoded = parse_udt_data(encode_udt_data(255, &name, &symbol)).expect("record decodes");
    assert_eq!(decoded, (255, name, symbol));
}

#[test]
fn trailing_bytes_are_ignored() {
    let record = vec![8, 1, 0x41, 2, 0x58, 0x54];
    let mut extended = record.clone();
    extended.extend_from_slice(&[0xDE, 0xAD, 0xBE, 0xEF]);
    assert_eq!(parse_udt_data(record), parse_udt_data(extended.clone()));
    assert_eq!(validate_udt_data(extended), Ok(()));
}

#[test]
fn slice_vec_copies_range_and_advances() {
    let data = vec![1, 2, 3, 4, 5];
    let (sliced, next_start) = slice_vec(&data, 1, 3).expect("range is in bounds");
    assert_eq!(sliced, vec![2, 3, 4]);
    assert_eq!(next_start, 4);
}

#[test]
fn slice_vec_empty_range() {
    let data = vec![1, 2, 3];
    let (sliced, next_start) = slice_vec(&data, 3, 0).expect("empty range at end is in bounds");
    assert_eq!(sliced, Vec::<u8>::new());
    assert_eq!(next_start, 3);
}

#[test]
fn slice_vec_rejects_range_past_end() {
    let data = vec![1, 2, 3];
    assert_eq!(slice_vec(&data, 2, 2), Err(Error::IndexOutOfBound));
    assert_eq!(slice_vec(&data, 4, 0), Err(Error::IndexOutOfBound));
}
