use tws_client::decoder::{decode, required_fields, DecodedMessage};
use tws_client::emessage::EMessage;
use tws_client::errors::FatalError;
use tws_client::field_reader::{
    read_bool_from_int, read_char, read_decimal, read_double_max, read_int, read_int_max,
    read_long,
};
use tws_client::framing::split_terminated;
use tws_client::parse::{parse_i32, parse_i64};

#[test]
fn parse_i32_plain_values() {
    assert_eq!(parse_i32(b"145"), Some(145));
    assert_eq!(parse_i32(b"0"), Some(0));
    assert_eq!(parse_i32(b"-1"), Some(-1));
    assert_eq!(parse_i32(b"+7"), Some(7));
    assert_eq!(parse_i32(b"007"), Some(7));
    assert_eq!(parse_i32(b"2104"), Some(2104));
}

#[test]
fn parse_i32_rejects_malformed() {
    assert_eq!(parse_i32(b""), None);
    assert_eq!(parse_i32(b"-"), None);
    assert_eq!(parse_i32(b"+"), None);
    assert_eq!(parse_i32(b"12a"), None);
    assert_eq!(parse_i32(b" 1"), None);
    assert_eq!(parse_i32(b"1.5"), None);
}

#[test]
fn parse_i32_range_limits() {
    assert_eq!(parse_i32(b"2147483647"), Some(i32::MAX));
    assert_eq!(parse_i32(b"2147483648"), None);
    assert_eq!(parse_i32(b"-2147483648"), Some(i32::MIN));
    assert_eq!(parse_i32(b"-2147483649"), None);
}

#[test]
fn parse_i64_range_limits() {
    assert_eq!(parse_i64(b"9223372036854775807"), Some(i64::MAX));
    assert_eq!(parse_i64(b"9223372036854775808"), None);
    assert_eq!(parse_i64(b"-9223372036854775808"), Some(i64::MIN));
    assert_eq!(parse_i64(b"-9223372036854775809"), None);
    assert_eq!(parse_i64(b"99999999999999999999999"), None);
}

#[test]
fn emessage_appends_terminated_fields() {
    let mut m = EMessage::new();
    m.push(b"abc");
    m.push(b"de");
    assert_eq!(m.consume(), b"abc\x00de\x00".to_vec());
}

#[test]
fn emessage_empty_field_is_one_terminator() {
    let mut m = EMessage::new();
    m.push(b"");
    assert_eq!(m.consume(), b"\x00".to_vec());
}

#[test]
fn encode_then_split_round_trip() {
    let mut m = EMessage::new();
    m.push(b"9");
    m.push(b"1");
    m.push(b"145");
    let bytes = m.consume();
    let fields = split_terminated(&bytes);
    assert_eq!(fields, vec![b"9".to_vec(), b"1".to_vec(), b"145".to_vec()]);
}

#[test]
fn split_drops_empty_tokens() {
    let fields = split_terminated(b"\x00\x00a\x00\x00b\x00");
    assert_eq!(fields, vec![b"a".to_vec(), b"b".to_vec()]);
}

#[test]
fn read_int_values_and_errors() {
    assert_eq!(read_int(&b"42".to_vec()), Ok(42));
    assert_eq!(read_int(&b"x".to_vec()), Err(FatalError::MalformedInt));
    assert_eq!(read_long(&b"-9000000000".to_vec()), Ok(-9000000000i64));
    assert_eq!(read_long(&b"".to_vec()), Err(FatalError::MalformedInt));
}

#[test]
fn read_bool_from_int_nonzero() {
    assert_eq!(read_bool_from_int(&b"0".to_vec()), Ok(false));
    assert_eq!(read_bool_from_int(&b"1".to_vec()), Ok(true));
    assert_eq!(read_bool_from_int(&b"-3".to_vec()), Ok(true));
    assert_eq!(read_bool_from_int(&b"y".to_vec()), Err(FatalError::MalformedInt));
}

#[test]
fn read_char_single_byte_only() {
    assert_eq!(read_char(&b"A".to_vec()), Ok(b'A'));
    assert_eq!(read_char(&b"".to_vec()), Err(FatalError::NotSingleChar));
    assert_eq!(read_char(&b"AB".to_vec()), Err(FatalError::NotSingleChar));
}

#[test]
fn read_int_max_sentinel_only() {
    assert_eq!(read_int_max(&b"2147483647".to_vec()), Ok(i32::MAX));
    assert_eq!(read_int_max(&b"5".to_vec()), Err(FatalError::NotMaxSentinel));
    assert_eq!(read_int_max(&b"q".to_vec()), Err(FatalError::MalformedInt));
}

#[test]
fn read_double_max_sentinel_only() {
    assert!(read_double_max(&b"inf".to_vec()));
    assert!(!read_double_max(&b"1.5".to_vec()));
    assert!(!read_double_max(&b"".to_vec()));
}

#[test]
fn read_decimal_keeps_raw_text() {
    let d = read_decimal(&b"10.25".to_vec());
    assert_eq!(d.number, b"10.25".to_vec());
}

#[test]
fn required_fields_error_version_split() {
    // An Error message with version below 2 occupies three fields,
    // with version 2 or above five.
    let v1 = vec![b"4".to_vec(), b"1".to_vec()];
    assert_eq!(required_fields(&v1), Ok(Some(3)));
    let v2 = vec![b"4".to_vec(), b"2".to_vec()];
    assert_eq!(required_fields(&v2), Ok(Some(5)));
    let unknown_yet = vec![b"4".to_vec()];
    assert_eq!(required_fields(&unknown_yet), Ok(None));
}

#[test]
fn required_fields_simple_kinds() {
    assert_eq!(required_fields(&vec![b"9".to_vec()]), Ok(Some(3)));
    assert_eq!(required_fields(&vec![b"15".to_vec()]), Ok(Some(3)));
    assert_eq!(required_fields(&vec![]), Ok(None));
}

#[test]
fn required_fields_rejects_unknown_kind() {
    assert_eq!(
        required_fields(&vec![b"99".to_vec()]),
        Err(FatalError::UnknownMessageKind(99))
    );
    assert_eq!(required_fields(&vec![b"x".to_vec()]), Err(FatalError::MalformedInt));
}

#[test]
fn decode_next_valid_id_verbatim() {
    let fields = vec![b"9".to_vec(), b"1".to_vec(), b"145".to_vec()];
    assert_eq!(
        decode(&fields),
        Ok(DecodedMessage::NextValidId { version: 1, id: 145 })
    );
}

#[test]
fn decode_error_version_one_free_text() {
    let fields = vec![b"4".to_vec(), b"1".to_vec(), b"something broke".to_vec()];
    assert_eq!(
        decode(&fields),
        Ok(DecodedMessage::ErrorText { version: 1, text: b"something broke".to_vec() })
    );
}

#[test]
fn decode_error_version_two_structured() {
    let fields = vec![
        b"4".to_vec(),
        b"2".to_vec(),
        b"-1".to_vec(),
        b"2104".to_vec(),
        b"Market data farm connection is OK".to_vec(),
    ];
    assert_eq!(
        decode(&fields),
        Ok(DecodedMessage::ErrorCoded {
            version: 2,
            id: -1,
            code: 2104,
            text: b"Market data farm connection is OK".to_vec(),
        })
    );
}

#[test]
fn decode_managed_accounts_single() {
    let fields = vec![b"15".to_vec(), b"1".to_vec(), b"DU12345".to_vec()];
    assert_eq!(
        decode(&fields),
        Ok(DecodedMessage::ManagedAccounts { version: 1, accounts: b"DU12345".to_vec() })
    );
}

#[test]
fn decode_managed_accounts_multi_is_fatal() {
    let fields = vec![b"15".to_vec(), b"1".to_vec(), b"DU1,DU2".to_vec()];
    assert_eq!(decode(&fields), Err(FatalError::MultipleAccounts));
}

#[test]
fn decode_malformed_field_is_fatal() {
    let fields = vec![b"9".to_vec(), b"1".to_vec(), b"14x5".to_vec()];
    assert_eq!(decode(&fields), Err(FatalError::MalformedInt));
}
