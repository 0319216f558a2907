use parserde::numeric::{parse_u64_decimal, u64_to_be_bytes, u64_to_decimal};
use parserde::record::{Data, Field, FieldValue, Record, Status, TxType};

#[test]
fn test_missing_field_names_first_missing() {
    let values = vec![
        FieldValue::TxType(TxType::DEPOSIT),
        FieldValue::FromUser(2),
        FieldValue::ToUser(3),
        FieldValue::Amount(4),
        FieldValue::Timestamp(5),
        FieldValue::Status(Status::PENDING),
        FieldValue::Description(b"d".to_vec()),
    ];
    let err = Record::from_fields(values).unwrap_err();
    assert_eq!(err, "missing field tx_id");

    let err = Record::from_fields(vec![FieldValue::TxId(1)]).unwrap_err();
    assert_eq!(err, "missing field tx_type");

    let err = Record::from_fields(Vec::new()).unwrap_err();
    assert_eq!(err, "missing field tx_id");
}

#[test]
fn test_last_field_occurrence_wins() {
    let values = vec![
        FieldValue::TxId(1),
        FieldValue::TxId(11),
        FieldValue::TxType(TxType::DEPOSIT),
        FieldValue::FromUser(2),
        FieldValue::ToUser(3),
        FieldValue::Amount(4),
        FieldValue::Timestamp(5),
        FieldValue::Status(Status::PENDING),
        FieldValue::Description(b"d".to_vec()),
    ];
    let record = Record::from_fields(values).unwrap();
    assert_eq!(record.tx_id, 11);
}

#[test]
fn test_unknown_field_is_rejected() {
    let field = Field::new(b"NOT_A_FIELD".as_slice(), b"1".as_slice());
    let err = field.parse().unwrap_err();
    assert_eq!(err.text, "unknown field");
}

#[test]
fn test_text_field_parsing() {
    let parsed = Field::new(b"TX_ID".as_slice(), b"42".as_slice()).parse().unwrap();
    assert!(matches!(parsed, FieldValue::TxId(42)));
    let parsed = Field::new(b"TX_TYPE".as_slice(), b"WITHDRAWAL".as_slice()).parse().unwrap();
    assert!(matches!(parsed, FieldValue::TxType(TxType::WITHDRAWAL)));
    let parsed = Field::new(b"STATUS".as_slice(), b"FAILURE".as_slice()).parse().unwrap();
    assert!(matches!(parsed, FieldValue::Status(Status::FAILURE)));
    let err = Field::new(b"TX_TYPE".as_slice(), b"deposit".as_slice()).parse().unwrap_err();
    assert_eq!(err.text, "failed to parse tx_type");
    assert_eq!(err.source.as_deref(), Some("invalid TxType"));
    let err = Field::new(b"STATUS".as_slice(), b"ok".as_slice()).parse().unwrap_err();
    assert_eq!(err.text, "failed to parse status");
    assert_eq!(err.source.as_deref(), Some("unknown status"));
    let err = Field::new(b"AMOUNT".as_slice(), b"12x".as_slice()).parse().unwrap_err();
    assert_eq!(err.text, "failed to parse amount");
    assert_eq!(err.source.as_deref(), Some("invalid unsigned decimal"));
}

#[test]
fn test_enum_byte_and_text_maps() {
    assert_eq!(TxType::DEPOSIT.to_byte(), 0);
    assert_eq!(TxType::TRANSFER.to_byte(), 1);
    assert_eq!(TxType::WITHDRAWAL.to_byte(), 2);
    assert_eq!(TxType::from_byte(0).unwrap(), TxType::DEPOSIT);
    assert_eq!(TxType::from_byte(1).unwrap(), TxType::TRANSFER);
    assert_eq!(TxType::from_byte(2).unwrap(), TxType::WITHDRAWAL);
    assert!(TxType::from_byte(3).is_err());
    assert_eq!(Status::SUCCESS.to_byte(), 0);
    assert_eq!(Status::FAILURE.to_byte(), 1);
    assert_eq!(Status::PENDING.to_byte(), 2);
    assert_eq!(Status::from_byte(0).unwrap(), Status::SUCCESS);
    assert_eq!(Status::from_byte(1).unwrap(), Status::FAILURE);
    assert_eq!(Status::from_byte(2).unwrap(), Status::PENDING);
    assert!(Status::from_byte(9).is_err());
    assert_eq!(TxType::DEPOSIT.to_text(), "DEPOSIT");
    assert_eq!(TxType::TRANSFER.to_text(), "TRANSFER");
    assert_eq!(TxType::WITHDRAWAL.to_text(), "WITHDRAWAL");
    assert_eq!(Status::SUCCESS.to_text(), "SUCCESS");
    assert_eq!(Status::FAILURE.to_text(), "FAILURE");
    assert_eq!(Status::PENDING.to_text(), "PENDING");
}

#[test]
fn test_txt_line_field() {
    let parsed = FieldValue::from_line(Data::new(b"TX_ID: 9".to_vec())).unwrap();
    assert!(matches!(parsed, FieldValue::TxId(9)));
    let err = FieldValue::from_line(Data::new(b"no colon here".to_vec())).unwrap_err();
    assert_eq!(err.text, "no delimiter found");
}

#[test]
fn test_record_equality_and_default() {
    let a = Record::new(1, TxType::DEPOSIT, 2, 3, 4, 5, Status::SUCCESS, "x".into());
    let b = Record::new(1, TxType::DEPOSIT, 2, 3, 4, 5, Status::SUCCESS, "x".into());
    let c = Record::new(1, TxType::DEPOSIT, 2, 3, 4, 5, Status::SUCCESS, "y".into());
    assert_eq!(a, b);
    assert!(a != c);
    let d = Record::default();
    assert_eq!(d.tx_id, 0);
    assert_eq!(d.tx_type, TxType::DEPOSIT);
    assert_eq!(d.status, Status::PENDING);
    assert_eq!(d.description, Vec::<u8>::new());
}

#[test]
fn test_record_render() {
    let record = Record::new(1, TxType::DEPOSIT, 2, 3, 4, 5, Status::SUCCESS, "a note".into());
    assert_eq!(record.render(), b"{ 1, DEPOSIT, SUCCESS, 2, 3, 5, 4, a note }".to_vec());
}

#[test]
fn test_decimal_rendering_and_parsing() {
    assert_eq!(u64_to_decimal(0), b"0".to_vec());
    assert_eq!(u64_to_decimal(907), b"907".to_vec());
    assert_eq!(
        u64_to_decimal(u64::MAX),
        b"18446744073709551615".to_vec()
    );
    assert_eq!(parse_u64_decimal(b"0"), Some(0));
    assert_eq!(parse_u64_decimal(b"+907"), Some(907));
    assert_eq!(parse_u64_decimal(b"+"), None);
    assert_eq!(parse_u64_decimal(b"++1"), None);
    assert_eq!(parse_u64_decimal(b"18446744073709551615"), Some(u64::MAX));
    assert_eq!(parse_u64_decimal(b"18446744073709551616"), None);
    assert_eq!(parse_u64_decimal(b""), None);
    assert_eq!(parse_u64_decimal(b"12 "), None);
    assert_eq!(parse_u64_decimal(b"-1"), None);
}

#[test]
fn test_big_endian_rendering() {
    assert_eq!(
        u64_to_be_bytes(0x0102030405060708),
        vec![1, 2, 3, 4, 5, 6, 7, 8]
    );
    assert_eq!(u64_to_be_bytes(0), vec![0; 8]);
}
