use parserde::formats::txt::{RecordWrite as TxtWrite, TxtReader, TxtSerialize};
use parserde::record::{DataProducer, Record, RecordSerialize, RecordWriter, Status, TxType};

struct FieldLineIterator {
    inner: TxtReader,
}

#[derive(Debug, PartialEq)]
enum FieldOrEmpty {
    Field(String),
    Empty,
}

impl Iterator for FieldLineIterator {
    type Item = FieldOrEmpty;
    fn next(&mut self) -> Option<Self::Item> {
        match self.inner.read() {
            Some(r) => match r {
                Ok(s) => {
                    if !s.is_empty() {
                        Some(FieldOrEmpty::Field(String::from_utf8(s).unwrap()))
                    } else {
                        Some(FieldOrEmpty::Empty)
                    }
                },
                Err(_) => None,
            },
            None => None,
        }
    }
}

fn get_good_input() -> String {
    "# Record 2 (TRANSFER)\nDESCRIPTION: \"Record number 2\"
TIMESTAMP: 1633036920000
STATUS: PENDING
AMOUNT: 200
TX_ID: 1000000000000001
TX_TYPE: TRANSFER
FROM_USER_ID: 9223372036854775807
TO_USER_ID: 9223372036854775807

# Record 7 (DEPOSIT)
TO_USER_ID: 728970204360217851
TX_TYPE: DEPOSIT
AMOUNT: 700
DESCRIPTION: \"Record number 7\"
STATUS: FAILURE
FROM_USER_ID: 0
TIMESTAMP: 1633037220000
TX_ID: 1000000000000006"
        .to_string()
}

#[test]
fn test_data_read() {
    let mut data_consumer = FieldLineIterator {
        inner: TxtReader::new(get_good_input().into_bytes()).unwrap(),
    };
    assert_eq!(
        data_consumer.next().unwrap(),
        FieldOrEmpty::Field("DESCRIPTION: \"Record number 2\"".to_string())
    );
    assert_eq!(data_consumer.inner.current_line, 2);
    assert_eq!(
        data_consumer.nth(6).unwrap(),
        FieldOrEmpty::Field("TO_USER_ID: 9223372036854775807".into())
    );
    assert_eq!(data_consumer.inner.current_line, 9);
    assert_eq!(data_consumer.next().unwrap(), FieldOrEmpty::Empty);
    assert_eq!(
        data_consumer.next().unwrap(),
        FieldOrEmpty::Field("TO_USER_ID: 728970204360217851".into())
    );
    assert_eq!(
        data_consumer.nth(6).unwrap(),
        FieldOrEmpty::Field("TX_ID: 1000000000000006".into())
    );
    assert!(data_consumer.next().is_none());
    assert_eq!(data_consumer.inner.current_line, 19);
}

#[test]
fn test_record_produce() {
    let input = get_good_input();
    let mut tx = TxtReader::new(input.into_bytes()).unwrap();
    let record = tx.produce_record();
    assert!(record.is_some());
    let record = record.unwrap().unwrap();
    assert_eq!(record.tx_id, 1000000000000001);
    let record2 = tx.produce_record().unwrap().unwrap();
    assert_eq!(record2.tx_id, 1000000000000006);
    assert!(tx.produce_record().is_none());
}

#[test]
fn test_txt_trailing_comment_no_spurious_record() {
    let input = format!("{}\n# trailing note", get_good_input());
    let mut tx = TxtReader::new(input.into_bytes()).unwrap();
    let record = tx.produce_record().unwrap().unwrap();
    assert_eq!(record.tx_id, 1000000000000001);
    let record2 = tx.produce_record().unwrap().unwrap();
    assert_eq!(record2.tx_id, 1000000000000006);
    assert!(tx.produce_record().is_none());
}

#[test]
fn test_txt_fields_in_arbitrary_order_parse() {
    let input = get_good_input();
    let mut tx = TxtReader::new(input.into_bytes()).unwrap();
    let record = tx.produce_record().unwrap().unwrap();
    assert_eq!(record.tx_type, TxType::TRANSFER);
    assert_eq!(record.status, Status::PENDING);
    assert_eq!(record.amount, 200);
    assert_eq!(record.description, b"\"Record number 2\"".to_vec());
    let record2 = tx.produce_record().unwrap().unwrap();
    assert_eq!(record2.tx_type, TxType::DEPOSIT);
    assert_eq!(record2.status, Status::FAILURE);
    assert_eq!(record2.to_user, 728970204360217851);
}

#[test]
fn test_txt_serialize_then_read_round_trip() {
    let record = Record::new(
        7,
        TxType::TRANSFER,
        8,
        9,
        650,
        1633037220000,
        Status::PENDING,
        "a plain note".into(),
    );
    let ser = TxtSerialize;
    let mut writer = TxtWrite::new(Vec::new());
    writer.write(ser.serialize(&record).unwrap()).unwrap();
    let mut reader = TxtReader::new(writer.writer).unwrap();
    let back = reader.produce_record().unwrap().unwrap();
    assert_eq!(back, record);
    assert!(reader.produce_record().is_none());
}

#[test]
fn test_txt_two_written_records_one_blank_separator() {
    let r1 = Record::new(1, TxType::DEPOSIT, 2, 3, 4, 5, Status::SUCCESS, "first".into());
    let r2 = Record::new(6, TxType::WITHDRAWAL, 7, 8, 9, 10, Status::FAILURE, "second".into());
    let ser = TxtSerialize;
    let mut writer = TxtWrite::new(Vec::new());
    writer.write(ser.serialize(&r1).unwrap()).unwrap();
    writer.write(ser.serialize(&r2).unwrap()).unwrap();
    let text = String::from_utf8(writer.writer.clone()).unwrap();
    assert!(text.contains("STATUS: SUCCESS\n\nTX_ID: 6"));
    let mut reader = TxtReader::new(writer.writer).unwrap();
    assert_eq!(reader.produce_record().unwrap().unwrap(), r1);
    assert_eq!(reader.produce_record().unwrap().unwrap(), r2);
    assert!(reader.produce_record().is_none());
}

#[test]
fn test_txt_serializer_field_order() {
    let record = Record::new(1, TxType::DEPOSIT, 2, 3, 4, 5, Status::SUCCESS, "note".into());
    let bytes = TxtSerialize.serialize(&record).unwrap();
    let text = String::from_utf8(bytes).unwrap();
    assert_eq!(
        text,
        "TX_ID: 1\nAMOUNT: 4\nTIMESTAMP: 5\nDESCRIPTION: note\nTX_TYPE: DEPOSIT\nFROM_USER_ID: 2\nTO_USER_ID: 3\nSTATUS: SUCCESS\n"
    );
}

#[test]
fn test_txt_line_without_delimiter_is_error() {
    let input = b"TX_ID 5".to_vec();
    let mut tx = TxtReader::new(input).unwrap();
    let result = tx.produce_record().unwrap();
    assert!(result.is_err());
    assert_eq!(result.unwrap_err().text, "failed to parse field");
}
