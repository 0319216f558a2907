use parserde::builder::{build_reader, RecordReader};
use parserde::formats::bin::{BinReader, RecordBytes};
use parserde::record::{DataProducer, Record, RecordSerialize, Status, TxType};

fn record_one() -> Record {
    Record::new(
        1,
        TxType::DEPOSIT,
        2,
        3,
        1000,
        1000000000000,
        Status::SUCCESS,
        "Description 1".into(),
    )
}

#[test]
fn bin_test_read() {
    let record1 = record_one();
    let record2 = Record::new(
        2,
        TxType::WITHDRAWAL,
        6,
        5,
        1456,
        1000009000001,
        Status::PENDING,
        "Description 2".into(),
    );
    let bin_ser = RecordBytes;
    let bytes = [
        bin_ser.serialize(&record1).unwrap(),
        bin_ser.serialize(&record2).unwrap(),
    ]
    .concat();
    let mut bin_reader = BinReader::new(bytes).unwrap();
    let read_result = bin_reader.produce_record();
    assert!(read_result.is_some());
    let parse_result = read_result.unwrap();
    println!("{:?}", parse_result);
    assert!(parse_result.is_ok());
    let record1_parsed = parse_result.unwrap();
    assert_eq!(record1_parsed, record1);
    let record2_parsed = bin_reader.produce_record().unwrap().unwrap();
    assert_eq!(record2_parsed, record2);
    assert!(bin_reader.read().is_none());
}

#[test]
fn test_bin_single_record_round_trip() {
    let record = record_one();
    let bin_ser = RecordBytes;
    let bytes = bin_ser.serialize(&record).unwrap();
    let mut reader = BinReader::new(bytes).unwrap();
    let produced = reader.produce_record().unwrap().unwrap();
    assert_eq!(produced, record);
    assert!(reader.produce_record().is_none());
    assert!(reader.produce_record().is_none());
}

#[test]
fn test_bin_frame_layout() {
    let record = record_one();
    let bytes = RecordBytes.serialize(&record).unwrap();
    assert_eq!(&bytes[0..4], b"YPBN");
    let desc_len = "Description 1".len() as u32;
    assert_eq!(&bytes[4..8], (46 + desc_len).to_be_bytes().as_slice());
    assert_eq!(&bytes[8..16], 1u64.to_be_bytes().as_slice());
    assert_eq!(bytes[16], 0);
    assert_eq!(&bytes[17..25], 2u64.to_be_bytes().as_slice());
    assert_eq!(&bytes[25..33], 3u64.to_be_bytes().as_slice());
    assert_eq!(&bytes[33..41], 1000u64.to_be_bytes().as_slice());
    assert_eq!(&bytes[41..49], 1000000000000u64.to_be_bytes().as_slice());
    assert_eq!(bytes[49], 0);
    assert_eq!(&bytes[50..54], desc_len.to_be_bytes().as_slice());
    assert_eq!(&bytes[54..], b"Description 1");
}

#[test]
fn test_bin_magic_not_validated() {
    let record = record_one();
    let mut bytes = RecordBytes.serialize(&record).unwrap();
    bytes[0] = b'X';
    bytes[1] = b'X';
    bytes[2] = b'X';
    bytes[3] = b'X';
    let mut reader = BinReader::new(bytes).unwrap();
    let produced = reader.produce_record().unwrap().unwrap();
    assert_eq!(produced, record);
}

#[test]
fn test_bin_partial_head_is_clean_end_of_stream() {
    let record = record_one();
    let bytes = RecordBytes.serialize(&record).unwrap();
    let truncated = bytes[0..5].to_vec();
    let mut reader = BinReader::new(truncated).unwrap();
    assert!(reader.produce_record().is_none());
    assert!(reader.produce_record().is_none());
    assert!(reader.read().is_none());
}

#[test]
fn test_bin_truncated_body_is_read_error() {
    let record = record_one();
    let bytes = RecordBytes.serialize(&record).unwrap();
    let truncated = bytes[0..bytes.len() - 1].to_vec();
    let mut reader = BinReader::new(truncated).unwrap();
    let result = reader.produce_record().unwrap();
    assert!(result.is_err());
    let err = result.unwrap_err();
    assert_eq!(err.text, "failed to read record");
}

#[test]
fn test_bin_invalid_utf8_description_is_parse_error() {
    let record = record_one();
    let mut bytes = RecordBytes.serialize(&record).unwrap();
    let last = bytes.len() - 1;
    bytes[last] = 0xff;
    let mut reader = BinReader::new(bytes).unwrap();
    let result = reader.produce_record().unwrap();
    assert!(result.is_err());
    assert_eq!(result.unwrap_err().text, "failed to parse record");
}

#[test]
fn test_bin_reader_via_builder() {
    let record = record_one();
    let bytes = RecordBytes.serialize(&record).unwrap();
    let mut reader = build_reader(bytes, "bin").unwrap();
    assert!(matches!(&reader, RecordReader::Bin(_)));
    let produced = reader.produce_record().unwrap().unwrap();
    assert_eq!(produced, record);
    assert!(reader.produce_record().is_none());
}
