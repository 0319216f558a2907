use parserde::formats::csv::CsvReader;
use parserde::record::{DataProducer, RecordSerialize, RecordWriter, Status, TxType};

fn get_good_input() -> String {
    "\
TX_ID,TX_TYPE,FROM_USER_ID,TO_USER_ID,AMOUNT,TIMESTAMP,STATUS,DESCRIPTION
1000000000000000,DEPOSIT,0,9223372036854775807,100,1633036860000,FAILURE,Record number 1
1000000000000001,TRANSFER,9223372036854775807,9223372036854775807,200,1633036920000,PENDING,Record number 2".to_string()
}

#[test]
fn test_csv_lib() {
    let data = "\
TX_ID,TX_TYPE,FROM_USER_ID
Boston,United States,4628910
hewston,Australia,2
        ";
    let mut rdr = CsvReader::new(data.as_bytes().to_vec(), b',').unwrap();
    let mut record: Vec<u8> = Vec::new();

    if let Some(Ok(columns)) = rdr.read() {
        for column in &columns {
            record.extend_from_slice(column);
        }
        assert_eq!(record.as_slice(), b"BostonUnited States4628910");
    } else {
        panic!("expected at least one record but got none")
    }
}

#[test]
fn csv_test_read() {
    let input = get_good_input().into_bytes();
    let mut reader = CsvReader::new(input, b',').unwrap();
    let result = reader.read();
    assert!(result.is_some());
    let result = result.unwrap().unwrap();
    let expected1: Vec<Vec<u8>> = vec![
        b"1000000000000000".to_vec(),
        b"DEPOSIT".to_vec(),
        b"0".to_vec(),
        b"9223372036854775807".to_vec(),
        b"100".to_vec(),
        b"1633036860000".to_vec(),
        b"FAILURE".to_vec(),
        b"Record number 1".to_vec(),
    ];
    assert_eq!(result, expected1);
    let result = reader.read();
    assert!(result.is_some());
    let result = result.unwrap().unwrap();
    let expected2: Vec<Vec<u8>> = vec![
        b"1000000000000001".to_vec(),
        b"TRANSFER".to_vec(),
        b"9223372036854775807".to_vec(),
        b"9223372036854775807".to_vec(),
        b"200".to_vec(),
        b"1633036920000".to_vec(),
        b"PENDING".to_vec(),
        b"Record number 2".to_vec(),
    ];
    assert_eq!(result, expected2);
    let r = reader.read();
    println!("{:?}", r);
    assert!(r.is_none());
}

#[test]
fn test_produce_record() {
    let input = get_good_input().into_bytes();
    let mut reader = CsvReader::new(input, b',').unwrap();
    let result = reader.produce_record();
    assert!(result.is_some());
    let result = result.unwrap().unwrap();
    assert_eq!(result.tx_id, 1000000000000000);
    let result = reader.produce_record().unwrap().unwrap();
    assert_eq!(result.tx_id, 1000000000000001);
    assert!(reader.read().is_none());
}

#[test]
fn test_csv_scenario_first_record() {
    let input = get_good_input().into_bytes();
    let mut reader = CsvReader::new(input, b',').unwrap();
    let record = reader.produce_record().unwrap().unwrap();
    assert_eq!(record.tx_id, 1000000000000000);
    assert_eq!(record.tx_type, TxType::DEPOSIT);
    assert_eq!(record.status, Status::FAILURE);
    assert_eq!(record.from_user, 0);
    assert_eq!(record.to_user, 9223372036854775807);
    assert_eq!(record.amount, 100);
    assert_eq!(record.timestamp, 1633036860000);
    assert_eq!(record.description, b"Record number 1".to_vec());
}

#[test]
fn test_csv_writer_then_reader_round_trip() {
    let input = get_good_input().into_bytes();
    let mut reader = CsvReader::new(input, b',').unwrap();
    let rec1 = reader.produce_record().unwrap().unwrap();
    let rec2 = reader.produce_record().unwrap().unwrap();

    let serializer = parserde::builder::build_serializer("csv").unwrap();
    let mut writer = parserde::builder::build_writer(Vec::new(), "csv").unwrap();
    writer.write_header().unwrap();
    writer.write(serializer.serialize(&rec1).unwrap()).unwrap();
    writer.write(serializer.serialize(&rec2).unwrap()).unwrap();
    let bytes = writer.into_bytes();

    let mut again = CsvReader::new(bytes, b',').unwrap();
    let back1 = again.produce_record().unwrap().unwrap();
    let back2 = again.produce_record().unwrap().unwrap();
    assert_eq!(back1, rec1);
    assert_eq!(back2, rec2);
    assert!(again.produce_record().is_none());
}

#[test]
fn test_csv_scrambled_header_order() {
    let input =
        b"DESCRIPTION,STATUS,TX_ID,AMOUNT,TO_USER_ID,TX_TYPE,TIMESTAMP,FROM_USER_ID\nnote,PENDING,7,9,3,TRANSFER,5,2"
            .to_vec();
    let mut reader = CsvReader::new(input, b',').unwrap();
    let record = reader.produce_record().unwrap().unwrap();
    assert_eq!(record.tx_id, 7);
    assert_eq!(record.tx_type, TxType::TRANSFER);
    assert_eq!(record.status, Status::PENDING);
    assert_eq!(record.from_user, 2);
    assert_eq!(record.to_user, 3);
    assert_eq!(record.amount, 9);
    assert_eq!(record.timestamp, 5);
    assert_eq!(record.description, b"note".to_vec());
    assert!(reader.produce_record().is_none());
}

#[test]
fn test_csv_missing_column_is_error() {
    let input = b"TX_ID,TX_TYPE\n42".to_vec();
    let mut reader = CsvReader::new(input, b',').unwrap();
    let result = reader.produce_record().unwrap();
    assert!(result.is_err());
    assert_eq!(result.unwrap_err().text, "missing field");
}

#[test]
fn test_csv_incomplete_record_is_error() {
    let input = b"TX_ID,TX_TYPE\n42,DEPOSIT".to_vec();
    let mut reader = CsvReader::new(input, b',').unwrap();
    let result = reader.produce_record().unwrap();
    assert!(result.is_err());
    assert_eq!(result.unwrap_err().text, "couldn't parse record");
}

#[test]
fn test_csv_header_line() {
    let mut writer = parserde::builder::build_writer(Vec::new(), "csv").unwrap();
    writer.write_header().unwrap();
    let bytes = writer.into_bytes();
    assert_eq!(
        bytes.as_slice(),
        b"TX_ID,TX_TYPE,FROM_USER_ID,TO_USER_ID,AMOUNT,TIMESTAMP,STATUS,DESCRIPTION\n"
    );
}
