use parserde::builder::{build_reader, build_serializer, build_writer};
use parserde::compare::compare_streams;
use parserde::convert::convert_stream;
use parserde::error::ProduceSource;
use parserde::formats::bin::RecordBytes;
use parserde::record::{DataProducer, Record, RecordSerialize, Status, TxType};

fn sample_record() -> Record {
    Record::new(
        10,
        TxType::TRANSFER,
        20,
        30,
        5000,
        1633036860000,
        Status::SUCCESS,
        "wire transfer".into(),
    )
}

#[test]
fn test_comparer_identical_bin_streams() {
    let bytes = RecordBytes.serialize(&sample_record()).unwrap();
    let mut r1 = build_reader(bytes.clone(), "bin").unwrap();
    let mut r2 = build_reader(bytes, "bin").unwrap();
    assert!(compare_streams(&mut r1, &mut r2));
}

#[test]
fn test_comparer_truncated_bin_stream_not_identical() {
    let bytes = RecordBytes.serialize(&sample_record()).unwrap();
    let mut truncated = bytes.clone();
    truncated.pop();
    let mut r1 = build_reader(bytes.clone(), "bin").unwrap();
    let mut r2 = build_reader(truncated.clone(), "bin").unwrap();
    assert!(!compare_streams(&mut r1, &mut r2));

    let mut r3 = build_reader(truncated, "bin").unwrap();
    let err = r3.produce_record().unwrap().unwrap_err();
    assert!(matches!(err.source, Some(ProduceSource::Read(_))));
}

#[test]
fn test_comparer_differing_records_not_identical() {
    let other = Record::new(
        11,
        TxType::TRANSFER,
        20,
        30,
        5000,
        1633036860000,
        Status::SUCCESS,
        "wire transfer".into(),
    );
    let b1 = RecordBytes.serialize(&sample_record()).unwrap();
    let b2 = RecordBytes.serialize(&other).unwrap();
    let mut r1 = build_reader(b1, "bin").unwrap();
    let mut r2 = build_reader(b2, "bin").unwrap();
    assert!(!compare_streams(&mut r1, &mut r2));
}

#[test]
fn test_comparer_across_formats() {
    let record = sample_record();
    let bin_bytes = RecordBytes.serialize(&record).unwrap();

    let ser = build_serializer("txt").unwrap();
    let mut w = build_writer(Vec::new(), "txt").unwrap();
    let mut reader = build_reader(bin_bytes.clone(), "bin").unwrap();
    convert_stream(&mut reader, &ser, &mut w).unwrap();
    let txt_bytes = w.into_bytes();

    let mut r1 = build_reader(bin_bytes, "bin").unwrap();
    let mut r2 = build_reader(txt_bytes, "txt").unwrap();
    assert!(compare_streams(&mut r1, &mut r2));
}

#[test]
fn test_converter_bin_to_csv() {
    let record = sample_record();
    let bin_bytes = RecordBytes.serialize(&record).unwrap();
    let mut reader = build_reader(bin_bytes, "bin").unwrap();
    let ser = build_serializer("csv").unwrap();
    let mut writer = build_writer(Vec::new(), "csv").unwrap();
    convert_stream(&mut reader, &ser, &mut writer).unwrap();
    let out = String::from_utf8(writer.into_bytes()).unwrap();
    assert_eq!(
        out,
        "TX_ID,TX_TYPE,FROM_USER_ID,TO_USER_ID,AMOUNT,TIMESTAMP,STATUS,DESCRIPTION\n\
         10,TRANSFER,20,30,5000,1633036860000,SUCCESS,wire transfer\n"
    );
}

#[test]
fn test_converter_csv_to_bin_round_trip() {
    let record = sample_record();
    let ser_csv = build_serializer("csv").unwrap();
    let mut w_csv = build_writer(Vec::new(), "csv").unwrap();
    let mut one = build_reader(RecordBytes.serialize(&record).unwrap(), "bin").unwrap();
    convert_stream(&mut one, &ser_csv, &mut w_csv).unwrap();

    let ser_bin = build_serializer("bin").unwrap();
    let mut w_bin = build_writer(Vec::new(), "bin").unwrap();
    let mut two = build_reader(w_csv.into_bytes(), "csv").unwrap();
    convert_stream(&mut two, &ser_bin, &mut w_bin).unwrap();

    let mut back = build_reader(w_bin.into_bytes(), "bin").unwrap();
    let produced = back.produce_record().unwrap().unwrap();
    assert_eq!(produced, record);
    assert!(back.produce_record().is_none());
}

#[test]
fn test_unsupported_format_is_rejected() {
    assert!(build_reader(Vec::new(), "xml").is_err());
    let err = match build_reader(Vec::new(), "xml") {
        Err(e) => e,
        Ok(_) => panic!("expected an unsupported-format error"),
    };
    assert_eq!(err.text, "given an unsupported format");
    assert!(build_serializer("").is_err());
    assert!(build_writer(Vec::new(), "CSV").is_err());
}

#[test]
fn test_exhaustion_all_three_formats() {
    let record = sample_record();
    for fmt in ["csv", "txt", "bin"] {
        let ser = build_serializer(fmt).unwrap();
        let mut w = build_writer(Vec::new(), fmt).unwrap();
        let mut source = build_reader(RecordBytes.serialize(&record).unwrap(), "bin").unwrap();
        convert_stream(&mut source, &ser, &mut w).unwrap();
        let mut reader = build_reader(w.into_bytes(), fmt).unwrap();
        assert!(reader.produce_record().unwrap().is_ok(), "format {}", fmt);
        assert!(reader.produce_record().is_none(), "format {}", fmt);
    }
}
