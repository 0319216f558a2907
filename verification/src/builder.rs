//! The dispatch layer: maps a format name, one of `csv`, `txt` and
//! `bin`, to the codec's reader, serializer or writer. Any other name is
//! a construction-time error, never a silent default.

use vstd::prelude::*;
use vstd::array::array_as_slice;

use crate::bytestr::{split_lines, split_on, str_eq};
use crate::error::{ReaderCreateError, RecordProduceError, RecordSerializeError, RecordWriteError};
use crate::fields;
use crate::formats::bin::{bin_stream, BinReader, RecordBytes, RecordWrite as BinWrite};
use crate::formats::csv::{csv_default_names, csv_stream, names_of, CsvReader, CsvSerialize, RecordWrite as CsvWrite};
use crate::formats::txt::{txt_stream, RecordWrite as TxtWrite, TxtReader, TxtSerialize};
use crate::record::{
    DataProducer, Record, RecordSerialize, RecordV, RecordWriter, StreamEnd,
};

verus! {

/// The three format names differ pairwise.
pub proof fn lemma_format_names_distinct()
    ensures
        "csv"@ != "txt"@,
        "csv"@ != "bin"@,
        "txt"@ != "bin"@,
{
    reveal_strlit("csv");
    reveal_strlit("txt");
    reveal_strlit("bin");
    assert("csv"@[0] != "txt"@[0]);
    assert("csv"@[0] != "bin"@[0]);
    assert("txt"@[0] != "bin"@[0]);
}

/// The canonical csv field order, as the builders hand it to the csv
/// serializer and writer.
fn default_fields() -> (r: &'static [&'static str])
    ensures
        names_of(r@) == csv_default_names(),
{
    let arr: &'static [&'static str; 8] = &[
        fields::TX_ID,
        fields::TX_TYPE,
        fields::FROM_USER,
        fields::TO_USER,
        fields::AMOUNT,
        fields::TIMESTAMP,
        fields::STATUS,
        fields::DESCRIPTION,
    ];
    let r = array_as_slice(arr);
    proof {
        assert(names_of(r@) =~= csv_default_names());
    }
    r
}

/// A format name is supported when it is one of the three codecs'.
pub open spec fn supported_format(f: Seq<char>) -> bool {
    f == "csv"@ || f == "txt"@ || f == "bin"@
}

/// The records a byte stream holds under a format name, and how the
/// stream ends.
pub open spec fn format_stream(format: Seq<char>, data: Seq<u8>) -> (Seq<RecordV>, StreamEnd)
    recommends
        supported_format(format),
{
    if format == "csv"@ {
        let all = split_lines(data);
        if all.len() > 0 {
            csv_stream(split_on(all[0], 0x2c), false, all.skip(1), 0x2c)
        } else {
            csv_stream(Seq::empty(), false, all, 0x2c)
        }
    } else if format == "txt"@ {
        txt_stream(false, split_lines(data))
    } else {
        bin_stream(false, data)
    }
}

/// The reader of one of the three formats, bound to a byte source.
pub enum RecordReader {
    Csv(CsvReader),
    Txt(TxtReader),
    Bin(BinReader),
}

impl DataProducer for RecordReader {
    open spec fn stream(&self) -> (Seq<RecordV>, StreamEnd) {
        match self {
            RecordReader::Csv(c) => c.stream(),
            RecordReader::Txt(t) => t.stream(),
            RecordReader::Bin(b) => b.stream(),
        }
    }

    fn produce_record(&mut self) -> (r: Option<Result<Record, RecordProduceError>>) {
        match self {
            RecordReader::Csv(c) => c.produce_record(),
            RecordReader::Txt(t) => t.produce_record(),
            RecordReader::Bin(b) => b.produce_record(),
        }
    }
}

/// Creates the reader of the given format over the given bytes: the
/// stream it will produce is the format's reading of those bytes.
pub fn build_reader(data: Vec<u8>, format: &str) -> (r: Result<RecordReader, ReaderCreateError>)
    ensures
        r is Ok <==> supported_format(format@),
        r matches Ok(rd) ==> rd.stream() == format_stream(format@, data@),
        r matches Err(e) ==> e.text@ == "given an unsupported format"@,
{
    proof {
        lemma_format_names_distinct();
    }
    if str_eq(format, "csv") {
        let c = match CsvReader::new(data, 0x2c) {
            Ok(c) => c,
            Err(e) => {
                return Err(e);
            },
        };
        proof {
            let all = split_lines(data@);
            if all.len() > 0 {
                assert(c.remaining() =~= all.skip(1));
            } else {
                assert(c.remaining() =~= all);
            }
        }
        Ok(RecordReader::Csv(c))
    } else if str_eq(format, "txt") {
        let t = match TxtReader::new(data) {
            Ok(t) => t,
            Err(e) => {
                return Err(e);
            },
        };
        proof {
            assert(t.remaining() =~= split_lines(data@));
        }
        Ok(RecordReader::Txt(t))
    } else if str_eq(format, "bin") {
        let b = match BinReader::new(data) {
            Ok(b) => b,
            Err(e) => {
                return Err(e);
            },
        };
        proof {
            assert(b.remaining() =~= b.data@);
        }
        Ok(RecordReader::Bin(b))
    } else {
        Err(ReaderCreateError { text: "given an unsupported format".to_owned() })
    }
}

/// The serializer of one of the three formats.
pub enum Serializer {
    Csv(CsvSerialize<'static>),
    Txt(TxtSerialize),
    Bin(RecordBytes),
}

impl RecordSerialize for Serializer {
    open spec fn ser_req(&self, record: RecordV) -> bool {
        match self {
            Serializer::Csv(c) => c.ser_req(record),
            Serializer::Txt(t) => t.ser_req(record),
            Serializer::Bin(b) => b.ser_req(record),
        }
    }

    open spec fn ser_spec(&self, record: RecordV) -> Result<Seq<u8>, ()> {
        match self {
            Serializer::Csv(c) => c.ser_spec(record),
            Serializer::Txt(t) => t.ser_spec(record),
            Serializer::Bin(b) => b.ser_spec(record),
        }
    }

    fn serialize(&self, record: &Record) -> (r: Result<Vec<u8>, RecordSerializeError>) {
        match self {
            Serializer::Csv(c) => c.serialize(record),
            Serializer::Txt(t) => t.serialize(record),
            Serializer::Bin(b) => b.serialize(record),
        }
    }
}

/// Creates the serializer of the given format; the csv serializer is
/// bound to the canonical field order and a comma separator.
pub fn build_serializer(format: &str) -> (r: Result<Serializer, ReaderCreateError>)
    ensures
        r is Ok <==> supported_format(format@),
        r matches Ok(s) ==> match s {
            Serializer::Csv(c) => format@ == "csv"@ && names_of(c.fields@)
                == csv_default_names() && c.separator@ == ","@,
            Serializer::Txt(_) => format@ == "txt"@,
            Serializer::Bin(_) => format@ == "bin"@,
        },
        r matches Err(e) ==> e.text@ == "given an unsupported format"@,
{
    proof {
        lemma_format_names_distinct();
    }
    if str_eq(format, "csv") {
        Ok(Serializer::Csv(CsvSerialize::new(default_fields(), ",")))
    } else if str_eq(format, "bin") {
        Ok(Serializer::Bin(RecordBytes))
    } else if str_eq(format, "txt") {
        Ok(Serializer::Txt(TxtSerialize))
    } else {
        Err(ReaderCreateError { text: "given an unsupported format".to_owned() })
    }
}

/// The writer of one of the three formats, bound to a byte sink.
pub enum Writer {
    Csv(CsvWrite<'static>),
    Txt(TxtWrite),
    Bin(BinWrite),
}

impl Writer {
    /// Hands the sink back, with everything written to it.
    pub fn into_bytes(self) -> (r: Vec<u8>)
        ensures
            r@ == self.written(),
    {
        match self {
            Writer::Csv(c) => c.writer,
            Writer::Txt(t) => t.writer,
            Writer::Bin(b) => b.writer,
        }
    }
}

impl RecordWriter for Writer {
    open spec fn written(&self) -> Seq<u8> {
        match self {
            Writer::Csv(c) => c.written(),
            Writer::Txt(t) => t.written(),
            Writer::Bin(b) => b.written(),
        }
    }

    open spec fn write_transform(&self, data: Seq<u8>) -> Seq<u8> {
        match self {
            Writer::Csv(c) => c.write_transform(data),
            Writer::Txt(t) => t.write_transform(data),
            Writer::Bin(b) => b.write_transform(data),
        }
    }

    open spec fn header_bytes(&self) -> Seq<u8> {
        match self {
            Writer::Csv(c) => c.header_bytes(),
            Writer::Txt(t) => t.header_bytes(),
            Writer::Bin(b) => b.header_bytes(),
        }
    }

    fn write_header(&mut self) -> (r: Result<(), RecordWriteError>) {
        match self {
            Writer::Csv(c) => c.write_header(),
            Writer::Txt(t) => t.write_header(),
            Writer::Bin(b) => b.write_header(),
        }
    }

    fn write(&mut self, data: Vec<u8>) -> (r: Result<(), RecordWriteError>) {
        match self {
            Writer::Csv(c) => c.write(data),
            Writer::Txt(t) => t.write(data),
            Writer::Bin(b) => b.write(data),
        }
    }
}

/// Creates the writer of the given format over the given sink; the csv
/// writer is bound to the canonical field order and a comma separator.
pub fn build_writer(writer: Vec<u8>, output_format: &str) -> (r: Result<Writer, ReaderCreateError>)
    ensures
        r is Ok <==> supported_format(output_format@),
        r matches Ok(w) ==> w.written() == writer@ && match w {
            Writer::Csv(c) => output_format@ == "csv"@ && names_of(c.fields@)
                == csv_default_names() && c.separator@ == ","@,
            Writer::Txt(_) => output_format@ == "txt"@,
            Writer::Bin(_) => output_format@ == "bin"@,
        },
        r matches Err(e) ==> e.text@ == "given an unsupported format"@,
{
    proof {
        lemma_format_names_distinct();
    }
    if str_eq(output_format, "csv") {
        Ok(Writer::Csv(CsvWrite::new(writer, default_fields(), ",".to_owned())))
    } else if str_eq(output_format, "txt") {
        Ok(Writer::Txt(TxtWrite::new(writer)))
    } else if str_eq(output_format, "bin") {
        Ok(Writer::Bin(BinWrite::new(writer)))
    } else {
        Err(ReaderCreateError { text: "given an unsupported format".to_owned() })
    }
}

} // verus!
