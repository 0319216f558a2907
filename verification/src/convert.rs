//! The converter core: reads records out of one stream and writes them,
//! serialized in a target format, behind that format's header.

use vstd::prelude::*;

use crate::builder::{RecordReader, Serializer, Writer};
use crate::error::{RecordProduceError, RecordSerializeError};
use crate::record::{DataProducer, RecordSerialize, RecordV, RecordWriter, StreamEnd};

verus! {

/// What converting a stream appends after the header, and whether it
/// runs to a clean end: each record's serialized bytes pass through the
/// writer's per-record transform; the first record the serializer does
/// not accept, or a stream that does not end cleanly, fails the run
/// after the bytes already written.
pub open spec fn convert_run(
    records: Seq<RecordV>,
    end: StreamEnd,
    ser: &Serializer,
    w: &Writer,
) -> (bool, Seq<u8>)
    decreases records.len(),
{
    if records.len() == 0 {
        (end is Clean, Seq::empty())
    } else if !ser.ser_req(records.first()) {
        (false, Seq::empty())
    } else {
        match ser.ser_spec(records.first()) {
            Err(_) => (false, Seq::empty()),
            Ok(bytes) => {
                let tail = convert_run(records.drop_first(), end, ser, w);
                (tail.0, w.write_transform(bytes) + tail.1)
            },
        }
    }
}

/// A conversion failure: the record could not be produced, or it could
/// not be rendered in the target format.
#[derive(Debug)]
pub enum ConvertError {
    Produce(RecordProduceError),
    Serialize(RecordSerializeError),
}

/// Writes the target format's header, then serializes and writes each
/// record of the stream; stops at the first failure, leaving everything
/// already written in place.
#[verifier::rlimit(100)]
pub fn convert_stream(reader: &mut RecordReader, serializer: &Serializer, writer: &mut Writer) -> (r:
    Result<(), ConvertError>)
    ensures
        r is Ok == convert_run(
            old(reader).stream().0,
            old(reader).stream().1,
            serializer,
            old(writer),
        ).0,
        final(writer).written() == old(writer).written() + old(writer).header_bytes()
            + convert_run(
            old(reader).stream().0,
            old(reader).stream().1,
            serializer,
            old(writer),
        ).1,
{
    let ghost s0 = reader.stream();
    match writer.write_header() {
        Ok(_) => (),
        Err(_) => {},
    }
    loop
        invariant
            convert_run(s0.0, s0.1, serializer, old(writer)).0 == convert_run(
                reader.stream().0,
                reader.stream().1,
                serializer,
                old(writer),
            ).0,
            old(writer).written() + old(writer).header_bytes() + convert_run(
                s0.0,
                s0.1,
                serializer,
                old(writer),
            ).1 == writer.written() + convert_run(
                reader.stream().0,
                reader.stream().1,
                serializer,
                old(writer),
            ).1,
            forall|d: Seq<u8>| #[trigger] writer.write_transform(d) == old(
                writer,
            ).write_transform(d),
            s0 == old(reader).stream(),
        decreases reader.stream().0.len(),
    {
        let ghost cur = reader.stream();
        let record = match reader.produce_record() {
            None => {
                proof {
                    assert(convert_run(cur.0, cur.1, serializer, old(writer)).0);
                    assert(convert_run(cur.0, cur.1, serializer, old(writer)).1
                        =~= Seq::<u8>::empty());
                    assert(writer.written() + Seq::<u8>::empty() =~= writer.written());
                }
                return Ok(());
            },
            Some(res) => match res {
                Ok(rec) => rec,
                Err(e) => {
                    proof {
                        assert(!convert_run(cur.0, cur.1, serializer, old(writer)).0);
                        assert(convert_run(cur.0, cur.1, serializer, old(writer)).1
                            =~= Seq::<u8>::empty());
                        assert(writer.written() + Seq::<u8>::empty() =~= writer.written());
                    }
                    return Err(ConvertError::Produce(e));
                },
            },
        };
        let accepted = match serializer {
            Serializer::Bin(_) => record.description.len() <= (u32::MAX - 46) as usize,
            _ => true,
        };
        if !accepted {
            proof {
                assert(!serializer.ser_req(record@));
                assert(!convert_run(cur.0, cur.1, serializer, old(writer)).0);
                assert(convert_run(cur.0, cur.1, serializer, old(writer)).1
                    =~= Seq::<u8>::empty());
                assert(writer.written() + Seq::<u8>::empty() =~= writer.written());
            }
            return Err(
                ConvertError::Serialize(
                    RecordSerializeError { text: "record too large".to_owned() },
                ),
            );
        }
        proof {
            assert(serializer.ser_req(record@));
        }
        let bytes = match serializer.serialize(&record) {
            Ok(b) => b,
            Err(e) => {
                proof {
                    assert(serializer.ser_spec(record@) is Err);
                    assert(!convert_run(cur.0, cur.1, serializer, old(writer)).0);
                    assert(convert_run(cur.0, cur.1, serializer, old(writer)).1
                        =~= Seq::<u8>::empty());
                    assert(writer.written() + Seq::<u8>::empty() =~= writer.written());
                }
                return Err(ConvertError::Serialize(e));
            },
        };
        let ghost written_before = writer.written();
        match writer.write(bytes) {
            Ok(_) => (),
            Err(_) => {},
        }
        proof {
            let tail = convert_run(
                reader.stream().0,
                reader.stream().1,
                serializer,
                old(writer),
            );
            assert(convert_run(cur.0, cur.1, serializer, old(writer)).1 == old(
                writer,
            ).write_transform(serializer.ser_spec(record@)->Ok_0) + tail.1);
            assert(written_before + (old(writer).write_transform(
                serializer.ser_spec(record@)->Ok_0,
            ) + tail.1) =~= (written_before + old(writer).write_transform(
                serializer.ser_spec(record@)->Ok_0,
            )) + tail.1);
        }
    }
}

} // verus!
