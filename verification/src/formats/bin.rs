//! The bin codec: a fixed-layout binary frame per record. A frame is an
//! 8-byte head (4 magic bytes and a big-endian u32 body length) followed
//! by the body: the six numeric and enum fields at fixed offsets, a u32
//! description length, and the description bytes. All integers are
//! big-endian. The reader consumes the head without validating the magic
//! bytes.

use vstd::prelude::*;
use vstd::slice::slice_to_vec;
use vstd::string::StringSliceAdditionalSpecFns;
use vstd::utf8::valid_utf8;

use crate::bytestr::{is_valid_utf8, str_eq};
use crate::error::{
    FieldParseError, ProduceErrV, ProduceSource, ReaderCreateError, RecordParseError,
    RecordProduceError, RecordReadError, RecordWriteError,
};
use crate::fields;
use crate::numeric::{u32_from_be, u32_to_be, u32_to_be_bytes, u64_from_be, u64_to_be, u64_to_be_bytes};
use crate::result::RecordProduceResult;
use crate::record::{
    fold_slots, produce_post, record_from_fields, status_byte, status_from_byte, tx_type_byte,
    tx_type_from_byte, DataConsumer, DataProducer, Field, FieldValue, FieldValueV, Record,
    RecordSerialize, RecordV, RecordWriter, Status, StreamEnd, TxType,
};

verus! {

/// The four magic bytes that lead every frame.
pub open spec fn magic_bytes() -> Seq<u8> {
    "YPBN".spec_bytes()
}

/// There are four magic bytes.
pub proof fn lemma_magic_len()
    ensures
        magic_bytes().len() == 4,
{
    reveal_strlit("YPBN");
    assert("YPBN"@.len() == 4);
    broadcast use vstd::string::is_ascii_spec_bytes;

    assert(vstd::string::is_ascii("YPBN"));
}

/// The body of a record's frame: the eight fields at their fixed offsets.
pub open spec fn bin_body(r: RecordV) -> Seq<u8> {
    u64_to_be(r.tx_id) + seq![tx_type_byte(r.tx_type)] + u64_to_be(r.from_user) + u64_to_be(
        r.to_user,
    ) + u64_to_be(r.amount) + u64_to_be(r.timestamp) + seq![status_byte(r.status)] + u32_to_be(
        r.description.len() as u32,
    ) + r.description
}

/// A record's whole frame: magic bytes, big-endian body length, body.
pub open spec fn bin_frame(r: RecordV) -> Seq<u8> {
    magic_bytes() + u32_to_be((46 + r.description.len()) as u32) + bin_body(r)
}

/// The typed value a raw binary field resolves to, or the message of the
/// parse failure.
pub open spec fn bin_field_value(name: Seq<char>, value: Seq<u8>) -> Result<
    FieldValueV,
    Seq<char>,
> {
    if name == "TX_ID"@ {
        if value.len() == 8 {
            Ok(FieldValueV::TxId(u64_from_be(value)))
        } else {
            Err("failed to parse tx_id"@)
        }
    } else if name == "TX_TYPE"@ {
        if value.len() >= 1 && tx_type_from_byte(value[0]) is Some {
            Ok(FieldValueV::TxType(tx_type_from_byte(value[0])->0))
        } else {
            Err("failed to parse tx_type"@)
        }
    } else if name == "STATUS"@ {
        if value.len() >= 1 && status_from_byte(value[0]) is Some {
            Ok(FieldValueV::Status(status_from_byte(value[0])->0))
        } else {
            Err("failed to parse status"@)
        }
    } else if name == "FROM_USER_ID"@ {
        if value.len() == 8 {
            Ok(FieldValueV::FromUser(u64_from_be(value)))
        } else {
            Err("failed to parse from_user"@)
        }
    } else if name == "TO_USER_ID"@ {
        if value.len() == 8 {
            Ok(FieldValueV::ToUser(u64_from_be(value)))
        } else {
            Err("failed to parse to_user"@)
        }
    } else if name == "AMOUNT"@ {
        if value.len() == 8 {
            Ok(FieldValueV::Amount(u64_from_be(value)))
        } else {
            Err("failed to parse amount"@)
        }
    } else if name == "TIMESTAMP"@ {
        if value.len() == 8 {
            Ok(FieldValueV::Timestamp(u64_from_be(value)))
        } else {
            Err("failed to parse timestamp"@)
        }
    } else if name == "DESCRIPTION"@ {
        if valid_utf8(value) {
            Ok(FieldValueV::Description(value))
        } else {
            Err("failed to parse description"@)
        }
    } else {
        Err("unknown field"@)
    }
}

/// Reads a big-endian u32 out of exactly four bytes.
pub fn try_u32_from_bytes(b: &[u8]) -> (r: Option<u32>)
    ensures
        match r {
            Some(v) => b@.len() == 4 && v == u32_from_be(b@),
            None => b@.len() != 4,
        },
{
    if b.len() == 4 {
        Some(crate::numeric::u32_be_value(b))
    } else {
        None
    }
}

/// Reads a big-endian u64 out of exactly eight bytes.
pub fn try_u64_from_bytes(bytes: &[u8]) -> (r: Option<u64>)
    ensures
        match r {
            Some(v) => bytes@.len() == 8 && v == u64_from_be(bytes@),
            None => bytes@.len() != 8,
        },
{
    if bytes.len() == 8 {
        Some(crate::numeric::u64_be_value(bytes))
    } else {
        None
    }
}

impl<'a> Field<&'a str, &'a [u8]> {
    /// Resolves a raw binary field to its typed value, by the per-field
    /// rules keyed on the field name constants.
    pub fn parse(&self) -> (r: Result<FieldValue, FieldParseError>)
        ensures
            match (r, bin_field_value(self.name@, self.value@)) {
                (Ok(fv), Ok(v)) => fv@ == v,
                (Err(e), Err(m)) => e.text@ == m,
                _ => false,
            },
    {
        if str_eq(self.name, fields::TX_ID) {
            match try_u64_from_bytes(self.value) {
                Some(v) => Ok(FieldValue::TxId(v)),
                None => Err(
                    FieldParseError { text: "failed to parse tx_id".to_owned(), source: None },
                ),
            }
        } else if str_eq(self.name, fields::TX_TYPE) {
            if self.value.len() >= 1 {
                match TxType::from_byte(self.value[0]) {
                    Ok(t) => Ok(FieldValue::TxType(t)),
                    Err(m) => Err(
                        FieldParseError {
                            text: "failed to parse tx_type".to_owned(),
                            source: Some(m),
                        },
                    ),
                }
            } else {
                Err(FieldParseError { text: "failed to parse tx_type".to_owned(), source: None })
            }
        } else if str_eq(self.name, fields::STATUS) {
            if self.value.len() >= 1 {
                match Status::from_byte(self.value[0]) {
                    Ok(s) => Ok(FieldValue::Status(s)),
                    Err(m) => Err(
                        FieldParseError {
                            text: "failed to parse status".to_owned(),
                            source: Some(m),
                        },
                    ),
                }
            } else {
                Err(FieldParseError { text: "failed to parse status".to_owned(), source: None })
            }
        } else if str_eq(self.name, fields::FROM_USER) {
            match try_u64_from_bytes(self.value) {
                Some(v) => Ok(FieldValue::FromUser(v)),
                None => Err(
                    FieldParseError { text: "failed to parse from_user".to_owned(), source: None },
                ),
            }
        } else if str_eq(self.name, fields::TO_USER) {
            match try_u64_from_bytes(self.value) {
                Some(v) => Ok(FieldValue::ToUser(v)),
                None => Err(
                    FieldParseError { text: "failed to parse to_user".to_owned(), source: None },
                ),
            }
        } else if str_eq(self.name, fields::AMOUNT) {
            match try_u64_from_bytes(self.value) {
                Some(v) => Ok(FieldValue::Amount(v)),
                None => Err(
                    FieldParseError { text: "failed to parse amount".to_owned(), source: None },
                ),
            }
        } else if str_eq(self.name, fields::TIMESTAMP) {
            match try_u64_from_bytes(self.value) {
                Some(v) => Ok(FieldValue::Timestamp(v)),
                None => Err(
                    FieldParseError { text: "failed to parse timestamp".to_owned(), source: None },
                ),
            }
        } else if str_eq(self.name, fields::DESCRIPTION) {
            if is_valid_utf8(self.value) {
                Ok(FieldValue::Description(slice_to_vec(self.value)))
            } else {
                Err(
                    FieldParseError {
                        text: "failed to parse description".to_owned(),
                        source: None,
                    },
                )
            }
        } else {
            Err(FieldParseError { text: "unknown field".to_owned(), source: None })
        }
    }
}

/// The record a frame body parses into, or the message naming the field
/// whose offsets or value failed. The u32 at offsets 42 to 46 is the
/// description length the serializer wrote; the reader takes the rest of
/// the body as the description without consulting it.
pub open spec fn parse_bin_body(body: Seq<u8>) -> Result<RecordV, Seq<char>> {
    if body.len() < 8 {
        Err("failed to parse field TX_ID"@)
    } else if body.len() < 9 {
        Err("failed to parse field TX_TYPE"@)
    } else if body.len() < 17 {
        Err("failed to parse field FROM_USER_ID"@)
    } else if body.len() < 25 {
        Err("failed to parse field TO_USER_ID"@)
    } else if body.len() < 33 {
        Err("failed to parse field AMOUNT"@)
    } else if body.len() < 41 {
        Err("failed to parse field TIMESTAMP"@)
    } else if body.len() < 42 {
        Err("failed to parse field STATUS"@)
    } else if body.len() < 46 {
        Err("failed to parse field DESCRIPTION"@)
    } else if tx_type_from_byte(body[8]) is None {
        Err("failed to parse field TX_TYPE"@)
    } else if status_from_byte(body[41]) is None {
        Err("failed to parse field STATUS"@)
    } else if !valid_utf8(body.skip(46)) {
        Err("failed to parse field DESCRIPTION"@)
    } else {
        Ok(
            RecordV {
                tx_id: u64_from_be(body.subrange(0, 8)),
                tx_type: tx_type_from_byte(body[8])->0,
                from_user: u64_from_be(body.subrange(9, 17)),
                to_user: u64_from_be(body.subrange(17, 25)),
                amount: u64_from_be(body.subrange(25, 33)),
                timestamp: u64_from_be(body.subrange(33, 41)),
                status: status_from_byte(body[41])->0,
                description: body.skip(46),
            },
        )
    }
}

/// Parses a frame body into a record: the eight typed fields at their
/// fixed offsets, assembled into the record.
pub fn parse_body(body: Vec<u8>) -> (r: Result<Record, RecordParseError>)
    ensures
        match (r, parse_bin_body(body@)) {
            (Ok(rec), Ok(v)) => rec@ == v,
            (Err(e), Err(m)) => e.text@ == m,
            _ => false,
        },
{
    let b = body.as_slice();
    if b.len() < 8 {
        return Err(
            RecordParseError { text: "failed to parse field TX_ID".to_owned(), source: None },
        );
    }
    if b.len() < 9 {
        return Err(
            RecordParseError { text: "failed to parse field TX_TYPE".to_owned(), source: None },
        );
    }
    if b.len() < 17 {
        return Err(
            RecordParseError {
                text: "failed to parse field FROM_USER_ID".to_owned(),
                source: None,
            },
        );
    }
    if b.len() < 25 {
        return Err(
            RecordParseError { text: "failed to parse field TO_USER_ID".to_owned(), source: None },
        );
    }
    if b.len() < 33 {
        return Err(
            RecordParseError { text: "failed to parse field AMOUNT".to_owned(), source: None },
        );
    }
    if b.len() < 41 {
        return Err(
            RecordParseError { text: "failed to parse field TIMESTAMP".to_owned(), source: None },
        );
    }
    if b.len() < 42 {
        return Err(
            RecordParseError { text: "failed to parse field STATUS".to_owned(), source: None },
        );
    }
    if b.len() < 46 {
        return Err(
            RecordParseError {
                text: "failed to parse field DESCRIPTION".to_owned(),
                source: None,
            },
        );
    }
    proof {
        fields::lemma_literals_distinct();
        assert(body@.subrange(8, 9) =~= seq![body@[8]]);
        assert(body@.subrange(41, 42) =~= seq![body@[41]]);
        assert(body@.subrange(46, body@.len() as int) =~= body@.skip(46));
    }
    let mut vals: Vec<FieldValue> = Vec::new();
    match (Field::new(fields::TX_ID, &b[0..8])).parse() {
        Ok(f) => vals.push(f),
        Err(e) => {
            return Err(
                RecordParseError {
                    text: "failed to parse field TX_ID".to_owned(),
                    source: Some(e),
                },
            );
        },
    }
    match (Field::new(fields::TX_TYPE, &b[8..9])).parse() {
        Ok(f) => vals.push(f),
        Err(e) => {
            return Err(
                RecordParseError {
                    text: "failed to parse field TX_TYPE".to_owned(),
                    source: Some(e),
                },
            );
        },
    }
    match (Field::new(fields::FROM_USER, &b[9..17])).parse() {
        Ok(f) => vals.push(f),
        Err(e) => {
            return Err(
                RecordParseError {
                    text: "failed to parse field FROM_USER_ID".to_owned(),
                    source: Some(e),
                },
            );
        },
    }
    match (Field::new(fields::TO_USER, &b[17..25])).parse() {
        Ok(f) => vals.push(f),
        Err(e) => {
            return Err(
                RecordParseError {
                    text: "failed to parse field TO_USER_ID".to_owned(),
                    source: Some(e),
                },
            );
        },
    }
    match (Field::new(fields::AMOUNT, &b[25..33])).parse() {
        Ok(f) => vals.push(f),
        Err(e) => {
            return Err(
                RecordParseError {
                    text: "failed to parse field AMOUNT".to_owned(),
                    source: Some(e),
                },
            );
        },
    }
    match (Field::new(fields::TIMESTAMP, &b[33..41])).parse() {
        Ok(f) => vals.push(f),
        Err(e) => {
            return Err(
                RecordParseError {
                    text: "failed to parse field TIMESTAMP".to_owned(),
                    source: Some(e),
                },
            );
        },
    }
    match (Field::new(fields::STATUS, &b[41..42])).parse() {
        Ok(f) => vals.push(f),
        Err(e) => {
            return Err(
                RecordParseError {
                    text: "failed to parse field STATUS".to_owned(),
                    source: Some(e),
                },
            );
        },
    }
    match (Field::new(fields::DESCRIPTION, &b[46..b.len()])).parse() {
        Ok(f) => vals.push(f),
        Err(e) => {
            return Err(
                RecordParseError {
                    text: "failed to parse field DESCRIPTION".to_owned(),
                    source: Some(e),
                },
            );
        },
    }
    proof {
        let dv = vals.deep_view();
        let v0 = FieldValueV::TxId(u64_from_be(body@.subrange(0, 8)));
        let v1 = FieldValueV::TxType(tx_type_from_byte(body@[8])->0);
        let v2 = FieldValueV::FromUser(u64_from_be(body@.subrange(9, 17)));
        let v3 = FieldValueV::ToUser(u64_from_be(body@.subrange(17, 25)));
        let v4 = FieldValueV::Amount(u64_from_be(body@.subrange(25, 33)));
        let v5 = FieldValueV::Timestamp(u64_from_be(body@.subrange(33, 41)));
        let v6 = FieldValueV::Status(status_from_byte(body@[41])->0);
        let v7 = FieldValueV::Description(body@.skip(46));
        let e0 = Seq::<FieldValueV>::empty();
        let e1 = e0.push(v0);
        let e2 = e1.push(v1);
        let e3 = e2.push(v2);
        let e4 = e3.push(v3);
        let e5 = e4.push(v4);
        let e6 = e5.push(v5);
        let e7 = e6.push(v6);
        let e8 = e7.push(v7);
        assert(dv =~= e8);
        assert(e1.drop_last() =~= e0);
        assert(e2.drop_last() =~= e1);
        assert(e3.drop_last() =~= e2);
        assert(e4.drop_last() =~= e3);
        assert(e5.drop_last() =~= e4);
        assert(e6.drop_last() =~= e5);
        assert(e7.drop_last() =~= e6);
        assert(e8.drop_last() =~= e7);
        assert(fold_slots(e1).tx_id == Some(u64_from_be(body@.subrange(0, 8))));
        assert(fold_slots(e2).tx_type == Some(tx_type_from_byte(body@[8])->0));
        assert(fold_slots(e3).from_user == Some(u64_from_be(body@.subrange(9, 17))));
        assert(fold_slots(e4).to_user == Some(u64_from_be(body@.subrange(17, 25))));
        assert(fold_slots(e5).amount == Some(u64_from_be(body@.subrange(25, 33))));
        assert(fold_slots(e6).timestamp == Some(u64_from_be(body@.subrange(33, 41))));
        assert(fold_slots(e7).status == Some(status_from_byte(body@[41])->0));
        assert(fold_slots(e8).description == Some(body@.skip(46)));
        assert(parse_bin_body(body@) is Ok);
        assert(record_from_fields(dv) is Ok);
        assert(record_from_fields(dv)->Ok_0 =~= parse_bin_body(body@)->Ok_0);
    }
    match Record::from_fields(vals) {
        Ok(rec) => Ok(rec),
        Err(_) => Err(
            RecordParseError { text: "failed to parse record".to_owned(), source: None },
        ),
    }
}

/// What the reader finds at the front of its remaining bytes: a clean
/// end of stream (zero or partial bytes exactly at a frame boundary), a
/// truncated body, or one frame's body and the bytes after it.
pub ghost enum BinStep {
    Eof,
    FailBody,
    Frame(Seq<u8>, Seq<u8>),
}

/// One framing step over the remaining bytes.
pub open spec fn bin_step(rem: Seq<u8>) -> BinStep {
    if rem.len() < 8 {
        BinStep::Eof
    } else {
        let size = u32_from_be(rem.subrange(4, 8)) as int;
        if rem.len() < 8 + size {
            BinStep::FailBody
        } else {
            BinStep::Frame(rem.subrange(8, 8 + size), rem.skip(8 + size))
        }
    }
}

/// The records the remaining bytes hold, and how the stream ends.
#[verifier::opaque]
pub open spec fn bin_stream(exhausted: bool, rem: Seq<u8>) -> (Seq<RecordV>, StreamEnd)
    decreases rem.len(),
{
    if exhausted {
        (seq![], StreamEnd::Clean)
    } else {
        match bin_step(rem) {
            BinStep::Eof => (seq![], StreamEnd::Clean),
            BinStep::FailBody => (seq![], StreamEnd::Failed(ProduceErrV::Read)),
            BinStep::Frame(body, rest) => match parse_bin_body(body) {
                Err(_) => (seq![], StreamEnd::Failed(ProduceErrV::Parse)),
                Ok(rv) => if rest.len() < rem.len() {
                    let tail = bin_stream(false, rest);
                    (seq![rv] + tail.0, tail.1)
                } else {
                    (seq![rv], StreamEnd::Clean)
                },
            },
        }
    }
}

/// A frame step consumes at least the eight head bytes.
pub proof fn lemma_bin_step_frame(rem: Seq<u8>)
    ensures
        bin_step(rem) matches BinStep::Frame(body, rest) ==> rest.len() < rem.len(),
{
}

/// Round trip: the body a record serializes to parses back to exactly
/// that record, for any record whose description is a string and leaves
/// the body length representable in the frame's 32-bit length field.
#[verifier::rlimit(100)]
#[verifier::spinoff_prover]
pub proof fn lemma_bin_round_trip(r: RecordV)
    requires
        valid_utf8(r.description),
        r.description.len() + 46 <= u32::MAX,
    ensures
        parse_bin_body(bin_body(r)) == Ok::<RecordV, Seq<char>>(r),
{
    let b = bin_body(r);
    assert(b.len() == 46 + r.description.len());
    assert(b.subrange(0, 8) =~= u64_to_be(r.tx_id));
    assert(b[8] == tx_type_byte(r.tx_type));
    assert(b.subrange(9, 17) =~= u64_to_be(r.from_user));
    assert(b.subrange(17, 25) =~= u64_to_be(r.to_user));
    assert(b.subrange(25, 33) =~= u64_to_be(r.amount));
    assert(b.subrange(33, 41) =~= u64_to_be(r.timestamp));
    assert(b[41] == status_byte(r.status));
    assert(b.skip(46) =~= r.description);
    crate::numeric::lemma_u64_be_round_trip(r.tx_id);
    crate::numeric::lemma_u64_be_round_trip(r.from_user);
    crate::numeric::lemma_u64_be_round_trip(r.to_user);
    crate::numeric::lemma_u64_be_round_trip(r.amount);
    crate::numeric::lemma_u64_be_round_trip(r.timestamp);
    assert(tx_type_from_byte(tx_type_byte(r.tx_type)) == Some(r.tx_type));
    assert(status_from_byte(status_byte(r.status)) == Some(r.status));
    assert(parse_bin_body(b) is Ok);
    assert(parse_bin_body(b)->Ok_0 =~= r);
}

/// A serialized frame at the front of a byte stream frames to exactly
/// its body, leaving the bytes after it.
pub proof fn lemma_bin_frame_step(r: RecordV, rest: Seq<u8>)
    requires
        r.description.len() + 46 <= u32::MAX,
    ensures
        bin_step(bin_frame(r) + rest) == BinStep::Frame(bin_body(r), rest),
{
    lemma_magic_len();
    let size = (46 + r.description.len()) as u32;
    let f = bin_frame(r) + rest;
    assert(bin_body(r).len() == 46 + r.description.len());
    assert(bin_frame(r).len() == 8 + bin_body(r).len());
    assert(f.subrange(4, 8) =~= u32_to_be(size));
    crate::numeric::lemma_u32_be_round_trip(size);
    assert(u32_from_be(f.subrange(4, 8)) == size);
    assert(f.subrange(8, 8 + size as int) =~= bin_body(r));
    assert(f.skip(8 + size as int) =~= rest);
}

/// The stream holding one serialized frame and nothing after it yields
/// exactly the one record and then ends cleanly.
#[verifier::rlimit(100)]
#[verifier::spinoff_prover]
pub proof fn lemma_bin_stream_single(r: RecordV)
    requires
        valid_utf8(r.description),
        r.description.len() + 46 <= u32::MAX,
    ensures
        bin_stream(false, bin_frame(r)).0 == seq![r],
        bin_stream(false, bin_frame(r)).1 == StreamEnd::Clean,
{
    reveal_with_fuel(bin_stream, 2);
    lemma_bin_frame_step(r, Seq::empty());
    assert(bin_frame(r) + Seq::<u8>::empty() =~= bin_frame(r));
    lemma_bin_round_trip(r);
    assert(bin_stream(false, Seq::<u8>::empty()).0 == Seq::<RecordV>::empty());
    assert(seq![r] + Seq::<RecordV>::empty() =~= seq![r]);
}

/// Produces records out of an in-memory byte stream of frames.
pub struct BinReader {
    pub data: Vec<u8>,
    pub pos: usize,
    pub is_exhausted: bool,
}

impl BinReader {
    /// The bytes not yet consumed.
    pub open spec fn remaining(&self) -> Seq<u8> {
        if self.pos <= self.data@.len() {
            self.data@.skip(self.pos as int)
        } else {
            Seq::empty()
        }
    }

    /// Binds a reader to the byte stream.
    pub fn new(data: Vec<u8>) -> (r: Result<BinReader, ReaderCreateError>)
        ensures
            r matches Ok(b) && b.data@ == data@ && b.pos == 0 && !b.is_exhausted,
    {
        Ok(BinReader { data, pos: 0, is_exhausted: false })
    }

    /// Pulls the next frame's body. A clean end of stream — zero or
    /// partial bytes exactly at a frame boundary — yields `None` and
    /// exhausts the reader for good; a body shorter than its head
    /// declared is a read error that leaves the reader where it was.
    pub fn read(&mut self) -> (r: Option<Result<Vec<u8>, RecordReadError>>)
        ensures
            old(self).is_exhausted ==> r is None && *final(self) == *old(self),
            !old(self).is_exhausted ==> match bin_step(old(self).remaining()) {
                BinStep::Eof => r is None && final(self).is_exhausted && final(self).remaining()
                    =~= old(self).remaining(),
                BinStep::FailBody => (r matches Some(rr) && rr matches Err(e) && e.text@
                    == "failed to read body"@) && *final(self) == *old(self),
                BinStep::Frame(body, rest) => (r matches Some(rr) && rr matches Ok(v) && v@
                    == body) && final(self).remaining() == rest && !final(self).is_exhausted,
            },
    {
        if self.is_exhausted {
            return None;
        }
        let len = self.data.len();
        if self.pos >= len || len - self.pos < 8 {
            self.is_exhausted = true;
            return None;
        }
        let avail = len - self.pos;
        let head_end = self.pos + 8;
        let size_bytes = &self.data.as_slice()[self.pos + 4..head_end];
        proof {
            assert(size_bytes@ =~= old(self).remaining().subrange(4, 8));
        }
        let size = match try_u32_from_bytes(size_bytes) {
            Some(v) => v as usize,
            None => {
                // unreachable: the size slice always holds four bytes
                return Some(
                    Err(RecordReadError { text: "failed to parse body size".to_owned() }),
                );
            },
        };
        if avail - 8 < size {
            return Some(Err(RecordReadError { text: "failed to read body".to_owned() }));
        }
        let body = slice_to_vec(&self.data.as_slice()[head_end..head_end + size]);
        proof {
            assert(body@ =~= old(self).remaining().subrange(8, 8 + size as int));
        }
        self.pos = head_end + size;
        proof {
            assert(final(self).remaining() =~= old(self).remaining().skip(8 + size as int));
        }
        Some(Ok(body))
    }
}

impl DataConsumer for BinReader {
    type Item = Vec<u8>;

    fn read(&mut self) -> Option<Result<Vec<u8>, RecordReadError>> {
        self.read()
    }
}

impl BinReader {
    /// Pulls the next record: `None` at end of stream, an error when the
    /// next frame could not be read or its body could not be parsed.
    /// Every error wraps its cause: a truncated body wraps the read
    /// error, a bad body wraps the record parse error, and a read
    /// failure leaves the reader where it was while a parse failure
    /// leaves it just past the bad frame.
    pub fn produce_record(&mut self) -> (r: Option<RecordProduceResult<Record>>)
        ensures
            produce_post(old(self).stream(), final(self).stream(), r),
            match r {
                Some(Err(e)) => (e.source matches Some(ProduceSource::Read(_)) || e.source
                    matches Some(ProduceSource::Parse(_))),
                _ => true,
            },
            match r {
                Some(Err(e)) => match e.source {
                    Some(ProduceSource::Read(_)) => *final(self) == *old(self),
                    _ => true,
                },
                _ => true,
            },
            match r {
                Some(Err(e)) => match e.source {
                    Some(ProduceSource::Parse(_)) => (bin_step(old(self).remaining())
                        matches BinStep::Frame(b, rest) && final(self).remaining() == rest),
                    _ => true,
                },
                _ => true,
            },
    {
        proof {
            reveal(bin_stream);
            lemma_bin_step_frame(old(self).remaining());
        }
        let body = match self.read() {
            None => {
                return None;
            },
            Some(Err(e)) => {
                return Some(
                    Err(
                        RecordProduceError {
                            text: "failed to read record".to_owned(),
                            source: Some(ProduceSource::Read(e)),
                        },
                    ),
                );
            },
            Some(Ok(bytes)) => bytes,
        };
        match parse_body(body) {
            Ok(rec) => {
                proof {
                    let rem0 = old(self).remaining();
                    if let BinStep::Frame(fbody, rest) = bin_step(rem0) {
                        let tail = bin_stream(false, rest);
                        assert((seq![rec@] + tail.0).first() == rec@);
                        assert((seq![rec@] + tail.0).drop_first() =~= tail.0);
                    }
                }
                Some(Ok(rec))
            },
            Err(e) => Some(
                Err(
                    RecordProduceError {
                        text: "failed to parse record".to_owned(),
                        source: Some(ProduceSource::Parse(e)),
                    },
                ),
            ),
        }
    }
}

impl DataProducer for BinReader {
    open spec fn stream(&self) -> (Seq<RecordV>, StreamEnd) {
        bin_stream(self.is_exhausted, self.remaining())
    }

    fn produce_record(&mut self) -> (r: Option<RecordProduceResult<Record>>) {
        BinReader::produce_record(self)
    }
}

/// Serializes records as bin frames.
#[derive(Debug)]
pub struct RecordBytes;

impl RecordSerialize for RecordBytes {
    /// The description's length must leave the body length representable
    /// in the frame's 32-bit length field.
    open spec fn ser_req(&self, record: RecordV) -> bool {
        record.description.len() + 46 <= u32::MAX
    }

    open spec fn ser_spec(&self, record: RecordV) -> Result<Seq<u8>, ()> {
        Ok(bin_frame(record))
    }

    fn serialize(&self, record: &Record) -> (r: Result<Vec<u8>, crate::error::RecordSerializeError>) {
        let mut out: Vec<u8> = Vec::new();
        out.extend_from_slice("YPBN".as_bytes());
        let desc_length = record.description.len() as u32;
        out.extend_from_slice(u32_to_be_bytes(46 + desc_length).as_slice());
        out.extend_from_slice(u64_to_be_bytes(record.tx_id).as_slice());
        out.push(record.tx_type.to_byte());
        out.extend_from_slice(u64_to_be_bytes(record.from_user).as_slice());
        out.extend_from_slice(u64_to_be_bytes(record.to_user).as_slice());
        out.extend_from_slice(u64_to_be_bytes(record.amount).as_slice());
        out.extend_from_slice(u64_to_be_bytes(record.timestamp).as_slice());
        out.push(record.status.to_byte());
        out.extend_from_slice(u32_to_be_bytes(desc_length).as_slice());
        out.extend_from_slice(record.description.as_slice());
        proof {
            assert(out@ =~= bin_frame(record@));
        }
        Ok(out)
    }
}

/// Appends serialized frames to a byte sink, as they are.
pub struct RecordWrite {
    pub writer: Vec<u8>,
}

impl RecordWrite {
    /// Binds a writer to the byte sink.
    pub fn new(writer: Vec<u8>) -> (r: RecordWrite)
        ensures
            r.writer@ == writer@,
    {
        RecordWrite { writer }
    }
}

impl RecordWriter for RecordWrite {
    open spec fn written(&self) -> Seq<u8> {
        self.writer@
    }

    open spec fn write_transform(&self, data: Seq<u8>) -> Seq<u8> {
        data
    }

    open spec fn header_bytes(&self) -> Seq<u8> {
        Seq::empty()
    }

    fn write_header(&mut self) -> (r: Result<(), RecordWriteError>) {
        proof {
            assert(old(self).written() + Seq::<u8>::empty() =~= old(self).written());
        }
        Ok(())
    }

    fn write(&mut self, data: Vec<u8>) -> (r: Result<(), RecordWriteError>) {
        self.writer.extend_from_slice(data.as_slice());
        Ok(())
    }
}

} // verus!
