//! The txt codec: a record is a run of consecutive `NAME: value` lines,
//! terminated by a blank line or the end of the stream. Lines beginning
//! with `#` are comments and invisible to record accumulation.

use vstd::prelude::*;
use vstd::slice::slice_to_vec;
use vstd::string::StringSliceAdditionalSpecFns;

use crate::bytestr::{split_lines, split_lines_vec};
use crate::error::{
    ProduceErrV, ProduceSource, ReaderCreateError, RecordProduceError, RecordReadError,
    RecordWriteError,
};
use crate::fields;
use crate::numeric::{u64_decimal, u64_to_decimal};
use crate::record::{
    fold_slots, is_field_of, lemma_from_fields_any_order, produce_post, record_from_fields,
    status_text, tx_type_text, txt_line_field, Data, DataConsumer, DataProducer, FieldValue,
    FieldValueV, Record, RecordSerialize, RecordV, RecordWriter, StreamEnd,
};
use crate::result::RecordProduceResult;

verus! {

/// A comment line: its first byte is `#`.
pub open spec fn is_comment(l: Seq<u8>) -> bool {
    l.len() > 0 && l[0] == 0x23
}

/// How many comment lines stand at the front.
pub open spec fn payload_skip(lines: Seq<Seq<u8>>) -> nat
    decreases lines.len(),
{
    if lines.len() == 0 {
        0
    } else if is_comment(lines[0]) {
        1 + payload_skip(lines.drop_first())
    } else {
        0
    }
}

/// The first comment lines really are comments, and what follows is not.
pub proof fn lemma_payload_skip(lines: Seq<Seq<u8>>)
    ensures
        payload_skip(lines) <= lines.len(),
        forall|j: int| 0 <= j < payload_skip(lines) ==> is_comment(lines[j]),
        payload_skip(lines) < lines.len() ==> !is_comment(lines[payload_skip(lines) as int]),
    decreases lines.len(),
{
    if lines.len() == 0 || !is_comment(lines[0]) {
    } else {
        lemma_payload_skip(lines.drop_first());
        assert(forall|j: int|
            1 <= j < payload_skip(lines) ==> lines[j] == lines.drop_first()[j - 1]);
    }
}

/// Accumulates the field values of the next record: comments are
/// skipped, a blank line or the end of the lines closes the record, and
/// a line that fails to parse is the error. Returns the outcome and the
/// lines left after it.
pub open spec fn txt_collect(lines: Seq<Seq<u8>>, acc: Seq<FieldValueV>) -> (Result<
    Seq<FieldValueV>,
    (),
>, Seq<Seq<u8>>)
    decreases lines.len(),
{
    if lines.len() == 0 {
        (Ok(acc), lines)
    } else if is_comment(lines[0]) {
        txt_collect(lines.drop_first(), acc)
    } else if lines[0].len() == 0 {
        (Ok(acc), lines.drop_first())
    } else {
        match txt_line_field(lines[0]) {
            Ok(fv) => txt_collect(lines.drop_first(), acc.push(fv)),
            Err(_) => (Err(()), lines.drop_first()),
        }
    }
}

/// A comment line ahead of the record is invisible to accumulation.
pub proof fn lemma_txt_comment_invisible(c: Seq<u8>, lines: Seq<Seq<u8>>, acc: Seq<FieldValueV>)
    requires
        is_comment(c),
    ensures
        txt_collect(seq![c] + lines, acc) == txt_collect(lines, acc),
{
    assert((seq![c] + lines)[0] == c);
    assert((seq![c] + lines).drop_first() =~= lines);
}

/// Accumulation never grows the lines, consumes at least one line when
/// it accumulates or fails, and never drops field values.
pub proof fn lemma_txt_collect_consumes(lines: Seq<Seq<u8>>, acc: Seq<FieldValueV>)
    ensures
        txt_collect(lines, acc).1.len() <= lines.len(),
        txt_collect(lines, acc).0 matches Ok(f) ==> f.len() >= acc.len() && (f.len() > acc.len()
            ==> txt_collect(lines, acc).1.len() < lines.len()),
        txt_collect(lines, acc).0 is Err ==> txt_collect(lines, acc).1.len() < lines.len(),
    decreases lines.len(),
{
    if lines.len() == 0 {
    } else if is_comment(lines[0]) {
        lemma_txt_collect_consumes(lines.drop_first(), acc);
    } else if lines[0].len() == 0 {
    } else {
        match txt_line_field(lines[0]) {
            Ok(fv) => {
                lemma_txt_collect_consumes(lines.drop_first(), acc.push(fv));
            },
            Err(_) => {},
        }
    }
}

/// One produce step over the remaining lines: the next record, a parse
/// failure, or end of stream, and the lines left after the step.
pub open spec fn txt_step(lines: Seq<Seq<u8>>) -> (Option<Result<RecordV, ProduceErrV>>, Seq<
    Seq<u8>,
>) {
    let c = txt_collect(lines, seq![]);
    match c.0 {
        Err(_) => (Some(Err(ProduceErrV::Parse)), c.1),
        Ok(flds) => if flds.len() == 0 {
            (None, c.1)
        } else {
            match record_from_fields(flds) {
                Ok(rv) => (Some(Ok(rv)), c.1),
                Err(_) => (Some(Err(ProduceErrV::Parse)), c.1),
            }
        },
    }
}

/// The records the remaining lines hold, and how the stream ends.
#[verifier::opaque]
pub open spec fn txt_stream(exhausted: bool, lines: Seq<Seq<u8>>) -> (Seq<RecordV>, StreamEnd)
    decreases lines.len(),
{
    if exhausted {
        (seq![], StreamEnd::Clean)
    } else {
        let s = txt_step(lines);
        match s.0 {
            None => (seq![], StreamEnd::Clean),
            Some(Err(k)) => (seq![], StreamEnd::Failed(k)),
            Some(Ok(rv)) => if s.1.len() < lines.len() {
                let tail = txt_stream(false, s.1);
                (seq![rv] + tail.0, tail.1)
            } else {
                (seq![rv], StreamEnd::Clean)
            },
        }
    }
}

/// Produces records out of the lines of an in-memory text stream.
pub struct TxtReader {
    pub lines: Vec<Vec<u8>>,
    pub idx: usize,
    pub current_line: u64,
    pub is_exhausted: bool,
}

impl TxtReader {
    /// The lines not yet consumed.
    pub open spec fn remaining(&self) -> Seq<Seq<u8>> {
        if self.idx <= self.lines@.len() {
            self.lines.deep_view().skip(self.idx as int)
        } else {
            Seq::empty()
        }
    }

    /// Binds a reader to the byte stream, split into its lines.
    pub fn new(data: Vec<u8>) -> (r: Result<TxtReader, ReaderCreateError>)
        ensures
            r matches Ok(t) && t.lines.deep_view() == split_lines(data@) && t.idx == 0
                && t.current_line == 0 && !t.is_exhausted,
    {
        let lines = split_lines_vec(data.as_slice());
        Ok(TxtReader { lines, idx: 0, current_line: 0, is_exhausted: false })
    }

    /// Pulls the next payload line, skipping comments; `None` at end of
    /// stream.
    fn read_payload(&mut self) -> (r: Option<Vec<u8>>)
        ensures
            final(self).lines == old(self).lines,
            ({
                let rl = old(self).remaining();
                let k = payload_skip(rl) as int;
                match r {
                    None => k == rl.len() && final(self).is_exhausted
                        && final(self).remaining().len() == 0 && final(self).idx == old(self).idx
                        + k && final(self).current_line == final(self).idx as u64,
                    Some(v) => k < rl.len() && v@ == rl[k] && final(self).remaining() == rl.skip(
                        k + 1,
                    ) && final(self).is_exhausted == old(self).is_exhausted && final(self).idx
                        == old(self).idx + k + 1 && final(self).current_line == final(self).idx
                        as u64,
                }
            }),
    {
        proof {
            lemma_payload_skip(old(self).remaining());
        }
        loop
            invariant
                self.lines == old(self).lines,
                self.is_exhausted == old(self).is_exhausted,
                old(self).idx <= self.idx <= self.lines@.len() || (old(self).idx
                    > self.lines@.len() && self.idx == old(self).idx),
                old(self).remaining().skip(
                    (self.idx - old(self).idx) as int,
                ) == self.remaining(),
                payload_skip(old(self).remaining()) == (self.idx - old(self).idx)
                    + payload_skip(self.remaining()),
            decreases self.lines@.len() + 1 - self.idx,
        {
            let ghost rl = old(self).remaining();
            let ghost done = (self.idx - old(self).idx) as int;
            if self.idx >= self.lines.len() {
                self.is_exhausted = true;
                self.current_line = self.idx as u64;
                proof {
                    assert(self.remaining().len() == 0);
                    assert(payload_skip(self.remaining()) == 0);
                }
                return None;
            }
            let line = slice_to_vec(self.lines[self.idx].as_slice());
            proof {
                assert(self.remaining()[0] == line@);
                assert(self.remaining().drop_first() =~= self.lines.deep_view().skip(
                    self.idx + 1 as int,
                ));
            }
            self.idx = self.idx + 1;
            self.current_line = self.idx as u64;
            if line.len() > 0 && line[0] == 0x23 {
                proof {
                    assert(rl.skip(done)[0] == line@);
                    assert(rl.skip(done).drop_first() =~= rl.skip(done + 1));
                }
            } else {
                proof {
                    assert(rl.skip(done)[0] == line@);
                    assert(!is_comment(rl.skip(done)[0]));
                    assert(payload_skip(rl.skip(done)) == 0);
                    assert(payload_skip(rl) == done);
                    assert(rl.skip(done).drop_first() =~= rl.skip(done + 1));
                    assert(self.remaining() =~= rl.skip(payload_skip(rl) + 1 as int));
                }
                return Some(line);
            }
        }
    }

    /// Pulls the next payload line as a raw unit; `None` at end of
    /// stream, which in-memory text never fails to read.
    pub fn read(&mut self) -> (r: Option<Result<Vec<u8>, RecordReadError>>)
        ensures
            final(self).lines == old(self).lines,
            old(self).is_exhausted ==> r is None && *final(self) == *old(self),
            !old(self).is_exhausted ==> ({
                let rl = old(self).remaining();
                let k = payload_skip(rl) as int;
                match r {
                    None => k == rl.len() && final(self).is_exhausted
                        && final(self).remaining().len() == 0 && final(self).idx == old(self).idx
                        + k && final(self).current_line == final(self).idx as u64,
                    Some(res) => k < rl.len() && (res matches Ok(v) && v@ == rl[k])
                        && final(self).remaining() == rl.skip(k + 1)
                        && !final(self).is_exhausted && final(self).idx == old(self).idx + k + 1
                        && final(self).current_line == final(self).idx as u64,
                }
            }),
    {
        if self.is_exhausted {
            return None;
        }
        match self.read_payload() {
            Some(v) => Some(Ok(v)),
            None => None,
        }
    }
}

impl DataConsumer for TxtReader {
    type Item = Vec<u8>;

    fn read(&mut self) -> Option<Result<Vec<u8>, RecordReadError>> {
        self.read()
    }
}

impl TxtReader {
    /// Pulls the next record: `None` at end of stream, an error when a
    /// field line could not be parsed or the accumulated fields did not
    /// assemble into a complete record. Every error wraps its cause —
    /// the field parse failure or the construction message naming the
    /// missing field — and leaves the reader just past the failed
    /// record's lines.
    pub fn produce_record(&mut self) -> (r: Option<RecordProduceResult<Record>>)
        ensures
            produce_post(old(self).stream(), final(self).stream(), r),
            match r {
                Some(Err(e)) => (e.source matches Some(ProduceSource::Field(_)) || e.source
                    matches Some(ProduceSource::Record(_))),
                _ => true,
            },
            match r {
                Some(Err(_)) => final(self).remaining() == txt_step(old(self).remaining()).1,
                _ => true,
            },
    {
        proof {
            reveal(txt_stream);
        }
        if self.is_exhausted {
            return None;
        }
        let ghost rl0 = self.remaining();
        let mut flds: Vec<FieldValue> = Vec::new();
        proof {
            assert(flds.deep_view() =~= Seq::<FieldValueV>::empty());
        }
        loop
            invariant_except_break
                !old(self).is_exhausted,
                rl0 == old(self).remaining(),
                self.lines == old(self).lines,
                !self.is_exhausted,
                txt_collect(rl0, Seq::empty()) == txt_collect(
                    self.remaining(),
                    flds.deep_view(),
                ),
            ensures
                self.lines == old(self).lines,
                txt_collect(rl0, Seq::empty()).0 == Ok::<Seq<FieldValueV>, ()>(
                    flds.deep_view(),
                ),
                self.remaining() == txt_collect(rl0, Seq::empty()).1,
                txt_stream(self.is_exhausted, self.remaining()) == txt_stream(
                    false,
                    txt_collect(rl0, Seq::empty()).1,
                ),
            decreases self.remaining().len(),
        {
            let ghost rl_cur = self.remaining();
            let ghost acc_cur = flds.deep_view();
            proof {
                lemma_payload_skip(rl_cur);
                lemma_txt_collect_to_skip(rl_cur, acc_cur);
            }
            match self.read() {
                None => {
                    proof {
                        reveal_with_fuel(txt_stream, 2);
                        let k = payload_skip(rl_cur) as int;
                        assert(rl_cur.skip(k).len() == 0);
                        assert(txt_collect(rl_cur.skip(k), acc_cur) == (
                            Ok::<Seq<FieldValueV>, ()>(acc_cur),
                            rl_cur.skip(k),
                        ));
                        assert(self.remaining() =~= rl_cur.skip(k));
                        assert(txt_stream(self.is_exhausted, self.remaining()).0
                            =~= Seq::<RecordV>::empty());
                        assert(txt_collect(Seq::empty(), Seq::empty()).0
                            == Ok::<Seq<FieldValueV>, ()>(Seq::empty()));
                        assert(txt_step(rl_cur.skip(k)).0 is None);
                        assert(txt_stream(false, rl_cur.skip(k)) == (
                            Seq::<RecordV>::empty(),
                            StreamEnd::Clean,
                        ));
                    }
                    break;
                },
                Some(Err(e)) => {
                    return Some(
                        Err(
                            RecordProduceError {
                                text: "failed to read line".to_owned(),
                                source: Some(ProduceSource::Read(e)),
                            },
                        ),
                    );
                },
                Some(Ok(line)) => {
                    proof {
                        let k = payload_skip(rl_cur) as int;
                        assert(rl_cur.skip(k)[0] == rl_cur[k]);
                        assert(rl_cur.skip(k)[0] == line@);
                        assert(!is_comment(rl_cur.skip(k)[0]));
                        assert(rl_cur.skip(k).drop_first() =~= rl_cur.skip(k + 1));
                    }
                    if line.len() == 0 {
                        proof {
                            let k = payload_skip(rl_cur) as int;
                            assert(txt_collect(rl_cur.skip(k), acc_cur) == (
                                Ok::<Seq<FieldValueV>, ()>(acc_cur),
                                rl_cur.skip(k + 1),
                            ));
                            assert(self.remaining() == rl_cur.skip(k + 1));
                        }
                        break;
                    }
                    match FieldValue::from_line(Data::new(line)) {
                        Ok(val) => {
                            let ghost old_dv = flds.deep_view();
                            flds.push(val);
                            proof {
                                assert(flds.deep_view() =~= old_dv.push(val@));
                            }
                        },
                        Err(e) => {
                            proof {
                                reveal(txt_stream);
                                let k = payload_skip(rl_cur) as int;
                                assert(txt_line_field(rl_cur.skip(k)[0]) is Err);
                                assert(txt_collect(rl_cur.skip(k), acc_cur).0 is Err);
                                assert(txt_collect(rl_cur.skip(k), acc_cur).1 == rl_cur.skip(
                                    k + 1,
                                ));
                                assert(self.remaining() == txt_collect(rl0, Seq::empty()).1);
                                assert(txt_collect(rl0, Seq::empty()).0 is Err);
                                assert(txt_step(rl0).0 == Some(
                                    Err::<RecordV, ProduceErrV>(ProduceErrV::Parse),
                                ));
                                assert(txt_stream(false, rl0).0.len() == 0);
                                assert(txt_stream(false, rl0).1 == StreamEnd::Failed(
                                    ProduceErrV::Parse,
                                ));
                                assert(old(self).stream() == txt_stream(false, rl0));
                            }
                            return Some(
                                Err(
                                    RecordProduceError {
                                        text: "failed to parse field".to_owned(),
                                        source: Some(ProduceSource::Field(e)),
                                    },
                                ),
                            );
                        },
                    }
                },
            }
        }
        proof {
            lemma_txt_collect_consumes(rl0, Seq::empty());
        }
        if flds.len() == 0 {
            self.is_exhausted = true;
            proof {
                reveal(txt_stream);
                assert(flds.deep_view() =~= Seq::<FieldValueV>::empty());
                assert(txt_step(rl0).0 is None);
            }
            return None;
        }
        let ghost stepped = txt_step(rl0);
        proof {
            assert(flds.deep_view().len() > 0);
            if let Some(res) = stepped.0 {
                if let Ok(rv) = res {
                    let tail = txt_stream(false, stepped.1);
                    assert((seq![rv] + tail.0).first() == rv);
                    assert((seq![rv] + tail.0).drop_first() =~= tail.0);
                }
            }
        }
        match Record::from_fields(flds) {
            Ok(rec) => Some(Ok(rec)),
            Err(e) => Some(
                Err(
                    RecordProduceError {
                        text: "failed to parse record".to_owned(),
                        source: Some(ProduceSource::Record(e)),
                    },
                ),
            ),
        }
    }
}

impl DataProducer for TxtReader {
    open spec fn stream(&self) -> (Seq<RecordV>, StreamEnd) {
        txt_stream(self.is_exhausted, self.remaining())
    }

    fn produce_record(&mut self) -> (r: Option<RecordProduceResult<Record>>) {
        TxtReader::produce_record(self)
    }
}

/// Skipping the leading comments leaves accumulation unchanged.
pub proof fn lemma_txt_collect_to_skip(lines: Seq<Seq<u8>>, acc: Seq<FieldValueV>)
    ensures
        txt_collect(lines, acc) == txt_collect(
            lines.skip(payload_skip(lines) as int),
            acc,
        ),
    decreases payload_skip(lines),
{
    if lines.len() > 0 && is_comment(lines[0]) {
        assert(lines.drop_first() =~= lines.skip(1));
        lemma_payload_skip(lines.drop_first());
        lemma_txt_collect_to_skip(lines.drop_first(), acc);
        assert(lines.drop_first().skip(payload_skip(lines.drop_first()) as int) =~= lines.skip(
            payload_skip(lines) as int,
        ));
    } else {
        assert(lines.skip(0) =~= lines);
    }
}

/// The fixed-order text rendering of a record: eight `NAME: value`
/// lines, each ending in a newline.
pub open spec fn txt_render(r: RecordV) -> Seq<u8> {
    "TX_ID".spec_bytes() + ": ".spec_bytes() + u64_decimal(r.tx_id as nat) + seq![0x0au8]
        + "AMOUNT".spec_bytes() + ": ".spec_bytes() + u64_decimal(r.amount as nat) + seq![0x0au8]
        + "TIMESTAMP".spec_bytes() + ": ".spec_bytes() + u64_decimal(r.timestamp as nat) + seq![
        0x0au8,
    ] + "DESCRIPTION".spec_bytes() + ": ".spec_bytes() + r.description + seq![0x0au8]
        + "TX_TYPE".spec_bytes() + ": ".spec_bytes() + tx_type_text(r.tx_type) + seq![0x0au8]
        + "FROM_USER_ID".spec_bytes() + ": ".spec_bytes() + u64_decimal(r.from_user as nat) + seq![
        0x0au8,
    ] + "TO_USER_ID".spec_bytes() + ": ".spec_bytes() + u64_decimal(r.to_user as nat) + seq![
        0x0au8,
    ] + "STATUS".spec_bytes() + ": ".spec_bytes() + status_text(r.status) + seq![0x0au8]
}

/// Serializes records as fixed-order `NAME: value` text lines.
pub struct TxtSerialize;

impl RecordSerialize for TxtSerialize {
    open spec fn ser_req(&self, record: RecordV) -> bool {
        true
    }

    open spec fn ser_spec(&self, record: RecordV) -> Result<Seq<u8>, ()> {
        Ok(txt_render(record))
    }

    #[verifier::rlimit(80)]
    fn serialize(&self, record: &Record) -> (r: Result<
        Vec<u8>,
        crate::error::RecordSerializeError,
    >) {
        let mut out: Vec<u8> = Vec::new();
        out.extend_from_slice(fields::TX_ID.as_bytes());
        out.extend_from_slice(": ".as_bytes());
        out.extend_from_slice(u64_to_decimal(record.tx_id).as_slice());
        out.push(0x0a);
        out.extend_from_slice(fields::AMOUNT.as_bytes());
        out.extend_from_slice(": ".as_bytes());
        out.extend_from_slice(u64_to_decimal(record.amount).as_slice());
        out.push(0x0a);
        out.extend_from_slice(fields::TIMESTAMP.as_bytes());
        out.extend_from_slice(": ".as_bytes());
        out.extend_from_slice(u64_to_decimal(record.timestamp).as_slice());
        out.push(0x0a);
        out.extend_from_slice(fields::DESCRIPTION.as_bytes());
        out.extend_from_slice(": ".as_bytes());
        out.extend_from_slice(record.description.as_slice());
        out.push(0x0a);
        out.extend_from_slice(fields::TX_TYPE.as_bytes());
        out.extend_from_slice(": ".as_bytes());
        out.extend_from_slice(record.tx_type.to_text().as_bytes());
        out.push(0x0a);
        out.extend_from_slice(fields::FROM_USER.as_bytes());
        out.extend_from_slice(": ".as_bytes());
        out.extend_from_slice(u64_to_decimal(record.from_user).as_slice());
        out.push(0x0a);
        out.extend_from_slice(fields::TO_USER.as_bytes());
        out.extend_from_slice(": ".as_bytes());
        out.extend_from_slice(u64_to_decimal(record.to_user).as_slice());
        out.push(0x0a);
        out.extend_from_slice(fields::STATUS.as_bytes());
        out.extend_from_slice(": ".as_bytes());
        out.extend_from_slice(record.status.to_text().as_bytes());
        out.push(0x0a);
        proof {
            assert(out@ =~= txt_render(record@));
        }
        Ok(out)
    }
}

/// Appends serialized records to a byte sink, a blank separator line
/// after each.
pub struct RecordWrite {
    pub writer: Vec<u8>,
}

impl RecordWrite {
    /// Binds a writer to the byte sink.
    pub fn new(writer: Vec<u8>) -> (r: RecordWrite)
        ensures
            r.writer@ == writer@,
    {
        RecordWrite { writer }
    }
}

impl RecordWriter for RecordWrite {
    open spec fn written(&self) -> Seq<u8> {
        self.writer@
    }

    open spec fn write_transform(&self, data: Seq<u8>) -> Seq<u8> {
        data + seq![0x0au8]
    }

    open spec fn header_bytes(&self) -> Seq<u8> {
        Seq::empty()
    }

    fn write_header(&mut self) -> (r: Result<(), RecordWriteError>) {
        proof {
            assert(old(self).written() + Seq::<u8>::empty() =~= old(self).written());
        }
        Ok(())
    }

    fn write(&mut self, data: Vec<u8>) -> (r: Result<(), RecordWriteError>) {
        self.writer.extend_from_slice(data.as_slice());
        self.writer.push(0x0a);
        proof {
            assert(self.writer@ =~= old(self).written() + (data@ + seq![0x0au8]));
        }
        Ok(())
    }
}

/// The colon-and-space separator of a field line renders as those two
/// bytes.
pub proof fn lemma_colon_space_bytes()
    ensures
        ": ".spec_bytes() == seq![0x3au8, 0x20u8],
{
    reveal_strlit(": ");
    broadcast use vstd::string::is_ascii_spec_bytes;

    assert(vstd::string::is_ascii(": "));
    assert(": ".spec_bytes() =~= seq![0x3au8, 0x20u8]);
}

/// A record's field lines in the serializer's fixed order, with the
/// blank separator line that closes the record.
pub open spec fn txt_record_lines(r: RecordV) -> Seq<Seq<u8>> {
    seq![
        "TX_ID".spec_bytes() + ": ".spec_bytes() + u64_decimal(r.tx_id as nat),
        "AMOUNT".spec_bytes() + ": ".spec_bytes() + u64_decimal(r.amount as nat),
        "TIMESTAMP".spec_bytes() + ": ".spec_bytes() + u64_decimal(r.timestamp as nat),
        "DESCRIPTION".spec_bytes() + ": ".spec_bytes() + r.description,
        "TX_TYPE".spec_bytes() + ": ".spec_bytes() + tx_type_text(r.tx_type),
        "FROM_USER_ID".spec_bytes() + ": ".spec_bytes() + u64_decimal(r.from_user as nat),
        "TO_USER_ID".spec_bytes() + ": ".spec_bytes() + u64_decimal(r.to_user as nat),
        "STATUS".spec_bytes() + ": ".spec_bytes() + status_text(r.status),
        Seq::<u8>::empty(),
    ]
}

/// The blank line closes the record: a serialized record's nine lines at
/// the front of a line stream step to exactly that record, leaving the
/// lines after the blank separator, so consecutive records are separated
/// by exactly one blank line.
#[verifier::rlimit(100)]
#[verifier::spinoff_prover]
pub proof fn lemma_txt_step_record(r: RecordV, rest: Seq<Seq<u8>>)
    ensures
        txt_step(txt_record_lines(r) + rest).0 == Some(Ok::<RecordV, ProduceErrV>(r)),
        txt_step(txt_record_lines(r) + rest).1 == rest,
{
    crate::fields::lemma_name_bytes_distinct();
    crate::fields::lemma_literal_bytes_clean();
    lemma_colon_space_bytes();
    crate::numeric::lemma_u64_decimal_props(r.tx_id as nat);
    crate::numeric::lemma_u64_decimal_props(r.amount as nat);
    crate::numeric::lemma_u64_decimal_props(r.timestamp as nat);
    crate::numeric::lemma_u64_decimal_props(r.from_user as nat);
    crate::numeric::lemma_u64_decimal_props(r.to_user as nat);
    let all = txt_record_lines(r);
    let l1 = all[0];
    let l2 = all[1];
    let l3 = all[2];
    let l4 = all[3];
    let l5 = all[4];
    let l6 = all[5];
    let l7 = all[6];
    let l8 = all[7];
    let name1 = "TX_ID".spec_bytes();
    let value1 = u64_decimal(r.tx_id as nat);
    assert(l1[name1.len() as int] == 0x3a);
    assert(forall|j: int| 0 <= j < name1.len() ==> l1[j] == name1[j]);
    crate::bytestr::lemma_find_byte_unique(l1, 0x3a, name1.len() as nat);
    assert(l1.take(name1.len() as int) =~= name1);
    assert(l1.skip(name1.len() + 1 as int) =~= seq![0x20u8] + value1);
    assert((seq![0x20u8] + value1).drop_first() =~= value1);
    assert(l1.len() > 0);
    assert(!is_comment(l1));
    assert(txt_line_field(l1) == Ok::<FieldValueV, Seq<char>>(FieldValueV::TxId(r.tx_id)));
    let name2 = "AMOUNT".spec_bytes();
    let value2 = u64_decimal(r.amount as nat);
    assert(l2[name2.len() as int] == 0x3a);
    assert(forall|j: int| 0 <= j < name2.len() ==> l2[j] == name2[j]);
    crate::bytestr::lemma_find_byte_unique(l2, 0x3a, name2.len() as nat);
    assert(l2.take(name2.len() as int) =~= name2);
    assert(l2.skip(name2.len() + 1 as int) =~= seq![0x20u8] + value2);
    assert((seq![0x20u8] + value2).drop_first() =~= value2);
    assert(l2.len() > 0);
    assert(!is_comment(l2));
    assert(txt_line_field(l2) == Ok::<FieldValueV, Seq<char>>(FieldValueV::Amount(r.amount)));
    let name3 = "TIMESTAMP".spec_bytes();
    let value3 = u64_decimal(r.timestamp as nat);
    assert(l3[name3.len() as int] == 0x3a);
    assert(forall|j: int| 0 <= j < name3.len() ==> l3[j] == name3[j]);
    crate::bytestr::lemma_find_byte_unique(l3, 0x3a, name3.len() as nat);
    assert(l3.take(name3.len() as int) =~= name3);
    assert(l3.skip(name3.len() + 1 as int) =~= seq![0x20u8] + value3);
    assert((seq![0x20u8] + value3).drop_first() =~= value3);
    assert(l3.len() > 0);
    assert(!is_comment(l3));
    assert(txt_line_field(l3) == Ok::<FieldValueV, Seq<char>>(FieldValueV::Timestamp(r.timestamp)));
    let name4 = "DESCRIPTION".spec_bytes();
    let value4 = r.description;
    assert(l4[name4.len() as int] == 0x3a);
    assert(forall|j: int| 0 <= j < name4.len() ==> l4[j] == name4[j]);
    crate::bytestr::lemma_find_byte_unique(l4, 0x3a, name4.len() as nat);
    assert(l4.take(name4.len() as int) =~= name4);
    assert(l4.skip(name4.len() + 1 as int) =~= seq![0x20u8] + value4);
    assert((seq![0x20u8] + value4).drop_first() =~= value4);
    assert(l4.len() > 0);
    assert(!is_comment(l4));
    assert(txt_line_field(l4) == Ok::<FieldValueV, Seq<char>>(FieldValueV::Description(r.description)));
    let name5 = "TX_TYPE".spec_bytes();
    let value5 = tx_type_text(r.tx_type);
    assert(l5[name5.len() as int] == 0x3a);
    assert(forall|j: int| 0 <= j < name5.len() ==> l5[j] == name5[j]);
    crate::bytestr::lemma_find_byte_unique(l5, 0x3a, name5.len() as nat);
    assert(l5.take(name5.len() as int) =~= name5);
    assert(l5.skip(name5.len() + 1 as int) =~= seq![0x20u8] + value5);
    assert((seq![0x20u8] + value5).drop_first() =~= value5);
    assert(l5.len() > 0);
    assert(!is_comment(l5));
    assert(txt_line_field(l5) == Ok::<FieldValueV, Seq<char>>(FieldValueV::TxType(r.tx_type)));
    let name6 = "FROM_USER_ID".spec_bytes();
    let value6 = u64_decimal(r.from_user as nat);
    assert(l6[name6.len() as int] == 0x3a);
    assert(forall|j: int| 0 <= j < name6.len() ==> l6[j] == name6[j]);
    crate::bytestr::lemma_find_byte_unique(l6, 0x3a, name6.len() as nat);
    assert(l6.take(name6.len() as int) =~= name6);
    assert(l6.skip(name6.len() + 1 as int) =~= seq![0x20u8] + value6);
    assert((seq![0x20u8] + value6).drop_first() =~= value6);
    assert(l6.len() > 0);
    assert(!is_comment(l6));
    assert(txt_line_field(l6) == Ok::<FieldValueV, Seq<char>>(FieldValueV::FromUser(r.from_user)));
    let name7 = "TO_USER_ID".spec_bytes();
    let value7 = u64_decimal(r.to_user as nat);
    assert(l7[name7.len() as int] == 0x3a);
    assert(forall|j: int| 0 <= j < name7.len() ==> l7[j] == name7[j]);
    crate::bytestr::lemma_find_byte_unique(l7, 0x3a, name7.len() as nat);
    assert(l7.take(name7.len() as int) =~= name7);
    assert(l7.skip(name7.len() + 1 as int) =~= seq![0x20u8] + value7);
    assert((seq![0x20u8] + value7).drop_first() =~= value7);
    assert(l7.len() > 0);
    assert(!is_comment(l7));
    assert(txt_line_field(l7) == Ok::<FieldValueV, Seq<char>>(FieldValueV::ToUser(r.to_user)));
    let name8 = "STATUS".spec_bytes();
    let value8 = status_text(r.status);
    assert(l8[name8.len() as int] == 0x3a);
    assert(forall|j: int| 0 <= j < name8.len() ==> l8[j] == name8[j]);
    crate::bytestr::lemma_find_byte_unique(l8, 0x3a, name8.len() as nat);
    assert(l8.take(name8.len() as int) =~= name8);
    assert(l8.skip(name8.len() + 1 as int) =~= seq![0x20u8] + value8);
    assert((seq![0x20u8] + value8).drop_first() =~= value8);
    assert(l8.len() > 0);
    assert(!is_comment(l8));
    assert(txt_line_field(l8) == Ok::<FieldValueV, Seq<char>>(FieldValueV::Status(r.status)));
    let z0 = Seq::<FieldValueV>::empty();
    let z1 = z0.push(FieldValueV::TxId(r.tx_id));
    let z2 = z1.push(FieldValueV::Amount(r.amount));
    let z3 = z2.push(FieldValueV::Timestamp(r.timestamp));
    let z4 = z3.push(FieldValueV::Description(r.description));
    let z5 = z4.push(FieldValueV::TxType(r.tx_type));
    let z6 = z5.push(FieldValueV::FromUser(r.from_user));
    let z7 = z6.push(FieldValueV::ToUser(r.to_user));
    let z8 = z7.push(FieldValueV::Status(r.status));
    let s1 = all + rest;
    let s2 = s1.drop_first();
    let s3 = s2.drop_first();
    let s4 = s3.drop_first();
    let s5 = s4.drop_first();
    let s6 = s5.drop_first();
    let s7 = s6.drop_first();
    let s8 = s7.drop_first();
    let s9 = s8.drop_first();
    assert(s1[0] == l1);
    assert(txt_collect(s1, z0) == txt_collect(s2, z1));
    assert(s2[0] == l2);
    assert(txt_collect(s2, z1) == txt_collect(s3, z2));
    assert(s3[0] == l3);
    assert(txt_collect(s3, z2) == txt_collect(s4, z3));
    assert(s4[0] == l4);
    assert(txt_collect(s4, z3) == txt_collect(s5, z4));
    assert(s5[0] == l5);
    assert(txt_collect(s5, z4) == txt_collect(s6, z5));
    assert(s6[0] == l6);
    assert(txt_collect(s6, z5) == txt_collect(s7, z6));
    assert(s7[0] == l7);
    assert(txt_collect(s7, z6) == txt_collect(s8, z7));
    assert(s8[0] == l8);
    assert(txt_collect(s8, z7) == txt_collect(s9, z8));
    assert(s9[0] == Seq::<u8>::empty());
    assert(s9.drop_first() =~= rest);
    assert(txt_collect(s9, z8) == (Ok::<Seq<FieldValueV>, ()>(z8), s9.drop_first()));
    assert(z1.drop_last() =~= z0);
    assert(z2.drop_last() =~= z1);
    assert(z3.drop_last() =~= z2);
    assert(z4.drop_last() =~= z3);
    assert(z5.drop_last() =~= z4);
    assert(z6.drop_last() =~= z5);
    assert(z7.drop_last() =~= z6);
    assert(z8.drop_last() =~= z7);
    assert(fold_slots(z1).tx_id == Some(r.tx_id));
    assert(fold_slots(z2).amount == Some(r.amount));
    assert(fold_slots(z3).timestamp == Some(r.timestamp));
    assert(fold_slots(z4).description == Some(r.description));
    assert(fold_slots(z5).tx_type == Some(r.tx_type));
    assert(fold_slots(z6).from_user == Some(r.from_user));
    assert(fold_slots(z7).to_user == Some(r.to_user));
    assert(fold_slots(z8).status == Some(r.status));
    assert(record_from_fields(z8) is Ok);
    assert(record_from_fields(z8)->Ok_0 =~= r);
    assert(z8.len() == 8);
}

/// Round trip: a serialized record's lines read back as exactly that
/// record followed by clean end of stream.
pub proof fn lemma_txt_round_trip(r: RecordV)
    ensures
        txt_stream(false, txt_record_lines(r)).0 == seq![r],
        txt_stream(false, txt_record_lines(r)).1 == StreamEnd::Clean,
{
    reveal_with_fuel(txt_stream, 2);
    lemma_txt_step_record(r, Seq::empty());
    assert(txt_record_lines(r) + Seq::<Seq<u8>>::empty() =~= txt_record_lines(r));
    assert(txt_record_lines(r).len() == 9);
    assert(txt_collect(Seq::empty(), Seq::empty()).0 == Ok::<Seq<FieldValueV>, ()>(
        Seq::empty(),
    ));
    assert(txt_step(Seq::<Seq<u8>>::empty()).0 is None);
    assert(txt_stream(false, Seq::<Seq<u8>>::empty()).0 == Seq::<RecordV>::empty());
    assert(txt_stream(false, Seq::<Seq<u8>>::empty()).1 == StreamEnd::Clean);
    assert(seq![r] + Seq::<RecordV>::empty() =~= seq![r]);
}

/// One of `r`'s field lines: a field name, a colon and a space, and
/// `r`'s value for that field in its text form.
pub open spec fn is_record_line(l: Seq<u8>, r: RecordV) -> bool {
    ||| l == "TX_ID".spec_bytes() + ": ".spec_bytes() + u64_decimal(r.tx_id as nat)
    ||| l == "TX_TYPE".spec_bytes() + ": ".spec_bytes() + tx_type_text(r.tx_type)
    ||| l == "STATUS".spec_bytes() + ": ".spec_bytes() + status_text(r.status)
    ||| l == "FROM_USER_ID".spec_bytes() + ": ".spec_bytes() + u64_decimal(r.from_user as nat)
    ||| l == "TO_USER_ID".spec_bytes() + ": ".spec_bytes() + u64_decimal(r.to_user as nat)
    ||| l == "TIMESTAMP".spec_bytes() + ": ".spec_bytes() + u64_decimal(r.timestamp as nat)
    ||| l == "AMOUNT".spec_bytes() + ": ".spec_bytes() + u64_decimal(r.amount as nat)
    ||| l == "DESCRIPTION".spec_bytes() + ": ".spec_bytes() + r.description
}

/// The tx_id line of `r` is neither blank nor a comment and parses to
/// `r`'s tx_id field value.
proof fn lemma_txt_line_tx_id(l: Seq<u8>, r: RecordV)
    requires
        l == "TX_ID".spec_bytes() + ": ".spec_bytes() + u64_decimal(r.tx_id as nat),
    ensures
        txt_line_field(l) == Ok::<FieldValueV, Seq<char>>(FieldValueV::TxId(r.tx_id)),
        l.len() > 0,
        !is_comment(l),
{
    crate::fields::lemma_name_bytes_distinct();
    crate::fields::lemma_literal_bytes_clean();
    lemma_colon_space_bytes();
    crate::numeric::lemma_u64_decimal_props(r.tx_id as nat);
    crate::numeric::lemma_u64_decimal_props(r.from_user as nat);
    crate::numeric::lemma_u64_decimal_props(r.to_user as nat);
    crate::numeric::lemma_u64_decimal_props(r.timestamp as nat);
    crate::numeric::lemma_u64_decimal_props(r.amount as nat);
    let name = "TX_ID".spec_bytes();
    let value = u64_decimal(r.tx_id as nat);
    assert(l[name.len() as int] == 0x3a);
    assert(forall|j: int| 0 <= j < name.len() ==> l[j] == name[j]);
    crate::bytestr::lemma_find_byte_unique(l, 0x3a, name.len() as nat);
    assert(l.take(name.len() as int) =~= name);
    assert(l.skip(name.len() + 1 as int) =~= seq![0x20u8] + value);
    assert((seq![0x20u8] + value).drop_first() =~= value);
}

/// The tx_type line of `r` is neither blank nor a comment and parses to
/// `r`'s tx_type field value.
proof fn lemma_txt_line_tx_type(l: Seq<u8>, r: RecordV)
    requires
        l == "TX_TYPE".spec_bytes() + ": ".spec_bytes() + tx_type_text(r.tx_type),
    ensures
        txt_line_field(l) == Ok::<FieldValueV, Seq<char>>(FieldValueV::TxType(r.tx_type)),
        l.len() > 0,
        !is_comment(l),
{
    crate::fields::lemma_name_bytes_distinct();
    crate::fields::lemma_literal_bytes_clean();
    lemma_colon_space_bytes();
    crate::numeric::lemma_u64_decimal_props(r.tx_id as nat);
    crate::numeric::lemma_u64_decimal_props(r.from_user as nat);
    crate::numeric::lemma_u64_decimal_props(r.to_user as nat);
    crate::numeric::lemma_u64_decimal_props(r.timestamp as nat);
    crate::numeric::lemma_u64_decimal_props(r.amount as nat);
    let name = "TX_TYPE".spec_bytes();
    let value = tx_type_text(r.tx_type);
    assert(l[name.len() as int] == 0x3a);
    assert(forall|j: int| 0 <= j < name.len() ==> l[j] == name[j]);
    crate::bytestr::lemma_find_byte_unique(l, 0x3a, name.len() as nat);
    assert(l.take(name.len() as int) =~= name);
    assert(l.skip(name.len() + 1 as int) =~= seq![0x20u8] + value);
    assert((seq![0x20u8] + value).drop_first() =~= value);
}

/// The status line of `r` is neither blank nor a comment and parses to
/// `r`'s status field value.
proof fn lemma_txt_line_status(l: Seq<u8>, r: RecordV)
    requires
        l == "STATUS".spec_bytes() + ": ".spec_bytes() + status_text(r.status),
    ensures
        txt_line_field(l) == Ok::<FieldValueV, Seq<char>>(FieldValueV::Status(r.status)),
        l.len() > 0,
        !is_comment(l),
{
    crate::fields::lemma_name_bytes_distinct();
    crate::fields::lemma_literal_bytes_clean();
    lemma_colon_space_bytes();
    crate::numeric::lemma_u64_decimal_props(r.tx_id as nat);
    crate::numeric::lemma_u64_decimal_props(r.from_user as nat);
    crate::numeric::lemma_u64_decimal_props(r.to_user as nat);
    crate::numeric::lemma_u64_decimal_props(r.timestamp as nat);
    crate::numeric::lemma_u64_decimal_props(r.amount as nat);
    let name = "STATUS".spec_bytes();
    let value = status_text(r.status);
    assert(l[name.len() as int] == 0x3a);
    assert(forall|j: int| 0 <= j < name.len() ==> l[j] == name[j]);
    crate::bytestr::lemma_find_byte_unique(l, 0x3a, name.len() as nat);
    assert(l.take(name.len() as int) =~= name);
    assert(l.skip(name.len() + 1 as int) =~= seq![0x20u8] + value);
    assert((seq![0x20u8] + value).drop_first() =~= value);
}

/// The from_user line of `r` is neither blank nor a comment and parses to
/// `r`'s from_user field value.
proof fn lemma_txt_line_from_user(l: Seq<u8>, r: RecordV)
    requires
        l == "FROM_USER_ID".spec_bytes() + ": ".spec_bytes() + u64_decimal(r.from_user as nat),
    ensures
        txt_line_field(l) == Ok::<FieldValueV, Seq<char>>(FieldValueV::FromUser(r.from_user)),
        l.len() > 0,
        !is_comment(l),
{
    crate::fields::lemma_name_bytes_distinct();
    crate::fields::lemma_literal_bytes_clean();
    lemma_colon_space_bytes();
    crate::numeric::lemma_u64_decimal_props(r.tx_id as nat);
    crate::numeric::lemma_u64_decimal_props(r.from_user as nat);
    crate::numeric::lemma_u64_decimal_props(r.to_user as nat);
    crate::numeric::lemma_u64_decimal_props(r.timestamp as nat);
    crate::numeric::lemma_u64_decimal_props(r.amount as nat);
    let name = "FROM_USER_ID".spec_bytes();
    let value = u64_decimal(r.from_user as nat);
    assert(l[name.len() as int] == 0x3a);
    assert(forall|j: int| 0 <= j < name.len() ==> l[j] == name[j]);
    crate::bytestr::lemma_find_byte_unique(l, 0x3a, name.len() as nat);
    assert(l.take(name.len() as int) =~= name);
    assert(l.skip(name.len() + 1 as int) =~= seq![0x20u8] + value);
    assert((seq![0x20u8] + value).drop_first() =~= value);
}

/// The to_user line of `r` is neither blank nor a comment and parses to
/// `r`'s to_user field value.
proof fn lemma_txt_line_to_user(l: Seq<u8>, r: RecordV)
    requires
        l == "TO_USER_ID".spec_bytes() + ": ".spec_bytes() + u64_decimal(r.to_user as nat),
    ensures
        txt_line_field(l) == Ok::<FieldValueV, Seq<char>>(FieldValueV::ToUser(r.to_user)),
        l.len() > 0,
        !is_comment(l),
{
    crate::fields::lemma_name_bytes_distinct();
    crate::fields::lemma_literal_bytes_clean();
    lemma_colon_space_bytes();
    crate::numeric::lemma_u64_decimal_props(r.tx_id as nat);
    crate::numeric::lemma_u64_decimal_props(r.from_user as nat);
    crate::numeric::lemma_u64_decimal_props(r.to_user as nat);
    crate::numeric::lemma_u64_decimal_props(r.timestamp as nat);
    crate::numeric::lemma_u64_decimal_props(r.amount as nat);
    let name = "TO_USER_ID".spec_bytes();
    let value = u64_decimal(r.to_user as nat);
    assert(l[name.len() as int] == 0x3a);
    assert(forall|j: int| 0 <= j < name.len() ==> l[j] == name[j]);
    crate::bytestr::lemma_find_byte_unique(l, 0x3a, name.len() as nat);
    assert(l.take(name.len() as int) =~= name);
    assert(l.skip(name.len() + 1 as int) =~= seq![0x20u8] + value);
    assert((seq![0x20u8] + value).drop_first() =~= value);
}

/// The timestamp line of `r` is neither blank nor a comment and parses to
/// `r`'s timestamp field value.
proof fn lemma_txt_line_timestamp(l: Seq<u8>, r: RecordV)
    requires
        l == "TIMESTAMP".spec_bytes() + ": ".spec_bytes() + u64_decimal(r.timestamp as nat),
    ensures
        txt_line_field(l) == Ok::<FieldValueV, Seq<char>>(FieldValueV::Timestamp(r.timestamp)),
        l.len() > 0,
        !is_comment(l),
{
    crate::fields::lemma_name_bytes_distinct();
    crate::fields::lemma_literal_bytes_clean();
    lemma_colon_space_bytes();
    crate::numeric::lemma_u64_decimal_props(r.tx_id as nat);
    crate::numeric::lemma_u64_decimal_props(r.from_user as nat);
    crate::numeric::lemma_u64_decimal_props(r.to_user as nat);
    crate::numeric::lemma_u64_decimal_props(r.timestamp as nat);
    crate::numeric::lemma_u64_decimal_props(r.amount as nat);
    let name = "TIMESTAMP".spec_bytes();
    let value = u64_decimal(r.timestamp as nat);
    assert(l[name.len() as int] == 0x3a);
    assert(forall|j: int| 0 <= j < name.len() ==> l[j] == name[j]);
    crate::bytestr::lemma_find_byte_unique(l, 0x3a, name.len() as nat);
    assert(l.take(name.len() as int) =~= name);
    assert(l.skip(name.len() + 1 as int) =~= seq![0x20u8] + value);
    assert((seq![0x20u8] + value).drop_first() =~= value);
}

/// The amount line of `r` is neither blank nor a comment and parses to
/// `r`'s amount field value.
proof fn lemma_txt_line_amount(l: Seq<u8>, r: RecordV)
    requires
        l == "AMOUNT".spec_bytes() + ": ".spec_bytes() + u64_decimal(r.amount as nat),
    ensures
        txt_line_field(l) == Ok::<FieldValueV, Seq<char>>(FieldValueV::Amount(r.amount)),
        l.len() > 0,
        !is_comment(l),
{
    crate::fields::lemma_name_bytes_distinct();
    crate::fields::lemma_literal_bytes_clean();
    lemma_colon_space_bytes();
    crate::numeric::lemma_u64_decimal_props(r.tx_id as nat);
    crate::numeric::lemma_u64_decimal_props(r.from_user as nat);
    crate::numeric::lemma_u64_decimal_props(r.to_user as nat);
    crate::numeric::lemma_u64_decimal_props(r.timestamp as nat);
    crate::numeric::lemma_u64_decimal_props(r.amount as nat);
    let name = "AMOUNT".spec_bytes();
    let value = u64_decimal(r.amount as nat);
    assert(l[name.len() as int] == 0x3a);
    assert(forall|j: int| 0 <= j < name.len() ==> l[j] == name[j]);
    crate::bytestr::lemma_find_byte_unique(l, 0x3a, name.len() as nat);
    assert(l.take(name.len() as int) =~= name);
    assert(l.skip(name.len() + 1 as int) =~= seq![0x20u8] + value);
    assert((seq![0x20u8] + value).drop_first() =~= value);
}

/// The description line of `r` is neither blank nor a comment and parses to
/// `r`'s description field value.
proof fn lemma_txt_line_description(l: Seq<u8>, r: RecordV)
    requires
        l == "DESCRIPTION".spec_bytes() + ": ".spec_bytes() + r.description,
    ensures
        txt_line_field(l) == Ok::<FieldValueV, Seq<char>>(FieldValueV::Description(r.description)),
        l.len() > 0,
        !is_comment(l),
{
    crate::fields::lemma_name_bytes_distinct();
    crate::fields::lemma_literal_bytes_clean();
    lemma_colon_space_bytes();
    crate::numeric::lemma_u64_decimal_props(r.tx_id as nat);
    crate::numeric::lemma_u64_decimal_props(r.from_user as nat);
    crate::numeric::lemma_u64_decimal_props(r.to_user as nat);
    crate::numeric::lemma_u64_decimal_props(r.timestamp as nat);
    crate::numeric::lemma_u64_decimal_props(r.amount as nat);
    let name = "DESCRIPTION".spec_bytes();
    let value = r.description;
    assert(l[name.len() as int] == 0x3a);
    assert(forall|j: int| 0 <= j < name.len() ==> l[j] == name[j]);
    crate::bytestr::lemma_find_byte_unique(l, 0x3a, name.len() as nat);
    assert(l.take(name.len() as int) =~= name);
    assert(l.skip(name.len() + 1 as int) =~= seq![0x20u8] + value);
    assert((seq![0x20u8] + value).drop_first() =~= value);
}

/// Any field line of `r` is neither blank nor a comment and parses to
/// one of `r`'s field values.
proof fn lemma_txt_line_field_of(l: Seq<u8>, r: RecordV)
    requires
        is_record_line(l, r),
    ensures
        txt_line_field(l) matches Ok(fv) && is_field_of(fv, r),
        l.len() > 0,
        !is_comment(l),
{
    if l == "TX_ID".spec_bytes() + ": ".spec_bytes() + u64_decimal(r.tx_id as nat) {
        lemma_txt_line_tx_id(l, r);
    } else if l == "TX_TYPE".spec_bytes() + ": ".spec_bytes() + tx_type_text(r.tx_type) {
        lemma_txt_line_tx_type(l, r);
    } else if l == "STATUS".spec_bytes() + ": ".spec_bytes() + status_text(r.status) {
        lemma_txt_line_status(l, r);
    } else if l == "FROM_USER_ID".spec_bytes() + ": ".spec_bytes() + u64_decimal(r.from_user as nat) {
        lemma_txt_line_from_user(l, r);
    } else if l == "TO_USER_ID".spec_bytes() + ": ".spec_bytes() + u64_decimal(r.to_user as nat) {
        lemma_txt_line_to_user(l, r);
    } else if l == "TIMESTAMP".spec_bytes() + ": ".spec_bytes() + u64_decimal(r.timestamp as nat) {
        lemma_txt_line_timestamp(l, r);
    } else if l == "AMOUNT".spec_bytes() + ": ".spec_bytes() + u64_decimal(r.amount as nat) {
        lemma_txt_line_amount(l, r);
    } else if l == "DESCRIPTION".spec_bytes() + ": ".spec_bytes() + r.description {
        lemma_txt_line_description(l, r);
    } else {
    }
}

/// A run of `r`'s field lines closed by a blank line accumulates their
/// field values onto whatever came before, consuming the blank line.
pub proof fn lemma_txt_collect_record_lines(
    block: Seq<Seq<u8>>,
    rest: Seq<Seq<u8>>,
    acc: Seq<FieldValueV>,
    r: RecordV,
)
    requires
        forall|i: int| 0 <= i < block.len() ==> is_record_line(#[trigger] block[i], r),
    ensures
        ({
            let c = txt_collect(block + seq![Seq::<u8>::empty()] + rest, acc);
            c.0 matches Ok(f) && f.len() == acc.len() + block.len() && (forall|i: int|
                0 <= i < acc.len() ==> f[i] == acc[i]) && (forall|i: int|
                0 <= i < block.len() ==> f[acc.len() + i] == txt_line_field(
                    #[trigger] block[i],
                )->Ok_0) && c.1 == rest
        }),
    decreases block.len(),
{
    let lines = block + seq![Seq::<u8>::empty()] + rest;
    if block.len() == 0 {
        assert(lines[0] == Seq::<u8>::empty());
        assert(lines.drop_first() =~= rest);
    } else {
        lemma_txt_line_field_of(block[0], r);
        let fv0 = txt_line_field(block[0])->Ok_0;
        assert(lines[0] == block[0]);
        assert(lines.drop_first() =~= block.drop_first() + seq![Seq::<u8>::empty()] + rest);
        assert(forall|i: int|
            0 <= i < block.drop_first().len() ==> #[trigger] block.drop_first()[i] == block[i
                + 1]);
        lemma_txt_collect_record_lines(block.drop_first(), rest, acc.push(fv0), r);
        let c = txt_collect(lines, acc);
        if let Ok(f) = c.0 {
            assert(forall|i: int| 0 <= i < acc.len() ==> acc.push(fv0)[i] == acc[i]);
            assert(f[acc.len() as int] == acc.push(fv0)[acc.len() as int]);
            assert forall|i: int| 0 <= i < block.len() implies f[acc.len() + i]
                == txt_line_field(#[trigger] block[i])->Ok_0 by {
                if i > 0 {
                    assert(f[(acc.len() + 1) + (i - 1)] == txt_line_field(
                        block.drop_first()[i - 1],
                    )->Ok_0);
                }
            }
        }
    }
}

/// The blank line alone separates records, whatever the field order:
/// field lines carrying all eight of `r`'s fields, in any order and
/// closed by one blank line, step to exactly `r` and leave the lines
/// after the blank for the next record.
pub proof fn lemma_txt_step_any_order(block: Seq<Seq<u8>>, rest: Seq<Seq<u8>>, r: RecordV)
    requires
        forall|i: int| 0 <= i < block.len() ==> is_record_line(#[trigger] block[i], r),
        exists|i: int| 0 <= i < block.len() && #[trigger] block[i] == "TX_ID".spec_bytes() + ": ".spec_bytes() + u64_decimal(r.tx_id as nat),
        exists|i: int| 0 <= i < block.len() && #[trigger] block[i] == "TX_TYPE".spec_bytes() + ": ".spec_bytes() + tx_type_text(r.tx_type),
        exists|i: int| 0 <= i < block.len() && #[trigger] block[i] == "STATUS".spec_bytes() + ": ".spec_bytes() + status_text(r.status),
        exists|i: int| 0 <= i < block.len() && #[trigger] block[i] == "FROM_USER_ID".spec_bytes() + ": ".spec_bytes() + u64_decimal(r.from_user as nat),
        exists|i: int| 0 <= i < block.len() && #[trigger] block[i] == "TO_USER_ID".spec_bytes() + ": ".spec_bytes() + u64_decimal(r.to_user as nat),
        exists|i: int| 0 <= i < block.len() && #[trigger] block[i] == "TIMESTAMP".spec_bytes() + ": ".spec_bytes() + u64_decimal(r.timestamp as nat),
        exists|i: int| 0 <= i < block.len() && #[trigger] block[i] == "AMOUNT".spec_bytes() + ": ".spec_bytes() + u64_decimal(r.amount as nat),
        exists|i: int| 0 <= i < block.len() && #[trigger] block[i] == "DESCRIPTION".spec_bytes() + ": ".spec_bytes() + r.description,
    ensures
        txt_step(block + seq![Seq::<u8>::empty()] + rest).0 == Some(
            Ok::<RecordV, ProduceErrV>(r),
        ),
        txt_step(block + seq![Seq::<u8>::empty()] + rest).1 == rest,
{
    lemma_txt_collect_record_lines(block, rest, Seq::empty(), r);
    let lines = block + seq![Seq::<u8>::empty()] + rest;
    let c = txt_collect(lines, seq![]);
    assert(txt_collect(lines, Seq::empty()) == c);
    if let Ok(f) = c.0 {
        assert forall|i: int| 0 <= i < f.len() implies is_field_of(#[trigger] f[i], r) by {
            lemma_txt_line_field_of(block[i], r);
        }
        let w0: int = choose|i: int|
            0 <= i < block.len() && #[trigger] block[i] == "TX_ID".spec_bytes()
                + ": ".spec_bytes() + u64_decimal(r.tx_id as nat);
        lemma_txt_line_tx_id(block[w0], r);
        assert((#[trigger] f[w0]) is TxId);
        let w1: int = choose|i: int|
            0 <= i < block.len() && #[trigger] block[i] == "TX_TYPE".spec_bytes()
                + ": ".spec_bytes() + tx_type_text(r.tx_type);
        lemma_txt_line_tx_type(block[w1], r);
        assert((#[trigger] f[w1]) is TxType);
        let w2: int = choose|i: int|
            0 <= i < block.len() && #[trigger] block[i] == "STATUS".spec_bytes()
                + ": ".spec_bytes() + status_text(r.status);
        lemma_txt_line_status(block[w2], r);
        assert((#[trigger] f[w2]) is Status);
        let w3: int = choose|i: int|
            0 <= i < block.len() && #[trigger] block[i] == "FROM_USER_ID".spec_bytes()
                + ": ".spec_bytes() + u64_decimal(r.from_user as nat);
        lemma_txt_line_from_user(block[w3], r);
        assert((#[trigger] f[w3]) is FromUser);
        let w4: int = choose|i: int|
            0 <= i < block.len() && #[trigger] block[i] == "TO_USER_ID".spec_bytes()
                + ": ".spec_bytes() + u64_decimal(r.to_user as nat);
        lemma_txt_line_to_user(block[w4], r);
        assert((#[trigger] f[w4]) is ToUser);
        let w5: int = choose|i: int|
            0 <= i < block.len() && #[trigger] block[i] == "TIMESTAMP".spec_bytes()
                + ": ".spec_bytes() + u64_decimal(r.timestamp as nat);
        lemma_txt_line_timestamp(block[w5], r);
        assert((#[trigger] f[w5]) is Timestamp);
        let w6: int = choose|i: int|
            0 <= i < block.len() && #[trigger] block[i] == "AMOUNT".spec_bytes()
                + ": ".spec_bytes() + u64_decimal(r.amount as nat);
        lemma_txt_line_amount(block[w6], r);
        assert((#[trigger] f[w6]) is Amount);
        let w7: int = choose|i: int|
            0 <= i < block.len() && #[trigger] block[i] == "DESCRIPTION".spec_bytes()
                + ": ".spec_bytes() + r.description;
        lemma_txt_line_description(block[w7], r);
        assert((#[trigger] f[w7]) is Description);
        lemma_from_fields_any_order(f, r);
        assert(f.len() > 0);
    }
}

} // verus!
