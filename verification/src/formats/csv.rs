//! The csv codec: a header line names the fields in column order, and
//! each following line holds one record's columns, split on a separator
//! byte. Reading zips each column against the header name at its
//! position; empty lines are skipped.

use vstd::prelude::*;
use vstd::slice::slice_to_vec;
use vstd::string::StringSliceAdditionalSpecFns;
use vstd::utf8::encode_utf8;

use crate::bytestr::{
    byte_free, bytes_eq, join_vec, join_with, lemma_join_byte_free, lemma_split_join,
    lemma_split_lines_cons, split_lines, split_lines_vec, split_on, split_on_vec,
};
use crate::error::{
    ProduceErrV, ProduceSource, ReaderCreateError, RecordProduceError, RecordReadError,
    RecordSerializeError, RecordWriteError,
};
use crate::fields;
use crate::numeric::{u64_decimal, u64_to_decimal};
use crate::record::{
    fold_slots, is_field_of, produce_post, record_from_fields, status_text, text_field_value,
    tx_type_text, DataConsumer, DataProducer, Field, FieldValue, FieldValueV, Record,
    RecordSerialize, RecordV, RecordWriter, StreamEnd,
};
use crate::result::RecordProduceResult;

verus! {

/// How many empty lines stand at the front.
pub open spec fn skip_empties(lines: Seq<Seq<u8>>) -> nat
    decreases lines.len(),
{
    if lines.len() == 0 {
        0
    } else if lines[0].len() == 0 {
        1 + skip_empties(lines.drop_first())
    } else {
        0
    }
}

/// The first empty lines really are empty, and what follows is not.
pub proof fn lemma_skip_empties(lines: Seq<Seq<u8>>)
    ensures
        skip_empties(lines) <= lines.len(),
        forall|j: int| 0 <= j < skip_empties(lines) ==> lines[j].len() == 0,
        skip_empties(lines) < lines.len() ==> lines[skip_empties(lines) as int].len() > 0,
    decreases lines.len(),
{
    if lines.len() == 0 || lines[0].len() > 0 {
    } else {
        lemma_skip_empties(lines.drop_first());
        assert(forall|j: int|
            1 <= j < skip_empties(lines) ==> lines[j] == lines.drop_first()[j - 1]);
    }
}

/// Zips the header names from position `i` on against the row's columns,
/// resolving each to a typed field value: a missing column or a column
/// that fails to parse is the error.
pub open spec fn csv_zip(
    header: Seq<Seq<u8>>,
    row: Seq<Seq<u8>>,
    i: int,
    acc: Seq<FieldValueV>,
) -> Result<Seq<FieldValueV>, ()>
    decreases header.len() - i,
{
    if i >= header.len() {
        Ok(acc)
    } else if i >= row.len() {
        Err(())
    } else {
        match text_field_value(header[i], row[i]) {
            Err(_) => Err(()),
            Ok(fv) => csv_zip(header, row, i + 1, acc.push(fv)),
        }
    }
}

/// One produce step over the remaining lines: the next record, a parse
/// failure, or end of stream, and the lines left after the step.
pub open spec fn csv_step(header: Seq<Seq<u8>>, lines: Seq<Seq<u8>>, sep: u8) -> (Option<
    Result<RecordV, ProduceErrV>,
>, Seq<Seq<u8>>) {
    let k = skip_empties(lines) as int;
    if k == lines.len() {
        (None, Seq::empty())
    } else {
        let row = split_on(lines[k], sep);
        let rest = lines.skip(k + 1);
        match csv_zip(header, row, 0, seq![]) {
            Err(_) => (Some(Err(ProduceErrV::Parse)), rest),
            Ok(flds) => match record_from_fields(flds) {
                Ok(rv) => (Some(Ok(rv)), rest),
                Err(_) => (Some(Err(ProduceErrV::Parse)), rest),
            },
        }
    }
}

/// The records the remaining lines hold under the header, and how the
/// stream ends.
#[verifier::opaque]
pub open spec fn csv_stream(
    header: Seq<Seq<u8>>,
    exhausted: bool,
    lines: Seq<Seq<u8>>,
    sep: u8,
) -> (Seq<RecordV>, StreamEnd)
    decreases lines.len(),
{
    if exhausted {
        (seq![], StreamEnd::Clean)
    } else {
        let s = csv_step(header, lines, sep);
        match s.0 {
            None => (seq![], StreamEnd::Clean),
            Some(Err(k)) => (seq![], StreamEnd::Failed(k)),
            Some(Ok(rv)) => if s.1.len() < lines.len() {
                let tail = csv_stream(header, false, s.1, sep);
                (seq![rv] + tail.0, tail.1)
            } else {
                (seq![rv], StreamEnd::Clean)
            },
        }
    }
}

/// Produces records out of the lines of an in-memory csv stream.
pub struct CsvReader {
    pub header: Vec<Vec<u8>>,
    pub lines: Vec<Vec<u8>>,
    pub idx: usize,
    pub current_line: u64,
    pub is_exhausted: bool,
    pub separator: u8,
}

impl CsvReader {
    /// The record lines not yet consumed.
    pub open spec fn remaining(&self) -> Seq<Seq<u8>> {
        if self.idx <= self.lines@.len() {
            self.lines.deep_view().skip(self.idx as int)
        } else {
            Seq::empty()
        }
    }

    /// Binds a reader to the byte stream: the first line, split on the
    /// separator, becomes the header naming the fields in column order.
    pub fn new(data: Vec<u8>, separator: u8) -> (r: Result<CsvReader, ReaderCreateError>)
        ensures
            r matches Ok(c) && c.lines.deep_view() == split_lines(data@) && c.separator
                == separator && !c.is_exhausted && (if split_lines(data@).len() > 0 {
                c.idx == 1 && c.header.deep_view() == split_on(split_lines(data@)[0], separator)
            } else {
                c.idx == 0 && c.header.deep_view() == Seq::<Seq<u8>>::empty()
            }),
    {
        let lines = split_lines_vec(data.as_slice());
        if lines.len() > 0 {
            proof {
                assert(lines@[0]@ =~= lines.deep_view()[0]);
            }
            let header = split_on_vec(lines[0].as_slice(), separator);
            Ok(
                CsvReader {
                    header,
                    lines,
                    idx: 1,
                    current_line: 0,
                    is_exhausted: false,
                    separator,
                },
            )
        } else {
            let header: Vec<Vec<u8>> = Vec::new();
            proof {
                assert(header.deep_view() =~= Seq::<Seq<u8>>::empty());
            }
            Ok(
                CsvReader {
                    header,
                    lines,
                    idx: 0,
                    current_line: 0,
                    is_exhausted: false,
                    separator,
                },
            )
        }
    }

    /// Pulls the next record line, skipping empty lines, split into its
    /// columns; `None` at end of stream, which in-memory text never
    /// fails to read.
    pub fn read(&mut self) -> (r: Option<Result<Vec<Vec<u8>>, RecordReadError>>)
        ensures
            final(self).lines == old(self).lines,
            final(self).header == old(self).header,
            final(self).separator == old(self).separator,
            old(self).is_exhausted ==> r is None && *final(self) == *old(self),
            !old(self).is_exhausted ==> ({
                let rl = old(self).remaining();
                let k = skip_empties(rl) as int;
                match r {
                    None => k == rl.len() && final(self).is_exhausted
                        && final(self).remaining().len() == 0 && final(self).idx == old(self).idx
                        + k && final(self).current_line == final(self).idx as u64,
                    Some(res) => k < rl.len() && (res matches Ok(v) && v.deep_view() == split_on(
                        rl[k],
                        old(self).separator,
                    )) && final(self).remaining() == rl.skip(k + 1)
                        && !final(self).is_exhausted && final(self).idx == old(self).idx + k + 1
                        && final(self).current_line == final(self).idx as u64,
                }
            }),
    {
        if self.is_exhausted {
            return None;
        }
        proof {
            lemma_skip_empties(old(self).remaining());
        }
        loop
            invariant_except_break
                self.lines == old(self).lines,
                self.header == old(self).header,
                self.separator == old(self).separator,
                self.is_exhausted == old(self).is_exhausted,
                old(self).idx <= self.idx <= self.lines@.len() || (old(self).idx
                    > self.lines@.len() && self.idx == old(self).idx),
                old(self).remaining().skip((self.idx - old(self).idx) as int) == self.remaining(),
                skip_empties(old(self).remaining()) == (self.idx - old(self).idx) + skip_empties(
                    self.remaining(),
                ),
                !old(self).is_exhausted,
            decreases self.lines@.len() + 1 - self.idx,
        {
            let ghost rl = old(self).remaining();
            let ghost done = (self.idx - old(self).idx) as int;
            if self.idx >= self.lines.len() {
                self.is_exhausted = true;
                self.current_line = self.idx as u64;
                proof {
                    assert(self.remaining().len() == 0);
                    assert(skip_empties(self.remaining()) == 0);
                }
                return None;
            }
            let line = slice_to_vec(self.lines[self.idx].as_slice());
            proof {
                assert(self.remaining()[0] == line@);
                assert(self.remaining().drop_first() =~= self.lines.deep_view().skip(
                    self.idx + 1 as int,
                ));
            }
            self.idx = self.idx + 1;
            self.current_line = self.idx as u64;
            if line.len() == 0 {
                proof {
                    assert(rl.skip(done)[0] == line@);
                    assert(rl.skip(done).drop_first() =~= rl.skip(done + 1));
                }
            } else {
                let row = split_on_vec(line.as_slice(), self.separator);
                proof {
                    assert(rl.skip(done)[0] == line@);
                    assert(rl.skip(done)[0] == rl[done]);
                    assert(skip_empties(rl.skip(done)) == 0);
                    assert(skip_empties(rl) == done);
                    assert(rl.skip(done).drop_first() =~= rl.skip(done + 1));
                    assert(self.remaining() =~= rl.skip(skip_empties(rl) + 1 as int));
                }
                return Some(Ok(row));
            }
        }
    }
}

impl DataConsumer for CsvReader {
    type Item = Vec<Vec<u8>>;

    fn read(&mut self) -> Option<Result<Vec<Vec<u8>>, RecordReadError>> {
        self.read()
    }
}

impl CsvReader {
    /// Pulls the next record: `None` at end of stream, an error when a
    /// column could not be parsed, a header name had no column under it,
    /// or the columns did not assemble into a complete record. Every
    /// error wraps its cause — the field parse failure or the
    /// construction message — except the reader's own finding of a
    /// missing column, which it names in its text; the failed row stays
    /// consumed.
    pub fn produce_record(&mut self) -> (r: Option<RecordProduceResult<Record>>)
        ensures
            produce_post(old(self).stream(), final(self).stream(), r),
            match r {
                Some(Err(e)) => match e.source {
                    Some(ProduceSource::Field(_)) => true,
                    Some(ProduceSource::Record(_)) => true,
                    None => e.text@ == "missing field"@,
                    _ => false,
                },
                _ => true,
            },
            match r {
                Some(Err(_)) => final(self).header == old(self).header && final(self).separator
                    == old(self).separator && final(self).remaining() == csv_step(
                    old(self).header.deep_view(),
                    old(self).remaining(),
                    old(self).separator,
                ).1,
                _ => true,
            },
    {
        proof {
            reveal(csv_stream);
        }
        let ghost rl0 = self.remaining();
        let ghost hdv = self.header.deep_view();
        let ghost sep0 = self.separator;
        let ghost exh0 = self.is_exhausted;
        let row = match self.read() {
            None => {
                return None;
            },
            Some(Err(e)) => {
                return Some(
                    Err(
                        RecordProduceError {
                            text: "failed to produce record".to_owned(),
                            source: Some(ProduceSource::Read(e)),
                        },
                    ),
                );
            },
            Some(Ok(v)) => v,
        };
        let ghost snap = *self;
        let ghost rowdv = row.deep_view();
        let mut flds: Vec<FieldValue> = Vec::new();
        proof {
            assert(flds.deep_view() =~= Seq::<FieldValueV>::empty());
        }
        let mut i: usize = 0;
        while i < self.header.len()
            invariant
                *self == snap,
                rowdv == row.deep_view(),
                hdv == old(self).header.deep_view(),
                self.header.deep_view() == hdv,
                self.header == old(self).header,
                sep0 == old(self).separator,
                rl0 == old(self).remaining(),
                !old(self).is_exhausted,
                !exh0,
                skip_empties(rl0) < rl0.len(),
                rowdv == split_on(rl0[skip_empties(rl0) as int], sep0),
                self.remaining() == rl0.skip(skip_empties(rl0) + 1 as int),
                !self.is_exhausted,
                self.separator == sep0,
                0 <= i <= self.header@.len(),
                csv_zip(hdv, rowdv, 0, Seq::empty()) == csv_zip(
                    hdv,
                    rowdv,
                    i as int,
                    flds.deep_view(),
                ),
            decreases self.header@.len() - i,
        {
            proof {
                assert(self.header@[i as int]@ =~= hdv[i as int]);
            }
            if i >= row.len() {
                proof {
                    reveal(csv_stream);
                    assert(csv_step(hdv, rl0, sep0).1 == rl0.skip(
                        skip_empties(rl0) + 1 as int,
                    ));
                    assert(csv_zip(hdv, rowdv, i as int, flds.deep_view()) is Err);
                    assert(csv_step(hdv, rl0, sep0).0 == Some(
                        Err::<RecordV, ProduceErrV>(ProduceErrV::Parse),
                    ));
                    assert(csv_stream(hdv, false, rl0, sep0).0.len() == 0);
                    assert(csv_stream(hdv, false, rl0, sep0).1 == StreamEnd::Failed(
                        ProduceErrV::Parse,
                    ));
                    assert(old(self).stream() == csv_stream(hdv, false, rl0, sep0));
                }
                return Some(
                    Err(
                        RecordProduceError { text: "missing field".to_owned(), source: None },
                    ),
                );
            }
            proof {
                assert(row@[i as int]@ =~= rowdv[i as int]);
            }
            match (Field::new(self.header[i].as_slice(), row[i].as_slice())).parse() {
                Ok(val) => {
                    let ghost old_dv = flds.deep_view();
                    flds.push(val);
                    proof {
                        assert(flds.deep_view() =~= old_dv.push(val@));
                    }
                },
                Err(e) => {
                    proof {
                        reveal(csv_stream);
                        assert(csv_step(hdv, rl0, sep0).1 == rl0.skip(
                            skip_empties(rl0) + 1 as int,
                        ));
                        assert(csv_zip(hdv, rowdv, i as int, flds.deep_view()) is Err);
                        assert(csv_step(hdv, rl0, sep0).0 == Some(
                            Err::<RecordV, ProduceErrV>(ProduceErrV::Parse),
                        ));
                        assert(csv_stream(hdv, false, rl0, sep0).0.len() == 0);
                        assert(csv_stream(hdv, false, rl0, sep0).1 == StreamEnd::Failed(
                            ProduceErrV::Parse,
                        ));
                        assert(old(self).stream() == csv_stream(hdv, false, rl0, sep0));
                    }
                    return Some(
                        Err(
                            RecordProduceError {
                                text: "failed to produce record".to_owned(),
                                source: Some(ProduceSource::Field(e)),
                            },
                        ),
                    );
                },
            }
            i += 1;
        }
        let ghost stepped = csv_step(hdv, rl0, sep0);
        proof {
            assert(csv_zip(hdv, rowdv, 0, Seq::empty()) == Ok::<Seq<FieldValueV>, ()>(
                flds.deep_view(),
            ));
            if let Some(res) = stepped.0 {
                if let Ok(rv) = res {
                    let tail = csv_stream(hdv, false, stepped.1, sep0);
                    assert((seq![rv] + tail.0).first() == rv);
                    assert((seq![rv] + tail.0).drop_first() =~= tail.0);
                }
            }
        }
        match Record::from_fields(flds) {
            Ok(rec) => Some(Ok(rec)),
            Err(e) => Some(
                Err(
                    RecordProduceError {
                        text: "couldn't parse record".to_owned(),
                        source: Some(ProduceSource::Record(e)),
                    },
                ),
            ),
        }
    }
}

impl DataProducer for CsvReader {
    open spec fn stream(&self) -> (Seq<RecordV>, StreamEnd) {
        csv_stream(self.header.deep_view(), self.is_exhausted, self.remaining(), self.separator)
    }

    fn produce_record(&mut self) -> (r: Option<RecordProduceResult<Record>>) {
        CsvReader::produce_record(self)
    }
}

/// The bytes one field renders to under a header name, or a failure for
/// an unrecognized name.
pub open spec fn csv_render_field(name: Seq<u8>, r: RecordV) -> Result<Seq<u8>, ()> {
    if name == fields::tx_id_name() {
        Ok(u64_decimal(r.tx_id as nat))
    } else if name == fields::tx_type_name() {
        Ok(tx_type_text(r.tx_type))
    } else if name == fields::from_user_name() {
        Ok(u64_decimal(r.from_user as nat))
    } else if name == fields::to_user_name() {
        Ok(u64_decimal(r.to_user as nat))
    } else if name == fields::amount_name() {
        Ok(u64_decimal(r.amount as nat))
    } else if name == fields::timestamp_name() {
        Ok(u64_decimal(r.timestamp as nat))
    } else if name == fields::description_name() {
        Ok(r.description)
    } else if name == fields::status_name() {
        Ok(status_text(r.status))
    } else {
        Err(())
    }
}

/// The byte renderings of a sequence of field names.
pub open spec fn names_of(fs: Seq<&str>) -> Seq<Seq<u8>> {
    fs.map_values(|f: &str| f.spec_bytes())
}

/// Renders the fields named from position `i` on, or fails on the first
/// unrecognized name.
pub open spec fn csv_parts(names: Seq<Seq<u8>>, r: RecordV, i: int, acc: Seq<Seq<u8>>) -> Result<
    Seq<Seq<u8>>,
    (),
>
    decreases names.len() - i,
{
    if i >= names.len() {
        Ok(acc)
    } else {
        match csv_render_field(names[i], r) {
            Err(_) => Err(()),
            Ok(p) => csv_parts(names, r, i + 1, acc.push(p)),
        }
    }
}

/// Serializes records as separator-joined columns in a fixed field order.
pub struct CsvSerialize<'a> {
    pub fields: &'a [&'a str],
    pub separator: &'a str,
}

impl<'a> CsvSerialize<'a> {
    /// Binds a serializer to a field order and a separator.
    pub fn new(fields: &'a [&'a str], separator: &'a str) -> (r: CsvSerialize<'a>)
        ensures
            r.fields == fields,
            r.separator == separator,
    {
        CsvSerialize { fields, separator }
    }
}

impl<'a> RecordSerialize for CsvSerialize<'a> {
    open spec fn ser_req(&self, record: RecordV) -> bool {
        true
    }

    open spec fn ser_spec(&self, record: RecordV) -> Result<Seq<u8>, ()> {
        match csv_parts(names_of(self.fields@), record, 0, seq![]) {
            Err(_) => Err(()),
            Ok(parts) => Ok(join_with(parts, encode_utf8(self.separator@))),
        }
    }

    fn serialize(&self, record: &Record) -> (r: Result<Vec<u8>, RecordSerializeError>) {
        let ghost names = names_of(self.fields@);
        let mut parts: Vec<Vec<u8>> = Vec::new();
        proof {
            assert(parts.deep_view() =~= Seq::<Seq<u8>>::empty());
        }
        let mut i: usize = 0;
        while i < self.fields.len()
            invariant
                0 <= i <= self.fields@.len(),
                names == names_of(self.fields@),
                csv_parts(names, record@, 0, Seq::empty()) == csv_parts(
                    names,
                    record@,
                    i as int,
                    parts.deep_view(),
                ),
            decreases self.fields@.len() - i,
        {
            let f = self.fields[i];
            proof {
                assert(names[i as int] == f.spec_bytes());
            }
            let part: Vec<u8> = if bytes_eq(f.as_bytes(), fields::TX_ID.as_bytes()) {
                u64_to_decimal(record.tx_id)
            } else if bytes_eq(f.as_bytes(), fields::TX_TYPE.as_bytes()) {
                slice_to_vec(record.tx_type.to_text().as_bytes())
            } else if bytes_eq(f.as_bytes(), fields::FROM_USER.as_bytes()) {
                u64_to_decimal(record.from_user)
            } else if bytes_eq(f.as_bytes(), fields::TO_USER.as_bytes()) {
                u64_to_decimal(record.to_user)
            } else if bytes_eq(f.as_bytes(), fields::AMOUNT.as_bytes()) {
                u64_to_decimal(record.amount)
            } else if bytes_eq(f.as_bytes(), fields::TIMESTAMP.as_bytes()) {
                u64_to_decimal(record.timestamp)
            } else if bytes_eq(f.as_bytes(), fields::DESCRIPTION.as_bytes()) {
                slice_to_vec(record.description.as_slice())
            } else if bytes_eq(f.as_bytes(), fields::STATUS.as_bytes()) {
                slice_to_vec(record.status.to_text().as_bytes())
            } else {
                return Err(RecordSerializeError { text: "unknown field".to_owned() });
            };
            let ghost old_dv = parts.deep_view();
            proof {
                assert(part.deep_view() =~= part@);
            }
            parts.push(part);
            proof {
                assert(parts.deep_view() =~= old_dv.push(part@));
            }
            i += 1;
        }
        let sep = self.separator.as_bytes();
        let out = join_vec(&parts, sep);
        Ok(out)
    }
}

/// Appends serialized records to a byte sink, a newline after each, and
/// can first write the header line naming the fields in column order.
pub struct RecordWrite<'a> {
    pub fields: &'a [&'a str],
    pub separator: String,
    pub writer: Vec<u8>,
}

impl<'a> RecordWrite<'a> {
    /// Binds a writer to the byte sink, a field order and a separator.
    pub fn new(writer: Vec<u8>, fields: &'a [&'a str], separator: String) -> (r: RecordWrite<'a>)
        ensures
            r.writer@ == writer@,
            r.fields == fields,
            r.separator == separator,
    {
        RecordWrite { fields, separator, writer }
    }
}

impl<'a> RecordWriter for RecordWrite<'a> {
    open spec fn written(&self) -> Seq<u8> {
        self.writer@
    }

    open spec fn write_transform(&self, data: Seq<u8>) -> Seq<u8> {
        data + seq![0x0au8]
    }

    open spec fn header_bytes(&self) -> Seq<u8> {
        join_with(names_of(self.fields@), encode_utf8(self.separator@)) + seq![0x0au8]
    }

    fn write_header(&mut self) -> (r: Result<(), RecordWriteError>) {
        let mut names: Vec<Vec<u8>> = Vec::new();
        proof {
            assert(names.deep_view() =~= Seq::<Seq<u8>>::empty());
        }
        let mut i: usize = 0;
        while i < self.fields.len()
            invariant
                *self == *old(self),
                0 <= i <= self.fields@.len(),
                names.deep_view() == names_of(self.fields@).take(i as int),
            decreases self.fields@.len() - i,
        {
            let ghost old_dv = names.deep_view();
            let name = slice_to_vec(self.fields[i].as_bytes());
            proof {
                assert(name.deep_view() =~= self.fields@[i as int].spec_bytes());
            }
            names.push(name);
            proof {
                assert(names.deep_view() =~= old_dv.push(self.fields@[i as int].spec_bytes()));
                assert(names.deep_view() =~= names_of(self.fields@).take(i + 1));
            }
            i += 1;
        }
        proof {
            assert(names.deep_view() =~= names_of(self.fields@));
        }
        let header = join_vec(&names, self.separator.as_str().as_bytes());
        self.writer.extend_from_slice(header.as_slice());
        self.writer.push(0x0a);
        proof {
            assert(self.writer@ =~= old(self).written() + old(self).header_bytes());
        }
        Ok(())
    }

    fn write(&mut self, data: Vec<u8>) -> (r: Result<(), RecordWriteError>) {
        self.writer.extend_from_slice(data.as_slice());
        self.writer.push(0x0a);
        proof {
            assert(self.writer@ =~= old(self).written() + (data@ + seq![0x0au8]));
        }
        Ok(())
    }
}

/// The comma separator renders as the single comma byte.
pub proof fn lemma_comma_separator_bytes()
    ensures
        ",".spec_bytes() == seq![0x2cu8],
{
    reveal_strlit(",");
    broadcast use vstd::string::is_ascii_spec_bytes;

    assert(vstd::string::is_ascii(","));
    assert(",".spec_bytes() =~= seq![0x2cu8]);
}

/// The canonical csv field order the builders configure.
pub open spec fn csv_default_names() -> Seq<Seq<u8>> {
    seq![
        fields::tx_id_name(),
        fields::tx_type_name(),
        fields::from_user_name(),
        fields::to_user_name(),
        fields::amount_name(),
        fields::timestamp_name(),
        fields::status_name(),
        fields::description_name(),
    ]
}

/// Round trip: a record rendered in the canonical field order with a
/// comma separator, written as a header line and a record line, reads
/// back as exactly that record followed by clean end of stream, for any
/// record whose description holds no comma and no newline.
#[verifier::rlimit(100)]
pub proof fn lemma_csv_round_trip(r: RecordV)
    requires
        byte_free(r.description, 0x2c),
        byte_free(r.description, 0x0a),
    ensures
        (csv_parts(csv_default_names(), r, 0, seq![]) matches Ok(parts) && ({
            let header_line = join_with(csv_default_names(), seq![0x2cu8]);
            let line = join_with(parts, seq![0x2cu8]);
            &&& split_lines(header_line + seq![0x0au8] + line + seq![0x0au8]) == seq![
                header_line,
                line,
            ]
            &&& split_on(header_line, 0x2c) == csv_default_names()
            &&& csv_stream(csv_default_names(), false, seq![line], 0x2c).0 == seq![r]
            &&& csv_stream(csv_default_names(), false, seq![line], 0x2c).1 == StreamEnd::Clean
        })),
{
    reveal_with_fuel(csv_stream, 2);
    crate::fields::lemma_name_bytes_distinct();
    crate::fields::lemma_literal_bytes_clean();
    lemma_comma_separator_bytes();
    let names = csv_default_names();
    let sep = seq![0x2cu8];
    crate::numeric::lemma_u64_decimal_props(r.tx_id as nat);
    crate::numeric::lemma_decimal_byte_free(r.tx_id as nat, 0x2c);
    crate::numeric::lemma_decimal_byte_free(r.tx_id as nat, 0x0a);
    crate::numeric::lemma_u64_decimal_props(r.from_user as nat);
    crate::numeric::lemma_decimal_byte_free(r.from_user as nat, 0x2c);
    crate::numeric::lemma_decimal_byte_free(r.from_user as nat, 0x0a);
    crate::numeric::lemma_u64_decimal_props(r.to_user as nat);
    crate::numeric::lemma_decimal_byte_free(r.to_user as nat, 0x2c);
    crate::numeric::lemma_decimal_byte_free(r.to_user as nat, 0x0a);
    crate::numeric::lemma_u64_decimal_props(r.amount as nat);
    crate::numeric::lemma_decimal_byte_free(r.amount as nat, 0x2c);
    crate::numeric::lemma_decimal_byte_free(r.amount as nat, 0x0a);
    crate::numeric::lemma_u64_decimal_props(r.timestamp as nat);
    crate::numeric::lemma_decimal_byte_free(r.timestamp as nat, 0x2c);
    crate::numeric::lemma_decimal_byte_free(r.timestamp as nat, 0x0a);
    let p0 = u64_decimal(r.tx_id as nat);
    let p1 = tx_type_text(r.tx_type);
    let p2 = u64_decimal(r.from_user as nat);
    let p3 = u64_decimal(r.to_user as nat);
    let p4 = u64_decimal(r.amount as nat);
    let p5 = u64_decimal(r.timestamp as nat);
    let p6 = status_text(r.status);
    let p7 = r.description;
    let e0 = Seq::<Seq<u8>>::empty();
    let e1 = e0.push(p0);
    let e2 = e1.push(p1);
    let e3 = e2.push(p2);
    let e4 = e3.push(p3);
    let e5 = e4.push(p4);
    let e6 = e5.push(p5);
    let e7 = e6.push(p6);
    let e8 = e7.push(p7);
    assert(csv_render_field(names[0], r) == Ok::<Seq<u8>, ()>(p0));
    assert(csv_render_field(names[1], r) == Ok::<Seq<u8>, ()>(p1));
    assert(csv_render_field(names[2], r) == Ok::<Seq<u8>, ()>(p2));
    assert(csv_render_field(names[3], r) == Ok::<Seq<u8>, ()>(p3));
    assert(csv_render_field(names[4], r) == Ok::<Seq<u8>, ()>(p4));
    assert(csv_render_field(names[5], r) == Ok::<Seq<u8>, ()>(p5));
    assert(csv_render_field(names[6], r) == Ok::<Seq<u8>, ()>(p6));
    assert(csv_render_field(names[7], r) == Ok::<Seq<u8>, ()>(p7));
    assert(csv_parts(names, r, 0, e0) == csv_parts(names, r, 1, e1));
    assert(csv_parts(names, r, 1, e1) == csv_parts(names, r, 2, e2));
    assert(csv_parts(names, r, 2, e2) == csv_parts(names, r, 3, e3));
    assert(csv_parts(names, r, 3, e3) == csv_parts(names, r, 4, e4));
    assert(csv_parts(names, r, 4, e4) == csv_parts(names, r, 5, e5));
    assert(csv_parts(names, r, 5, e5) == csv_parts(names, r, 6, e6));
    assert(csv_parts(names, r, 6, e6) == csv_parts(names, r, 7, e7));
    assert(csv_parts(names, r, 7, e7) == csv_parts(names, r, 8, e8));
    assert(csv_parts(names, r, 0, e0) == Ok::<Seq<Seq<u8>>, ()>(e8));
    let parts = e8;
    assert(byte_free(p1, 0x2c) && byte_free(p1, 0x0a));
    assert(byte_free(p6, 0x2c) && byte_free(p6, 0x0a));
    assert forall|i: int| 0 <= i < names.len() implies byte_free(#[trigger] names[i], 0x2c)
        && byte_free(names[i], 0x0a) by {
        if i == 0 {
        } else if i == 1 {
        } else if i == 2 {
        } else if i == 3 {
        } else if i == 4 {
        } else if i == 5 {
        } else if i == 6 {
        } else {
        }
    }
    assert forall|i: int| 0 <= i < parts.len() implies byte_free(#[trigger] parts[i], 0x2c)
        && byte_free(parts[i], 0x0a) by {
        if i == 0 {
        } else if i == 1 {
        } else if i == 2 {
        } else if i == 3 {
        } else if i == 4 {
        } else if i == 5 {
        } else if i == 6 {
        } else {
        }
    }
    lemma_split_join(names, 0x2c);
    lemma_split_join(parts, 0x2c);
    assert(byte_free(sep, 0x0a));
    lemma_join_byte_free(names, sep, 0x0a);
    lemma_join_byte_free(parts, sep, 0x0a);
    let header_line = join_with(names, sep);
    let line = join_with(parts, sep);
    lemma_split_lines_cons(header_line, line + seq![0x0au8]);
    lemma_split_lines_cons(line, Seq::empty());
    assert(line + seq![0x0au8] + Seq::<u8>::empty() =~= line + seq![0x0au8]);
    assert(split_lines(Seq::<u8>::empty()) =~= Seq::<Seq<u8>>::empty());
    assert(seq![line] + Seq::<Seq<u8>>::empty() =~= seq![line]);
    assert(split_lines(line + seq![0x0au8]) =~= seq![line]);
    assert(header_line + seq![0x0au8] + (line + seq![0x0au8]) =~= header_line + seq![0x0au8] + line
        + seq![0x0au8]);
    assert(seq![header_line] + seq![line] =~= seq![header_line, line]);
    assert(split_lines(header_line + seq![0x0au8] + line + seq![0x0au8]) =~= seq![
        header_line,
        line,
    ]);
    if line.len() == 0 {
        assert(split_on(line, 0x2c).len() == 1);
        assert(false);
    }
    assert(text_field_value(names[0], p0) == Ok::<FieldValueV, Seq<char>>(FieldValueV::TxId(r.tx_id)));
    assert(text_field_value(names[1], p1) == Ok::<FieldValueV, Seq<char>>(FieldValueV::TxType(r.tx_type)));
    assert(text_field_value(names[2], p2) == Ok::<FieldValueV, Seq<char>>(FieldValueV::FromUser(r.from_user)));
    assert(text_field_value(names[3], p3) == Ok::<FieldValueV, Seq<char>>(FieldValueV::ToUser(r.to_user)));
    assert(text_field_value(names[4], p4) == Ok::<FieldValueV, Seq<char>>(FieldValueV::Amount(r.amount)));
    assert(text_field_value(names[5], p5) == Ok::<FieldValueV, Seq<char>>(FieldValueV::Timestamp(r.timestamp)));
    assert(text_field_value(names[6], p6) == Ok::<FieldValueV, Seq<char>>(FieldValueV::Status(r.status)));
    assert(text_field_value(names[7], p7) == Ok::<FieldValueV, Seq<char>>(FieldValueV::Description(r.description)));
    let z0 = Seq::<FieldValueV>::empty();
    let z1 = z0.push(FieldValueV::TxId(r.tx_id));
    let z2 = z1.push(FieldValueV::TxType(r.tx_type));
    let z3 = z2.push(FieldValueV::FromUser(r.from_user));
    let z4 = z3.push(FieldValueV::ToUser(r.to_user));
    let z5 = z4.push(FieldValueV::Amount(r.amount));
    let z6 = z5.push(FieldValueV::Timestamp(r.timestamp));
    let z7 = z6.push(FieldValueV::Status(r.status));
    let z8 = z7.push(FieldValueV::Description(r.description));
    assert(csv_zip(names, parts, 0, z0) == csv_zip(names, parts, 1, z1));
    assert(csv_zip(names, parts, 1, z1) == csv_zip(names, parts, 2, z2));
    assert(csv_zip(names, parts, 2, z2) == csv_zip(names, parts, 3, z3));
    assert(csv_zip(names, parts, 3, z3) == csv_zip(names, parts, 4, z4));
    assert(csv_zip(names, parts, 4, z4) == csv_zip(names, parts, 5, z5));
    assert(csv_zip(names, parts, 5, z5) == csv_zip(names, parts, 6, z6));
    assert(csv_zip(names, parts, 6, z6) == csv_zip(names, parts, 7, z7));
    assert(csv_zip(names, parts, 7, z7) == csv_zip(names, parts, 8, z8));
    assert(csv_zip(names, parts, 0, z0) == Ok::<Seq<FieldValueV>, ()>(z8));
    assert(z1.drop_last() =~= z0);
    assert(z2.drop_last() =~= z1);
    assert(z3.drop_last() =~= z2);
    assert(z4.drop_last() =~= z3);
    assert(z5.drop_last() =~= z4);
    assert(z6.drop_last() =~= z5);
    assert(z7.drop_last() =~= z6);
    assert(z8.drop_last() =~= z7);
    assert(fold_slots(z1).tx_id == Some(r.tx_id));
    assert(fold_slots(z2).tx_type == Some(r.tx_type));
    assert(fold_slots(z3).from_user == Some(r.from_user));
    assert(fold_slots(z4).to_user == Some(r.to_user));
    assert(fold_slots(z5).amount == Some(r.amount));
    assert(fold_slots(z6).timestamp == Some(r.timestamp));
    assert(fold_slots(z7).status == Some(r.status));
    assert(fold_slots(z8).description == Some(r.description));
    assert(record_from_fields(z8) is Ok);
    assert(record_from_fields(z8)->Ok_0 =~= r);
    assert(seq![line][0] == line);
    assert(skip_empties(seq![line]) == 0);
    let st = csv_step(names, seq![line], 0x2c);
    assert(st.0 == Some(Ok::<RecordV, ProduceErrV>(r)));
    assert(st.1 =~= Seq::<Seq<u8>>::empty());
    assert(skip_empties(st.1) == 0);
    assert(csv_step(names, st.1, 0x2c).0 is None);
    assert(csv_stream(names, false, st.1, 0x2c).0 =~= Seq::<RecordV>::empty());
    assert(csv_stream(names, false, st.1, 0x2c).1 == StreamEnd::Clean);
    assert(csv_stream(names, false, seq![line], 0x2c).0 =~= seq![r]);
    assert(csv_stream(names, false, seq![line], 0x2c).1 == StreamEnd::Clean);
}

/// One of the eight field names.
pub open spec fn is_field_name(name: Seq<u8>) -> bool {
    ||| name == fields::tx_id_name()
    ||| name == fields::tx_type_name()
    ||| name == fields::status_name()
    ||| name == fields::from_user_name()
    ||| name == fields::to_user_name()
    ||| name == fields::timestamp_name()
    ||| name == fields::amount_name()
    ||| name == fields::description_name()
}

/// Per-field round trip under any column position: rendering any of the
/// eight fields and parsing the result back under the same name yields
/// exactly `r`'s value for that field, whatever order the header puts
/// the names in.
#[verifier::rlimit(100)]
#[verifier::spinoff_prover]
pub proof fn lemma_csv_field_round_trip(name: Seq<u8>, r: RecordV)
    requires
        is_field_name(name),
    ensures
        csv_render_field(name, r) matches Ok(p) && (text_field_value(name, p) matches Ok(fv)
            && is_field_of(fv, r)),
{
    crate::fields::lemma_name_bytes_distinct();
    crate::numeric::lemma_u64_decimal_props(r.tx_id as nat);
    crate::numeric::lemma_u64_decimal_props(r.from_user as nat);
    crate::numeric::lemma_u64_decimal_props(r.to_user as nat);
    crate::numeric::lemma_u64_decimal_props(r.timestamp as nat);
    crate::numeric::lemma_u64_decimal_props(r.amount as nat);
    if name == fields::tx_id_name() {
        assert(csv_render_field(name, r) == Ok::<Seq<u8>, ()>(u64_decimal(r.tx_id as nat)));
        assert(text_field_value(name, u64_decimal(r.tx_id as nat)) == Ok::<FieldValueV, Seq<char>>(FieldValueV::TxId(r.tx_id)));
    } else if name == fields::tx_type_name() {
        assert(csv_render_field(name, r) == Ok::<Seq<u8>, ()>(tx_type_text(r.tx_type)));
        assert(text_field_value(name, tx_type_text(r.tx_type)) == Ok::<FieldValueV, Seq<char>>(FieldValueV::TxType(r.tx_type)));
    } else if name == fields::status_name() {
        assert(csv_render_field(name, r) == Ok::<Seq<u8>, ()>(status_text(r.status)));
        assert(text_field_value(name, status_text(r.status)) == Ok::<FieldValueV, Seq<char>>(FieldValueV::Status(r.status)));
    } else if name == fields::from_user_name() {
        assert(csv_render_field(name, r) == Ok::<Seq<u8>, ()>(u64_decimal(r.from_user as nat)));
        assert(text_field_value(name, u64_decimal(r.from_user as nat)) == Ok::<FieldValueV, Seq<char>>(FieldValueV::FromUser(r.from_user)));
    } else if name == fields::to_user_name() {
        assert(csv_render_field(name, r) == Ok::<Seq<u8>, ()>(u64_decimal(r.to_user as nat)));
        assert(text_field_value(name, u64_decimal(r.to_user as nat)) == Ok::<FieldValueV, Seq<char>>(FieldValueV::ToUser(r.to_user)));
    } else if name == fields::timestamp_name() {
        assert(csv_render_field(name, r) == Ok::<Seq<u8>, ()>(u64_decimal(r.timestamp as nat)));
        assert(text_field_value(name, u64_decimal(r.timestamp as nat)) == Ok::<FieldValueV, Seq<char>>(FieldValueV::Timestamp(r.timestamp)));
    } else if name == fields::amount_name() {
        assert(csv_render_field(name, r) == Ok::<Seq<u8>, ()>(u64_decimal(r.amount as nat)));
        assert(text_field_value(name, u64_decimal(r.amount as nat)) == Ok::<FieldValueV, Seq<char>>(FieldValueV::Amount(r.amount)));
    } else if name == fields::description_name() {
        assert(csv_render_field(name, r) == Ok::<Seq<u8>, ()>(r.description));
        assert(text_field_value(name, r.description) == Ok::<FieldValueV, Seq<char>>(FieldValueV::Description(r.description)));
    } else {
    }
}

} // verus!
