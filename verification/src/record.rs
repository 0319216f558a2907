//! The canonical record model: the eight-field `Record`, the transient
//! `FieldValue` produced while parsing, the per-field text parsing rules,
//! and the traits the format codecs implement.

use vstd::prelude::*;
use vstd::slice::slice_to_vec;
use vstd::string::StringSliceAdditionalSpecFns;

use crate::bytestr::{bytes_eq, find_byte};
use crate::error::{
    produce_error_kind, FieldParseError, ProduceErrV, RecordProduceError, RecordReadError,
    RecordSerializeError, RecordWriteError,
};
use crate::fields;
use crate::numeric::{dec_digits, dec_value, is_u64_decimal, parse_u64_decimal, u64_decimal, u64_to_decimal};
use crate::result::{RecordProduceResult, RecordSerializeResult};

verus! {

/// The transaction type of a record.
#[derive(Clone, Copy, Debug, PartialEq, Eq, Structural)]
pub enum TxType {
    DEPOSIT,
    TRANSFER,
    WITHDRAWAL,
}

/// The status of a record.
#[derive(Clone, Copy, Debug, PartialEq, Eq, Structural)]
pub enum Status {
    SUCCESS,
    FAILURE,
    PENDING,
}

/// The wire byte of a transaction type.
pub open spec fn tx_type_byte(t: TxType) -> u8 {
    match t {
        TxType::DEPOSIT => 0,
        TxType::TRANSFER => 1,
        TxType::WITHDRAWAL => 2,
    }
}

/// The transaction type a wire byte denotes, if any.
pub open spec fn tx_type_from_byte(b: u8) -> Option<TxType> {
    if b == 0 {
        Some(TxType::DEPOSIT)
    } else if b == 1 {
        Some(TxType::TRANSFER)
    } else if b == 2 {
        Some(TxType::WITHDRAWAL)
    } else {
        None
    }
}

/// The text rendering of a transaction type, as bytes.
pub open spec fn tx_type_text(t: TxType) -> Seq<u8> {
    match t {
        TxType::DEPOSIT => "DEPOSIT".spec_bytes(),
        TxType::TRANSFER => "TRANSFER".spec_bytes(),
        TxType::WITHDRAWAL => "WITHDRAWAL".spec_bytes(),
    }
}

/// The transaction type a text rendering denotes, if any.
pub open spec fn tx_type_from_text(s: Seq<u8>) -> Option<TxType> {
    if s == "DEPOSIT".spec_bytes() {
        Some(TxType::DEPOSIT)
    } else if s == "TRANSFER".spec_bytes() {
        Some(TxType::TRANSFER)
    } else if s == "WITHDRAWAL".spec_bytes() {
        Some(TxType::WITHDRAWAL)
    } else {
        None
    }
}

/// The wire byte of a status.
pub open spec fn status_byte(s: Status) -> u8 {
    match s {
        Status::SUCCESS => 0,
        Status::FAILURE => 1,
        Status::PENDING => 2,
    }
}

/// The status a wire byte denotes, if any.
pub open spec fn status_from_byte(b: u8) -> Option<Status> {
    if b == 0 {
        Some(Status::SUCCESS)
    } else if b == 1 {
        Some(Status::FAILURE)
    } else if b == 2 {
        Some(Status::PENDING)
    } else {
        None
    }
}

/// The text rendering of a status, as bytes.
pub open spec fn status_text(s: Status) -> Seq<u8> {
    match s {
        Status::SUCCESS => "SUCCESS".spec_bytes(),
        Status::FAILURE => "FAILURE".spec_bytes(),
        Status::PENDING => "PENDING".spec_bytes(),
    }
}

/// The status a text rendering denotes, if any.
pub open spec fn status_from_text(s: Seq<u8>) -> Option<Status> {
    if s == "SUCCESS".spec_bytes() {
        Some(Status::SUCCESS)
    } else if s == "FAILURE".spec_bytes() {
        Some(Status::FAILURE)
    } else if s == "PENDING".spec_bytes() {
        Some(Status::PENDING)
    } else {
        None
    }
}

impl TxType {
    /// The wire byte of this transaction type.
    pub fn to_byte(&self) -> (r: u8)
        ensures
            r == tx_type_byte(*self),
    {
        match self {
            TxType::DEPOSIT => 0,
            TxType::TRANSFER => 1,
            TxType::WITHDRAWAL => 2,
        }
    }

    /// The transaction type of a wire byte, or an error for an unknown byte.
    pub fn from_byte(b: u8) -> (r: Result<TxType, String>)
        ensures
            match r {
                Ok(t) => tx_type_from_byte(b) == Some(t),
                Err(m) => tx_type_from_byte(b) is None && m@ == "couldn't convert byte to tx_type"@,
            },
    {
        match b {
            0 => Ok(TxType::DEPOSIT),
            1 => Ok(TxType::TRANSFER),
            2 => Ok(TxType::WITHDRAWAL),
            _ => Err("couldn't convert byte to tx_type".to_owned()),
        }
    }

    /// The text rendering of this transaction type.
    pub fn to_text(&self) -> (r: &'static str)
        ensures
            r.spec_bytes() == tx_type_text(*self),
    {
        match self {
            TxType::DEPOSIT => "DEPOSIT",
            TxType::TRANSFER => "TRANSFER",
            TxType::WITHDRAWAL => "WITHDRAWAL",
        }
    }

    /// The transaction type a text rendering denotes, or an error.
    pub fn from_text(s: &[u8]) -> (r: Result<TxType, String>)
        ensures
            match r {
                Ok(t) => tx_type_from_text(s@) == Some(t),
                Err(m) => tx_type_from_text(s@) is None && m@ == "invalid TxType"@,
            },
    {
        if bytes_eq(s, "DEPOSIT".as_bytes()) {
            Ok(TxType::DEPOSIT)
        } else if bytes_eq(s, "TRANSFER".as_bytes()) {
            Ok(TxType::TRANSFER)
        } else if bytes_eq(s, "WITHDRAWAL".as_bytes()) {
            Ok(TxType::WITHDRAWAL)
        } else {
            Err("invalid TxType".to_owned())
        }
    }
}

impl Status {
    /// The wire byte of this status.
    pub fn to_byte(&self) -> (r: u8)
        ensures
            r == status_byte(*self),
    {
        match self {
            Status::SUCCESS => 0,
            Status::FAILURE => 1,
            Status::PENDING => 2,
        }
    }

    /// The status of a wire byte, or an error for an unknown byte.
    pub fn from_byte(b: u8) -> (r: Result<Status, String>)
        ensures
            match r {
                Ok(s) => status_from_byte(b) == Some(s),
                Err(m) => status_from_byte(b) is None && m@ == "couldn't convert status to byte"@,
            },
    {
        match b {
            0 => Ok(Status::SUCCESS),
            1 => Ok(Status::FAILURE),
            2 => Ok(Status::PENDING),
            _ => Err("couldn't convert status to byte".to_owned()),
        }
    }

    /// The text rendering of this status.
    pub fn to_text(&self) -> (r: &'static str)
        ensures
            r.spec_bytes() == status_text(*self),
    {
        match self {
            Status::SUCCESS => "SUCCESS",
            Status::FAILURE => "FAILURE",
            Status::PENDING => "PENDING",
        }
    }

    /// The status a text rendering denotes, or an error.
    pub fn from_text(s: &[u8]) -> (r: Result<Status, String>)
        ensures
            match r {
                Ok(t) => status_from_text(s@) == Some(t),
                Err(m) => status_from_text(s@) is None && m@ == "unknown status"@,
            },
    {
        if bytes_eq(s, "SUCCESS".as_bytes()) {
            Ok(Status::SUCCESS)
        } else if bytes_eq(s, "FAILURE".as_bytes()) {
            Ok(Status::FAILURE)
        } else if bytes_eq(s, "PENDING".as_bytes()) {
            Ok(Status::PENDING)
        } else {
            Err("unknown status".to_owned())
        }
    }
}

/// A typed value for exactly one record attribute, produced during
/// parsing and consumed into the record under assembly.
#[derive(Debug)]
pub enum FieldValue {
    TxId(u64),
    TxType(TxType),
    Status(Status),
    FromUser(u64),
    ToUser(u64),
    Timestamp(u64),
    Amount(u64),
    Description(Vec<u8>),
}

/// The mathematical value of a [`FieldValue`].
pub ghost enum FieldValueV {
    TxId(u64),
    TxType(TxType),
    Status(Status),
    FromUser(u64),
    ToUser(u64),
    Timestamp(u64),
    Amount(u64),
    Description(Seq<u8>),
}

impl DeepView for FieldValue {
    type V = FieldValueV;

    open spec fn deep_view(&self) -> FieldValueV {
        self.view()
    }
}

impl View for FieldValue {
    type V = FieldValueV;

    open spec fn view(&self) -> FieldValueV {
        match self {
            FieldValue::TxId(v) => FieldValueV::TxId(*v),
            FieldValue::TxType(v) => FieldValueV::TxType(*v),
            FieldValue::Status(v) => FieldValueV::Status(*v),
            FieldValue::FromUser(v) => FieldValueV::FromUser(*v),
            FieldValue::ToUser(v) => FieldValueV::ToUser(*v),
            FieldValue::Timestamp(v) => FieldValueV::Timestamp(*v),
            FieldValue::Amount(v) => FieldValueV::Amount(*v),
            FieldValue::Description(v) => FieldValueV::Description(v@),
        }
    }
}

/// The canonical eight-field transaction entity, immutable once
/// constructed. The description holds the raw bytes of the field's text.
#[derive(Debug)]
pub struct Record {
    pub tx_id: u64,
    pub tx_type: TxType,
    pub from_user: u64,
    pub to_user: u64,
    pub amount: u64,
    pub timestamp: u64,
    pub status: Status,
    pub description: Vec<u8>,
}

/// The mathematical value of a [`Record`].
#[verifier::ext_equal]
pub ghost struct RecordV {
    pub tx_id: u64,
    pub tx_type: TxType,
    pub from_user: u64,
    pub to_user: u64,
    pub amount: u64,
    pub timestamp: u64,
    pub status: Status,
    pub description: Seq<u8>,
}

impl View for Record {
    type V = RecordV;

    open spec fn view(&self) -> RecordV {
        RecordV {
            tx_id: self.tx_id,
            tx_type: self.tx_type,
            from_user: self.from_user,
            to_user: self.to_user,
            amount: self.amount,
            timestamp: self.timestamp,
            status: self.status,
            description: self.description@,
        }
    }
}

impl PartialEq for Record {
    /// Value equality: all eight fields equal.
    fn eq(&self, other: &Record) -> (r: bool) {
        let r = self.tx_id == other.tx_id && self.tx_type == other.tx_type && self.from_user
            == other.from_user && self.to_user == other.to_user && self.amount == other.amount
            && self.timestamp == other.timestamp && self.status == other.status && bytes_eq(
            self.description.as_slice(),
            other.description.as_slice(),
        );
        proof {
            if r {
                assert(self@ =~= other@);
            }
        }
        r
    }
}

impl vstd::std_specs::cmp::PartialEqSpecImpl for Record {
    open spec fn obeys_eq_spec() -> bool {
        true
    }

    open spec fn eq_spec(&self, other: &Record) -> bool {
        self@ == other@
    }
}

impl Record {
    /// Builds a record out of its eight field values.
    pub fn new(
        tx_id: u64,
        tx_type: TxType,
        from_user: u64,
        to_user: u64,
        amount: u64,
        timestamp: u64,
        status: Status,
        description: Vec<u8>,
    ) -> (r: Record)
        ensures
            r@ == (RecordV {
                tx_id,
                tx_type,
                from_user,
                to_user,
                amount,
                timestamp,
                status,
                description: description@,
            }),
    {
        Record { tx_id, tx_type, from_user, to_user, amount, timestamp, status, description }
    }
}

/// The diagnostic rendering of a record: its eight fields between
/// braces, in the order tx_id, tx_type, status, from_user, to_user,
/// timestamp, amount, description.
pub open spec fn record_render(r: RecordV) -> Seq<u8> {
    "{ ".spec_bytes() + u64_decimal(r.tx_id as nat) + ", ".spec_bytes() + tx_type_text(r.tx_type)
        + ", ".spec_bytes() + status_text(r.status) + ", ".spec_bytes() + u64_decimal(
        r.from_user as nat,
    ) + ", ".spec_bytes() + u64_decimal(r.to_user as nat) + ", ".spec_bytes() + u64_decimal(
        r.timestamp as nat,
    ) + ", ".spec_bytes() + u64_decimal(r.amount as nat) + ", ".spec_bytes() + r.description
        + " }".spec_bytes()
}

impl Record {
    /// Renders this record for diagnostic output, as the bytes of its
    /// human-readable text; the description's bytes appear as they are.
    pub fn render(&self) -> (r: Vec<u8>)
        ensures
            r@ == record_render(self@),
    {
        let mut out: Vec<u8> = Vec::new();
        out.extend_from_slice("{ ".as_bytes());
        out.extend_from_slice(u64_to_decimal(self.tx_id).as_slice());
        out.extend_from_slice(", ".as_bytes());
        out.extend_from_slice(self.tx_type.to_text().as_bytes());
        out.extend_from_slice(", ".as_bytes());
        out.extend_from_slice(self.status.to_text().as_bytes());
        out.extend_from_slice(", ".as_bytes());
        out.extend_from_slice(u64_to_decimal(self.from_user).as_slice());
        out.extend_from_slice(", ".as_bytes());
        out.extend_from_slice(u64_to_decimal(self.to_user).as_slice());
        out.extend_from_slice(", ".as_bytes());
        out.extend_from_slice(u64_to_decimal(self.timestamp).as_slice());
        out.extend_from_slice(", ".as_bytes());
        out.extend_from_slice(u64_to_decimal(self.amount).as_slice());
        out.extend_from_slice(", ".as_bytes());
        out.extend_from_slice(self.description.as_slice());
        out.extend_from_slice(" }".as_bytes());
        proof {
            assert(out@ =~= record_render(self@));
        }
        out
    }
}

impl Default for Record {
    /// The record of all-zero numbers, a deposit pending with an empty
    /// description.
    fn default() -> (r: Record)
        ensures
            r.tx_id == 0,
            r.tx_type == TxType::DEPOSIT,
            r.from_user == 0,
            r.to_user == 0,
            r.amount == 0,
            r.timestamp == 0,
            r.status == Status::PENDING,
            r.description@ == Seq::<u8>::empty(),
    {
        let r = Record {
            tx_id: 0,
            tx_type: TxType::DEPOSIT,
            from_user: 0,
            to_user: 0,
            amount: 0,
            timestamp: 0,
            status: Status::PENDING,
            description: Vec::new(),
        };
        r
    }
}

/// The eight slots a record is assembled from, each possibly still unset.
pub ghost struct Slots {
    pub tx_id: Option<u64>,
    pub tx_type: Option<TxType>,
    pub from_user: Option<u64>,
    pub to_user: Option<u64>,
    pub amount: Option<u64>,
    pub timestamp: Option<u64>,
    pub status: Option<Status>,
    pub description: Option<Seq<u8>>,
}

/// Folds a sequence of field values into the eight named slots; a later
/// occurrence of a field overwrites an earlier one.
pub open spec fn fold_slots(vs: Seq<FieldValueV>) -> Slots
    decreases vs.len(),
{
    if vs.len() == 0 {
        Slots {
            tx_id: None,
            tx_type: None,
            from_user: None,
            to_user: None,
            amount: None,
            timestamp: None,
            status: None,
            description: None,
        }
    } else {
        let s = fold_slots(vs.drop_last());
        match vs.last() {
            FieldValueV::TxId(v) => Slots { tx_id: Some(v), ..s },
            FieldValueV::TxType(v) => Slots { tx_type: Some(v), ..s },
            FieldValueV::Status(v) => Slots { status: Some(v), ..s },
            FieldValueV::FromUser(v) => Slots { from_user: Some(v), ..s },
            FieldValueV::ToUser(v) => Slots { to_user: Some(v), ..s },
            FieldValueV::Timestamp(v) => Slots { timestamp: Some(v), ..s },
            FieldValueV::Amount(v) => Slots { amount: Some(v), ..s },
            FieldValueV::Description(v) => Slots { description: Some(v), ..s },
        }
    }
}

/// The record a sequence of field values assembles into, or the message
/// naming the first missing field.
pub open spec fn record_from_fields(vs: Seq<FieldValueV>) -> Result<RecordV, Seq<char>> {
    let s = fold_slots(vs);
    if s.tx_id is None {
        Err("missing field tx_id"@)
    } else if s.tx_type is None {
        Err("missing field tx_type"@)
    } else if s.from_user is None {
        Err("missing field from_user"@)
    } else if s.to_user is None {
        Err("missing field to_user"@)
    } else if s.amount is None {
        Err("missing field amount"@)
    } else if s.timestamp is None {
        Err("missing field timestamp"@)
    } else if s.status is None {
        Err("missing field status"@)
    } else if s.description is None {
        Err("missing field description"@)
    } else {
        Ok(
            RecordV {
                tx_id: s.tx_id->0,
                tx_type: s.tx_type->0,
                from_user: s.from_user->0,
                to_user: s.to_user->0,
                amount: s.amount->0,
                timestamp: s.timestamp->0,
                status: s.status->0,
                description: s.description->0,
            },
        )
    }
}

impl Record {
    /// Assembles a record out of parsed field values; fails, naming the
    /// first missing field, unless every slot gets set.
    pub fn from_fields(values: Vec<FieldValue>) -> (r: Result<Record, String>)
        ensures
            match r {
                Ok(rec) => record_from_fields(values.deep_view()) == Ok::<RecordV, Seq<char>>(
                    rec@,
                ),
                Err(m) => record_from_fields(values.deep_view()) matches Err(t) && m@ == t,
            },
    {
        let mut tx_id: Option<u64> = None;
        let mut tx_type: Option<TxType> = None;
        let mut from_user: Option<u64> = None;
        let mut to_user: Option<u64> = None;
        let mut amount: Option<u64> = None;
        let mut timestamp: Option<u64> = None;
        let mut status: Option<Status> = None;
        let mut description: Option<Vec<u8>> = None;
        let mut i: usize = 0;
        while i < values.len()
            invariant
                0 <= i <= values@.len(),
                tx_id == fold_slots(values.deep_view().take(i as int)).tx_id,
                tx_type == fold_slots(values.deep_view().take(i as int)).tx_type,
                from_user == fold_slots(values.deep_view().take(i as int)).from_user,
                to_user == fold_slots(values.deep_view().take(i as int)).to_user,
                amount == fold_slots(values.deep_view().take(i as int)).amount,
                timestamp == fold_slots(values.deep_view().take(i as int)).timestamp,
                status == fold_slots(values.deep_view().take(i as int)).status,
                (description is Some) == (fold_slots(
                    values.deep_view().take(i as int),
                ).description is Some),
                description matches Some(d) ==> fold_slots(
                    values.deep_view().take(i as int),
                ).description == Some(d@),
            decreases values@.len() - i,
        {
            proof {
                let dv = values.deep_view();
                assert(dv.take(i + 1).drop_last() =~= dv.take(i as int));
                assert(dv.take(i + 1).last() == values@[i as int]@);
            }
            match &values[i] {
                FieldValue::TxId(v) => {
                    tx_id = Some(*v);
                },
                FieldValue::TxType(v) => {
                    tx_type = Some(*v);
                },
                FieldValue::Status(v) => {
                    status = Some(*v);
                },
                FieldValue::FromUser(v) => {
                    from_user = Some(*v);
                },
                FieldValue::ToUser(v) => {
                    to_user = Some(*v);
                },
                FieldValue::Timestamp(v) => {
                    timestamp = Some(*v);
                },
                FieldValue::Amount(v) => {
                    amount = Some(*v);
                },
                FieldValue::Description(v) => {
                    description = Some(slice_to_vec(v.as_slice()));
                },
            }
            i += 1;
        }
        proof {
            assert(values.deep_view().take(values@.len() as int) =~= values.deep_view());
        }
        let tx_id = match tx_id {
            Some(v) => v,
            None => {
                return Err("missing field tx_id".to_owned());
            },
        };
        let tx_type = match tx_type {
            Some(v) => v,
            None => {
                return Err("missing field tx_type".to_owned());
            },
        };
        let from_user = match from_user {
            Some(v) => v,
            None => {
                return Err("missing field from_user".to_owned());
            },
        };
        let to_user = match to_user {
            Some(v) => v,
            None => {
                return Err("missing field to_user".to_owned());
            },
        };
        let amount = match amount {
            Some(v) => v,
            None => {
                return Err("missing field amount".to_owned());
            },
        };
        let timestamp = match timestamp {
            Some(v) => v,
            None => {
                return Err("missing field timestamp".to_owned());
            },
        };
        let status = match status {
            Some(v) => v,
            None => {
                return Err("missing field status".to_owned());
            },
        };
        let description = match description {
            Some(v) => v,
            None => {
                return Err("missing field description".to_owned());
            },
        };
        let rec = Record {
            tx_id,
            tx_type,
            from_user,
            to_user,
            amount,
            timestamp,
            status,
            description,
        };
        proof {
            assert(record_from_fields(values.deep_view()) matches Ok(v) && v =~= rec@);
        }
        Ok(rec)
    }
}

/// A field value that carries one of `r`'s eight attributes.
pub open spec fn is_field_of(fv: FieldValueV, r: RecordV) -> bool {
    ||| fv == FieldValueV::TxId(r.tx_id)
    ||| fv == FieldValueV::TxType(r.tx_type)
    ||| fv == FieldValueV::Status(r.status)
    ||| fv == FieldValueV::FromUser(r.from_user)
    ||| fv == FieldValueV::ToUser(r.to_user)
    ||| fv == FieldValueV::Timestamp(r.timestamp)
    ||| fv == FieldValueV::Amount(r.amount)
    ||| fv == FieldValueV::Description(r.description)
}

/// Folding field values of `r` fills exactly the slots of the variants
/// present, each with `r`'s value for it.
proof fn lemma_fold_slots_of(vs: Seq<FieldValueV>, r: RecordV)
    requires
        forall|i: int| 0 <= i < vs.len() ==> is_field_of(#[trigger] vs[i], r),
    ensures
        fold_slots(vs).tx_id == (if exists|i: int|
            0 <= i < vs.len() && (#[trigger] vs[i]) is TxId {
            Some(r.tx_id)
        } else {
            None::<u64>
        }),
        fold_slots(vs).tx_type == (if exists|i: int|
            0 <= i < vs.len() && (#[trigger] vs[i]) is TxType {
            Some(r.tx_type)
        } else {
            None::<TxType>
        }),
        fold_slots(vs).status == (if exists|i: int|
            0 <= i < vs.len() && (#[trigger] vs[i]) is Status {
            Some(r.status)
        } else {
            None::<Status>
        }),
        fold_slots(vs).from_user == (if exists|i: int|
            0 <= i < vs.len() && (#[trigger] vs[i]) is FromUser {
            Some(r.from_user)
        } else {
            None::<u64>
        }),
        fold_slots(vs).to_user == (if exists|i: int|
            0 <= i < vs.len() && (#[trigger] vs[i]) is ToUser {
            Some(r.to_user)
        } else {
            None::<u64>
        }),
        fold_slots(vs).timestamp == (if exists|i: int|
            0 <= i < vs.len() && (#[trigger] vs[i]) is Timestamp {
            Some(r.timestamp)
        } else {
            None::<u64>
        }),
        fold_slots(vs).amount == (if exists|i: int|
            0 <= i < vs.len() && (#[trigger] vs[i]) is Amount {
            Some(r.amount)
        } else {
            None::<u64>
        }),
        fold_slots(vs).description == (if exists|i: int|
            0 <= i < vs.len() && (#[trigger] vs[i]) is Description {
            Some(r.description)
        } else {
            None::<Seq<u8>>
        }),
    decreases vs.len(),
{
    if vs.len() > 0 {
        let head = vs.drop_last();
        assert(forall|i: int| 0 <= i < head.len() ==> head[i] == vs[i]);
        lemma_fold_slots_of(head, r);
        assert(vs[vs.len() - 1] == vs.last());
        assert(forall|i: int|
            0 <= i < vs.len() - 1 ==> #[trigger] vs[i] == head[i]);
    }
}

/// Assembly is order-blind: any sequence of field values that all carry
/// `r`'s attributes and that covers every one of the eight fields — in
/// whatever order, with repetitions allowed — assembles into exactly
/// `r`.
pub proof fn lemma_from_fields_any_order(vs: Seq<FieldValueV>, r: RecordV)
    requires
        forall|i: int| 0 <= i < vs.len() ==> is_field_of(#[trigger] vs[i], r),
        exists|i: int| 0 <= i < vs.len() && (#[trigger] vs[i]) is TxId,
        exists|i: int| 0 <= i < vs.len() && (#[trigger] vs[i]) is TxType,
        exists|i: int| 0 <= i < vs.len() && (#[trigger] vs[i]) is Status,
        exists|i: int| 0 <= i < vs.len() && (#[trigger] vs[i]) is FromUser,
        exists|i: int| 0 <= i < vs.len() && (#[trigger] vs[i]) is ToUser,
        exists|i: int| 0 <= i < vs.len() && (#[trigger] vs[i]) is Timestamp,
        exists|i: int| 0 <= i < vs.len() && (#[trigger] vs[i]) is Amount,
        exists|i: int| 0 <= i < vs.len() && (#[trigger] vs[i]) is Description,
    ensures
        record_from_fields(vs) == Ok::<RecordV, Seq<char>>(r),
{
    lemma_fold_slots_of(vs, r);
    assert(record_from_fields(vs) is Ok);
    assert(record_from_fields(vs)->Ok_0 =~= r);
}

/// A raw (name, value) pair not yet resolved to a typed field value.
#[derive(Debug)]
pub struct Field<F, V> {
    pub name: F,
    pub value: V,
}

impl<F, V> Field<F, V> {
    /// Pairs a raw field name with a raw value.
    pub fn new(name: F, value: V) -> (r: Field<F, V>)
        ensures
            r.name == name,
            r.value == value,
    {
        Field { name, value }
    }
}

/// The typed value a raw text field resolves to, or the message of the
/// parse failure. An unrecognized name is always an error.
pub open spec fn text_field_value(name: Seq<u8>, value: Seq<u8>) -> Result<FieldValueV, Seq<char>> {
    if name == fields::tx_id_name() {
        if is_u64_decimal(value) {
            Ok(FieldValueV::TxId(dec_value(dec_digits(value)) as u64))
        } else {
            Err("failed to parse tx_id"@)
        }
    } else if name == fields::tx_type_name() {
        match tx_type_from_text(value) {
            Some(t) => Ok(FieldValueV::TxType(t)),
            None => Err("failed to parse tx_type"@),
        }
    } else if name == fields::status_name() {
        match status_from_text(value) {
            Some(s) => Ok(FieldValueV::Status(s)),
            None => Err("failed to parse status"@),
        }
    } else if name == fields::from_user_name() {
        if is_u64_decimal(value) {
            Ok(FieldValueV::FromUser(dec_value(dec_digits(value)) as u64))
        } else {
            Err("failed to parse from_user"@)
        }
    } else if name == fields::to_user_name() {
        if is_u64_decimal(value) {
            Ok(FieldValueV::ToUser(dec_value(dec_digits(value)) as u64))
        } else {
            Err("failed to parse to_user"@)
        }
    } else if name == fields::amount_name() {
        if is_u64_decimal(value) {
            Ok(FieldValueV::Amount(dec_value(dec_digits(value)) as u64))
        } else {
            Err("failed to parse amount"@)
        }
    } else if name == fields::timestamp_name() {
        if is_u64_decimal(value) {
            Ok(FieldValueV::Timestamp(dec_value(dec_digits(value)) as u64))
        } else {
            Err("failed to parse timestamp"@)
        }
    } else if name == fields::description_name() {
        Ok(FieldValueV::Description(value))
    } else {
        Err("unknown field"@)
    }
}

impl<'a> Field<&'a [u8], &'a [u8]> {
    /// Resolves a raw text field to its typed value, by the per-field
    /// rules keyed on the field name constants.
    pub fn parse(&self) -> (r: Result<FieldValue, FieldParseError>)
        ensures
            match (r, text_field_value(self.name@, self.value@)) {
                (Ok(fv), Ok(v)) => fv@ == v,
                (Err(e), Err(m)) => e.text@ == m,
                _ => false,
            },
    {
        if bytes_eq(self.name, fields::TX_ID.as_bytes()) {
            match parse_u64_decimal(self.value) {
                Some(v) => Ok(FieldValue::TxId(v)),
                None => Err(
                    FieldParseError {
                        text: "failed to parse tx_id".to_owned(),
                        source: Some("invalid unsigned decimal".to_owned()),
                    },
                ),
            }
        } else if bytes_eq(self.name, fields::TX_TYPE.as_bytes()) {
            match TxType::from_text(self.value) {
                Ok(t) => Ok(FieldValue::TxType(t)),
                Err(m) => Err(
                    FieldParseError {
                        text: "failed to parse tx_type".to_owned(),
                        source: Some(m),
                    },
                ),
            }
        } else if bytes_eq(self.name, fields::STATUS.as_bytes()) {
            match Status::from_text(self.value) {
                Ok(s) => Ok(FieldValue::Status(s)),
                Err(m) => Err(
                    FieldParseError { text: "failed to parse status".to_owned(), source: Some(m) },
                ),
            }
        } else if bytes_eq(self.name, fields::FROM_USER.as_bytes()) {
            match parse_u64_decimal(self.value) {
                Some(v) => Ok(FieldValue::FromUser(v)),
                None => Err(
                    FieldParseError {
                        text: "failed to parse from_user".to_owned(),
                        source: Some("invalid unsigned decimal".to_owned()),
                    },
                ),
            }
        } else if bytes_eq(self.name, fields::TO_USER.as_bytes()) {
            match parse_u64_decimal(self.value) {
                Some(v) => Ok(FieldValue::ToUser(v)),
                None => Err(
                    FieldParseError {
                        text: "failed to parse to_user".to_owned(),
                        source: Some("invalid unsigned decimal".to_owned()),
                    },
                ),
            }
        } else if bytes_eq(self.name, fields::AMOUNT.as_bytes()) {
            match parse_u64_decimal(self.value) {
                Some(v) => Ok(FieldValue::Amount(v)),
                None => Err(
                    FieldParseError {
                        text: "failed to parse amount".to_owned(),
                        source: Some("invalid unsigned decimal".to_owned()),
                    },
                ),
            }
        } else if bytes_eq(self.name, fields::TIMESTAMP.as_bytes()) {
            match parse_u64_decimal(self.value) {
                Some(v) => Ok(FieldValue::Timestamp(v)),
                None => Err(
                    FieldParseError {
                        text: "failed to parse timestamp".to_owned(),
                        source: Some("invalid unsigned decimal".to_owned()),
                    },
                ),
            }
        } else if bytes_eq(self.name, fields::DESCRIPTION.as_bytes()) {
            Ok(FieldValue::Description(slice_to_vec(self.value)))
        } else {
            Err(FieldParseError { text: "unknown field".to_owned(), source: None })
        }
    }
}

/// A raw unit of data pulled from a byte source, not yet interpreted.
pub struct Data<T>(pub T);

impl<T> Data<T> {
    /// Wraps one raw unit.
    pub fn new(value: T) -> (r: Data<T>)
        ensures
            r.0 == value,
    {
        Data(value)
    }
}

/// The typed value a `NAME: value` text line resolves to, or the message
/// of the failure. The line splits on its first colon; one space after
/// the colon is trimmed.
pub open spec fn txt_line_field(s: Seq<u8>) -> Result<FieldValueV, Seq<char>> {
    let i = find_byte(s, 0x3a);
    if i == s.len() {
        Err("no delimiter found"@)
    } else {
        let name = s.take(i as int);
        let after = s.skip(i + 1 as int);
        let value = if after.len() > 0 && after[0] == 0x20 {
            after.drop_first()
        } else {
            after
        };
        text_field_value(name, value)
    }
}

impl FieldValue {
    /// Resolves one `NAME: value` text line to its typed field value.
    pub fn from_line(data: Data<Vec<u8>>) -> (r: Result<FieldValue, FieldParseError>)
        ensures
            match (r, txt_line_field(data.0@)) {
                (Ok(fv), Ok(v)) => fv@ == v,
                (Err(e), Err(m)) => e.text@ == m,
                _ => false,
            },
    {
        let bytes = data.0.as_slice();
        proof {
            assert(bytes@.skip(0) =~= bytes@);
        }
        let i = crate::bytestr::find_from(bytes, 0, 0x3a);
        if i == bytes.len() {
            return Err(FieldParseError { text: "no delimiter found".to_owned(), source: None });
        }
        let name = &bytes[0..i];
        let after = &bytes[i + 1..bytes.len()];
        proof {
            assert(name@ =~= bytes@.take(i as int));
            assert(after@ =~= bytes@.skip(i + 1 as int));
        }
        let value = if after.len() > 0 && after[0] == 0x20 {
            let v = &after[1..after.len()];
            proof {
                assert(v@ =~= after@.drop_first());
            }
            v
        } else {
            after
        };
        Field::new(name, value).parse()
    }
}

/// How a record stream ends once its records are exhausted: cleanly, or
/// with a produce failure of the given stage.
pub ghost enum StreamEnd {
    Clean,
    Failed(ProduceErrV),
}

/// What one produce call must do, given the stream before and after it:
/// yield the first pending record, or surface the stream's failure, or
/// signal clean end of stream exactly when nothing is pending — and then
/// stay at the clean end, so exhaustion is permanent.
pub open spec fn produce_post(
    before: (Seq<RecordV>, StreamEnd),
    after: (Seq<RecordV>, StreamEnd),
    r: Option<Result<Record, RecordProduceError>>,
) -> bool {
    match r {
        None => before.0.len() == 0 && before.1 is Clean && after.0.len() == 0
            && after.1 is Clean,
        Some(res) => match res {
            Ok(rec) => before.0.len() > 0 && rec@ == before.0.first() && after.0
                == before.0.drop_first() && after.1 == before.1,
            Err(e) => before.0.len() == 0 && (before.1 matches StreamEnd::Failed(k)
                && produce_error_kind(e) == k),
        },
    }
}

/// Exhaustion: a produce call signals end of stream, rather than a
/// record or an error, exactly when the stream has no record pending and
/// ends cleanly; and after the signal the stream is still at the clean
/// end, so every later call signals end of stream again. In particular,
/// reading past the last record of a well-formed stream yields the
/// end-of-stream signal, never an error, and keeps yielding it.
pub proof fn lemma_produce_exhaustion(
    before: (Seq<RecordV>, StreamEnd),
    after: (Seq<RecordV>, StreamEnd),
    r: Option<Result<Record, RecordProduceError>>,
)
    requires
        produce_post(before, after, r),
    ensures
        (r is None) <==> (before.0.len() == 0 && before.1 is Clean),
        r is None ==> after.0.len() == 0 && after.1 is Clean,
{
}

/// A source of raw per-record units: one byte body, one text line, or one
/// split field row, depending on the codec.
pub trait DataConsumer {
    type Item;

    /// Pulls the next raw unit, `None` at end of stream.
    fn read(&mut self) -> Option<Result<Self::Item, RecordReadError>>;
}

/// A source of parsed records.
pub trait DataProducer {
    /// The records this producer will still yield, in order, and how its
    /// stream ends after them.
    spec fn stream(&self) -> (Seq<RecordV>, StreamEnd);

    /// Pulls the next record: `None` at end of stream, an error when the
    /// next unit could not be read or parsed.
    fn produce_record(&mut self) -> (r: Option<RecordProduceResult<Record>>)
        ensures
            produce_post(old(self).stream(), final(self).stream(), r);
}

/// Renders records as one format's bytes.
pub trait RecordSerialize {
    /// The records this serializer accepts.
    spec fn ser_req(&self, record: RecordV) -> bool;

    /// The bytes an accepted record renders to, or the failure.
    spec fn ser_spec(&self, record: RecordV) -> Result<Seq<u8>, ()>;

    /// Renders one record.
    fn serialize(&self, record: &Record) -> (r: RecordSerializeResult<Vec<u8>>)
        requires
            self.ser_req(record@),
        ensures
            match r {
                Ok(v) => self.ser_spec(record@) == Ok::<Seq<u8>, ()>(v@),
                Err(_) => self.ser_spec(record@) is Err,
            },
    ;
}

/// Appends serialized records, and a header where the format has one, to
/// a byte sink.
pub trait RecordWriter {
    /// The bytes accumulated in the sink.
    spec fn written(&self) -> Seq<u8>;

    /// The bytes one record's serialized data adds to the sink.
    spec fn write_transform(&self, data: Seq<u8>) -> Seq<u8>;

    /// The header bytes, empty for formats without a header.
    spec fn header_bytes(&self) -> Seq<u8>;

    /// Writes the format's header, a no-op for formats without one.
    fn write_header(&mut self) -> (r: Result<(), RecordWriteError>)
        ensures
            r is Ok,
            final(self).written() == old(self).written() + old(self).header_bytes(),
            final(self).header_bytes() == old(self).header_bytes(),
            forall|d: Seq<u8>| #[trigger] final(self).write_transform(d) == old(
                self,
            ).write_transform(d),
    ;

    /// Writes one record's serialized data.
    fn write(&mut self, data: Vec<u8>) -> (r: Result<(), RecordWriteError>)
        ensures
            r is Ok,
            final(self).written() == old(self).written() + old(self).write_transform(data@),
            final(self).header_bytes() == old(self).header_bytes(),
            forall|d: Seq<u8>| #[trigger] final(self).write_transform(d) == old(
                self,
            ).write_transform(d),
    ;
}

} // verus!
