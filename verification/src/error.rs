//! The error taxonomy. Each failure stage has its own error type carrying
//! a message and, where one exists, the error of the stage below it, so a
//! caller can walk a failure down to its root cause. End of stream is never
//! an error: readers signal it with `None`.

use vstd::prelude::*;

verus! {

/// A single field's raw value could not convert to its typed form, or its
/// name is unrecognized.
#[derive(Debug)]
pub struct FieldParseError {
    pub text: String,
    /// Message of the underlying conversion failure, where one exists.
    pub source: Option<String>,
}

/// The next raw unit could not be obtained from the byte source (a
/// truncated frame, for instance). Clean end of stream is not an error.
#[derive(Debug)]
pub struct RecordReadError {
    pub text: String,
}

/// A whole record could not be assembled out of raw bytes.
#[derive(Debug)]
pub struct RecordParseError {
    pub text: String,
    /// The field failure that stopped the assembly, where one did.
    pub source: Option<FieldParseError>,
}

/// The failure wrapped by a [`RecordProduceError`].
#[derive(Debug)]
pub enum ProduceSource {
    Read(RecordReadError),
    Parse(RecordParseError),
    Field(FieldParseError),
    Record(String),
}

/// The error surfaced at the "give me the next record" boundary, wrapping
/// whichever read or parse failure caused it.
#[derive(Debug)]
pub struct RecordProduceError {
    pub text: String,
    pub source: Option<ProduceSource>,
}

/// A record field could not be rendered for output.
#[derive(Debug)]
pub struct RecordSerializeError {
    pub text: String,
}

/// The underlying sink rejected a write.
#[derive(Debug)]
pub struct RecordWriteError {
    pub text: String,
}

/// A reader or writer could not be constructed: the format name is not
/// supported.
#[derive(Debug)]
pub struct ReaderCreateError {
    pub text: String,
}

/// The two failure stages a produce error wraps: the raw unit could not
/// be read, or what was read could not be parsed into a complete record.
pub ghost enum ProduceErrV {
    Read,
    Parse,
}

/// The stage at which a produce error arose, read off its wrapped cause.
pub open spec fn produce_error_kind(e: RecordProduceError) -> ProduceErrV {
    match e.source {
        Some(ProduceSource::Read(_)) => ProduceErrV::Read,
        _ => ProduceErrV::Parse,
    }
}

} // verus!
