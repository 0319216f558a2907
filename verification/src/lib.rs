//! Utilities for parsing, serializing, converting and comparing transaction
//! records held in csv, txt and bin encodings.
//!
//! A record is the canonical eight-field entity; each format module offers
//! a reader that produces records from bytes and a serializer/writer pair
//! that turns records back into bytes. The builder module picks a codec
//! from a format name.

pub mod builder;
pub mod bytestr;
pub mod compare;
pub mod convert;
pub mod error;
pub mod fields;
pub mod formats;
pub mod numeric;
pub mod record;
pub mod result;

pub use builder::{build_reader, build_serializer, build_writer};
pub use error::{RecordProduceError, RecordSerializeError};
pub use record::Record;
pub use result::{RecordProduceResult, RecordSerializeResult};
