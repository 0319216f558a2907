//! The three format codecs: each module pairs a record-producing reader
//! over in-memory bytes with a serializer and writer over a byte sink.

pub mod bin;
pub mod csv;
pub mod txt;
