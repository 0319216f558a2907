//! Result aliases for the operations whose errors callers see.

use vstd::prelude::*;

use crate::error::{RecordProduceError, RecordSerializeError};

verus! {

/// Result of a read-and-parse operation.
pub type RecordProduceResult<T> = Result<T, RecordProduceError>;

/// Result of serializing a record into bytes.
pub type RecordSerializeResult<T> = Result<T, RecordSerializeError>;

} // verus!
