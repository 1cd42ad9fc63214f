//! The error taxonomy of the engine.
//!
//! Every fallible operation of the library reports one of these kinds,
//! together with a human-readable message.

use vstd::prelude::*;

verus! {

/// The discriminable kind of a driver error.
#[derive(Clone, Copy, Debug, PartialEq, Eq, Structural)]
pub enum ErrorKind {
    /// Operation attempted on a session with no bound connection and no
    /// pool reference.
    ConnectionClosed,
    /// A caller value cannot be mapped to the requested or inferred wire
    /// type, or a returned column's wire OID has no decoder.
    Conversion,
    /// The underlying prepare call failed.
    StatementPrepare,
    /// The underlying execute call failed.
    StatementExecute,
    /// A single-row query returned zero rows or more than one row.
    RowCount,
    /// begin/commit/rollback/savepoint called out of the allowed state
    /// sequence.
    TransactionState,
    /// A statement failed inside `execute_many`; always paired with an
    /// issued ROLLBACK before surfacing.
    TransactionExecute,
    /// A cursor operation was attempted after the cursor was closed.
    CursorState,
    /// Lease acquisition from the pool failed.
    Pool,
    /// A bulk-copy source cannot be read as bytes.
    CopySource,
}

/// A recoverable-by-caller error: a kind plus a message.
#[derive(Clone, Debug)]
pub struct DriverError {
    pub kind: ErrorKind,
    pub message: String,
}

impl DriverError {
    /// Build an error of the given kind.
    pub fn new(kind: ErrorKind, message: String) -> (r: DriverError)
        ensures
            r.kind == kind,
            r.message@ == message@,
    {
        DriverError { kind, message }
    }

    /// The discriminable kind of this error.
    pub fn kind(&self) -> (r: ErrorKind)
        ensures
            r == self.kind,
    {
        self.kind
    }

    /// The human-readable message of this error.
    pub fn describe(&self) -> (r: &str)
        ensures
            r@ == self.message@,
    {
        self.message.as_str()
    }
}

} // verus!
