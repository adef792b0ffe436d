use vstd::prelude::*;

verus! {

/// The ways an operation of the store can fail.
#[derive(Debug, Clone, Copy, PartialEq, Eq, Structural)]
pub enum KvsError {
    /// A read, write, flush or seek of a segment file failed.
    Io,
    /// The bytes at a record's place do not decode as a command.
    CorruptLog,
    /// `remove` was asked for a key that has no value.
    KeyNotFound,
    /// The record that the index points at is not a `Set`.
    UnexpectedCommandType,
    /// Replay met a `Remove` for a key that held no value at that point.
    ReplayInconsistency,
}

/// Result of a store operation.
pub type Result<T> = core::result::Result<T, KvsError>;

} // verus!
