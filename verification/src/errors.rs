//! Error taxonomy: recoverable pool errors surfaced to callers, and fatal
//! startup errors that abort the process before it serves traffic.

use vstd::prelude::*;

verus! {

/// An error returned by a steady-state pool operation. Recoverable by the
/// caller: retry later, apply backpressure, or surface it upward.
#[derive(Clone, Copy, Debug, PartialEq, Eq, Structural)]
pub enum PoolError {
    /// Every slot of the pool is lent out; the caller may wait and retry.
    PoolExhausted,
    /// Establishing a fresh backing connection failed.
    ConnectFailed,
}

/// A startup-time error. Fatal by design: a process that cannot reach its
/// database or migrate its schema must terminate rather than serve traffic.
#[derive(Clone, Copy, Debug, PartialEq, Eq, Structural)]
pub enum FatalError {
    /// Every bootstrap connection attempt failed.
    ConnectRetriesExhausted,
    /// A schema migration failed; the schema may be inconsistent.
    MigrationFailed,
}

} // verus!
