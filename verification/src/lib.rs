//! Verified core of a small database-backed relay server: a bounded
//! connection pool with borrow/return bookkeeping, an idempotent schema
//! migration runner, a fixed-delay retry bootstrapper, and the state
//! machine of a duplex text-frame relay session.
//!
//! The surrounding process (socket handling, the actual database driver,
//! timers) performs the outside work and feeds its outcomes into these
//! verified state machines as plain values.

pub mod bootstrap;
pub mod echo;
pub mod errors;
pub mod health;
pub mod migration;
pub mod pool;
pub mod records;
pub mod relay;
mod seq_facts;
