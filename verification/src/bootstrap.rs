//! The pool bootstrapper: retry-with-fixed-delay acquisition of the first
//! connection, then schema migration, before the pool is declared ready.
//!
//! The bootstrapper is the decision half of the startup loop. The driver
//! around it performs the outside work (connect, sleep, run a migration)
//! and feeds each outcome back; the bootstrapper answers with the next
//! action. After the configured number of consecutive connection failures
//! it demands termination: a server with no database is not useful, and
//! failing fast beats serving half-initialized.

use vstd::prelude::*;

use crate::errors::FatalError;

verus! {

/// Default ceiling on consecutive failed connection attempts.
pub const DEFAULT_MAX_RETRIES: u32 = 10;

/// Default fixed delay between connection attempts, in milliseconds.
pub const DEFAULT_RETRY_DELAY_MS: u64 = 1000;

/// Where the bootstrap stands.
#[derive(Clone, Copy, Debug, PartialEq, Eq, Structural)]
pub enum BootPhase {
    /// Still trying to acquire the first connection.
    Connecting,
    /// First connection acquired; migrations are running on it.
    Migrating,
    /// Migration done: the pool is ready and owned for the process's life.
    Ready,
    /// Startup failed for good; the process must terminate.
    Failed,
}

/// What the driver must do next.
#[derive(Clone, Copy, Debug, PartialEq, Eq, Structural)]
pub enum BootAction {
    /// Wait the given delay in milliseconds, then try to connect again.
    Retry(u64),
    /// Run the pending schema migrations on the acquired connection.
    RunMigrations,
    /// Declare the pool ready and start serving.
    Serve,
    /// Terminate the process: startup cannot complete.
    Abort(FatalError),
}

/// The retry state of one process startup.
pub struct PoolBootstrapper {
    /// Ceiling on consecutive failed connection attempts.
    pub max_retries: u32,
    /// Fixed delay between connection attempts, in milliseconds.
    pub retry_delay_ms: u64,
    /// Consecutive failed connection attempts so far.
    pub failures: u32,
    /// Where the bootstrap stands.
    pub phase: BootPhase,
}

/// The state after one more failed connection attempt: the failure is
/// counted, and on reaching the ceiling the bootstrap fails for good.
pub open spec fn failures_bumped(b: PoolBootstrapper) -> PoolBootstrapper {
    PoolBootstrapper {
        failures: (b.failures + 1) as u32,
        phase: if b.failures + 1 == b.max_retries {
            BootPhase::Failed
        } else {
            BootPhase::Connecting
        },
        ..b
    }
}

/// The action a failed connection attempt provokes: wait and retry until
/// the ceiling is reached, then abort.
pub open spec fn failure_action(b: PoolBootstrapper) -> BootAction {
    if b.failures + 1 == b.max_retries {
        BootAction::Abort(FatalError::ConnectRetriesExhausted)
    } else {
        BootAction::Retry(b.retry_delay_ms)
    }
}

/// The state after `k` consecutive failed connection attempts.
pub open spec fn after_failed_attempts(b: PoolBootstrapper, k: nat) -> PoolBootstrapper
    decreases k,
{
    if k == 0 {
        b
    } else {
        failures_bumped(after_failed_attempts(b, (k - 1) as nat))
    }
}

impl PoolBootstrapper {
    /// While connecting, the failure count sits strictly under the ceiling
    /// (reaching it fails the bootstrap at once).
    pub open spec fn wf(self) -> bool {
        &&& self.max_retries >= 1
        &&& self.phase == BootPhase::Connecting ==> self.failures < self.max_retries
    }

    /// A fresh bootstrap: no failures yet, first action is to connect.
    pub fn new(max_retries: u32, retry_delay_ms: u64) -> (b: PoolBootstrapper)
        requires
            max_retries >= 1,
        ensures
            b.wf(),
            b.max_retries == max_retries,
            b.retry_delay_ms == retry_delay_ms,
            b.failures == 0,
            b.phase == BootPhase::Connecting,
    {
        PoolBootstrapper { max_retries, retry_delay_ms, failures: 0, phase: BootPhase::Connecting }
    }

    /// A fresh bootstrap with the stock policy: a fixed one-second
    /// delay and ten attempts.
    pub fn new_with_defaults() -> (b: PoolBootstrapper)
        ensures
            b.wf(),
            b.max_retries == DEFAULT_MAX_RETRIES,
            b.retry_delay_ms == DEFAULT_RETRY_DELAY_MS,
            b.failures == 0,
            b.phase == BootPhase::Connecting,
    {
        Self::new(DEFAULT_MAX_RETRIES, DEFAULT_RETRY_DELAY_MS)
    }

    /// Feed the outcome of one connection attempt. Success moves on to
    /// migration; failure is counted and answered with a fixed-delay
    /// retry, or with abort once the ceiling of consecutive failures is
    /// reached.
    pub fn on_connect_result(&mut self, ok: bool) -> (a: BootAction)
        requires
            old(self).wf(),
            old(self).phase == BootPhase::Connecting,
        ensures
            final(self).wf(),
            final(self).max_retries == old(self).max_retries,
            final(self).retry_delay_ms == old(self).retry_delay_ms,
            ok ==> {
                &&& final(self).phase == BootPhase::Migrating
                &&& final(self).failures == old(self).failures
                &&& a == BootAction::RunMigrations
            },
            !ok ==> {
                &&& *final(self) == failures_bumped(*old(self))
                &&& a == failure_action(*old(self))
            },
    {
        if ok {
            self.phase = BootPhase::Migrating;
            BootAction::RunMigrations
        } else {
            self.failures = self.failures + 1;
            if self.failures == self.max_retries {
                self.phase = BootPhase::Failed;
                BootAction::Abort(FatalError::ConnectRetriesExhausted)
            } else {
                BootAction::Retry(self.retry_delay_ms)
            }
        }
    }

    /// Feed the outcome of the migration run. Success declares the pool
    /// ready; any migration failure is fatal, with no partial-migration
    /// recovery: the schema must be consistent before traffic is served.
    pub fn on_migration_result(&mut self, ok: bool) -> (a: BootAction)
        requires
            old(self).wf(),
            old(self).phase == BootPhase::Migrating,
        ensures
            final(self).wf(),
            final(self).max_retries == old(self).max_retries,
            final(self).retry_delay_ms == old(self).retry_delay_ms,
            final(self).failures == old(self).failures,
            ok ==> final(self).phase == BootPhase::Ready && a == BootAction::Serve,
            !ok ==> final(self).phase == BootPhase::Failed && a == BootAction::Abort(
                FatalError::MigrationFailed,
            ),
    {
        if ok {
            self.phase = BootPhase::Ready;
            BootAction::Serve
        } else {
            self.phase = BootPhase::Failed;
            BootAction::Abort(FatalError::MigrationFailed)
        }
    }
}

/// Law: fail-fast with a bounded, fixed-delay retry. Starting a fresh
/// bootstrap against a target whose every connection attempt fails, each
/// of the first `max_retries - 1` attempts is answered with a retry after
/// the configured fixed delay, and the attempt that reaches the ceiling —
/// exactly attempt number `max_retries` — aborts the startup.
pub proof fn lemma_fail_fast(b: PoolBootstrapper, k: nat)
    requires
        b.wf(),
        b.phase == BootPhase::Connecting,
        b.failures == 0,
        k <= b.max_retries,
    ensures
        after_failed_attempts(b, k).failures == k,
        after_failed_attempts(b, k).max_retries == b.max_retries,
        after_failed_attempts(b, k).retry_delay_ms == b.retry_delay_ms,
        k < b.max_retries ==> after_failed_attempts(b, k).phase == BootPhase::Connecting
            && after_failed_attempts(b, k).wf(),
        k < b.max_retries ==> failure_action(after_failed_attempts(b, k)) == (
        if k + 1 == b.max_retries {
            BootAction::Abort(FatalError::ConnectRetriesExhausted)
        } else {
            BootAction::Retry(b.retry_delay_ms)
        }),
        k == b.max_retries ==> after_failed_attempts(b, k).phase == BootPhase::Failed,
    decreases k,
{
    if k > 0 {
        lemma_fail_fast(b, (k - 1) as nat);
    }
}

} // verus!
