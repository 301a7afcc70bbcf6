//! The health endpoint's verified half: one borrow-probe-return round
//! trip over the pool.
//!
//! The handler around it performs the trivial read against the managed
//! table on the borrowed connection and hands the outcome in as a plain
//! boolean; the verdict never exposes more than a generic status, and the
//! borrowed connection is given back on every path.

use vstd::prelude::*;

use crate::errors::PoolError;
use crate::pool::ConnectionPool;

verus! {

/// The monitoring verdict.
#[derive(Clone, Copy, Debug, PartialEq, Eq, Structural)]
pub enum HealthStatus {
    /// The probe read succeeded.
    Healthy,
    /// The probe read failed.
    Unhealthy,
}

/// One health check: borrow a connection, let the probe's outcome decide
/// the verdict, and give the connection back — released healthy when the
/// probe succeeded, discarded when it failed. The borrowed connection is
/// never leaked: the set of lent handles is exactly what it was.
pub fn health_check_step(pool: &mut ConnectionPool, probe_ok: bool) -> (r: Result<
    HealthStatus,
    PoolError,
>)
    requires
        old(pool).wf(),
        old(pool).can_mint(),
    ensures
        final(pool).wf(),
        final(pool).capacity() == old(pool).capacity(),
        final(pool).lent_handles() == old(pool).lent_handles(),
        final(pool).minted() <= old(pool).minted() + 1,
        match r {
            Ok(status) => if probe_ok {
                &&& final(pool).idle_count() == (if old(pool).idle_count() > 0 {
                    old(pool).idle_count()
                } else {
                    old(pool).idle_count() + 1
                })
                &&& final(pool).live_count() == (if old(pool).idle_count() > 0 {
                    old(pool).live_count()
                } else {
                    old(pool).live_count() + 1
                })
            } else {
                &&& final(pool).idle_count() == (if old(pool).idle_count() > 0 {
                    old(pool).idle_count() - 1
                } else {
                    old(pool).idle_count()
                })
                &&& final(pool).live_count() == (if old(pool).idle_count() > 0 {
                    old(pool).live_count() - 1
                } else {
                    old(pool).live_count()
                })
            },
            Err(_) => {
                &&& final(pool).idle_count() == old(pool).idle_count()
                &&& final(pool).live_count() == old(pool).live_count()
                &&& final(pool).minted() == old(pool).minted()
            },
        },
        match r {
            Ok(status) => {
                &&& (status == HealthStatus::Healthy <==> probe_ok)
                &&& !(old(pool).idle_count() == 0 && old(pool).live_count() == old(
                    pool,
                ).capacity())
            },
            Err(e) => {
                &&& e == PoolError::PoolExhausted
                &&& old(pool).idle_count() == 0
                &&& old(pool).live_count() == old(pool).capacity()
            },
        },
{
    let acquired = pool.acquire();
    match acquired {
        Ok(h) => {
            proof {
                assert(pool.lent_handles().contains(h));
            }
            let status = if probe_ok {
                pool.release(h);
                HealthStatus::Healthy
            } else {
                pool.discard(h);
                HealthStatus::Unhealthy
            };
            proof {
                assert(old(pool).lent_handles().insert(h).remove(h) =~= old(
                    pool,
                ).lent_handles());
            }
            Ok(status)
        },
        Err(e) => Err(e),
    }
}

} // verus!
