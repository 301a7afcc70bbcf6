use pool_relay::bootstrap::{BootAction, BootPhase, PoolBootstrapper};
use pool_relay::errors::{FatalError, PoolError};
use pool_relay::health::{health_check_step, HealthStatus};
use pool_relay::migration::SchemaState;
use pool_relay::pool::ConnectionPool;

#[test]
fn pool_live_count_stays_under_capacity() {
    let mut pool = ConnectionPool::new(2);
    let h1 = pool.acquire().unwrap();
    let h2 = pool.acquire().unwrap();
    assert_eq!(pool.idle.len() + pool.lent.len(), 2);
    assert!(matches!(pool.acquire(), Err(PoolError::PoolExhausted)));
    pool.release(h1);
    let h3 = pool.acquire().unwrap();
    assert_eq!(pool.idle.len() + pool.lent.len(), 2);
    pool.release(h2);
    pool.release(h3);
    assert_eq!(pool.idle.len() + pool.lent.len(), 2);
}

#[test]
fn pool_of_capacity_zero_is_always_exhausted() {
    let mut pool = ConnectionPool::new(0);
    assert!(matches!(pool.acquire(), Err(PoolError::PoolExhausted)));
}

#[test]
fn pool_never_double_lends() {
    let mut pool = ConnectionPool::new(3);
    let h1 = pool.acquire().unwrap();
    let h2 = pool.acquire().unwrap();
    let h3 = pool.acquire().unwrap();
    assert_ne!(h1, h2);
    assert_ne!(h1, h3);
    assert_ne!(h2, h3);
    pool.release(h2);
    // the released connection may be lent again, but only once
    let h4 = pool.acquire().unwrap();
    assert_eq!(h4, h2);
    assert!(matches!(pool.acquire(), Err(PoolError::PoolExhausted)));
}

#[test]
fn failed_fresh_connection_is_withdrawn() {
    let mut pool = ConnectionPool::new(2);
    let h = pool.acquire().unwrap();
    assert_eq!(pool.complete_acquire(h, false), Err(PoolError::ConnectFailed));
    assert!(pool.lent.is_empty());
    assert!(pool.idle.is_empty());
    // a replacement is minted lazily on the next demand
    let h2 = pool.acquire().unwrap();
    assert_ne!(h, h2);
    assert_eq!(pool.complete_acquire(h2, true), Ok(h2));
    assert_eq!(pool.lent.len(), 1);
}

#[test]
fn discarded_connection_leaves_the_pool() {
    let mut pool = ConnectionPool::new(1);
    let h = pool.acquire().unwrap();
    pool.discard(h);
    assert!(pool.idle.is_empty());
    assert!(pool.lent.is_empty());
    let h2 = pool.acquire().unwrap();
    assert_ne!(h, h2);
}

#[test]
fn migration_records_pending_in_order() {
    let mut schema = SchemaState::new();
    let migs = vec![10u64, 20, 30];
    let first = schema.run_all(&migs);
    assert_eq!(first, vec![10, 20, 30]);
    assert_eq!(schema.applied, vec![10, 20, 30]);
}

#[test]
fn migration_second_run_is_noop() {
    let mut schema = SchemaState::new();
    let migs = vec![1u64, 2, 3];
    let first = schema.run_all(&migs);
    assert_eq!(first, vec![1, 2, 3]);
    let second = schema.run_all(&migs);
    assert!(second.is_empty());
    assert_eq!(schema.applied, vec![1, 2, 3]);
}

#[test]
fn migration_skips_already_applied() {
    let mut schema = SchemaState::new();
    let older = vec![1u64, 2];
    schema.run_all(&older);
    let newer = vec![1u64, 2, 3, 4];
    let newly = schema.run_all(&newer);
    assert_eq!(newly, vec![3, 4]);
    assert_eq!(schema.applied, vec![1, 2, 3, 4]);
}

#[test]
fn migration_of_empty_set_records_nothing() {
    let mut schema = SchemaState::new();
    let newly = schema.run_all(&Vec::new());
    assert!(newly.is_empty());
    assert!(schema.applied.is_empty());
}

#[test]
fn bootstrap_fails_after_exactly_three_attempts() {
    let mut b = PoolBootstrapper::new(3, 250);
    assert!(matches!(b.on_connect_result(false), BootAction::Retry(250)));
    assert_eq!(b.phase, BootPhase::Connecting);
    assert!(matches!(b.on_connect_result(false), BootAction::Retry(250)));
    assert_eq!(b.phase, BootPhase::Connecting);
    assert!(matches!(
        b.on_connect_result(false),
        BootAction::Abort(FatalError::ConnectRetriesExhausted)
    ));
    assert_eq!(b.phase, BootPhase::Failed);
    assert_eq!(b.failures, 3);
}

#[test]
fn bootstrap_defaults_retry_ten_times_a_second_apart() {
    let mut b = PoolBootstrapper::new_with_defaults();
    for _ in 0..9 {
        assert!(matches!(b.on_connect_result(false), BootAction::Retry(1000)));
    }
    assert!(matches!(
        b.on_connect_result(false),
        BootAction::Abort(FatalError::ConnectRetriesExhausted)
    ));
}

#[test]
fn bootstrap_success_migrates_then_serves() {
    let mut b = PoolBootstrapper::new(3, 250);
    assert!(matches!(b.on_connect_result(false), BootAction::Retry(250)));
    assert!(matches!(b.on_connect_result(true), BootAction::RunMigrations));
    assert_eq!(b.phase, BootPhase::Migrating);
    assert!(matches!(b.on_migration_result(true), BootAction::Serve));
    assert_eq!(b.phase, BootPhase::Ready);
}

#[test]
fn bootstrap_migration_failure_is_fatal() {
    let mut b = PoolBootstrapper::new(3, 250);
    assert!(matches!(b.on_connect_result(true), BootAction::RunMigrations));
    assert!(matches!(
        b.on_migration_result(false),
        BootAction::Abort(FatalError::MigrationFailed)
    ));
    assert_eq!(b.phase, BootPhase::Failed);
}

#[test]
fn health_check_reports_and_never_leaks() {
    let mut pool = ConnectionPool::new(1);
    assert_eq!(health_check_step(&mut pool, true), Ok(HealthStatus::Healthy));
    assert!(pool.lent.is_empty());
    assert_eq!(pool.idle.len(), 1);
    assert_eq!(health_check_step(&mut pool, false), Ok(HealthStatus::Unhealthy));
    assert!(pool.lent.is_empty());
    // the connection that failed its probe was discarded, not returned
    assert!(pool.idle.is_empty());
}

#[test]
fn health_check_surfaces_pool_exhaustion() {
    let mut pool = ConnectionPool::new(1);
    let _h = pool.acquire().unwrap();
    assert_eq!(health_check_step(&mut pool, true), Err(PoolError::PoolExhausted));
}
