//! A bounded pool of reusable backing-store connections.
//!
//! The pool does the borrow/return bookkeeping over plain connection
//! handles (`u64` slot identifiers); the process around it pairs each
//! handle with the physical connection it stands for. Connections are
//! created lazily up to the configured maximum, reused after release, and
//! dropped (not returned to the healthy set) when they error during use.

use vstd::prelude::*;

use crate::errors::PoolError;
use crate::seq_facts::{lemma_no_duplicates_push, lemma_no_duplicates_remove,
    lemma_no_duplicates_subrange, lemma_to_set_drop_last, lemma_to_set_remove};

verus! {

/// Bookkeeping for a bounded set of live connections: the handles sitting
/// idle and ready for reuse, the handles currently lent to callers, and a
/// counter from which fresh handles are minted.
pub struct ConnectionPool {
    /// Configured maximum number of live connections.
    pub max_size: usize,
    /// Counter from which fresh handles are minted.
    pub next_id: u64,
    /// Handles of idle connections, ready for reuse.
    pub idle: Vec<u64>,
    /// Handles currently lent to callers.
    pub lent: Vec<u64>,
}

impl ConnectionPool {
    /// The handles of connections sitting idle in the pool, ready for reuse.
    pub open spec fn idle_handles(self) -> Set<u64> {
        self.idle@.to_set()
    }

    /// The handles currently lent to callers.
    pub open spec fn lent_handles(self) -> Set<u64> {
        self.lent@.to_set()
    }

    /// How many connections sit idle.
    pub open spec fn idle_count(self) -> int {
        self.idle@.len() as int
    }

    /// How many live connections exist: idle plus lent.
    pub open spec fn live_count(self) -> int {
        self.idle@.len() + self.lent@.len() as int
    }

    /// The configured maximum number of live connections.
    pub open spec fn capacity(self) -> int {
        self.max_size as int
    }

    /// How many handles have been minted; every live handle lies below it.
    pub open spec fn minted(self) -> u64 {
        self.next_id
    }

    /// The handle counter still has room to mint a fresh handle. A machine
    /// limit only: one mint per connection ever created by this pool.
    pub open spec fn can_mint(self) -> bool {
        self.next_id < u64::MAX
    }

    /// Well-formedness: no handle appears twice, no handle is idle and lent
    /// at once, the live count respects the bound, and every live handle is
    /// below the mint counter (so fresh handles are really fresh).
    pub open spec fn wf(self) -> bool {
        &&& self.idle@.no_duplicates()
        &&& self.lent@.no_duplicates()
        &&& forall|h: u64| #[trigger] self.idle@.contains(h) ==> !self.lent@.contains(h)
        &&& self.live_count() <= self.capacity()
        &&& forall|i: int| 0 <= i < self.idle@.len() ==> #[trigger] self.idle@[i] < self.next_id
        &&& forall|i: int| 0 <= i < self.lent@.len() ==> #[trigger] self.lent@[i] < self.next_id
    }

    /// One successful acquisition step from `pre` to `post`: the granted
    /// handle was not lent to anybody before, and is lent afterwards.
    pub open spec fn grants(pre: ConnectionPool, post: ConnectionPool, h: u64) -> bool {
        &&& !pre.lent_handles().contains(h)
        &&& post.lent_handles() == pre.lent_handles().insert(h)
    }

    /// An empty pool that may grow up to `max_size` live connections.
    pub fn new(max_size: usize) -> (pool: ConnectionPool)
        ensures
            pool.wf(),
            pool.capacity() == max_size,
            pool.live_count() == 0,
            pool.idle_handles() == Set::<u64>::empty(),
            pool.lent_handles() == Set::<u64>::empty(),
            pool.minted() == 0,
    {
        let pool = ConnectionPool { max_size, next_id: 0, idle: Vec::new(), lent: Vec::new() };
        proof {
            assert(pool.idle@.to_set() =~= Set::<u64>::empty());
            assert(pool.lent@.to_set() =~= Set::<u64>::empty());
        }
        pool
    }

    /// Borrow a connection handle. An idle connection is reused when one
    /// exists; otherwise a fresh handle is minted while the pool is under
    /// its bound (the caller then establishes the physical connection and
    /// settles the outcome with `complete_acquire`). With no idle
    /// connection and the pool at capacity, the caller gets
    /// `PoolExhausted` and may wait and retry.
    pub fn acquire(&mut self) -> (r: Result<u64, PoolError>)
        requires
            old(self).wf(),
            old(self).can_mint(),
        ensures
            final(self).wf(),
            final(self).capacity() == old(self).capacity(),
            match r {
                Ok(h) => {
                    &&& Self::grants(*old(self), *final(self), h)
                    &&& final(self).idle_handles() == old(self).idle_handles().remove(h)
                    &&& final(self).live_count() <= final(self).capacity()
                    &&& if old(self).idle_count() > 0 {
                        &&& old(self).idle_handles().contains(h)
                        &&& final(self).idle_count() == old(self).idle_count() - 1
                        &&& final(self).live_count() == old(self).live_count()
                        &&& final(self).minted() == old(self).minted()
                    } else {
                        &&& h == old(self).minted()
                        &&& final(self).idle_count() == 0
                        &&& final(self).live_count() == old(self).live_count() + 1
                        &&& final(self).minted() == old(self).minted() + 1
                    }
                },
                Err(e) => {
                    &&& e == PoolError::PoolExhausted
                    &&& final(self).idle@ == old(self).idle@
                    &&& final(self).lent@ == old(self).lent@
                    &&& final(self).minted() == old(self).minted()
                },
            },
            r is Err <==> (old(self).idle_count() == 0 && old(self).live_count()
                == old(self).capacity()),
    {
        match self.idle.pop() {
            Some(h) => {
                self.lent.push(h);
                proof {
                    let idle0 = old(self).idle@;
                    let lent0 = old(self).lent@;
                    assert(idle0.contains(h)) by {
                        assert(idle0[idle0.len() - 1] == h);
                    }
                    assert(!lent0.contains(h));
                    lemma_no_duplicates_subrange(idle0, 0, idle0.len() - 1);
                    lemma_to_set_drop_last(idle0);
                    lemma_no_duplicates_push(lent0, h);
                    lent0.lemma_push_to_set_commute(h);
                    assert forall|x: u64| #[trigger] self.idle@.contains(x)
                        implies !self.lent@.contains(x) by {
                        let j = choose|j: int| 0 <= j < self.idle@.len() && self.idle@[j] == x;
                        assert(idle0[j] == x);
                        assert(idle0.contains(x));
                        assert(!lent0.contains(x));
                        assert(x != h) by {
                            if x == h {
                                assert(idle0[j] == idle0[idle0.len() - 1]);
                            }
                        }
                        if self.lent@.contains(x) {
                            let k = choose|k: int|
                                0 <= k < self.lent@.len() && self.lent@[k] == x;
                            if k < lent0.len() {
                                assert(lent0[k] == x);
                                assert(lent0.contains(x));
                            } else {
                                assert(x == h);
                            }
                        }
                    }
                    assert forall|i: int| 0 <= i < self.lent@.len() implies #[trigger] self
                        .lent@[i] < self.next_id by {
                        if i < lent0.len() {
                            assert(self.lent@[i] == lent0[i]);
                        } else {
                            assert(self.lent@[i] == h);
                            let j = choose|j: int| 0 <= j < idle0.len() && idle0[j] == h;
                            assert(idle0[j] < old(self).next_id);
                        }
                    }
                    assert forall|i: int| 0 <= i < self.idle@.len() implies #[trigger] self
                        .idle@[i] < self.next_id by {
                        assert(self.idle@[i] == idle0[i]);
                    }
                }
                Ok(h)
            },
            None => {
                if self.lent.len() < self.max_size {
                    let h = self.next_id;
                    self.next_id = self.next_id + 1;
                    self.lent.push(h);
                    proof {
                        let lent0 = old(self).lent@;
                        assert(!lent0.contains(h)) by {
                            if lent0.contains(h) {
                                let i = choose|i: int| 0 <= i < lent0.len() && lent0[i] == h;
                                assert(lent0[i] < old(self).next_id);
                            }
                        }
                        lemma_no_duplicates_push(lent0, h);
                        lent0.lemma_push_to_set_commute(h);
                        assert(old(self).idle_handles().remove(h) =~= old(self).idle_handles());
                        assert forall|i: int| 0 <= i < self.lent@.len() implies #[trigger] self
                            .lent@[i] < self.next_id by {
                            if i < lent0.len() {
                                assert(self.lent@[i] == lent0[i]);
                                assert(lent0[i] < old(self).next_id);
                            } else {
                                assert(self.lent@[i] == h);
                            }
                        }
                    }
                    Ok(h)
                } else {
                    Err(PoolError::PoolExhausted)
                }
            },
        }
    }

    /// Settle an acquisition that had to establish a fresh physical
    /// connection: on success the handle stays lent and is handed to the
    /// caller; on failure the slot is withdrawn again and the caller gets
    /// `ConnectFailed`.
    pub fn complete_acquire(&mut self, h: u64, connected: bool) -> (r: Result<u64, PoolError>)
        requires
            old(self).wf(),
            old(self).lent_handles().contains(h),
        ensures
            final(self).wf(),
            final(self).capacity() == old(self).capacity(),
            final(self).minted() == old(self).minted(),
            connected ==> r == Ok::<u64, PoolError>(h) && *final(self) == *old(self),
            !connected ==> {
                &&& r == Err::<u64, PoolError>(PoolError::ConnectFailed)
                &&& final(self).lent_handles() == old(self).lent_handles().remove(h)
                &&& final(self).idle_handles() == old(self).idle_handles()
                &&& final(self).idle_count() == old(self).idle_count()
                &&& final(self).live_count() == old(self).live_count() - 1
            },
    {
        if connected {
            Ok(h)
        } else {
            self.discard(h);
            Err(PoolError::ConnectFailed)
        }
    }

    /// Return a borrowed connection to the pool in healthy state; it
    /// becomes idle and may be lent again.
    pub fn release(&mut self, h: u64)
        requires
            old(self).wf(),
            old(self).lent_handles().contains(h),
        ensures
            final(self).wf(),
            final(self).capacity() == old(self).capacity(),
            final(self).minted() == old(self).minted(),
            final(self).lent_handles() == old(self).lent_handles().remove(h),
            final(self).idle_handles() == old(self).idle_handles().insert(h),
            final(self).idle_count() == old(self).idle_count() + 1,
            final(self).live_count() == old(self).live_count(),
    {
        proof {
            assert(old(self).lent@.contains(h));
        }
        let i = index_of_handle(&self.lent, h);
        self.lent.remove(i);
        self.idle.push(h);
        proof {
            let lent0 = old(self).lent@;
            let idle0 = old(self).idle@;
            let lent1 = self.lent@;
            lent0.remove_ensures(i as int);
            lemma_no_duplicates_remove(lent0, i as int);
            lemma_to_set_remove(lent0, i as int);
            assert forall|x: u64| #[trigger] lent1.contains(x) implies lent0.contains(x) && x
                != h by {
                let j = choose|j: int| 0 <= j < lent1.len() && lent1[j] == x;
                let sj: int = if j < i {
                    j
                } else {
                    j + 1
                };
                assert(lent0[sj] == x);
                assert(lent0[sj] != lent0[i as int]);
            }
            assert(!idle0.contains(h));
            lemma_no_duplicates_push(idle0, h);
            idle0.lemma_push_to_set_commute(h);
            assert forall|x: u64| #[trigger] self.idle@.contains(x) implies !lent1.contains(
                x,
            ) by {
                let j = choose|j: int| 0 <= j < self.idle@.len() && self.idle@[j] == x;
                if j < idle0.len() {
                    assert(idle0[j] == x);
                    assert(idle0.contains(x));
                    assert(!lent0.contains(x));
                } else {
                    assert(x == h);
                }
            }
            assert forall|j: int| 0 <= j < lent1.len() implies #[trigger] lent1[j]
                < self.next_id by {
                let sj: int = if j < i {
                    j
                } else {
                    j + 1
                };
                assert(lent1[j] == lent0[sj]);
            }
            assert forall|j: int| 0 <= j < self.idle@.len() implies #[trigger] self.idle@[j]
                < self.next_id by {
                if j < idle0.len() {
                    assert(self.idle@[j] == idle0[j]);
                } else {
                    assert(self.idle@[j] == h);
                    let k = choose|k: int| 0 <= k < lent0.len() && lent0[k] == h;
                    assert(lent0[k] < old(self).next_id);
                }
            }
            assert(lent0[i as int] == h);
        }
    }

    /// Drop a borrowed connection that errored during use: it leaves the
    /// pool for good and is not returned to the healthy set. The freed
    /// slot lets the pool create a replacement lazily on later demand.
    pub fn discard(&mut self, h: u64)
        requires
            old(self).wf(),
            old(self).lent_handles().contains(h),
        ensures
            final(self).wf(),
            final(self).capacity() == old(self).capacity(),
            final(self).minted() == old(self).minted(),
            final(self).lent_handles() == old(self).lent_handles().remove(h),
            final(self).idle_handles() == old(self).idle_handles(),
            final(self).idle_count() == old(self).idle_count(),
            final(self).live_count() == old(self).live_count() - 1,
    {
        proof {
            assert(old(self).lent@.contains(h));
        }
        let i = index_of_handle(&self.lent, h);
        self.lent.remove(i);
        proof {
            let lent0 = old(self).lent@;
            let lent1 = self.lent@;
            lent0.remove_ensures(i as int);
            lemma_no_duplicates_remove(lent0, i as int);
            lemma_to_set_remove(lent0, i as int);
            assert forall|x: u64| #[trigger] lent1.contains(x) implies lent0.contains(x) by {
                let j = choose|j: int| 0 <= j < lent1.len() && lent1[j] == x;
                let sj: int = if j < i {
                    j
                } else {
                    j + 1
                };
                assert(lent0[sj] == x);
            }
            assert forall|j: int| 0 <= j < lent1.len() implies #[trigger] lent1[j]
                < self.next_id by {
                let sj: int = if j < i {
                    j
                } else {
                    j + 1
                };
                assert(lent1[j] == lent0[sj]);
            }
            assert(lent0[i as int] == h);
        }
    }
}

/// Law: the pool's live-connection count never exceeds its configured
/// maximum; every pool operation preserves well-formedness, so the bound
/// holds at every reachable state.
pub proof fn lemma_live_count_bounded(pool: ConnectionPool)
    requires
        pool.wf(),
    ensures
        pool.live_count() <= pool.capacity(),
{
}

/// Law: no double-lend. Two successful acquisitions with no release of the
/// first handle in between grant distinct handles, so a connection is never
/// lent to two concurrent callers.
pub proof fn lemma_no_double_lend(p0: ConnectionPool, p1: ConnectionPool, p2: ConnectionPool,
    h1: u64, h2: u64)
    requires
        ConnectionPool::grants(p0, p1, h1),
        ConnectionPool::grants(p1, p2, h2),
    ensures
        h1 != h2,
{
    assert(p1.lent_handles().contains(h1));
    assert(!p1.lent_handles().contains(h2));
}

/// Position of a handle known to be present in a vector of handles.
fn index_of_handle(v: &Vec<u64>, h: u64) -> (i: usize)
    requires
        v@.contains(h),
    ensures
        i < v@.len(),
        v@[i as int] == h,
{
    let n = v.len();
    let mut i: usize = 0;
    while v[i] != h
        invariant
            n == v@.len(),
            v@.contains(h),
            i < n,
            forall|j: int| 0 <= j < i ==> v@[j] != h,
        decreases n - i,
    {
        i = i + 1;
        proof {
            assert(i < n) by {
                let k = choose|k: int| 0 <= k < v@.len() && v@[k] == h;
                assert(i <= k);
            }
        }
    }
    i
}

} // verus!
