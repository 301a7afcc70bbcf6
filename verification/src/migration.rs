//! The migration runner: an ordered set of idempotent schema changes,
//! applied exactly once each.
//!
//! Migrations carry ordered identifiers and apply in that fixed total
//! order. The schema permanently records which migrations were applied;
//! a migration already recorded is never reapplied, so running the same
//! set against an already-migrated schema is a no-op. The runner computes
//! and records; executing a migration's actual schema change is outside
//! work done by the caller, and any failure there is fatal to startup.

use vstd::prelude::*;

use crate::seq_facts::lemma_no_duplicates_push;

verus! {

/// The ordered record of migrations applied to one schema.
pub struct SchemaState {
    /// Identifiers of the migrations already applied, in application order.
    pub applied: Vec<u64>,
}

/// The migrations of `migrations` not yet recorded in `applied`, in the
/// order in which `migrations` lists them.
pub open spec fn pending_of(applied: Seq<u64>, migrations: Seq<u64>) -> Seq<u64>
    decreases migrations.len(),
{
    if migrations.len() == 0 {
        Seq::empty()
    } else if applied.contains(migrations[0]) {
        pending_of(applied, migrations.drop_first())
    } else {
        seq![migrations[0]] + pending_of(applied, migrations.drop_first())
    }
}

impl SchemaState {
    /// No migration recorded twice.
    pub open spec fn wf(self) -> bool {
        self.applied@.no_duplicates()
    }

    /// A schema with no migration applied yet.
    pub fn new() -> (s: SchemaState)
        ensures
            s.wf(),
            s.applied@ == Seq::<u64>::empty(),
    {
        SchemaState { applied: Vec::new() }
    }

    /// Run the full ordered migration set: every not-yet-applied migration
    /// is recorded as applied, in order, and returned to the caller (who
    /// performs the actual schema change for each; a failure there is
    /// fatal). Already-applied migrations are never reapplied, so a second
    /// run over the same set records nothing.
    pub fn run_all(&mut self, migrations: &Vec<u64>) -> (newly: Vec<u64>)
        requires
            old(self).wf(),
            migrations@.no_duplicates(),
        ensures
            final(self).wf(),
            newly@ == pending_of(old(self).applied@, migrations@),
            final(self).applied@ == old(self).applied@ + newly@,
    {
        let applied_len_at_start = self.applied.len();
        let n = migrations.len();
        let mut newly: Vec<u64> = Vec::new();
        let mut i: usize = 0;
        proof {
            assert(migrations@.take(0) =~= Seq::<u64>::empty());
            assert(self.applied@ + newly@ =~= self.applied@);
        }
        while i < n
            invariant
                n == migrations@.len(),
                i <= n,
                old(self).wf(),
                migrations@.no_duplicates(),
                self.applied@.no_duplicates(),
                newly@ == pending_of(old(self).applied@, migrations@.take(i as int)),
                self.applied@ == old(self).applied@ + newly@,
            decreases n - i,
        {
            let m = migrations[i];
            proof {
                lemma_pending_take_step(old(self).applied@, migrations@, i as int);
                lemma_pending_elems(old(self).applied@, migrations@.take(i as int));
                // m is fresh in this run: an earlier occurrence in the take
                // would duplicate it inside `migrations`.
                assert(!newly@.contains(m)) by {
                    if newly@.contains(m) {
                        assert(migrations@.take(i as int).contains(m));
                        let j = choose|j: int|
                            0 <= j < i && migrations@.take(i as int)[j] == m;
                        assert(migrations@[j] == migrations@[i as int]);
                    }
                }
                // membership in the growing record splits over the concat
                assert forall|x: u64| #[trigger] self.applied@.contains(x)
                    implies old(self).applied@.contains(x) || newly@.contains(x) by {
                    let j = choose|j: int|
                        0 <= j < self.applied@.len() && self.applied@[j] == x;
                    if j < old(self).applied@.len() {
                        assert(old(self).applied@[j] == x);
                    } else {
                        assert(newly@[j - old(self).applied@.len()] == x);
                    }
                }
                assert forall|x: u64| old(self).applied@.contains(x)
                    implies #[trigger] self.applied@.contains(x) by {
                    let j = choose|j: int|
                        0 <= j < old(self).applied@.len() && old(self).applied@[j] == x;
                    assert(self.applied@[j] == x);
                }
            }
            if !contains_id(&self.applied, m) {
                proof {
                    lemma_no_duplicates_push(self.applied@, m);
                    assert(migrations@.take(i as int + 1) =~= migrations@.take(i as int).push(
                        m,
                    ));
                    assert((old(self).applied@ + newly@.push(m)) =~= (old(self).applied@
                        + newly@).push(m));
                }
                self.applied.push(m);
                newly.push(m);
            } else {
                proof {
                    assert(old(self).applied@.contains(m));
                    assert(migrations@.take(i as int + 1) =~= migrations@.take(i as int).push(
                        m,
                    ));
                }
            }
            i = i + 1;
        }
        proof {
            assert(migrations@.take(n as int) =~= migrations@);
        }
        newly
    }
}

/// Whether a vector of identifiers holds `x`.
fn contains_id(v: &Vec<u64>, x: u64) -> (b: bool)
    ensures
        b == v@.contains(x),
{
    let n = v.len();
    let mut i: usize = 0;
    while i < n
        invariant
            n == v@.len(),
            i <= n,
            forall|j: int| 0 <= j < i ==> v@[j] != x,
        decreases n - i,
    {
        if v[i] == x {
            return true;
        }
        i = i + 1;
    }
    false
}

/// Appending one migration to the set extends the pending sequence by that
/// migration exactly when it is not yet applied.
proof fn lemma_pending_push(applied: Seq<u64>, migrations: Seq<u64>, x: u64)
    ensures
        pending_of(applied, migrations.push(x)) == pending_of(applied, migrations) + (
        if applied.contains(x) {
            Seq::<u64>::empty()
        } else {
            seq![x]
        }),
    decreases migrations.len(),
{
    let tail: Seq<u64> = if applied.contains(x) {
        Seq::<u64>::empty()
    } else {
        seq![x]
    };
    if migrations.len() == 0 {
        assert(migrations.push(x) =~= seq![x]);
        assert(seq![x].drop_first() =~= Seq::<u64>::empty());
        assert(pending_of(applied, Seq::<u64>::empty()) + tail =~= tail);
        if !applied.contains(x) {
            assert(pending_of(applied, seq![x]) =~= seq![x]);
        }
    } else {
        let rest = migrations.drop_first();
        assert(migrations.push(x)[0] == migrations[0]);
        assert(migrations.push(x).drop_first() =~= rest.push(x));
        lemma_pending_push(applied, rest, x);
        if applied.contains(migrations[0]) {
            assert(pending_of(applied, migrations.push(x)) == pending_of(applied, rest.push(x)));
        } else {
            assert(seq![migrations[0]] + (pending_of(applied, rest) + tail) =~= (
            seq![migrations[0]] + pending_of(applied, rest)) + tail);
        }
    }
}

/// The pending sequence over a one-longer prefix of the migration set.
proof fn lemma_pending_take_step(applied: Seq<u64>, migrations: Seq<u64>, i: int)
    requires
        0 <= i < migrations.len(),
    ensures
        pending_of(applied, migrations.take(i + 1)) == (if applied.contains(migrations[i]) {
            pending_of(applied, migrations.take(i))
        } else {
            pending_of(applied, migrations.take(i)).push(migrations[i])
        }),
{
    assert(migrations.take(i + 1) =~= migrations.take(i).push(migrations[i]));
    lemma_pending_push(applied, migrations.take(i), migrations[i]);
    if !applied.contains(migrations[i]) {
        assert(pending_of(applied, migrations.take(i)) + seq![migrations[i]] =~= pending_of(
            applied,
            migrations.take(i),
        ).push(migrations[i]));
    } else {
        assert(pending_of(applied, migrations.take(i)) + Seq::<u64>::empty() =~= pending_of(
            applied,
            migrations.take(i),
        ));
    }
}

/// Law: a migration already recorded as applied is never among the pending
/// ones, and everything pending comes from the given migration set.
pub proof fn lemma_pending_elems(applied: Seq<u64>, migrations: Seq<u64>)
    ensures
        forall|x: u64| #[trigger] pending_of(applied, migrations).contains(x)
            ==> migrations.contains(x) && !applied.contains(x),
    decreases migrations.len(),
{
    if migrations.len() > 0 {
        let rest = migrations.drop_first();
        lemma_pending_elems(applied, rest);
        assert forall|x: u64| #[trigger] pending_of(applied, migrations).contains(x)
            implies migrations.contains(x) && !applied.contains(x) by {
            let p = pending_of(applied, migrations);
            let j = choose|j: int| 0 <= j < p.len() && p[j] == x;
            if applied.contains(migrations[0]) {
                assert(pending_of(applied, rest).contains(x));
                let k = choose|k: int| 0 <= k < rest.len() && rest[k] == x;
                assert(migrations[k + 1] == x);
            } else {
                if j == 0 {
                    assert(x == migrations[0]);
                } else {
                    assert(pending_of(applied, rest)[j - 1] == x);
                    assert(pending_of(applied, rest).contains(x));
                    let k = choose|k: int| 0 <= k < rest.len() && rest[k] == x;
                    assert(migrations[k + 1] == x);
                }
            }
        }
    }
}

/// Every migration of the set is applied or pending: running the pending
/// ones leaves nothing behind.
proof fn lemma_pending_covers(applied: Seq<u64>, migrations: Seq<u64>)
    ensures
        forall|i: int| 0 <= i < migrations.len() ==> applied.contains(#[trigger] migrations[i])
            || pending_of(applied, migrations).contains(migrations[i]),
    decreases migrations.len(),
{
    if migrations.len() > 0 {
        let rest = migrations.drop_first();
        lemma_pending_covers(applied, rest);
        assert forall|i: int| 0 <= i < migrations.len() implies applied.contains(
            #[trigger] migrations[i],
        ) || pending_of(applied, migrations).contains(migrations[i]) by {
            let p = pending_of(applied, migrations);
            if i == 0 {
                if !applied.contains(migrations[0]) {
                    assert(p[0] == migrations[0]);
                }
            } else {
                assert(rest[i - 1] == migrations[i]);
                if !applied.contains(migrations[i]) {
                    let q = pending_of(applied, rest);
                    assert(q.contains(rest[i - 1]));
                    let k = choose|k: int| 0 <= k < q.len() && q[k] == migrations[i];
                    if applied.contains(migrations[0]) {
                        assert(p[k] == migrations[i]);
                    } else {
                        assert(p[k + 1] == migrations[i]);
                    }
                }
            }
        }
    }
}

/// If every migration of the set is already applied, nothing is pending.
proof fn lemma_pending_empty(applied: Seq<u64>, migrations: Seq<u64>)
    requires
        forall|i: int| 0 <= i < migrations.len() ==> applied.contains(#[trigger] migrations[i]),
    ensures
        pending_of(applied, migrations) == Seq::<u64>::empty(),
    decreases migrations.len(),
{
    if migrations.len() > 0 {
        let rest = migrations.drop_first();
        assert(applied.contains(migrations[0]));
        assert forall|i: int| 0 <= i < rest.len() implies applied.contains(
            #[trigger] rest[i],
        ) by {
            assert(migrations[i + 1] == rest[i]);
        }
        lemma_pending_empty(applied, rest);
    }
}

/// Law: migration is idempotent. After one run has recorded the pending
/// migrations, a second run of the same set finds nothing pending, so it
/// records nothing and leaves the schema unchanged.
pub proof fn lemma_migrations_idempotent(applied: Seq<u64>, migrations: Seq<u64>)
    ensures
        pending_of(applied + pending_of(applied, migrations), migrations)
            == Seq::<u64>::empty(),
{
    let once = applied + pending_of(applied, migrations);
    lemma_pending_covers(applied, migrations);
    assert forall|i: int| 0 <= i < migrations.len() implies once.contains(
        #[trigger] migrations[i],
    ) by {
        let x = migrations[i];
        if applied.contains(x) {
            let j = choose|j: int| 0 <= j < applied.len() && applied[j] == x;
            assert(once[j] == x);
        } else {
            let p = pending_of(applied, migrations);
            assert(p.contains(x));
            let j = choose|j: int| 0 <= j < p.len() && p[j] == x;
            assert(once[applied.len() + j] == x);
        }
    }
    lemma_pending_empty(once, migrations);
}

} // verus!
