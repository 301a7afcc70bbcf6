//! Small facts about duplicate-free sequences of identifiers, shared by
//! the modules that keep `Vec`-backed sets of handles.

use vstd::prelude::*;

verus! {

pub(crate) proof fn lemma_no_duplicates_subrange(s: Seq<u64>, a: int, b: int)
    requires
        s.no_duplicates(),
        0 <= a <= b <= s.len(),
    ensures
        s.subrange(a, b).no_duplicates(),
{
    let sub = s.subrange(a, b);
    assert forall|i: int, j: int| 0 <= i < sub.len() && 0 <= j < sub.len() && i != j
        implies sub[i] != sub[j] by {
        assert(sub[i] == s[a + i]);
        assert(sub[j] == s[a + j]);
    }
}

pub(crate) proof fn lemma_no_duplicates_push(s: Seq<u64>, x: u64)
    requires
        s.no_duplicates(),
        !s.contains(x),
    ensures
        s.push(x).no_duplicates(),
{
    let p = s.push(x);
    assert forall|i: int, j: int| 0 <= i < p.len() && 0 <= j < p.len() && i != j
        implies p[i] != p[j] by {
        if i < s.len() && j < s.len() {
            assert(p[i] == s[i]);
            assert(p[j] == s[j]);
        } else if i < s.len() {
            assert(p[i] == s[i]);
            assert(s.contains(s[i]));
        } else {
            assert(p[j] == s[j]);
            assert(s.contains(s[j]));
        }
    }
}

pub(crate) proof fn lemma_no_duplicates_remove(s: Seq<u64>, i: int)
    requires
        s.no_duplicates(),
        0 <= i < s.len(),
    ensures
        s.remove(i).no_duplicates(),
{
    let r = s.remove(i);
    s.remove_ensures(i);
    assert forall|p: int, q: int| 0 <= p < r.len() && 0 <= q < r.len() && p != q
        implies r[p] != r[q] by {
        let sp: int = if p < i {
            p
        } else {
            p + 1
        };
        let sq: int = if q < i {
            q
        } else {
            q + 1
        };
        assert(r[p] == s[sp]);
        assert(r[q] == s[sq]);
    }
}

/// Removing the element at index `i` of a duplicate-free sequence removes
/// exactly that element from the sequence's set of values.
pub(crate) proof fn lemma_to_set_remove(s: Seq<u64>, i: int)
    requires
        s.no_duplicates(),
        0 <= i < s.len(),
    ensures
        s.remove(i).to_set() == s.to_set().remove(s[i]),
{
    let r = s.remove(i);
    s.remove_ensures(i);
    assert forall|x: u64| r.to_set().contains(x) implies s.to_set().remove(s[i]).contains(
        x,
    ) by {
        let j = choose|j: int| 0 <= j < r.len() && r[j] == x;
        let sj: int = if j < i {
            j
        } else {
            j + 1
        };
        assert(s[sj] == x);
        assert(s.contains(x));
        assert(s[sj] != s[i]);
    }
    assert forall|x: u64| s.to_set().remove(s[i]).contains(x) implies r.to_set().contains(
        x,
    ) by {
        let k = choose|k: int| 0 <= k < s.len() && s[k] == x;
        assert(k != i);
        if k < i {
            assert(r[k] == x);
        } else {
            assert(r[k - 1] == x);
        }
        assert(r.contains(x));
    }
    assert(r.to_set() =~= s.to_set().remove(s[i]));
}

/// Dropping the last element of a duplicate-free sequence removes exactly
/// that element from the sequence's set of values.
pub(crate) proof fn lemma_to_set_drop_last(s: Seq<u64>)
    requires
        s.no_duplicates(),
        s.len() > 0,
    ensures
        s.drop_last().to_set() == s.to_set().remove(s.last()),
{
    assert(s.drop_last() =~= s.remove(s.len() - 1));
    lemma_to_set_remove(s, s.len() - 1);
}

} // verus!
