//! Properties of the pool that span several calls, stated over `PoolModel`.
use crate::pool::{
    lemma_after_get_inv, lemma_after_release_inv, lemma_fresh_inv, objects_after_get,
    objects_after_release, PoolModel, ReuseObject,
};
use vstd::prelude::*;

verus! {

/// The state of a fresh pool of capacity `n` after `k <= n` calls of `get`: the
/// top `k` slots are on loan and prepared once, newest first in the recent buffer.
pub open spec fn fresh_after(n: nat, k: nat) -> PoolModel {
    PoolModel {
        capacity: n,
        free: Seq::new((2 * n - k) as nat, |i: int| i as usize),
        recent: Seq::new(k, |i: int| (2 * n - k + i) as usize),
        on_loan: Seq::new(2 * n, |i: int| i >= 2 * n - k),
        prepared: Seq::new(2 * n, |i: int| if i >= 2 * n - k { 1nat } else { 0nat }),
        recycled: Seq::new(2 * n, |i: int| 0nat),
    }
}

/// Up to `n` calls of `get` on a fresh pool of capacity `n` take the slots from the top down.
pub proof fn lemma_fresh_after_gets(n: nat, k: nat)
    requires
        0 < n <= usize::MAX / 2,
        k <= n,
    ensures
        PoolModel::fresh(n).after_gets(k) == fresh_after(n, k),
    decreases k,
{
    if k == 0 {
        assert(PoolModel::fresh(n).recent =~= fresh_after(n, 0).recent);
        assert(PoolModel::fresh(n).free =~= fresh_after(n, 0).free);
        assert(PoolModel::fresh(n).on_loan =~= fresh_after(n, 0).on_loan);
        assert(PoolModel::fresh(n).prepared =~= fresh_after(n, 0).prepared);
    } else {
        let j = (k - 1) as nat;
        lemma_fresh_after_gets(n, j);
        let m = fresh_after(n, j);
        let next = m.after_get();
        let want = fresh_after(n, k);
        let slot = m.free.last();
        assert(slot == (2 * n - k) as usize);
        assert(next.free =~= want.free);
        assert(next.recent =~= want.recent);
        assert(next.on_loan =~= want.on_loan);
        assert(next.prepared =~= want.prepared);
    }
}

/// A fresh pool of capacity `n` has `2 * n` objects free, and each of `n`
/// consecutive calls of `get` on it finds a free object: the `k`-th call (from
/// zero) hands out slot `2 * n - 1 - k`, which is not on loan, so the `n` loans
/// hold `n` distinct objects.
pub proof fn lemma_fresh_pool_serves_capacity(n: nat)
    requires
        0 < n <= usize::MAX / 2,
    ensures
        PoolModel::fresh(n).inv(),
        PoolModel::fresh(n).free.len() == 2 * n,
        forall|k: nat|
            k < n ==> {
                let m = #[trigger] PoolModel::fresh(n).after_gets(k);
                &&& m.free.len() > 0
                &&& m.free.last() == (2 * n - 1 - k) as usize
                &&& !m.on_loan[2 * n - 1 - k]
            },
{
    lemma_fresh_inv(n);
    assert forall|k: nat| k < n implies {
        let m = #[trigger] PoolModel::fresh(n).after_gets(k);
        &&& m.free.len() > 0
        &&& m.free.last() == (2 * n - 1 - k) as usize
        &&& !m.on_loan[2 * n - 1 - k]
    } by {
        lemma_fresh_after_gets(n, k);
    }
}

/// With `n` loans out of a fresh pool of capacity `n`, one more `get` still finds
/// a free object; it recycles the object of the first loan, which leaves the
/// recent buffer, and the `n` newest loans stay in it. No other object is recycled.
pub proof fn lemma_overflow_recycles_oldest(n: nat)
    requires
        0 < n <= usize::MAX / 2,
    ensures
        ({
            let first = PoolModel::fresh(n).free.last();
            let full = PoolModel::fresh(n).after_gets(n);
            let next = full.after_get();
            &&& full.recent.len() == n
            &&& full.recent.last() == first
            &&& full.free.len() > 0
            &&& next.recycled[first as int] == 1
            &&& forall|s: int| 0 <= s < 2 * n && s != first as int ==> #[trigger] next.recycled[s] == 0
            &&& !next.recent.contains(first)
            &&& next.recent == seq![full.free.last()] + full.recent.drop_last()
            &&& next.on_loan[first as int]
        }),
{
    lemma_fresh_after_gets(n, n);
    let first = PoolModel::fresh(n).free.last();
    let full = PoolModel::fresh(n).after_gets(n);
    let next = full.after_get();
    assert(first == (2 * n - 1) as usize);
    assert(full.recent[n - 1] == first);
    assert(next.recent =~= seq![full.free.last()] + full.recent.drop_last());
    if next.recent.contains(first) {
        let i = choose|i: int| 0 <= i < next.recent.len() && next.recent[i] == first;
        if i > 0 {
            assert(next.recent[i] == full.recent[i - 1]);
        }
    }
}

/// Ending a loan makes its object the next one that `get` hands out; that
/// object is then prepared a second time and was recycled once in between.
pub proof fn lemma_release_then_get_reuses(m: PoolModel)
    requires
        m.inv(),
        m.free.len() > 0,
    ensures
        ({
            let s = m.free.last();
            let back = m.after_get().after_release(s);
            let again = back.after_get();
            &&& back.free.len() > 0
            &&& back.free.last() == s
            &&& again.on_loan[s as int]
            &&& again.prepared[s as int] == m.prepared[s as int] + 2
            &&& again.recycled[s as int] == m.recycled[s as int] + 1
        }),
{
    let s = m.free.last();
    assert(m.free[m.free.len() - 1] == s);
    let lent = m.after_get();
    lemma_after_get_inv(m);
    let pushed = seq![s] + m.recent;
    assert(pushed[0] == s);
    assert(lent.on_loan[s as int]);
    if pushed.len() > m.capacity {
        assert(pushed.no_duplicates()) by {
            assert forall|i: int| 0 <= i < m.recent.len() implies m.recent[i] != s by {
                assert(m.on_loan[m.recent[i] as int]);
            }
            assert forall|i: int, j: int| 0 <= i < j < pushed.len() implies pushed[i] != pushed[j] by {
                if i == 0 {
                    assert(pushed[j] == m.recent[j - 1]);
                } else {
                    assert(pushed[i] == m.recent[i - 1]);
                    assert(pushed[j] == m.recent[j - 1]);
                }
            }
        }
        assert(pushed.last() != s);
    }
    assert(lent.recycled[s as int] == m.recycled[s as int]);
    assert(lent.prepared[s as int] == m.prepared[s as int] + 1);
    let back = lent.after_release(s);
    lemma_after_release_inv(lent, s);
    assert(back.free.last() == s);
    let again = back.after_get();
    let pushed2 = seq![s] + back.recent;
    assert(pushed2[0] == s);
    if pushed2.len() > back.capacity {
        assert(back.capacity > 0);
        assert(pushed2.no_duplicates()) by {
            assert forall|i: int| 0 <= i < back.recent.len() implies back.recent[i] != s by {
                assert(back.on_loan[back.recent[i] as int]);
            }
            assert forall|i: int, j: int| 0 <= i < j < pushed2.len() implies pushed2[i] != pushed2[j] by {
                if i == 0 {
                    assert(pushed2[j] == back.recent[j - 1]);
                } else {
                    assert(pushed2[i] == back.recent[i - 1]);
                    assert(pushed2[j] == back.recent[j - 1]);
                }
            }
        }
        assert(pushed2.last() != s);
    }
}

/// The oldest entry that `get` may evict is never the slot it hands out.
proof fn lemma_evicted_is_not_taken(m: PoolModel)
    requires
        m.inv(),
        m.free.len() > 0,
        (seq![m.free.last()] + m.recent).len() > m.capacity,
    ensures
        (seq![m.free.last()] + m.recent).last() != m.free.last(),
        ((seq![m.free.last()] + m.recent).last() as int) < m.size(),
{
    let s = m.free.last();
    let pushed = seq![s] + m.recent;
    assert(m.free[m.free.len() - 1] == s);
    assert(m.recent.len() > 0);
    assert(pushed.last() == m.recent[m.recent.len() - 1]);
    assert(m.on_loan[m.recent[m.recent.len() - 1] as int]);
}

/// Ending a loan and calling `get` again hands out the very object of that
/// loan, in its slot: prepared, recycled when the loan ended, and prepared again.
pub proof fn lemma_release_then_get_same_object<R: ReuseObject>(objects: Seq<R>, m: PoolModel)
    requires
        m.inv(),
        m.free.len() > 0,
        objects.len() == m.size(),
    ensures
        ({
            let s = m.free.last();
            let lent = m.after_get();
            let back = lent.after_release(s);
            let objects_back = objects_after_release(objects_after_get(objects, m), lent, s);
            &&& back.free.last() == s
            &&& objects_after_get(objects_back, back)[s as int] == objects[s as int].after_prepare().after_recycle().after_prepare()
        }),
{
    let s = m.free.last();
    assert(m.free[m.free.len() - 1] == s);
    lemma_release_then_get_reuses(m);
    let lent = m.after_get();
    lemma_after_get_inv(m);
    if (seq![s] + m.recent).len() > m.capacity {
        lemma_evicted_is_not_taken(m);
    }
    let o1 = objects_after_get(objects, m);
    assert(o1[s as int] == objects[s as int].after_prepare());
    assert(lent.on_loan[s as int]);
    let back = lent.after_release(s);
    lemma_after_release_inv(lent, s);
    let o2 = objects_after_release(o1, lent, s);
    assert(o2[s as int] == objects[s as int].after_prepare().after_recycle());
    assert(back.free.len() > 0 && back.free.last() == s);
    if (seq![s] + back.recent).len() > back.capacity {
        lemma_evicted_is_not_taken(back);
    }
}

/// `get` never hands out an object that is out on a loan: the slot it takes
/// was free, and afterwards it is on loan and no longer free.
pub proof fn lemma_get_lends_exclusively(m: PoolModel)
    requires
        m.inv(),
        m.free.len() > 0,
    ensures
        !m.on_loan[m.free.last() as int],
        m.after_get().on_loan[m.free.last() as int],
        !m.after_get().free.contains(m.free.last()),
{
    let s = m.free.last();
    assert(m.free[m.free.len() - 1] == s);
    lemma_after_get_inv(m);
    let n = m.after_get();
    if n.free.contains(s) {
        let i = choose|i: int| 0 <= i < n.free.len() && n.free[i] == s;
        assert(!n.on_loan[n.free[i] as int]);
    }
}

/// Ending the same loan a second time changes nothing: the object is recycled
/// and returned to the free stack once.
pub proof fn lemma_release_twice_is_noop(m: PoolModel, slot: usize)
    requires
        m.inv(),
    ensures
        m.after_release(slot).after_release(slot) == m.after_release(slot),
{
}

/// The recent buffer never holds more than `capacity` loans, whatever the
/// sequence of calls.
pub proof fn lemma_recent_bounded(m: PoolModel, slot: usize)
    requires
        m.inv(),
    ensures
        m.after_get().inv(),
        m.after_get().recent.len() <= m.capacity,
        m.after_release(slot).inv(),
        m.after_release(slot).recent.len() <= m.capacity,
{
    lemma_after_get_inv(m);
    lemma_after_release_inv(m, slot);
}

} // verus!
