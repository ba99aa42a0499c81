//! A pool of reusable objects with a bounded record of recent loans.
//!
//! The pool builds `2 * capacity` objects up front. `get` hands out the slot on
//! top of the free stack, prepares its object and records the loan at the front
//! of the recent-loan buffer; when that buffer grows past `capacity`, its oldest
//! entry is dropped from it and that object is recycled, even though its loan
//! is still held. `release` ends a loan: the object is recycled and its slot
//! goes back on top of the free stack.
use rand::RngCore;
use std::collections::VecDeque;
use vstd::prelude::*;

verus! {

/// The lifecycle hooks of an object that a pool can hold.
///
/// The pool calls `prepare` when it hands an object out and `recycle` when the
/// object goes dormant; `after_prepare` and `after_recycle` say what each does
/// to the object. Whether a second call in a row changes anything is up to the
/// implementation (`Bullet`'s hooks leave it unchanged, and prove it).
pub trait ReuseObject: Sized {
    /// The object after `init`.
    spec fn after_init(self) -> Self;

    /// The object after `prepare`.
    spec fn after_prepare(self) -> Self;

    /// The object after `recycle`.
    spec fn after_recycle(self) -> Self;

    /// Called once, when the pool builds the object.
    fn init(&mut self)
        ensures
            *final(self) == old(self).after_init(),
    ;

    /// Called each time the object is handed out.
    fn prepare(&mut self)
        ensures
            *final(self) == old(self).after_prepare(),
    ;

    /// Called when the object goes dormant: its loan ended or was evicted.
    fn recycle(&mut self)
        ensures
            *final(self) == old(self).after_recycle(),
    ;
}

/// Relies on `rand::rngs::OsRng::try_fill_bytes`: eight bytes from the operating
/// system's generator, or `None` when it fails. Nothing is known of the value.
#[verifier::external_body]
fn os_random_u64() -> (r: Option<u64>) {
    let mut bytes = [0u8; 8];
    match rand::rngs::OsRng.try_fill_bytes(&mut bytes) {
        Ok(()) => Some(u64::from_le_bytes(bytes)),
        Err(_) => None,
    }
}

/// The identity of a pool whose random draw failed.
pub const FALLBACK_POOL_ID: u64 = 0;

/// The free slot indices that an `object_pool::Pool` holds, in stack order
/// (the next one to be pulled is the last).
pub uninterp spec fn stack_of(p: object_pool::Pool<usize>) -> Seq<usize>;

#[verifier::external_type_specification]
#[verifier::external_body]
#[verifier::reject_recursive_types(T)]
pub struct ExObjectPool<T>(object_pool::Pool<T>);

/// Relies on `object_pool::Pool::from_vec`: the vector becomes the pool's stack as it is.
#[verifier::external_body]
fn stack_from_vec(v: Vec<usize>) -> (p: object_pool::Pool<usize>)
    ensures
        stack_of(p) == v@,
{
    object_pool::Pool::from_vec(v)
}

/// Relies on `object_pool::Pool::try_pull` and `Reusable::detach`: the last value
/// of the stack, if any, is popped and kept out of the pool.
#[verifier::external_body]
fn stack_pop(p: &mut object_pool::Pool<usize>) -> (r: Option<usize>)
    ensures
        stack_of(*old(p)).len() == 0 ==> r.is_none() && stack_of(*final(p)) == stack_of(*old(p)),
        stack_of(*old(p)).len() > 0 ==> r == Some(stack_of(*old(p)).last()) && stack_of(*final(p))
            == stack_of(*old(p)).drop_last(),
{
    p.try_pull().map(|item| item.detach().1)
}

/// Relies on `object_pool::Pool::attach`: the value is pushed on the stack.
#[verifier::external_body]
fn stack_push(p: &mut object_pool::Pool<usize>, slot: usize)
    ensures
        stack_of(*final(p)) == stack_of(*old(p)).push(slot),
{
    p.attach(slot)
}

/// Relies on `object_pool::Pool::len`: the number of values on the stack.
#[verifier::external_body]
fn stack_len(p: &object_pool::Pool<usize>) -> (n: usize)
    ensures
        n == stack_of(*p).len(),
{
    p.len()
}

/// The abstract state of a pool. Slots are numbered `0 .. 2 * capacity`.
pub struct PoolModel {
    /// The bound of the recent-loan buffer.
    pub capacity: nat,
    /// The free slots; the next one handed out is the last.
    pub free: Seq<usize>,
    /// The slots of the recent loans, most recent first.
    pub recent: Seq<usize>,
    /// For each slot, whether its object is out on a loan.
    pub on_loan: Seq<bool>,
    /// For each slot, how often `prepare` was called on its object.
    pub prepared: Seq<nat>,
    /// For each slot, how often `recycle` was called on its object.
    pub recycled: Seq<nat>,
}

impl PoolModel {
    pub open spec fn size(self) -> nat {
        2 * self.capacity
    }

    /// A pool just built: every slot free, nothing prepared or recycled.
    pub open spec fn fresh(capacity: nat) -> PoolModel {
        PoolModel {
            capacity,
            free: Seq::new(2 * capacity, |i: int| i as usize),
            recent: Seq::empty(),
            on_loan: Seq::new(2 * capacity, |i: int| false),
            prepared: Seq::new(2 * capacity, |i: int| 0nat),
            recycled: Seq::new(2 * capacity, |i: int| 0nat),
        }
    }

    pub open spec fn inv(self) -> bool {
        &&& self.capacity > 0
        &&& self.size() <= usize::MAX
        &&& self.on_loan.len() == self.size()
        &&& self.prepared.len() == self.size()
        &&& self.recycled.len() == self.size()
        &&& self.free.no_duplicates()
        &&& forall|i: int|
            0 <= i < self.free.len() ==> (self.free[i] as int) < self.size()
                && !self.on_loan[self.free[i] as int]
        &&& forall|s: int|
            0 <= s < self.size() && !#[trigger] self.on_loan[s] ==> self.free.contains(s as usize)
        &&& self.recent.len() <= self.capacity
        &&& self.recent.no_duplicates()
        &&& forall|i: int|
            0 <= i < self.recent.len() ==> (self.recent[i] as int) < self.size()
                && self.on_loan[self.recent[i] as int]
    }

    /// The state after `get`: the top free slot is prepared and goes on loan at
    /// the front of the recent buffer; past `capacity`, the oldest recent loan
    /// leaves the buffer and its object is recycled. With no free slot nothing changes.
    pub open spec fn after_get(self) -> PoolModel {
        if self.free.len() == 0 {
            self
        } else {
            let slot = self.free.last();
            let pushed = seq![slot] + self.recent;
            let taken = PoolModel {
                free: self.free.drop_last(),
                recent: pushed,
                on_loan: self.on_loan.update(slot as int, true),
                prepared: self.prepared.update(slot as int, self.prepared[slot as int] + 1),
                ..self
            };
            if pushed.len() > self.capacity {
                let oldest = pushed.last();
                PoolModel {
                    recent: pushed.drop_last(),
                    recycled: taken.recycled.update(oldest as int, taken.recycled[oldest as int] + 1),
                    ..taken
                }
            } else {
                taken
            }
        }
    }

    /// The state after `k` calls of `get`.
    pub open spec fn after_gets(self, k: nat) -> PoolModel
        decreases k,
    {
        if k == 0 {
            self
        } else {
            self.after_gets((k - 1) as nat).after_get()
        }
    }

    pub open spec fn recent_without(self, slot: usize) -> Seq<usize> {
        if exists|i: int| 0 <= i < self.recent.len() && self.recent[i] == slot {
            self.recent.remove(choose|i: int| 0 <= i < self.recent.len() && self.recent[i] == slot)
        } else {
            self.recent
        }
    }

    /// The state after a loan of `slot` ends: the object is recycled, leaves the
    /// recent buffer and its slot goes on top of the free stack. A slot that is
    /// not on loan changes nothing.
    pub open spec fn after_release(self, slot: usize) -> PoolModel {
        if (slot as int) < self.size() && self.on_loan[slot as int] {
            PoolModel {
                free: self.free.push(slot),
                recent: self.recent_without(slot),
                on_loan: self.on_loan.update(slot as int, false),
                recycled: self.recycled.update(slot as int, self.recycled[slot as int] + 1),
                ..self
            }
        } else {
            self
        }
    }
}

/// The objects after `get` on a pool in state `m`: the handed-out object is
/// prepared, then the evicted one, if any, is recycled.
pub open spec fn objects_after_get<R: ReuseObject>(objects: Seq<R>, m: PoolModel) -> Seq<R> {
    if m.free.len() == 0 {
        objects
    } else {
        let slot = m.free.last() as int;
        let prepared = objects.update(slot, objects[slot].after_prepare());
        let pushed = seq![m.free.last()] + m.recent;
        if pushed.len() > m.capacity {
            let oldest = pushed.last() as int;
            prepared.update(oldest, prepared[oldest].after_recycle())
        } else {
            prepared
        }
    }
}

/// The objects after a loan of `slot` ends on a pool in state `m`: its object
/// is recycled if it was on loan.
pub open spec fn objects_after_release<R: ReuseObject>(objects: Seq<R>, m: PoolModel, slot: usize) -> Seq<R> {
    if (slot as int) < m.size() && m.on_loan[slot as int] {
        objects.update(slot as int, objects[slot as int].after_recycle())
    } else {
        objects
    }
}

/// Whether `obj` is an object that `factory` made, after `init`.
pub open spec fn built_by<R: ReuseObject, F: Fn() -> R>(factory: &F, obj: R) -> bool {
    exists|made: R| factory.ensures((), made) && obj == made.after_init()
}

/// A loan of one pooled object, handed out by `GdPool::get` and ended by
/// `GdPool::release`. A loan that is dropped without being released keeps its
/// object out of the pool.
pub struct Reuse {
    pool: u64,
    slot: usize,
}

impl Reuse {
    /// The slot of the loaned object.
    pub closed spec fn index(&self) -> usize {
        self.slot
    }

    /// The identity of the pool that handed out the loan.
    pub closed spec fn pool_id(&self) -> u64 {
        self.pool
    }

    pub fn slot(&self) -> (r: usize)
        ensures
            r == self.index(),
    {
        self.slot
    }

    /// The loaned object. After an eviction it is the recycled object.
    pub fn borrow<'a, R: ReuseObject>(&self, pool: &'a GdPool<R>) -> (r: &'a R)
        requires
            pool.wf(),
            self.pool_id() == pool.identity(),
            (self.index() as int) < pool@.size(),
        ensures
            *r == pool.objects()[self.index() as int],
    {
        &pool.objects[self.slot]
    }

    /// The loaned object, to change it in place.
    pub fn borrow_mut<'a, R: ReuseObject>(&self, pool: &'a mut GdPool<R>) -> (r: &'a mut R)
        requires
            old(pool).wf(),
            self.pool_id() == old(pool).identity(),
            (self.index() as int) < old(pool)@.size(),
        ensures
            *r == old(pool).objects()[self.index() as int],
            final(pool).wf(),
            final(pool)@ == old(pool)@,
            final(pool).identity() == old(pool).identity(),
            final(pool).objects() == old(pool).objects().update(self.index() as int, *final(r)),
    {
        &mut pool.objects[self.slot]
    }
}

/// A pool of `2 * capacity` reusable objects.
pub struct GdPool<R: ReuseObject> {
    id: u64,
    capacity: usize,
    objects: Vec<R>,
    free: object_pool::Pool<usize>,
    recent: VecDeque<usize>,
    on_loan: Vec<bool>,
    prepared: Ghost<Seq<nat>>,
    recycled: Ghost<Seq<nat>>,
}

impl<R: ReuseObject> View for GdPool<R> {
    type V = PoolModel;

    closed spec fn view(&self) -> PoolModel {
        PoolModel {
            capacity: self.capacity as nat,
            free: stack_of(self.free),
            recent: self.recent@,
            on_loan: self.on_loan@,
            prepared: self.prepared@,
            recycled: self.recycled@,
        }
    }
}

impl<R: ReuseObject> GdPool<R> {
    /// The pooled objects, by slot.
    pub closed spec fn objects(&self) -> Seq<R> {
        self.objects@
    }

    /// The identity of the pool, which its loans carry.
    pub closed spec fn identity(&self) -> u64 {
        self.id
    }

    pub open spec fn wf(&self) -> bool {
        &&& self@.inv()
        &&& self.objects().len() == self@.size()
    }

    /// Whether `loan` was handed out by this pool and is still out.
    pub open spec fn holds(&self, loan: Reuse) -> bool {
        &&& loan.pool_id() == self.identity()
        &&& (loan.index() as int) < self@.size()
        &&& self@.on_loan[loan.index() as int]
    }

    /// Builds `2 * capacity` objects with `factory`, calling `init` on each once.
    pub fn new<F: Fn() -> R>(capacity: usize, factory: F) -> (pool: Self)
        requires
            capacity > 0,
            capacity <= usize::MAX / 2,
            factory.requires(()),
        ensures
            pool.wf(),
            pool@ == PoolModel::fresh(capacity as nat),
            forall|i: int| 0 <= i < pool@.size() ==> #[trigger] built_by(&factory, pool.objects()[i]),
    {
        let size = capacity * 2;
        let mut objects: Vec<R> = Vec::with_capacity(size);
        let mut slots: Vec<usize> = Vec::with_capacity(size);
        let mut on_loan: Vec<bool> = Vec::with_capacity(size);
        let mut i: usize = 0;
        while i < size
            invariant
                size == capacity * 2,
                i <= size,
                factory.requires(()),
                objects@.len() == i,
                forall|k: int| 0 <= k < i ==> #[trigger] built_by(&factory, objects@[k]),
                slots@ == Seq::new(i as nat, |k: int| k as usize),
                on_loan@ == Seq::new(i as nat, |k: int| false),
            decreases size - i,
        {
            let mut obj = factory();
            let ghost made = obj;
            obj.init();
            objects.push(obj);
            proof {
                assert(factory.ensures((), made) && objects@[i as int] == made.after_init());
                assert(built_by(&factory, objects@[i as int]));
            }
            slots.push(i);
            on_loan.push(false);
            i = i + 1;
        }
        let id = match os_random_u64() {
            Some(drawn) => drawn,
            None => FALLBACK_POOL_ID,
        };
        let pool = GdPool {
            id,
            capacity,
            objects,
            free: stack_from_vec(slots),
            recent: VecDeque::new(),
            on_loan,
            prepared: Ghost(Seq::new(size as nat, |k: int| 0nat)),
            recycled: Ghost(Seq::new(size as nat, |k: int| 0nat)),
        };
        proof {
            assert(pool@.recent =~= Seq::<usize>::empty());
            assert(pool@ =~= PoolModel::fresh(capacity as nat));
            lemma_fresh_inv(capacity as nat);
        }
        pool
    }

    /// The identity of the pool.
    pub fn id(&self) -> (r: u64)
        ensures
            r == self.identity(),
    {
        self.id
    }

    /// The bound of the recent-loan buffer.
    pub fn capacity(&self) -> (r: usize)
        requires
            self.wf(),
        ensures
            r == self@.capacity,
    {
        self.capacity
    }

    /// How many objects `get` can still hand out.
    pub fn available(&self) -> (r: usize)
        requires
            self.wf(),
        ensures
            r == self@.free.len(),
    {
        stack_len(&self.free)
    }

    /// Hands out the free object on top of the stack, prepared; `None` when none
    /// is free. The objects stay in their slots: the handed-out one is prepared
    /// and an evicted one recycled, in place.
    pub fn get(&mut self) -> (loan: Option<Reuse>)
        requires
            old(self).wf(),
        ensures
            final(self).wf(),
            final(self).identity() == old(self).identity(),
            final(self)@ == old(self)@.after_get(),
            final(self).objects() == objects_after_get(old(self).objects(), old(self)@),
            loan.is_some() == (old(self)@.free.len() > 0),
            loan.is_some() ==> loan.unwrap().index() == old(self)@.free.last()
                && final(self).holds(loan.unwrap()),
    {
        let ghost pre = self@;
        let ghost pre_objects = self.objects@;
        match stack_pop(&mut self.free) {
            None => None,
            Some(slot) => {
                proof {
                    assert(pre.free.contains(slot));
                }
                self.objects[slot].prepare();
                self.on_loan.set(slot, true);
                self.prepared = Ghost(self.prepared@.update(slot as int, self.prepared@[slot as int] + 1));
                self.recent.push_front(slot);
                if self.recent.len() > self.capacity {
                    if let Some(oldest) = self.recent.pop_back() {
                        proof {
                            lemma_after_get_inv(pre);
                        }
                        self.objects[oldest].recycle();
                        self.recycled = Ghost(
                            self.recycled@.update(oldest as int, self.recycled@[oldest as int] + 1),
                        );
                    }
                }
                proof {
                    lemma_after_get_inv(pre);
                    assert(self@ =~= pre.after_get());
                    assert(self.objects@ =~= objects_after_get(pre_objects, pre));
                }
                Some(Reuse { pool: self.id, slot })
            },
        }
    }

    /// Ends a loan: the object is recycled, leaves the recent buffer and goes
    /// back on top of the free stack. Returns whether the loan was out from this
    /// pool; any other loan changes nothing.
    pub fn release(&mut self, loan: Reuse) -> (returned: bool)
        requires
            old(self).wf(),
        ensures
            final(self).wf(),
            final(self).identity() == old(self).identity(),
            returned == old(self).holds(loan),
            returned ==> final(self)@ == old(self)@.after_release(loan.index())
                && final(self).objects() == objects_after_release(
                old(self).objects(),
                old(self)@,
                loan.index(),
            ),
            !returned ==> final(self)@ == old(self)@ && final(self).objects() == old(self).objects(),
    {
        let slot = loan.slot;
        if loan.pool == self.id && slot < self.on_loan.len() && self.on_loan[slot] {
            let ghost pre = self@;
            let ghost pre_objects = self.objects@;
            match find_slot(&self.recent, slot) {
                Some(i) => {
                    proof {
                        let k = choose|k: int| 0 <= k < pre.recent.len() && pre.recent[k] == slot;
                        assert(k == i as int);
                    }
                    self.recent.remove(i);
                },
                None => {},
            }
            self.objects[slot].recycle();
            self.on_loan.set(slot, false);
            self.recycled = Ghost(self.recycled@.update(slot as int, self.recycled@[slot as int] + 1));
            stack_push(&mut self.free, slot);
            proof {
                lemma_after_release_inv(pre, slot);
                assert(self@ =~= pre.after_release(slot));
                assert(self.objects@ =~= objects_after_release(pre_objects, pre, slot));
            }
            true
        } else {
            false
        }
    }

    /// Whether the loan was handed out by this pool and is still out.
    pub fn is_on_loan(&self, loan: &Reuse) -> (r: bool)
        requires
            self.wf(),
        ensures
            r == self.holds(*loan),
    {
        loan.pool == self.id && loan.slot < self.on_loan.len() && self.on_loan[loan.slot]
    }

    /// Whether the loan is in the recent buffer, that is, not evicted.
    pub fn is_recent(&self, loan: &Reuse) -> (r: bool)
        requires
            self.wf(),
        ensures
            r == (loan.pool_id() == self.identity() && self@.recent.contains(loan.index())),
    {
        loan.pool == self.id && find_slot(&self.recent, loan.slot).is_some()
    }
}

/// The position of `slot` in `recent`, if it is there.
fn find_slot(recent: &VecDeque<usize>, slot: usize) -> (r: Option<usize>)
    ensures
        r.is_none() ==> !recent@.contains(slot),
        r.is_some() ==> r.unwrap() < recent@.len() && recent@[r.unwrap() as int] == slot,
{
    let mut i: usize = 0;
    while i < recent.len()
        invariant
            i <= recent@.len(),
            forall|j: int| 0 <= j < i ==> recent@[j] != slot,
        decreases recent@.len() - i,
    {
        if recent[i] == slot {
            return Some(i);
        }
        i = i + 1;
    }
    None
}

/// A fresh pool satisfies the invariant.
pub proof fn lemma_fresh_inv(capacity: nat)
    requires
        0 < capacity <= usize::MAX / 2,
    ensures
        PoolModel::fresh(capacity).inv(),
{
    let m = PoolModel::fresh(capacity);
    assert forall|s: int| 0 <= s < m.size() && !#[trigger] m.on_loan[s] implies m.free.contains(
        s as usize,
    ) by {
        assert(m.free[s] == s as usize);
    }
}

/// `get` keeps the invariant.
pub proof fn lemma_after_get_inv(m: PoolModel)
    requires
        m.inv(),
    ensures
        m.after_get().inv(),
{
    if m.free.len() > 0 {
        let slot = m.free.last();
        let n = m.after_get();
        let rest = m.free.drop_last();
        assert(m.free[m.free.len() - 1] == slot);
        assert forall|i: int| 0 <= i < rest.len() implies rest[i] != slot by {
            assert(m.free[i] == rest[i]);
        }
        assert forall|s: int| 0 <= s < n.size() && !#[trigger] n.on_loan[s] implies n.free.contains(
            s as usize,
        ) by {
            assert(s != slot as int);
            assert(m.free.contains(s as usize));
            let j = choose|j: int| 0 <= j < m.free.len() && m.free[j] == s as usize;
            assert(j != m.free.len() - 1);
            assert(rest[j] == s as usize);
        }
        let pushed = seq![slot] + m.recent;
        assert forall|i: int| 0 <= i < m.recent.len() implies m.recent[i] != slot by {
            assert(m.on_loan[m.recent[i] as int]);
        }
        assert(pushed.no_duplicates()) by {
            assert forall|i: int, j: int| 0 <= i < j < pushed.len() implies pushed[i] != pushed[j] by {
                if i == 0 {
                    assert(pushed[j] == m.recent[j - 1]);
                } else {
                    assert(pushed[i] == m.recent[i - 1]);
                    assert(pushed[j] == m.recent[j - 1]);
                }
            }
        }
        assert forall|i: int| 0 <= i < n.recent.len() implies (n.recent[i] as int) < n.size()
            && n.on_loan[n.recent[i] as int] by {
            assert(n.recent[i] == pushed[i]);
            if i > 0 {
                assert(pushed[i] == m.recent[i - 1]);
            }
        }
        assert forall|i: int| 0 <= i < n.free.len() implies (n.free[i] as int) < n.size()
            && !n.on_loan[n.free[i] as int] by {
            assert(rest[i] == m.free[i]);
        }
    }
}

/// Ending a loan keeps the invariant.
pub proof fn lemma_after_release_inv(m: PoolModel, slot: usize)
    requires
        m.inv(),
    ensures
        m.after_release(slot).inv(),
{
    if (slot as int) < m.size() && m.on_loan[slot as int] {
        let n = m.after_release(slot);
        assert forall|i: int| 0 <= i < m.free.len() implies m.free[i] != slot by {}
        assert(n.free.no_duplicates()) by {
            assert forall|i: int, j: int| 0 <= i < j < n.free.len() implies n.free[i] != n.free[j] by {
                if j == m.free.len() {
                    assert(n.free[i] == m.free[i]);
                } else {
                    assert(n.free[i] == m.free[i]);
                    assert(n.free[j] == m.free[j]);
                }
            }
        }
        assert forall|i: int| 0 <= i < n.free.len() implies (n.free[i] as int) < n.size()
            && !n.on_loan[n.free[i] as int] by {
            if i < m.free.len() {
                assert(n.free[i] == m.free[i]);
            }
        }
        assert forall|s: int| 0 <= s < n.size() && !#[trigger] n.on_loan[s] implies n.free.contains(
            s as usize,
        ) by {
            if s == slot as int {
                assert(n.free[m.free.len() as int] == slot);
            } else {
                assert(m.free.contains(s as usize));
                let j = choose|j: int| 0 <= j < m.free.len() && m.free[j] == s as usize;
                assert(n.free[j] == s as usize);
            }
        }
        if exists|i: int| 0 <= i < m.recent.len() && m.recent[i] == slot {
            let k = choose|i: int| 0 <= i < m.recent.len() && m.recent[i] == slot;
            let r = m.recent.remove(k);
            assert(n.recent == r);
            assert forall|i: int| 0 <= i < r.len() implies r[i] == (if i < k {
                m.recent[i]
            } else {
                m.recent[i + 1]
            }) by {}
            assert(r.no_duplicates()) by {
                assert forall|i: int, j: int| 0 <= i < j < r.len() implies r[i] != r[j] by {
                    if i < k && j >= k {
                        assert(r[j] == m.recent[j + 1]);
                    }
                }
            }
            assert forall|i: int| 0 <= i < r.len() implies (r[i] as int) < n.size()
                && n.on_loan[r[i] as int] by {
                if i < k {
                    assert(r[i] == m.recent[i]);
                    assert(m.recent[i] != slot);
                } else {
                    assert(r[i] == m.recent[i + 1]);
                    assert(m.recent[i + 1] != slot);
                }
            }
        } else {
            assert(n.recent == m.recent);
            assert forall|i: int| 0 <= i < n.recent.len() implies (n.recent[i] as int) < n.size()
                && n.on_loan[n.recent[i] as int] by {
                assert(m.recent[i] != slot);
            }
        }
    }
}

} // verus!
