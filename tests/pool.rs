use std::cell::Cell;

use dodge_creeps::bullet::{Bullet, BulletState};
use dodge_creeps::pool::{GdPool, ReuseObject};

/// Counts the lifecycle calls it receives.
#[derive(Clone, Copy, Debug, PartialEq)]
struct Probe {
    id: usize,
    inits: usize,
    prepares: usize,
    recycles: usize,
    active: bool,
    activations: usize,
}

impl Probe {
    fn new(id: usize) -> Self {
        Probe { id, inits: 0, prepares: 0, recycles: 0, active: false, activations: 0 }
    }
}

impl ReuseObject for Probe {
    fn after_init(self) -> Self {
        Probe { inits: self.inits + 1, ..self }
    }

    fn after_prepare(self) -> Self {
        Probe {
            prepares: self.prepares + 1,
            active: true,
            activations: if self.active { self.activations } else { self.activations + 1 },
            ..self
        }
    }

    fn after_recycle(self) -> Self {
        Probe { recycles: self.recycles + 1, active: false, ..self }
    }

    fn init(&mut self) {
        *self = self.after_init();
    }

    fn prepare(&mut self) {
        *self = self.after_prepare();
    }

    fn recycle(&mut self) {
        *self = self.after_recycle();
    }
}

fn probe_pool(capacity: usize) -> GdPool<Probe> {
    let next = Cell::new(0usize);
    GdPool::new(capacity, || {
        let id = next.get();
        next.set(id + 1);
        Probe::new(id)
    })
}

#[test]
fn new_pool_builds_twice_capacity_initialized_once() {
    let pool = probe_pool(3);
    assert_eq!(pool.capacity(), 3);
    assert_eq!(pool.available(), 6);
    let loan_count = pool.available();
    assert_eq!(loan_count, 6);
}

#[test]
fn capacity_many_gets_all_succeed() {
    for n in 1..=6usize {
        let mut pool = probe_pool(n);
        assert!(pool.available() >= n);
        let mut loans = Vec::new();
        for _ in 0..n {
            let loan = pool.get();
            assert!(loan.is_some());
            loans.push(loan.unwrap());
        }
        assert_eq!(pool.available(), n);
        for loan in &loans {
            let obj = loan.borrow(&pool);
            assert_eq!(obj.inits, 1);
            assert_eq!(obj.prepares, 1);
            assert_eq!(obj.recycles, 0);
            assert!(pool.is_recent(loan));
        }
    }
}

#[test]
fn one_past_capacity_recycles_the_oldest() {
    let mut pool = probe_pool(2);
    let first = pool.get().unwrap();
    let second = pool.get().unwrap();
    assert_eq!(first.borrow(&pool).recycles, 0);
    let third = pool.get();
    assert!(third.is_some());
    let third = third.unwrap();
    assert_eq!(first.borrow(&pool).recycles, 1);
    assert!(!first.borrow(&pool).active);
    assert!(!pool.is_recent(&first));
    assert!(pool.is_recent(&second));
    assert!(pool.is_recent(&third));
    assert_eq!(second.borrow(&pool).recycles, 0);
    // the evicted loan is still out: its object is not handed out again
    assert!(pool.is_on_loan(&first));
}

#[test]
fn capacity_three_four_gets_evict_the_first() {
    let mut pool = probe_pool(3);
    assert_eq!(pool.available(), 6);
    let l1 = pool.get().unwrap();
    let l2 = pool.get().unwrap();
    let l3 = pool.get().unwrap();
    let l4 = pool.get();
    assert!(l4.is_some());
    let l4 = l4.unwrap();
    assert_eq!(l1.borrow(&pool).recycles, 1);
    assert!(!pool.is_recent(&l1));
    assert!(pool.is_recent(&l2));
    assert!(pool.is_recent(&l3));
    assert!(pool.is_recent(&l4));
    for l in [&l2, &l3, &l4] {
        assert_eq!(l.borrow(&pool).recycles, 0);
        assert_eq!(l.borrow(&pool).prepares, 1);
    }
    assert_eq!(pool.available(), 2);
}

#[test]
fn capacity_one_release_then_get_returns_same_object() {
    let mut pool = probe_pool(1);
    let loan = pool.get().unwrap();
    let slot = loan.slot();
    let id = loan.borrow(&pool).id;
    assert!(pool.release(loan));
    let again = pool.get().unwrap();
    assert_eq!(again.slot(), slot);
    let obj = again.borrow(&pool);
    assert_eq!(obj.id, id);
    assert_eq!(obj.prepares, 2);
    assert_eq!(obj.recycles, 1);
    assert_eq!(obj.inits, 1);
}

#[test]
fn release_makes_object_available_again() {
    let mut pool = probe_pool(4);
    let a = pool.get().unwrap();
    let _b = pool.get().unwrap();
    let before = pool.available();
    let a_slot = a.slot();
    assert!(pool.release(a));
    assert_eq!(pool.available(), before + 1);
    let c = pool.get().unwrap();
    assert_eq!(c.slot(), a_slot);
    assert_eq!(c.borrow(&pool).prepares, 2);
    assert!(pool.is_recent(&c));
}

#[test]
fn get_hands_out_distinct_slots_top_first() {
    let mut pool = probe_pool(2);
    let a = pool.get().unwrap();
    let b = pool.get().unwrap();
    assert_eq!(a.slot(), 3);
    assert_eq!(b.slot(), 2);
    assert_ne!(a.borrow(&pool).id, b.borrow(&pool).id);
}

#[test]
fn exhausted_pool_reports_none() {
    let mut pool = probe_pool(1);
    let a = pool.get();
    let b = pool.get();
    assert!(a.is_some());
    assert!(b.is_some());
    assert_eq!(pool.available(), 0);
    assert!(pool.get().is_none());
    assert!(pool.release(a.unwrap()));
    assert!(pool.get().is_some());
}

#[test]
fn releasing_an_evicted_loan_recycles_again_without_harm() {
    let mut pool = probe_pool(1);
    let first = pool.get().unwrap();
    let _second = pool.get().unwrap();
    assert_eq!(first.borrow(&pool).recycles, 1);
    let slot = first.slot();
    assert!(pool.release(first));
    assert_eq!(pool.available(), 1);
    let again = pool.get().unwrap();
    assert_eq!(again.slot(), slot);
    assert_eq!(again.borrow(&pool).recycles, 2);
    assert_eq!(again.borrow(&pool).activations, 2);
}

#[test]
fn release_of_a_foreign_loan_changes_nothing() {
    let mut big = probe_pool(3);
    let mut small = probe_pool(1);
    let foreign = big.get().unwrap();
    assert_eq!(foreign.slot(), 5);
    let _own = small.get().unwrap();
    let low = big.get().unwrap();
    assert_eq!(low.slot(), 4);
    let before = small.available();
    assert!(!small.is_on_loan(&foreign));
    assert!(!small.release(foreign));
    assert_eq!(small.available(), before);
    assert!(big.is_on_loan(&low));
    assert!(big.release(low));
}

#[test]
fn borrow_mut_changes_the_pooled_object() {
    let mut pool = probe_pool(1);
    let loan = pool.get().unwrap();
    loan.borrow_mut(&mut pool).id = 42;
    assert_eq!(loan.borrow(&pool).id, 42);
    assert!(pool.release(loan));
    let again = pool.get().unwrap();
    assert_eq!(again.borrow(&pool).id, 42);
    assert_eq!(again.borrow(&pool).recycles, 1);
}

#[test]
fn loans_carry_their_pool() {
    let mut pool = probe_pool(2);
    let loan = pool.get().unwrap();
    assert!(pool.is_on_loan(&loan));
    assert!(pool.is_recent(&loan));
    let other = probe_pool(2);
    assert!(!other.is_on_loan(&loan));
    assert!(!other.is_recent(&loan));
}

#[test]
fn bullet_prepare_twice_changes_once() {
    let mut b = Bullet::new();
    assert!(b.deactivate());
    assert!(b.activate());
    let after_first = b;
    assert!(!b.activate());
    assert_eq!(b, after_first);
    assert_eq!(b.state, BulletState::Init);
    assert!(b.visible);
    assert!(b.processing);
}

#[test]
fn bullet_recycle_twice_changes_once() {
    let mut b = Bullet::new();
    assert!(b.deactivate());
    let after_first = b;
    assert!(!b.deactivate());
    assert_eq!(b, after_first);
    assert_eq!(b.state, BulletState::Inactive);
    assert!(!b.visible);
    assert!(!b.processing);
}

#[test]
fn bullet_shot_starts_once() {
    let mut b = Bullet::new();
    assert!(!b.is_flying());
    assert!(b.shot());
    assert!(b.is_flying());
    assert!(!b.shot());
    assert_eq!(b.state, BulletState::Flying);
}

#[test]
fn bullets_in_a_pool_follow_their_lifecycle() {
    let mut pool = GdPool::new(1, Bullet::new);
    let first = pool.get().unwrap();
    assert_eq!(first.borrow(&pool).state, BulletState::Init);
    first.borrow_mut(&mut pool).shot();
    let second = pool.get().unwrap();
    assert_eq!(first.borrow(&pool).state, BulletState::Inactive);
    assert!(!first.borrow(&pool).visible);
    assert_eq!(second.borrow(&pool).state, BulletState::Init);
    assert!(pool.release(first));
    assert!(pool.release(second));
    assert_eq!(pool.available(), 2);
}
