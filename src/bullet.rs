//! The lifecycle of a pooled bullet, apart from its motion.
use crate::pool::ReuseObject;
use vstd::prelude::*;

verus! {

#[derive(Debug, Clone, Copy, PartialEq, Eq, Structural)]
pub enum BulletState {
    Init,
    Flying,
    Exploding,
    Inactive,
}

/// A bullet's state, and the two engine switches that it drives: whether the
/// node is shown and whether it gets process calls.
#[derive(Debug, Clone, Copy, PartialEq, Eq, Structural)]
pub struct Bullet {
    pub state: BulletState,
    pub visible: bool,
    pub processing: bool,
}

impl Bullet {
    /// The bullet after `prepare`: a bullet not yet ready is made ready, shown
    /// and processed; a ready one is left as it is.
    pub open spec fn prepared(self) -> Bullet {
        if self.state == BulletState::Init {
            self
        } else {
            Bullet { state: BulletState::Init, visible: true, processing: true }
        }
    }

    /// The bullet after `recycle`: an active bullet is made inactive, hidden and
    /// no longer processed; an inactive one is left as it is.
    pub open spec fn recycled(self) -> Bullet {
        if self.state == BulletState::Inactive {
            self
        } else {
            Bullet { state: BulletState::Inactive, visible: false, processing: false }
        }
    }

    /// A bullet as the engine creates it: ready, shown and processed.
    pub fn new() -> (r: Self)
        ensures
            r == (Bullet { state: BulletState::Init, visible: true, processing: true }),
    {
        Bullet { state: BulletState::Init, visible: true, processing: true }
    }

    /// Makes the bullet ready. Returns whether anything changed, that is,
    /// whether the engine has to show the node and resume its processing.
    pub fn activate(&mut self) -> (changed: bool)
        ensures
            *final(self) == old(self).prepared(),
            changed == (old(self).state != BulletState::Init),
    {
        if self.state != BulletState::Init {
            self.state = BulletState::Init;
            self.processing = true;
            self.visible = true;
            true
        } else {
            false
        }
    }

    /// Makes the bullet inactive. Returns whether anything changed, that is,
    /// whether the engine has to hide the node and stop its processing.
    pub fn deactivate(&mut self) -> (changed: bool)
        ensures
            *final(self) == old(self).recycled(),
            changed == (old(self).state != BulletState::Inactive),
    {
        if self.state != BulletState::Inactive {
            self.state = BulletState::Inactive;
            self.visible = false;
            self.processing = false;
            true
        } else {
            false
        }
    }

    /// Fires the bullet. Returns whether it was not flying yet, that is,
    /// whether the engine has to place it, aim it and start its timer.
    pub fn shot(&mut self) -> (started: bool)
        ensures
            final(self).state == BulletState::Flying,
            final(self).visible == old(self).visible,
            final(self).processing == old(self).processing,
            started == (old(self).state != BulletState::Flying),
    {
        if self.state != BulletState::Flying {
            self.state = BulletState::Flying;
            true
        } else {
            false
        }
    }

    /// Whether the bullet moves on a physics step.
    pub fn is_flying(&self) -> (r: bool)
        ensures
            r == (self.state == BulletState::Flying),
    {
        self.state == BulletState::Flying
    }
}

impl ReuseObject for Bullet {
    open spec fn after_init(self) -> Bullet {
        self
    }

    open spec fn after_prepare(self) -> Bullet {
        self.prepared()
    }

    open spec fn after_recycle(self) -> Bullet {
        self.recycled()
    }

    fn init(&mut self) {
    }

    fn prepare(&mut self) {
        self.activate();
    }

    fn recycle(&mut self) {
        self.deactivate();
    }
}

/// A second `prepare` right after a first changes nothing and reports no change.
pub proof fn lemma_prepare_idempotent(b: Bullet)
    ensures
        b.prepared().prepared() == b.prepared(),
        b.prepared().state == BulletState::Init,
        b.after_prepare().after_prepare() == b.after_prepare(),
{
}

/// A second `recycle` right after a first changes nothing and reports no change.
pub proof fn lemma_recycle_idempotent(b: Bullet)
    ensures
        b.recycled().recycled() == b.recycled(),
        b.recycled().state == BulletState::Inactive,
        b.after_recycle().after_recycle() == b.after_recycle(),
{
}

} // verus!
