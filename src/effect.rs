//! What a hit carries to what it hits.
use vstd::prelude::*;

verus! {

#[derive(Clone, Copy, Debug, PartialEq, Eq, Structural)]
pub struct Damage {
    pub amount: i32,
}

#[derive(Clone, Copy, Debug, PartialEq, Eq, Structural)]
pub struct Heal {
    pub amount: i32,
}

#[derive(Clone, Copy, Debug, PartialEq, Eq, Structural)]
pub struct Buff {
    pub duration: i32,
}

#[derive(Clone, Copy, Debug, PartialEq, Eq, Structural)]
pub struct DeBuff {
    pub duration: i32,
}

#[derive(Clone, Copy, Debug, PartialEq, Eq, Structural)]
pub enum Effect {
    Damage(Damage),
    Heal(Heal),
    Buff(Buff),
    DeBuff(DeBuff),
}

/// The effects of one hit, in order.
#[derive(Debug)]
pub struct Effects {
    pub effects: Vec<Effect>,
}

/// Whether one of `effects` is damage.
pub open spec fn carries_damage(effects: Seq<Effect>) -> bool {
    exists|i: int| 0 <= i < effects.len() && effects[i] is Damage
}

impl Effects {
    pub fn new(effects: Vec<Effect>) -> (r: Self)
        ensures
            r.effects == effects,
    {
        Effects { effects }
    }

    /// Whether one of the effects is damage.
    pub fn has_damage(&self) -> (r: bool)
        ensures
            r == carries_damage(self.effects@),
    {
        let mut i: usize = 0;
        while i < self.effects.len()
            invariant
                i <= self.effects@.len(),
                forall|j: int| 0 <= j < i ==> !(self.effects@[j] is Damage),
            decreases self.effects@.len() - i,
        {
            if let Effect::Damage(_) = self.effects[i] {
                return true;
            }
            i = i + 1;
        }
        false
    }
}

} // verus!
