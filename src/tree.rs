//! A tree that falls to a stump after three hits that deal damage.
use crate::effect::{carries_damage, Effects};
use vstd::prelude::*;

verus! {

#[derive(Debug, Clone, Copy, PartialEq, Eq, Structural)]
pub enum TreeState {
    Idle,
    Stump,
}

#[derive(Debug, Clone, Copy, PartialEq, Eq, Structural)]
pub struct PineTree {
    pub hp: i32,
    pub state: TreeState,
}

impl PineTree {
    pub fn new() -> (r: Self)
        ensures
            r == (PineTree { hp: 3, state: TreeState::Idle }),
    {
        PineTree { hp: 3, state: TreeState::Idle }
    }

    /// Takes a hit. Effects without damage leave the tree alone and return
    /// `None`; otherwise it loses one hit point and the animation to play is
    /// returned: "stump" once no hit point is left, else "chopping".
    pub fn hurt(&mut self, effects: &Effects) -> (animation: Option<&'static str>)
        requires
            old(self).hp > i32::MIN,
        ensures
            !carries_damage(effects.effects@) ==> animation.is_none() && *final(self) == *old(self),
            carries_damage(effects.effects@) ==> final(self).hp == old(self).hp - 1,
            carries_damage(effects.effects@) && final(self).hp <= 0 ==> final(self).state
                == TreeState::Stump && animation.is_some() && animation.unwrap()@ == "stump"@,
            carries_damage(effects.effects@) && final(self).hp > 0 ==> final(self).state
                == old(self).state && animation.is_some() && animation.unwrap()@ == "chopping"@,
    {
        if !effects.has_damage() {
            return None;
        }
        self.hp = self.hp - 1;
        if self.hp <= 0 {
            self.state = TreeState::Stump;
            Some("stump")
        } else {
            Some("chopping")
        }
    }
}

} // verus!
