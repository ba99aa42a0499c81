//! Ability scores.
use vstd::prelude::*;

verus! {

/// The six ability scores and the hit points of a character or of a modifier.
#[derive(Debug, Clone, Copy, PartialEq, Eq, Structural)]
pub struct Ability {
    pub strength: u8,
    pub dexterity: u8,
    pub constitution: u8,
    pub intelligence: u8,
    pub wisdom: u8,
    pub charisma: u8,
    pub hit_points: u32,
}

impl Ability {
    /// Whether every sum of `self + other` fits its field.
    pub open spec fn sum_fits(self, other: Ability) -> bool {
        &&& self.strength + other.strength <= u8::MAX
        &&& self.dexterity + other.dexterity <= u8::MAX
        &&& self.constitution + other.constitution <= u8::MAX
        &&& self.intelligence + other.intelligence <= u8::MAX
        &&& self.wisdom + other.wisdom <= u8::MAX
        &&& self.charisma + other.charisma <= u8::MAX
        &&& self.hit_points + other.hit_points <= u32::MAX
    }

    /// The field-by-field sum.
    pub fn add(self, other: Ability) -> (r: Ability)
        requires
            self.sum_fits(other),
        ensures
            r.strength == self.strength + other.strength,
            r.dexterity == self.dexterity + other.dexterity,
            r.constitution == self.constitution + other.constitution,
            r.intelligence == self.intelligence + other.intelligence,
            r.wisdom == self.wisdom + other.wisdom,
            r.charisma == self.charisma + other.charisma,
            r.hit_points == self.hit_points + other.hit_points,
    {
        Ability {
            strength: self.strength + other.strength,
            dexterity: self.dexterity + other.dexterity,
            constitution: self.constitution + other.constitution,
            intelligence: self.intelligence + other.intelligence,
            wisdom: self.wisdom + other.wisdom,
            charisma: self.charisma + other.charisma,
            hit_points: self.hit_points + other.hit_points,
        }
    }
}

} // verus!
