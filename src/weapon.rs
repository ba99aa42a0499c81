//! Weapons, by class.
use crate::dnd::enums::WeaponType;
use vstd::prelude::*;

verus! {

pub trait Weapon {
    /// The class of the weapon.
    fn weapon_type(&self) -> WeaponType;

    fn damage(&self) -> u32;

    fn range(&self) -> u32;
}

pub trait SimpleMeleeWeapon: Weapon {
    fn category(&self) -> WeaponType {
        WeaponType::SimpleMelee
    }
}

pub trait SimpleRangedWeapon: Weapon {
    fn category() -> WeaponType {
        WeaponType::SimpleRanged
    }

    fn ammunition(&self) -> u32;
}

pub trait MartialMeleeWeapon: Weapon {
    fn category() -> WeaponType {
        WeaponType::MartialMelee
    }
}

pub trait MartialRangedWeapon: Weapon {
    fn category() -> WeaponType {
        WeaponType::MartialRanged
    }

    fn ammunition(&self) -> u32;
}

} // verus!
