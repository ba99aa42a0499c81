//! Proficiencies packed into one word: a byte each for armor, weapon, shield
//! and saving-throw flags, then a 32-bit field of skill flags.
use crate::dnd::enums::Proficiencies as GroupedProficiencies;
use crate::flags::{bit, in_order, kinds_in, lemma_insert_kind, lemma_no_kinds, FlagKind};
use vstd::prelude::*;

pub use crate::dnd::enums::{
    ranked, AbilityType, ArmorType, ClassType, Proficiency, ProficiencySet, ShieldType, SkillType,
    WeaponType,
};

verus! {

/// The first bit of the armor flags.
pub const ARMOR_START: u128 = 0;

/// The first bit of the weapon flags.
pub const WEAPON_START: u128 = 8;

/// The first bit of the shield flags.
pub const SHIELD_START: u128 = 16;

/// The first bit of the saving throws flags.
pub const SAVING_THROW_START: u128 = 24;

/// The first bit of the skills flags.
pub const SKILL_START: u128 = 32;

/// The flags of one group, read from the packed word.
pub open spec fn group_of(bits: u128, start: u128, mask: u128) -> u32 {
    ((bits >> start) & mask) as u32
}

/// Setting a flag of the armor group leaves the other groups alone.
pub proof fn lemma_set_armor(bits: u128, flag: u128)
    by (bit_vector)
    requires
        flag <= 0xffu128,
    ensures
        ((((bits | (flag << 0u128)) >> 0u128) & 0xffu128) as u32) == (((bits >> 0u128) & 0xffu128) as u32) | (flag as u32),
        ((((bits | (flag << 0u128)) >> 8u128) & 0xffu128) as u32) == (((bits >> 8u128) & 0xffu128) as u32),
        ((((bits | (flag << 0u128)) >> 16u128) & 0xffu128) as u32) == (((bits >> 16u128) & 0xffu128) as u32),
        ((((bits | (flag << 0u128)) >> 24u128) & 0xffu128) as u32) == (((bits >> 24u128) & 0xffu128) as u32),
        ((((bits | (flag << 0u128)) >> 32u128) & 0xffff_ffffu128) as u32) == (((bits >> 32u128) & 0xffff_ffffu128) as u32),
{
}

/// Setting a flag of the weapon group leaves the other groups alone.
pub proof fn lemma_set_weapon(bits: u128, flag: u128)
    by (bit_vector)
    requires
        flag <= 0xffu128,
    ensures
        ((((bits | (flag << 8u128)) >> 0u128) & 0xffu128) as u32) == (((bits >> 0u128) & 0xffu128) as u32),
        ((((bits | (flag << 8u128)) >> 8u128) & 0xffu128) as u32) == (((bits >> 8u128) & 0xffu128) as u32) | (flag as u32),
        ((((bits | (flag << 8u128)) >> 16u128) & 0xffu128) as u32) == (((bits >> 16u128) & 0xffu128) as u32),
        ((((bits | (flag << 8u128)) >> 24u128) & 0xffu128) as u32) == (((bits >> 24u128) & 0xffu128) as u32),
        ((((bits | (flag << 8u128)) >> 32u128) & 0xffff_ffffu128) as u32) == (((bits >> 32u128) & 0xffff_ffffu128) as u32),
{
}

/// Setting a flag of the shield group leaves the other groups alone.
pub proof fn lemma_set_shield(bits: u128, flag: u128)
    by (bit_vector)
    requires
        flag <= 0xffu128,
    ensures
        ((((bits | (flag << 16u128)) >> 0u128) & 0xffu128) as u32) == (((bits >> 0u128) & 0xffu128) as u32),
        ((((bits | (flag << 16u128)) >> 8u128) & 0xffu128) as u32) == (((bits >> 8u128) & 0xffu128) as u32),
        ((((bits | (flag << 16u128)) >> 16u128) & 0xffu128) as u32) == (((bits >> 16u128) & 0xffu128) as u32) | (flag as u32),
        ((((bits | (flag << 16u128)) >> 24u128) & 0xffu128) as u32) == (((bits >> 24u128) & 0xffu128) as u32),
        ((((bits | (flag << 16u128)) >> 32u128) & 0xffff_ffffu128) as u32) == (((bits >> 32u128) & 0xffff_ffffu128) as u32),
{
}

/// Setting a flag of the saving throws group leaves the other groups alone.
pub proof fn lemma_set_saving_throws(bits: u128, flag: u128)
    by (bit_vector)
    requires
        flag <= 0xffu128,
    ensures
        ((((bits | (flag << 24u128)) >> 0u128) & 0xffu128) as u32) == (((bits >> 0u128) & 0xffu128) as u32),
        ((((bits | (flag << 24u128)) >> 8u128) & 0xffu128) as u32) == (((bits >> 8u128) & 0xffu128) as u32),
        ((((bits | (flag << 24u128)) >> 16u128) & 0xffu128) as u32) == (((bits >> 16u128) & 0xffu128) as u32),
        ((((bits | (flag << 24u128)) >> 24u128) & 0xffu128) as u32) == (((bits >> 24u128) & 0xffu128) as u32) | (flag as u32),
        ((((bits | (flag << 24u128)) >> 32u128) & 0xffff_ffffu128) as u32) == (((bits >> 32u128) & 0xffff_ffffu128) as u32),
{
}

/// Setting a flag of the skills group leaves the other groups alone.
pub proof fn lemma_set_skills(bits: u128, flag: u128)
    by (bit_vector)
    requires
        flag <= 0xffff_ffffu128,
    ensures
        ((((bits | (flag << 32u128)) >> 0u128) & 0xffu128) as u32) == (((bits >> 0u128) & 0xffu128) as u32),
        ((((bits | (flag << 32u128)) >> 8u128) & 0xffu128) as u32) == (((bits >> 8u128) & 0xffu128) as u32),
        ((((bits | (flag << 32u128)) >> 16u128) & 0xffu128) as u32) == (((bits >> 16u128) & 0xffu128) as u32),
        ((((bits | (flag << 32u128)) >> 24u128) & 0xffu128) as u32) == (((bits >> 24u128) & 0xffu128) as u32),
        ((((bits | (flag << 32u128)) >> 32u128) & 0xffff_ffffu128) as u32) == (((bits >> 32u128) & 0xffff_ffffu128) as u32) | (flag as u32),
{
}

/// The proficiencies of a character, packed into one word.
#[derive(Debug, Clone, Copy, PartialEq, Eq, Structural, PartialOrd, Ord, Hash)]
pub struct Proficiencies {
    bits: u128,
}

impl View for Proficiencies {
    type V = ProficiencySet;

    closed spec fn view(&self) -> ProficiencySet {
        ProficiencySet {
            armor: kinds_in(group_of(self.bits, ARMOR_START, 0xffu128)),
            weapon: kinds_in(group_of(self.bits, WEAPON_START, 0xffu128)),
            shield: kinds_in(group_of(self.bits, SHIELD_START, 0xffu128)),
            saving_throws: kinds_in(group_of(self.bits, SAVING_THROW_START, 0xffu128)),
            skills: kinds_in(group_of(self.bits, SKILL_START, 0xffff_ffffu128)),
        }
    }
}

impl Proficiencies {
    /// The armor flags.
    pub closed spec fn armor_word(&self) -> u32 {
        group_of(self.bits, ARMOR_START, 0xffu128)
    }

    /// The weapon flags.
    pub closed spec fn weapon_word(&self) -> u32 {
        group_of(self.bits, WEAPON_START, 0xffu128)
    }

    /// The shield flags.
    pub closed spec fn shield_word(&self) -> u32 {
        group_of(self.bits, SHIELD_START, 0xffu128)
    }

    /// The saving throws flags.
    pub closed spec fn saving_throws_word(&self) -> u32 {
        group_of(self.bits, SAVING_THROW_START, 0xffu128)
    }

    /// The skills flags.
    pub closed spec fn skills_word(&self) -> u32 {
        group_of(self.bits, SKILL_START, 0xffff_ffffu128)
    }

    /// No proficiency at all.
    pub fn new() -> (r: Self)
        ensures
            r@ == ProficiencySet::empty(),
            r.armor_word() == 0,
            r.weapon_word() == 0,
            r.shield_word() == 0,
            r.saving_throws_word() == 0,
            r.skills_word() == 0,
    {
        let r = Proficiencies { bits: 0 };
        proof {
            lemma_no_kinds::<ArmorType>();
            lemma_no_kinds::<WeaponType>();
            lemma_no_kinds::<ShieldType>();
            lemma_no_kinds::<AbilityType>();
            lemma_no_kinds::<SkillType>();
            assert(group_of(0u128, 0, 0xffu128) == 0u32) by (bit_vector);
            assert(group_of(0u128, 8, 0xffu128) == 0u32) by (bit_vector);
            assert(group_of(0u128, 16, 0xffu128) == 0u32) by (bit_vector);
            assert(group_of(0u128, 24, 0xffu128) == 0u32) by (bit_vector);
            assert(group_of(0u128, 32, 0xffff_ffffu128) == 0u32) by (bit_vector);
            assert(r@ =~= ProficiencySet::empty());
        }
        r
    }

    /// The proficiencies listed, and no other.
    pub fn from_proficiencies(proficiencies: Vec<Proficiency>) -> (r: Self)
        ensures
            r@ == ProficiencySet::empty().with_all(proficiencies@),
    {
        let mut p = Proficiencies::new();
        let mut i: usize = 0;
        while i < proficiencies.len()
            invariant
                i <= proficiencies@.len(),
                p@ == ProficiencySet::empty().with_all(proficiencies@.subrange(0, i as int)),
            decreases proficiencies@.len() - i,
        {
            p.add_proficiency(proficiencies[i]);
            proof {
                let next = proficiencies@.subrange(0, i + 1);
                assert(next.drop_last() =~= proficiencies@.subrange(0, i as int));
            }
            i = i + 1;
        }
        proof {
            assert(proficiencies@.subrange(0, proficiencies@.len() as int) =~= proficiencies@);
        }
        p
    }

    /// Adds one proficiency.
    pub fn add_proficiency(&mut self, proficiency: Proficiency)
        ensures
            final(self)@ == old(self)@.with(proficiency),
    {
        match proficiency {
            Proficiency::Armor(armor) => self.add_armor(armor),
            Proficiency::Weapon(weapon) => self.add_weapon(weapon),
            Proficiency::Shield(shield) => self.add_shield(shield),
            Proficiency::SavingThrows(ability) => self.add_saving_throw(ability),
            Proficiency::Skill(skill) => self.add_skill(skill),
        }
    }

    pub fn add_armor(&mut self, armor: ArmorType)
        ensures
            final(self)@ == old(self)@.with(Proficiency::Armor(armor)),
            final(self).armor_word() == old(self).armor_word() | bit(armor.spec_index()),
            final(self).weapon_word() == old(self).weapon_word(),
            final(self).shield_word() == old(self).shield_word(),
            final(self).saving_throws_word() == old(self).saving_throws_word(),
            final(self).skills_word() == old(self).skills_word(),
    {
        let flag = armor.flag();
        proof {
            armor.lemma_index_at();
            let i = armor.spec_index() as u32;
            assert(i < 8);
            assert(1u32 << i <= 0xff as u32) by (bit_vector)
                requires
                    i < 8,
            ;
            lemma_set_armor(self.bits, flag as u128);
            assert((flag as u128) as u32 == flag);
            lemma_insert_kind(group_of(self.bits, ARMOR_START, 0xffu128), armor);
        }
        self.bits = self.bits | ((flag as u128) << ARMOR_START);
        proof {
            assert(self@ =~= old(self)@.with(Proficiency::Armor(armor)));
        }
    }

    /// The armor flags.
    pub fn get_armor_bits(&self) -> (r: u32)
        ensures
            r == self.armor_word(),
            kinds_in::<ArmorType>(r) == self@.armor,
    {
        ((self.bits >> ARMOR_START) & 0xffu128) as u32
    }

    /// The armor proficiencies, in declaration order.
    pub fn get_armor_list(&self) -> (r: Vec<ArmorType>)
        ensures
            r@.to_set() == self@.armor,
            forall|x| r@.contains(x) <==> self@.armor.contains(x),
            in_order(r@),
    {
        crate::flags::list_kinds(self.get_armor_bits())
    }

    pub fn add_weapon(&mut self, weapon: WeaponType)
        ensures
            final(self)@ == old(self)@.with(Proficiency::Weapon(weapon)),
            final(self).weapon_word() == old(self).weapon_word() | bit(weapon.spec_index()),
            final(self).armor_word() == old(self).armor_word(),
            final(self).shield_word() == old(self).shield_word(),
            final(self).saving_throws_word() == old(self).saving_throws_word(),
            final(self).skills_word() == old(self).skills_word(),
    {
        let flag = weapon.flag();
        proof {
            weapon.lemma_index_at();
            let i = weapon.spec_index() as u32;
            assert(i < 8);
            assert(1u32 << i <= 0xff as u32) by (bit_vector)
                requires
                    i < 8,
            ;
            lemma_set_weapon(self.bits, flag as u128);
            assert((flag as u128) as u32 == flag);
            lemma_insert_kind(group_of(self.bits, WEAPON_START, 0xffu128), weapon);
        }
        self.bits = self.bits | ((flag as u128) << WEAPON_START);
        proof {
            assert(self@ =~= old(self)@.with(Proficiency::Weapon(weapon)));
        }
    }

    /// The weapon flags.
    pub fn get_weapon_bits(&self) -> (r: u32)
        ensures
            r == self.weapon_word(),
            kinds_in::<WeaponType>(r) == self@.weapon,
    {
        ((self.bits >> WEAPON_START) & 0xffu128) as u32
    }

    /// The weapon proficiencies, in declaration order.
    pub fn get_weapon_list(&self) -> (r: Vec<WeaponType>)
        ensures
            r@.to_set() == self@.weapon,
            forall|x| r@.contains(x) <==> self@.weapon.contains(x),
            in_order(r@),
    {
        crate::flags::list_kinds(self.get_weapon_bits())
    }

    pub fn add_shield(&mut self, shield: ShieldType)
        ensures
            final(self)@ == old(self)@.with(Proficiency::Shield(shield)),
            final(self).shield_word() == old(self).shield_word() | bit(shield.spec_index()),
            final(self).armor_word() == old(self).armor_word(),
            final(self).weapon_word() == old(self).weapon_word(),
            final(self).saving_throws_word() == old(self).saving_throws_word(),
            final(self).skills_word() == old(self).skills_word(),
    {
        let flag = shield.flag();
        proof {
            shield.lemma_index_at();
            let i = shield.spec_index() as u32;
            assert(i < 8);
            assert(1u32 << i <= 0xff as u32) by (bit_vector)
                requires
                    i < 8,
            ;
            lemma_set_shield(self.bits, flag as u128);
            assert((flag as u128) as u32 == flag);
            lemma_insert_kind(group_of(self.bits, SHIELD_START, 0xffu128), shield);
        }
        self.bits = self.bits | ((flag as u128) << SHIELD_START);
        proof {
            assert(self@ =~= old(self)@.with(Proficiency::Shield(shield)));
        }
    }

    /// The shield flags.
    pub fn get_shield_bits(&self) -> (r: u32)
        ensures
            r == self.shield_word(),
            kinds_in::<ShieldType>(r) == self@.shield,
    {
        ((self.bits >> SHIELD_START) & 0xffu128) as u32
    }

    /// The shield proficiencies, in declaration order.
    pub fn get_shield_list(&self) -> (r: Vec<ShieldType>)
        ensures
            r@.to_set() == self@.shield,
            forall|x| r@.contains(x) <==> self@.shield.contains(x),
            in_order(r@),
    {
        crate::flags::list_kinds(self.get_shield_bits())
    }

    pub fn add_saving_throw(&mut self, ability: AbilityType)
        ensures
            final(self)@ == old(self)@.with(Proficiency::SavingThrows(ability)),
            final(self).saving_throws_word() == old(self).saving_throws_word() | bit(ability.spec_index()),
            final(self).armor_word() == old(self).armor_word(),
            final(self).weapon_word() == old(self).weapon_word(),
            final(self).shield_word() == old(self).shield_word(),
            final(self).skills_word() == old(self).skills_word(),
    {
        let flag = ability.flag();
        proof {
            ability.lemma_index_at();
            let i = ability.spec_index() as u32;
            assert(i < 8);
            assert(1u32 << i <= 0xff as u32) by (bit_vector)
                requires
                    i < 8,
            ;
            lemma_set_saving_throws(self.bits, flag as u128);
            assert((flag as u128) as u32 == flag);
            lemma_insert_kind(group_of(self.bits, SAVING_THROW_START, 0xffu128), ability);
        }
        self.bits = self.bits | ((flag as u128) << SAVING_THROW_START);
        proof {
            assert(self@ =~= old(self)@.with(Proficiency::SavingThrows(ability)));
        }
    }

    /// The saving throws flags.
    pub fn get_saving_throw_bits(&self) -> (r: u32)
        ensures
            r == self.saving_throws_word(),
            kinds_in::<AbilityType>(r) == self@.saving_throws,
    {
        ((self.bits >> SAVING_THROW_START) & 0xffu128) as u32
    }

    /// The saving throws proficiencies, in declaration order.
    pub fn get_saving_throw_list(&self) -> (r: Vec<AbilityType>)
        ensures
            r@.to_set() == self@.saving_throws,
            forall|x| r@.contains(x) <==> self@.saving_throws.contains(x),
            in_order(r@),
    {
        crate::flags::list_kinds(self.get_saving_throw_bits())
    }

    pub fn add_skill(&mut self, skill: SkillType)
        ensures
            final(self)@ == old(self)@.with(Proficiency::Skill(skill)),
            final(self).skills_word() == old(self).skills_word() | bit(skill.spec_index()),
            final(self).armor_word() == old(self).armor_word(),
            final(self).weapon_word() == old(self).weapon_word(),
            final(self).shield_word() == old(self).shield_word(),
            final(self).saving_throws_word() == old(self).saving_throws_word(),
    {
        let flag = skill.flag();
        proof {
            skill.lemma_index_at();
            let i = skill.spec_index() as u32;
            assert(i < 32);
            assert(1u32 << i <= 0xffff_ffff as u32) by (bit_vector)
                requires
                    i < 32,
            ;
            lemma_set_skills(self.bits, flag as u128);
            assert((flag as u128) as u32 == flag);
            lemma_insert_kind(group_of(self.bits, SKILL_START, 0xffff_ffffu128), skill);
        }
        self.bits = self.bits | ((flag as u128) << SKILL_START);
        proof {
            assert(self@ =~= old(self)@.with(Proficiency::Skill(skill)));
        }
    }

    /// The skills flags.
    pub fn get_skill_bits(&self) -> (r: u32)
        ensures
            r == self.skills_word(),
            kinds_in::<SkillType>(r) == self@.skills,
    {
        ((self.bits >> SKILL_START) & 0xffff_ffffu128) as u32
    }

    /// The skills proficiencies, in declaration order.
    pub fn get_skill_list(&self) -> (r: Vec<SkillType>)
        ensures
            r@.to_set() == self@.skills,
            forall|x| r@.contains(x) <==> self@.skills.contains(x),
            in_order(r@),
    {
        crate::flags::list_kinds(self.get_skill_bits())
    }

    /// The same proficiencies, one flag set per group.
    pub fn unpacked(&self) -> (r: GroupedProficiencies)
        ensures
            r@ == self@,
    {
        GroupedProficiencies::from_groups(
            self.get_armor_bits(),
            self.get_weapon_bits(),
            self.get_shield_bits(),
            self.get_saving_throw_bits(),
            self.get_skill_bits(),
        )
    }

    /// All proficiencies, by group (armor, weapon, shield, saving throw, skill)
    /// and within a group in declaration order.
    pub fn get_proficiency_list(&self) -> (r: Vec<Proficiency>)
        ensures
            forall|p: Proficiency| r@.contains(p) <==> self@.has(p),
            ranked(r@),
    {
        self.unpacked().get_proficiency_list()
    }
}

} // verus!
