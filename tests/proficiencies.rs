use dodge_creeps::dnd::enums::{
    AbilityType as DndAbility, ArmorType as DndArmor, ClassType, Proficiencies as Grouped,
    Proficiency as DndProficiency, RaceType, SkillType as DndSkill, WeaponType as DndWeapon,
};
use dodge_creeps::enums::{
    AbilityType, ArmorType, Proficiencies, Proficiency, ShieldType, SkillType, WeaponType,
};
use dodge_creeps::flags::FlagKind;

#[test]
fn grouped_lists_follow_declaration_order() {
    let mut p = Grouped::empty();
    p.add_armor(DndArmor::Heavy);
    p.add_armor(DndArmor::Light);
    p.add_armor(DndArmor::Heavy);
    assert_eq!(p.get_armor_list(), vec![DndArmor::Light, DndArmor::Heavy]);
    assert!(p.get_weapon_list().is_empty());
    p.add_weapon(DndWeapon::MartialRanged);
    p.add_weapon(DndWeapon::SimpleMelee);
    assert_eq!(p.get_weapon_list(), vec![DndWeapon::SimpleMelee, DndWeapon::MartialRanged]);
    p.add_skill(DndSkill::Survival);
    p.add_skill(DndSkill::Acrobatics);
    assert_eq!(p.get_skill_list(), vec![DndSkill::Acrobatics, DndSkill::Survival]);
    p.add_saving_throw(DndAbility::Charisma);
    assert_eq!(p.get_saving_throw_list(), vec![DndAbility::Charisma]);
}

#[test]
fn grouped_full_list_is_by_group() {
    let p = Grouped::from_proficiencies(vec![
        DndProficiency::Skill(DndSkill::Stealth),
        DndProficiency::Armor(DndArmor::Medium),
        DndProficiency::SavingThrows(DndAbility::Wisdom),
        DndProficiency::Weapon(DndWeapon::SimpleRanged),
    ]);
    assert_eq!(
        p.get_proficiency_list(),
        vec![
            DndProficiency::Armor(DndArmor::Medium),
            DndProficiency::Weapon(DndWeapon::SimpleRanged),
            DndProficiency::SavingThrows(DndAbility::Wisdom),
            DndProficiency::Skill(DndSkill::Stealth),
        ]
    );
}

#[test]
fn packed_groups_do_not_overlap() {
    let mut p = Proficiencies::new();
    p.add_armor(ArmorType::Light);
    p.add_skill(SkillType::Acrobatics);
    p.add_shield(ShieldType::Buckler);
    p.add_saving_throw(AbilityType::Dexterity);
    p.add_saving_throw(AbilityType::Intelligence);
    p.add_weapon(WeaponType::MartialMelee);
    assert_eq!(p.get_armor_bits(), 0b1);
    assert_eq!(p.get_weapon_bits(), 0b100);
    assert_eq!(p.get_shield_bits(), 0b1);
    assert_eq!(p.get_saving_throw_bits(), 0b1010);
    assert_eq!(p.get_skill_bits(), 0b1);
    assert_eq!(p.get_armor_list(), vec![ArmorType::Light]);
    assert_eq!(p.get_weapon_list(), vec![WeaponType::MartialMelee]);
    assert_eq!(p.get_shield_list(), vec![ShieldType::Buckler]);
    assert_eq!(p.get_saving_throw_list(), vec![AbilityType::Dexterity, AbilityType::Intelligence]);
    assert_eq!(p.get_skill_list(), vec![SkillType::Acrobatics]);
    assert_eq!(
        p.get_proficiency_list(),
        vec![
            Proficiency::Armor(ArmorType::Light),
            Proficiency::Weapon(WeaponType::MartialMelee),
            Proficiency::Shield(ShieldType::Buckler),
            Proficiency::SavingThrows(AbilityType::Dexterity),
            Proficiency::SavingThrows(AbilityType::Intelligence),
            Proficiency::Skill(SkillType::Acrobatics),
        ]
    );
}

#[test]
fn packed_top_skill_lands_in_skill_field() {
    let mut p = Proficiencies::new();
    p.add_skill(SkillType::Survival);
    p.add_shield(ShieldType::Tower);
    assert_eq!(p.get_skill_bits(), 1 << 17);
    assert_eq!(p.get_shield_bits(), 0b1000);
    assert_eq!(p.get_armor_bits(), 0);
    assert_eq!(p.get_weapon_bits(), 0);
    assert_eq!(p.get_saving_throw_bits(), 0);
    let q = Proficiencies::from_proficiencies(vec![
        Proficiency::Shield(ShieldType::Tower),
        Proficiency::Skill(SkillType::Survival),
    ]);
    assert_eq!(p, q);
}

#[test]
fn flags_round_trip() {
    assert_eq!(ArmorType::Heavy.flag(), 4);
    assert_eq!(ArmorType::from_flag(4), ArmorType::Heavy);
    assert_eq!(SkillType::SleightOfHand.flag(), 1 << 15);
    assert_eq!(SkillType::from_flag(1 << 15), SkillType::SleightOfHand);
    assert_eq!(RaceType::Tiefling.flag(), 1 << 8);
    assert_eq!(RaceType::from_flag(1 << 3), RaceType::Human);
    assert_eq!(ClassType::Wizard.flag(), 1 << 11);
    assert_eq!(ClassType::from_flag(1), ClassType::Barbarian);
    assert_eq!(WeaponType::at(2), WeaponType::MartialMelee);
    assert_eq!(WeaponType::MartialRanged.index(), 3);
    assert_eq!(<ClassType as FlagKind>::kinds(), 12);
}
