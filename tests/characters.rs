use dodge_creeps::ability::Ability;
use dodge_creeps::alignment::{Alignment, Ethical, Moral};
use dodge_creeps::effect::{Damage, Effect, Effects, Heal};
use dodge_creeps::enums::{AbilityType, ArmorType, ShieldType, SkillType, WeaponType};
use dodge_creeps::footman::{Character, HumanWarrior};
use dodge_creeps::interactable::CasterRegistry;

#[test]
fn test_human_warrior() {
    let mut human_warrior = HumanWarrior::new("Bob".to_string(), 1, 10, 10);
    assert_eq!(human_warrior.name, "Bob");
    assert_eq!(human_warrior.level, 1);
    assert_eq!(human_warrior.health, 10);
    assert_eq!(human_warrior.armor_class, 10);
    assert_eq!(human_warrior.alignment, Alignment::new(Moral::Good, Ethical::Neutral));

    println!("{:?}", human_warrior);
    human_warrior.proficiencies.add_armor(ArmorType::Light);
    human_warrior.proficiencies.add_skill(SkillType::Acrobatics);
    human_warrior.proficiencies.add_shield(ShieldType::Buckler);
    human_warrior.proficiencies.add_saving_throw(AbilityType::Dexterity);
    human_warrior.proficiencies.add_saving_throw(AbilityType::Intelligence);
    human_warrior.proficiencies.add_weapon(WeaponType::MartialMelee);
    println!("{:?}", human_warrior.proficiencies.get_proficiency_list());
}

#[test]
fn human_warrior_scores_add_race_and_class() {
    let w = HumanWarrior::new("Ann".to_string(), 3, 0, 12);
    let a = w.ability();
    assert_eq!(a.strength, 12);
    assert_eq!(a.dexterity, 12);
    assert_eq!(a.constitution, 12);
    assert_eq!(a.intelligence, 12);
    assert_eq!(a.wisdom, 12);
    assert_eq!(a.charisma, 12);
    assert_eq!(a.hit_points, 10);
    assert_eq!(w.race().name, "Human");
    assert_eq!(w.race().size, "Medium");
    assert_eq!(w.race().speed, 30);
    assert_eq!(w.class().name, "Warrior");
    assert_eq!(w.name(), "Ann");
    assert!(!w.is_alive());
    assert!(w.proficiencies.get_proficiency_list().is_empty());
}

#[test]
fn ability_add_sums_each_field() {
    let a = Ability { strength: 1, dexterity: 2, constitution: 3, intelligence: 4, wisdom: 5, charisma: 6, hit_points: 7 };
    let b = Ability { strength: 10, dexterity: 20, constitution: 30, intelligence: 40, wisdom: 50, charisma: 60, hit_points: 70 };
    let c = a.add(b);
    assert_eq!(
        c,
        Ability { strength: 11, dexterity: 22, constitution: 33, intelligence: 44, wisdom: 55, charisma: 66, hit_points: 77 }
    );
}

#[test]
fn alignment_names() {
    assert_eq!(Moral::Evil.as_str(), "Evil");
    assert_eq!(Ethical::Chaotic.as_str(), "Chaotic");
    assert_eq!(Alignment::new(Moral::Good, Ethical::Neutral).describe(), "Good Neutral");
    assert_eq!(Alignment::new(Moral::Neutral, Ethical::Lawful).describe(), "Neutral Lawful");
}

#[test]
fn effects_keep_their_order() {
    let e = Effects::new(vec![Effect::Damage(Damage { amount: 3 }), Effect::Heal(Heal { amount: -1 })]);
    assert_eq!(e.effects.len(), 2);
    assert_eq!(e.effects[0], Effect::Damage(Damage { amount: 3 }));
    assert_eq!(e.effects[1], Effect::Heal(Heal { amount: -1 }));
}

#[test]
fn registry_knows_registered_names() {
    let mut reg: CasterRegistry<u32> = CasterRegistry::new();
    assert!(!reg.is_registered("PineTree"));
    reg.register("PineTree", 1);
    assert!(reg.is_registered("PineTree"));
    assert!(!reg.is_registered("Pine"));
    reg.register("PineTree", 2);
    reg.register("Rock", 3);
    assert!(reg.is_registered("Rock"));
    assert!(reg.is_registered("PineTree"));
}
