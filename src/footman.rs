//! Tabletop characters: a class, a race, and a human warrior built from them.
use crate::ability::Ability;
use crate::alignment::{Alignment, Ethical, Moral};
use crate::enums::{Proficiencies, ProficiencySet};
use vstd::prelude::*;

verus! {

#[derive(Debug)]
pub struct CharacterClass {
    pub name: String,
    pub proficiencies: Proficiencies,
    pub ability_modifier: Ability,
}

#[derive(Debug)]
pub struct CharacterRace {
    pub name: String,
    pub size: String,
    pub speed: u8,
    pub ability_modifier: Ability,
}

pub trait Character {
    fn ability(&self) -> &Ability;

    fn name(&self) -> String;

    fn level(&self) -> u32;

    fn health(&self) -> u32;

    fn is_alive(&self) -> bool {
        self.health() > 0
    }

    fn armor_class(&self) -> u8;

    fn alignment(&self) -> Alignment;

    fn class(&self) -> &CharacterClass;

    fn race(&self) -> &CharacterRace;
}

#[derive(Debug)]
pub struct HumanWarrior {
    pub ability: Ability,
    pub name: String,
    pub level: u32,
    pub health: u32,
    pub armor_class: u8,
    pub alignment: Alignment,
    pub proficiencies: Proficiencies,
    pub class: CharacterClass,
    pub race: CharacterRace,
}

impl Character for HumanWarrior {
    fn ability(&self) -> &Ability {
        &self.ability
    }

    fn name(&self) -> String {
        self.name.clone()
    }

    fn level(&self) -> u32 {
        self.level
    }

    fn health(&self) -> u32 {
        self.health
    }

    fn armor_class(&self) -> u8 {
        self.armor_class
    }

    fn alignment(&self) -> Alignment {
        self.alignment
    }

    fn class(&self) -> &CharacterClass {
        &self.class
    }

    fn race(&self) -> &CharacterRace {
        &self.race
    }
}

/// A modifier of one point to each score and none to hit points.
fn one_point_each() -> (r: Ability)
    ensures
        r == (Ability {
            strength: 1,
            dexterity: 1,
            constitution: 1,
            intelligence: 1,
            wisdom: 1,
            charisma: 1,
            hit_points: 0,
        }),
{
    Ability {
        strength: 1,
        dexterity: 1,
        constitution: 1,
        intelligence: 1,
        wisdom: 1,
        charisma: 1,
        hit_points: 0,
    }
}

impl HumanWarrior {
    /// A good and neutral human warrior: base scores of 10, raised by one each
    /// by the race and by the class, 10 hit points, and no proficiency.
    pub fn new(name: String, level: u32, health: u32, armor_class: u8) -> (r: Self)
        ensures
            r.name == name,
            r.level == level,
            r.health == health,
            r.armor_class == armor_class,
            r.alignment == (Alignment { moral: Moral::Good, ethical: Ethical::Neutral }),
            r.proficiencies@ == ProficiencySet::empty(),
            r.ability == (Ability {
                strength: 12,
                dexterity: 12,
                constitution: 12,
                intelligence: 12,
                wisdom: 12,
                charisma: 12,
                hit_points: 10,
            }),
            r.race.name@ == "Human"@,
            r.race.size@ == "Medium"@,
            r.race.speed == 30,
            r.class.name@ == "Warrior"@,
    {
        let human = CharacterRace {
            name: "Human".to_owned(),
            size: "Medium".to_owned(),
            speed: 30,
            ability_modifier: one_point_each(),
        };
        let warrior = CharacterClass {
            name: "Warrior".to_owned(),
            proficiencies: Proficiencies::new(),
            ability_modifier: one_point_each(),
        };
        let base_ability = Ability {
            strength: 10,
            dexterity: 10,
            constitution: 10,
            intelligence: 10,
            wisdom: 10,
            charisma: 10,
            hit_points: 10,
        };
        let ability = base_ability.add(human.ability_modifier).add(warrior.ability_modifier);
        HumanWarrior {
            ability,
            name,
            level,
            health,
            armor_class,
            alignment: Alignment::new(Moral::Good, Ethical::Neutral),
            proficiencies: Proficiencies::new(),
            class: warrior,
            race: human,
        }
    }
}

} // verus!
