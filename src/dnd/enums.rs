//! Character data for a tabletop ruleset: abilities, equipment kinds, skills,
//! races and classes, and the proficiencies of a character.
use crate::flags::{
    bit, flag_of, in_order, kind_of_flag, kinds_in, lemma_insert_kind, lemma_no_kinds, list_kinds,
    FlagKind,
};
use vstd::prelude::*;

verus! {

/// The six abilities. The flag of each is bit `index` of a `u32` set.
#[derive(Debug, Clone, Copy, PartialEq, Eq, Structural, PartialOrd, Ord, Hash)]
pub enum AbilityType {
    Strength,
    Dexterity,
    Constitution,
    Intelligence,
    Wisdom,
    Charisma,
}

impl FlagKind for AbilityType {
    open spec fn count() -> nat {
        6
    }

    open spec fn spec_index(self) -> nat {
        match self {
            AbilityType::Strength => 0,
            AbilityType::Dexterity => 1,
            AbilityType::Constitution => 2,
            AbilityType::Intelligence => 3,
            AbilityType::Wisdom => 4,
            AbilityType::Charisma => 5,
        }
    }

    open spec fn spec_at(i: nat) -> Self {
        if i == 0 {
            AbilityType::Strength
        } else if i == 1 {
            AbilityType::Dexterity
        } else if i == 2 {
            AbilityType::Constitution
        } else if i == 3 {
            AbilityType::Intelligence
        } else if i == 4 {
            AbilityType::Wisdom
        } else {
            AbilityType::Charisma
        }
    }

    proof fn lemma_index_at(self) {
    }

    proof fn lemma_at_index(i: nat) {
    }

    fn kinds() -> (r: u32) {
        6
    }

    fn index(&self) -> (r: u32) {
        match self {
            AbilityType::Strength => 0,
            AbilityType::Dexterity => 1,
            AbilityType::Constitution => 2,
            AbilityType::Intelligence => 3,
            AbilityType::Wisdom => 4,
            AbilityType::Charisma => 5,
        }
    }

    fn at(i: u32) -> (r: Self) {
        if i == 0 {
            AbilityType::Strength
        } else if i == 1 {
            AbilityType::Dexterity
        } else if i == 2 {
            AbilityType::Constitution
        } else if i == 3 {
            AbilityType::Intelligence
        } else if i == 4 {
            AbilityType::Wisdom
        } else {
            AbilityType::Charisma
        }
    }
}

/// Armor weights. The flag of each is bit `index` of a `u32` set.
#[derive(Debug, Clone, Copy, PartialEq, Eq, Structural, PartialOrd, Ord, Hash)]
pub enum ArmorType {
    Light,
    Medium,
    Heavy,
}

impl FlagKind for ArmorType {
    open spec fn count() -> nat {
        3
    }

    open spec fn spec_index(self) -> nat {
        match self {
            ArmorType::Light => 0,
            ArmorType::Medium => 1,
            ArmorType::Heavy => 2,
        }
    }

    open spec fn spec_at(i: nat) -> Self {
        if i == 0 {
            ArmorType::Light
        } else if i == 1 {
            ArmorType::Medium
        } else {
            ArmorType::Heavy
        }
    }

    proof fn lemma_index_at(self) {
    }

    proof fn lemma_at_index(i: nat) {
    }

    fn kinds() -> (r: u32) {
        3
    }

    fn index(&self) -> (r: u32) {
        match self {
            ArmorType::Light => 0,
            ArmorType::Medium => 1,
            ArmorType::Heavy => 2,
        }
    }

    fn at(i: u32) -> (r: Self) {
        if i == 0 {
            ArmorType::Light
        } else if i == 1 {
            ArmorType::Medium
        } else {
            ArmorType::Heavy
        }
    }
}

/// Weapon classes. The flag of each is bit `index` of a `u32` set.
#[derive(Debug, Clone, Copy, PartialEq, Eq, Structural, PartialOrd, Ord, Hash)]
pub enum WeaponType {
    SimpleMelee,
    SimpleRanged,
    MartialMelee,
    MartialRanged,
}

impl FlagKind for WeaponType {
    open spec fn count() -> nat {
        4
    }

    open spec fn spec_index(self) -> nat {
        match self {
            WeaponType::SimpleMelee => 0,
            WeaponType::SimpleRanged => 1,
            WeaponType::MartialMelee => 2,
            WeaponType::MartialRanged => 3,
        }
    }

    open spec fn spec_at(i: nat) -> Self {
        if i == 0 {
            WeaponType::SimpleMelee
        } else if i == 1 {
            WeaponType::SimpleRanged
        } else if i == 2 {
            WeaponType::MartialMelee
        } else {
            WeaponType::MartialRanged
        }
    }

    proof fn lemma_index_at(self) {
    }

    proof fn lemma_at_index(i: nat) {
    }

    fn kinds() -> (r: u32) {
        4
    }

    fn index(&self) -> (r: u32) {
        match self {
            WeaponType::SimpleMelee => 0,
            WeaponType::SimpleRanged => 1,
            WeaponType::MartialMelee => 2,
            WeaponType::MartialRanged => 3,
        }
    }

    fn at(i: u32) -> (r: Self) {
        if i == 0 {
            WeaponType::SimpleMelee
        } else if i == 1 {
            WeaponType::SimpleRanged
        } else if i == 2 {
            WeaponType::MartialMelee
        } else {
            WeaponType::MartialRanged
        }
    }
}

/// Shield shapes. The flag of each is bit `index` of a `u32` set.
#[derive(Debug, Clone, Copy, PartialEq, Eq, Structural, PartialOrd, Ord, Hash)]
pub enum ShieldType {
    Buckler,
    Heater,
    Kite,
    Tower,
}

impl FlagKind for ShieldType {
    open spec fn count() -> nat {
        4
    }

    open spec fn spec_index(self) -> nat {
        match self {
            ShieldType::Buckler => 0,
            ShieldType::Heater => 1,
            ShieldType::Kite => 2,
            ShieldType::Tower => 3,
        }
    }

    open spec fn spec_at(i: nat) -> Self {
        if i == 0 {
            ShieldType::Buckler
        } else if i == 1 {
            ShieldType::Heater
        } else if i == 2 {
            ShieldType::Kite
        } else {
            ShieldType::Tower
        }
    }

    proof fn lemma_index_at(self) {
    }

    proof fn lemma_at_index(i: nat) {
    }

    fn kinds() -> (r: u32) {
        4
    }

    fn index(&self) -> (r: u32) {
        match self {
            ShieldType::Buckler => 0,
            ShieldType::Heater => 1,
            ShieldType::Kite => 2,
            ShieldType::Tower => 3,
        }
    }

    fn at(i: u32) -> (r: Self) {
        if i == 0 {
            ShieldType::Buckler
        } else if i == 1 {
            ShieldType::Heater
        } else if i == 2 {
            ShieldType::Kite
        } else {
            ShieldType::Tower
        }
    }
}

/// Skills. The flag of each is bit `index` of a `u32` set.
#[derive(Debug, Clone, Copy, PartialEq, Eq, Structural, PartialOrd, Ord, Hash)]
pub enum SkillType {
    Acrobatics,
    AnimalHandling,
    Arcana,
    Athletics,
    Deception,
    History,
    Insight,
    Intimidation,
    Investigation,
    Medicine,
    Nature,
    Perception,
    Performance,
    Persuasion,
    Religion,
    SleightOfHand,
    Stealth,
    Survival,
}

impl FlagKind for SkillType {
    open spec fn count() -> nat {
        18
    }

    open spec fn spec_index(self) -> nat {
        match self {
            SkillType::Acrobatics => 0,
            SkillType::AnimalHandling => 1,
            SkillType::Arcana => 2,
            SkillType::Athletics => 3,
            SkillType::Deception => 4,
            SkillType::History => 5,
            SkillType::Insight => 6,
            SkillType::Intimidation => 7,
            SkillType::Investigation => 8,
            SkillType::Medicine => 9,
            SkillType::Nature => 10,
            SkillType::Perception => 11,
            SkillType::Performance => 12,
            SkillType::Persuasion => 13,
            SkillType::Religion => 14,
            SkillType::SleightOfHand => 15,
            SkillType::Stealth => 16,
            SkillType::Survival => 17,
        }
    }

    open spec fn spec_at(i: nat) -> Self {
        if i == 0 {
            SkillType::Acrobatics
        } else if i == 1 {
            SkillType::AnimalHandling
        } else if i == 2 {
            SkillType::Arcana
        } else if i == 3 {
            SkillType::Athletics
        } else if i == 4 {
            SkillType::Deception
        } else if i == 5 {
            SkillType::History
        } else if i == 6 {
            SkillType::Insight
        } else if i == 7 {
            SkillType::Intimidation
        } else if i == 8 {
            SkillType::Investigation
        } else if i == 9 {
            SkillType::Medicine
        } else if i == 10 {
            SkillType::Nature
        } else if i == 11 {
            SkillType::Perception
        } else if i == 12 {
            SkillType::Performance
        } else if i == 13 {
            SkillType::Persuasion
        } else if i == 14 {
            SkillType::Religion
        } else if i == 15 {
            SkillType::SleightOfHand
        } else if i == 16 {
            SkillType::Stealth
        } else {
            SkillType::Survival
        }
    }

    proof fn lemma_index_at(self) {
    }

    proof fn lemma_at_index(i: nat) {
    }

    fn kinds() -> (r: u32) {
        18
    }

    fn index(&self) -> (r: u32) {
        match self {
            SkillType::Acrobatics => 0,
            SkillType::AnimalHandling => 1,
            SkillType::Arcana => 2,
            SkillType::Athletics => 3,
            SkillType::Deception => 4,
            SkillType::History => 5,
            SkillType::Insight => 6,
            SkillType::Intimidation => 7,
            SkillType::Investigation => 8,
            SkillType::Medicine => 9,
            SkillType::Nature => 10,
            SkillType::Perception => 11,
            SkillType::Performance => 12,
            SkillType::Persuasion => 13,
            SkillType::Religion => 14,
            SkillType::SleightOfHand => 15,
            SkillType::Stealth => 16,
            SkillType::Survival => 17,
        }
    }

    fn at(i: u32) -> (r: Self) {
        if i == 0 {
            SkillType::Acrobatics
        } else if i == 1 {
            SkillType::AnimalHandling
        } else if i == 2 {
            SkillType::Arcana
        } else if i == 3 {
            SkillType::Athletics
        } else if i == 4 {
            SkillType::Deception
        } else if i == 5 {
            SkillType::History
        } else if i == 6 {
            SkillType::Insight
        } else if i == 7 {
            SkillType::Intimidation
        } else if i == 8 {
            SkillType::Investigation
        } else if i == 9 {
            SkillType::Medicine
        } else if i == 10 {
            SkillType::Nature
        } else if i == 11 {
            SkillType::Perception
        } else if i == 12 {
            SkillType::Performance
        } else if i == 13 {
            SkillType::Persuasion
        } else if i == 14 {
            SkillType::Religion
        } else if i == 15 {
            SkillType::SleightOfHand
        } else if i == 16 {
            SkillType::Stealth
        } else {
            SkillType::Survival
        }
    }
}

/// Playable races. The flag of each is bit `index` of a `u32` set.
#[derive(Debug, Clone, Copy, PartialEq, Eq, Structural, PartialOrd, Ord, Hash)]
pub enum RaceType {
    Dwarf,
    Elf,
    Halfling,
    Human,
    Dragonborn,
    Gnome,
    HalfElf,
    HalfOrc,
    Tiefling,
}

impl FlagKind for RaceType {
    open spec fn count() -> nat {
        9
    }

    open spec fn spec_index(self) -> nat {
        match self {
            RaceType::Dwarf => 0,
            RaceType::Elf => 1,
            RaceType::Halfling => 2,
            RaceType::Human => 3,
            RaceType::Dragonborn => 4,
            RaceType::Gnome => 5,
            RaceType::HalfElf => 6,
            RaceType::HalfOrc => 7,
            RaceType::Tiefling => 8,
        }
    }

    open spec fn spec_at(i: nat) -> Self {
        if i == 0 {
            RaceType::Dwarf
        } else if i == 1 {
            RaceType::Elf
        } else if i == 2 {
            RaceType::Halfling
        } else if i == 3 {
            RaceType::Human
        } else if i == 4 {
            RaceType::Dragonborn
        } else if i == 5 {
            RaceType::Gnome
        } else if i == 6 {
            RaceType::HalfElf
        } else if i == 7 {
            RaceType::HalfOrc
        } else {
            RaceType::Tiefling
        }
    }

    proof fn lemma_index_at(self) {
    }

    proof fn lemma_at_index(i: nat) {
    }

    fn kinds() -> (r: u32) {
        9
    }

    fn index(&self) -> (r: u32) {
        match self {
            RaceType::Dwarf => 0,
            RaceType::Elf => 1,
            RaceType::Halfling => 2,
            RaceType::Human => 3,
            RaceType::Dragonborn => 4,
            RaceType::Gnome => 5,
            RaceType::HalfElf => 6,
            RaceType::HalfOrc => 7,
            RaceType::Tiefling => 8,
        }
    }

    fn at(i: u32) -> (r: Self) {
        if i == 0 {
            RaceType::Dwarf
        } else if i == 1 {
            RaceType::Elf
        } else if i == 2 {
            RaceType::Halfling
        } else if i == 3 {
            RaceType::Human
        } else if i == 4 {
            RaceType::Dragonborn
        } else if i == 5 {
            RaceType::Gnome
        } else if i == 6 {
            RaceType::HalfElf
        } else if i == 7 {
            RaceType::HalfOrc
        } else {
            RaceType::Tiefling
        }
    }
}

/// Character classes. The flag of each is bit `index` of a `u32` set.
#[derive(Debug, Clone, Copy, PartialEq, Eq, Structural, PartialOrd, Ord, Hash)]
pub enum ClassType {
    Barbarian,
    Bard,
    Cleric,
    Druid,
    Fighter,
    Monk,
    Paladin,
    Ranger,
    Rogue,
    Sorcerer,
    Warlock,
    Wizard,
}

impl FlagKind for ClassType {
    open spec fn count() -> nat {
        12
    }

    open spec fn spec_index(self) -> nat {
        match self {
            ClassType::Barbarian => 0,
            ClassType::Bard => 1,
            ClassType::Cleric => 2,
            ClassType::Druid => 3,
            ClassType::Fighter => 4,
            ClassType::Monk => 5,
            ClassType::Paladin => 6,
            ClassType::Ranger => 7,
            ClassType::Rogue => 8,
            ClassType::Sorcerer => 9,
            ClassType::Warlock => 10,
            ClassType::Wizard => 11,
        }
    }

    open spec fn spec_at(i: nat) -> Self {
        if i == 0 {
            ClassType::Barbarian
        } else if i == 1 {
            ClassType::Bard
        } else if i == 2 {
            ClassType::Cleric
        } else if i == 3 {
            ClassType::Druid
        } else if i == 4 {
            ClassType::Fighter
        } else if i == 5 {
            ClassType::Monk
        } else if i == 6 {
            ClassType::Paladin
        } else if i == 7 {
            ClassType::Ranger
        } else if i == 8 {
            ClassType::Rogue
        } else if i == 9 {
            ClassType::Sorcerer
        } else if i == 10 {
            ClassType::Warlock
        } else {
            ClassType::Wizard
        }
    }

    proof fn lemma_index_at(self) {
    }

    proof fn lemma_at_index(i: nat) {
    }

    fn kinds() -> (r: u32) {
        12
    }

    fn index(&self) -> (r: u32) {
        match self {
            ClassType::Barbarian => 0,
            ClassType::Bard => 1,
            ClassType::Cleric => 2,
            ClassType::Druid => 3,
            ClassType::Fighter => 4,
            ClassType::Monk => 5,
            ClassType::Paladin => 6,
            ClassType::Ranger => 7,
            ClassType::Rogue => 8,
            ClassType::Sorcerer => 9,
            ClassType::Warlock => 10,
            ClassType::Wizard => 11,
        }
    }

    fn at(i: u32) -> (r: Self) {
        if i == 0 {
            ClassType::Barbarian
        } else if i == 1 {
            ClassType::Bard
        } else if i == 2 {
            ClassType::Cleric
        } else if i == 3 {
            ClassType::Druid
        } else if i == 4 {
            ClassType::Fighter
        } else if i == 5 {
            ClassType::Monk
        } else if i == 6 {
            ClassType::Paladin
        } else if i == 7 {
            ClassType::Ranger
        } else if i == 8 {
            ClassType::Rogue
        } else if i == 9 {
            ClassType::Sorcerer
        } else if i == 10 {
            ClassType::Warlock
        } else {
            ClassType::Wizard
        }
    }
}

impl AbilityType {
    /// The set with this value alone.
    pub fn flag(&self) -> (r: u32)
        ensures
            r == bit(self.spec_index()),
    {
        flag_of(self)
    }

    /// The value whose flag is `f`.
    pub fn from_flag(f: u32) -> (r: Self)
        requires
            exists|i: nat| i < Self::count() && f == bit(i),
        ensures
            bit(r.spec_index()) == f,
    {
        kind_of_flag(f)
    }
}

impl ArmorType {
    /// The set with this value alone.
    pub fn flag(&self) -> (r: u32)
        ensures
            r == bit(self.spec_index()),
    {
        flag_of(self)
    }

    /// The value whose flag is `f`.
    pub fn from_flag(f: u32) -> (r: Self)
        requires
            exists|i: nat| i < Self::count() && f == bit(i),
        ensures
            bit(r.spec_index()) == f,
    {
        kind_of_flag(f)
    }
}

impl WeaponType {
    /// The set with this value alone.
    pub fn flag(&self) -> (r: u32)
        ensures
            r == bit(self.spec_index()),
    {
        flag_of(self)
    }

    /// The value whose flag is `f`.
    pub fn from_flag(f: u32) -> (r: Self)
        requires
            exists|i: nat| i < Self::count() && f == bit(i),
        ensures
            bit(r.spec_index()) == f,
    {
        kind_of_flag(f)
    }
}

impl ShieldType {
    /// The set with this value alone.
    pub fn flag(&self) -> (r: u32)
        ensures
            r == bit(self.spec_index()),
    {
        flag_of(self)
    }

    /// The value whose flag is `f`.
    pub fn from_flag(f: u32) -> (r: Self)
        requires
            exists|i: nat| i < Self::count() && f == bit(i),
        ensures
            bit(r.spec_index()) == f,
    {
        kind_of_flag(f)
    }
}

impl SkillType {
    /// The set with this value alone.
    pub fn flag(&self) -> (r: u32)
        ensures
            r == bit(self.spec_index()),
    {
        flag_of(self)
    }

    /// The value whose flag is `f`.
    pub fn from_flag(f: u32) -> (r: Self)
        requires
            exists|i: nat| i < Self::count() && f == bit(i),
        ensures
            bit(r.spec_index()) == f,
    {
        kind_of_flag(f)
    }
}

impl RaceType {
    /// The set with this value alone.
    pub fn flag(&self) -> (r: u32)
        ensures
            r == bit(self.spec_index()),
    {
        flag_of(self)
    }

    /// The value whose flag is `f`.
    pub fn from_flag(f: u32) -> (r: Self)
        requires
            exists|i: nat| i < Self::count() && f == bit(i),
        ensures
            bit(r.spec_index()) == f,
    {
        kind_of_flag(f)
    }
}

impl ClassType {
    /// The set with this value alone.
    pub fn flag(&self) -> (r: u32)
        ensures
            r == bit(self.spec_index()),
    {
        flag_of(self)
    }

    /// The value whose flag is `f`.
    pub fn from_flag(f: u32) -> (r: Self)
        requires
            exists|i: nat| i < Self::count() && f == bit(i),
        ensures
            bit(r.spec_index()) == f,
    {
        kind_of_flag(f)
    }
}

/// One proficiency of a character.
#[derive(Debug, Clone, Copy, PartialEq, Eq, Structural, PartialOrd, Ord, Hash)]
pub enum Proficiency {
    Armor(ArmorType),
    Weapon(WeaponType),
    Shield(ShieldType),
    SavingThrows(AbilityType),
    Skill(SkillType),
}

/// The proficiencies of a character, one set per group.
pub struct ProficiencySet {
    pub armor: Set<ArmorType>,
    pub weapon: Set<WeaponType>,
    pub shield: Set<ShieldType>,
    pub saving_throws: Set<AbilityType>,
    pub skills: Set<SkillType>,
}

impl ProficiencySet {
    pub open spec fn empty() -> ProficiencySet {
        ProficiencySet {
            armor: Set::empty(),
            weapon: Set::empty(),
            shield: Set::empty(),
            saving_throws: Set::empty(),
            skills: Set::empty(),
        }
    }

    pub open spec fn has(self, p: Proficiency) -> bool {
        match p {
            Proficiency::Armor(a) => self.armor.contains(a),
            Proficiency::Weapon(w) => self.weapon.contains(w),
            Proficiency::Shield(s) => self.shield.contains(s),
            Proficiency::SavingThrows(a) => self.saving_throws.contains(a),
            Proficiency::Skill(s) => self.skills.contains(s),
        }
    }

    /// The set with `p` added.
    pub open spec fn with(self, p: Proficiency) -> ProficiencySet {
        match p {
            Proficiency::Armor(a) => ProficiencySet { armor: self.armor.insert(a), ..self },
            Proficiency::Weapon(w) => ProficiencySet { weapon: self.weapon.insert(w), ..self },
            Proficiency::Shield(s) => ProficiencySet { shield: self.shield.insert(s), ..self },
            Proficiency::SavingThrows(a) => ProficiencySet {
                saving_throws: self.saving_throws.insert(a),
                ..self
            },
            Proficiency::Skill(s) => ProficiencySet { skills: self.skills.insert(s), ..self },
        }
    }

    /// The set with each of `ps` added, in turn.
    pub open spec fn with_all(self, ps: Seq<Proficiency>) -> ProficiencySet
        decreases ps.len(),
    {
        if ps.len() == 0 {
            self
        } else {
            self.with_all(ps.drop_last()).with(ps.last())
        }
    }
}

/// Where a proficiency stands in a full list: by group (armor, weapon, shield,
/// saving throw, skill), then by the number of its value.
pub open spec fn rank(p: Proficiency) -> nat {
    match p {
        Proficiency::Armor(a) => a.spec_index(),
        Proficiency::Weapon(w) => 32 + w.spec_index(),
        Proficiency::Shield(s) => 64 + s.spec_index(),
        Proficiency::SavingThrows(a) => 96 + a.spec_index(),
        Proficiency::Skill(s) => 128 + s.spec_index(),
    }
}

/// Whether `s` lists its proficiencies in increasing rank, each once.
pub open spec fn ranked(s: Seq<Proficiency>) -> bool {
    forall|i: int, j: int| 0 <= i < j < s.len() ==> rank(s[i]) < rank(s[j])
}

fn wrap_armor(x: ArmorType) -> (p: Proficiency)
    ensures
        p == Proficiency::Armor(x),
{
    Proficiency::Armor(x)
}

fn wrap_weapon(x: WeaponType) -> (p: Proficiency)
    ensures
        p == Proficiency::Weapon(x),
{
    Proficiency::Weapon(x)
}

fn wrap_shield(x: ShieldType) -> (p: Proficiency)
    ensures
        p == Proficiency::Shield(x),
{
    Proficiency::Shield(x)
}

fn wrap_saving_throws(x: AbilityType) -> (p: Proficiency)
    ensures
        p == Proficiency::SavingThrows(x),
{
    Proficiency::SavingThrows(x)
}

fn wrap_skills(x: SkillType) -> (p: Proficiency)
    ensures
        p == Proficiency::Skill(x),
{
    Proficiency::Skill(x)
}

/// Appends `items`, in order, each wrapped by `f`, to `list`.
fn push_all<T: FlagKind>(
    list: &mut Vec<Proficiency>,
    items: Vec<T>,
    Ghost(wrap): Ghost<spec_fn(T) -> Proficiency>,
    f: impl Fn(T) -> Proficiency,
)
    requires
        forall|x: T| f.requires((x,)),
        forall|x: T, p: Proficiency| f.ensures((x,), p) ==> p == wrap(x),
    ensures
        final(list)@ == old(list)@ + items@.map_values(wrap),
{
    let ghost pre = list@;
    let mut i: usize = 0;
    while i < items.len()
        invariant
            i <= items@.len(),
            forall|x: T| f.requires((x,)),
            forall|x: T, p: Proficiency| f.ensures((x,), p) ==> p == wrap(x),
            list@ == pre + items@.subrange(0, i as int).map_values(wrap),
        decreases items@.len() - i,
    {
        let p = f(items[i]);
        list.push(p);
        proof {
            assert(items@.subrange(0, i + 1).map_values(wrap) =~= items@.subrange(
                0,
                i as int,
            ).map_values(wrap).push(wrap(items@[i as int])));
            assert(list@ =~= pre + items@.subrange(0, i + 1).map_values(wrap));
        }
        i = i + 1;
    }
    proof {
        assert(items@.subrange(0, items@.len() as int) =~= items@);
    }
}

/// Appending a group whose ranks start at `base` to a list ranked below `base`
/// keeps it ranked, and the list then holds what it held and the wrapped items.
proof fn lemma_append_group<T: FlagKind>(
    prefix: Seq<Proficiency>,
    items: Seq<T>,
    wrap: spec_fn(T) -> Proficiency,
    base: nat,
)
    requires
        ranked(prefix),
        forall|i: int| 0 <= i < prefix.len() ==> rank(#[trigger] prefix[i]) < base,
        in_order(items),
        forall|x: T| #[trigger] rank(wrap(x)) == base + x.spec_index(),
    ensures
        ranked(prefix + items.map_values(wrap)),
        forall|i: int|
            0 <= i < (prefix + items.map_values(wrap)).len() ==> rank(
                #[trigger] (prefix + items.map_values(wrap))[i],
            ) < base + 32,
        forall|p: Proficiency|
            #[trigger] (prefix + items.map_values(wrap)).contains(p) <==> (prefix.contains(p) || exists|x: T|
                items.contains(x) && p == wrap(x)),
{
    let all = prefix + items.map_values(wrap);
    let m = items.map_values(wrap);
    assert forall|i: int| 0 <= i < items.len() implies rank(#[trigger] m[i]) == base + items[i].spec_index()
        && items[i].spec_index() < 32 by {
        items[i].lemma_index_at();
    }
    assert forall|i: int, j: int| 0 <= i < j < all.len() implies rank(all[i]) < rank(all[j]) by {
        if j >= prefix.len() {
            assert(all[j] == m[j - prefix.len()]);
            if i >= prefix.len() {
                assert(all[i] == m[i - prefix.len()]);
            }
        }
    }
    assert forall|i: int| 0 <= i < all.len() implies rank(#[trigger] all[i]) < base + 32 by {
        if i >= prefix.len() {
            assert(all[i] == m[i - prefix.len()]);
        }
    }
    assert forall|p: Proficiency| all.contains(p) <==> (prefix.contains(p) || exists|x: T|
        items.contains(x) && p == wrap(x)) by {
        if all.contains(p) {
            let i = choose|i: int| 0 <= i < all.len() && all[i] == p;
            if i >= prefix.len() {
                assert(items.contains(items[i - prefix.len()]));
            } else {
                assert(prefix[i] == p);
            }
        }
        if prefix.contains(p) {
            let i = choose|i: int| 0 <= i < prefix.len() && prefix[i] == p;
            assert(all[i] == p);
        }
        if exists|x: T| items.contains(x) && p == wrap(x) {
            let x = choose|x: T| items.contains(x) && p == wrap(x);
            let j = choose|j: int| 0 <= j < items.len() && items[j] == x;
            assert(all[prefix.len() + j] == p);
        }
    }
}

/// The proficiencies of a character: one flag set per group.
#[derive(Debug, Clone, Copy, PartialEq, Eq, Structural, PartialOrd, Ord, Hash)]
pub struct Proficiencies {
    armor: u32,
    weapon: u32,
    shield: u32,
    saving_throws: u32,
    skills: u32,
}

impl View for Proficiencies {
    type V = ProficiencySet;

    closed spec fn view(&self) -> ProficiencySet {
        ProficiencySet {
            armor: kinds_in(self.armor),
            weapon: kinds_in(self.weapon),
            shield: kinds_in(self.shield),
            saving_throws: kinds_in(self.saving_throws),
            skills: kinds_in(self.skills),
        }
    }
}

impl Proficiencies {
    /// No proficiency at all.
    pub fn empty() -> (r: Self)
        ensures
            r@ == ProficiencySet::empty(),
    {
        proof {
            lemma_no_kinds::<ArmorType>();
            lemma_no_kinds::<WeaponType>();
            lemma_no_kinds::<ShieldType>();
            lemma_no_kinds::<AbilityType>();
            lemma_no_kinds::<SkillType>();
        }
        Proficiencies { armor: 0, weapon: 0, shield: 0, saving_throws: 0, skills: 0 }
    }

    /// The proficiencies whose flags are set in the given groups.
    pub fn from_groups(armor: u32, weapon: u32, shield: u32, saving_throws: u32, skills: u32) -> (r: Self)
        ensures
            r@ == (ProficiencySet {
                armor: kinds_in(armor),
                weapon: kinds_in(weapon),
                shield: kinds_in(shield),
                saving_throws: kinds_in(saving_throws),
                skills: kinds_in(skills),
            }),
    {
        Proficiencies { armor, weapon, shield, saving_throws, skills }
    }

    /// The proficiencies listed, and no other.
    pub fn from_proficiencies(proficiencies: Vec<Proficiency>) -> (r: Self)
        ensures
            r@ == ProficiencySet::empty().with_all(proficiencies@),
    {
        let mut p = Proficiencies::empty();
        let mut i: usize = 0;
        while i < proficiencies.len()
            invariant
                i <= proficiencies@.len(),
                p@ == ProficiencySet::empty().with_all(proficiencies@.subrange(0, i as int)),
            decreases proficiencies@.len() - i,
        {
            p.add_proficiency(proficiencies[i]);
            proof {
                let next = proficiencies@.subrange(0, i + 1);
                assert(next.drop_last() =~= proficiencies@.subrange(0, i as int));
            }
            i = i + 1;
        }
        proof {
            assert(proficiencies@.subrange(0, proficiencies@.len() as int) =~= proficiencies@);
        }
        p
    }

    /// Adds one proficiency.
    pub fn add_proficiency(&mut self, proficiency: Proficiency)
        ensures
            final(self)@ == old(self)@.with(proficiency),
    {
        match proficiency {
            Proficiency::Armor(armor) => self.add_armor(armor),
            Proficiency::Weapon(weapon) => self.add_weapon(weapon),
            Proficiency::Shield(shield) => self.add_shield(shield),
            Proficiency::SavingThrows(ability) => self.add_saving_throw(ability),
            Proficiency::Skill(skill) => self.add_skill(skill),
        }
    }

    pub fn add_armor(&mut self, armor: ArmorType)
        ensures
            final(self)@ == old(self)@.with(Proficiency::Armor(armor)),
    {
        proof {
            lemma_insert_kind(self.armor, armor);
        }
        self.armor = self.armor | armor.flag();
        proof {
            assert(self@ =~= old(self)@.with(Proficiency::Armor(armor)));
        }
    }

    /// The armor proficiencies, in declaration order.
    pub fn get_armor_list(&self) -> (r: Vec<ArmorType>)
        ensures
            r@.to_set() == self@.armor,
            forall|x| r@.contains(x) <==> self@.armor.contains(x),
            in_order(r@),
    {
        list_kinds(self.armor)
    }

    pub fn add_weapon(&mut self, weapon: WeaponType)
        ensures
            final(self)@ == old(self)@.with(Proficiency::Weapon(weapon)),
    {
        proof {
            lemma_insert_kind(self.weapon, weapon);
        }
        self.weapon = self.weapon | weapon.flag();
        proof {
            assert(self@ =~= old(self)@.with(Proficiency::Weapon(weapon)));
        }
    }

    /// The weapon proficiencies, in declaration order.
    pub fn get_weapon_list(&self) -> (r: Vec<WeaponType>)
        ensures
            r@.to_set() == self@.weapon,
            forall|x| r@.contains(x) <==> self@.weapon.contains(x),
            in_order(r@),
    {
        list_kinds(self.weapon)
    }

    pub fn add_shield(&mut self, shield: ShieldType)
        ensures
            final(self)@ == old(self)@.with(Proficiency::Shield(shield)),
    {
        proof {
            lemma_insert_kind(self.shield, shield);
        }
        self.shield = self.shield | shield.flag();
        proof {
            assert(self@ =~= old(self)@.with(Proficiency::Shield(shield)));
        }
    }

    /// The shield proficiencies, in declaration order.
    pub fn get_shield_list(&self) -> (r: Vec<ShieldType>)
        ensures
            r@.to_set() == self@.shield,
            forall|x| r@.contains(x) <==> self@.shield.contains(x),
            in_order(r@),
    {
        list_kinds(self.shield)
    }

    pub fn add_saving_throw(&mut self, ability: AbilityType)
        ensures
            final(self)@ == old(self)@.with(Proficiency::SavingThrows(ability)),
    {
        proof {
            lemma_insert_kind(self.saving_throws, ability);
        }
        self.saving_throws = self.saving_throws | ability.flag();
        proof {
            assert(self@ =~= old(self)@.with(Proficiency::SavingThrows(ability)));
        }
    }

    /// The saving throws proficiencies, in declaration order.
    pub fn get_saving_throw_list(&self) -> (r: Vec<AbilityType>)
        ensures
            r@.to_set() == self@.saving_throws,
            forall|x| r@.contains(x) <==> self@.saving_throws.contains(x),
            in_order(r@),
    {
        list_kinds(self.saving_throws)
    }

    pub fn add_skill(&mut self, skill: SkillType)
        ensures
            final(self)@ == old(self)@.with(Proficiency::Skill(skill)),
    {
        proof {
            lemma_insert_kind(self.skills, skill);
        }
        self.skills = self.skills | skill.flag();
        proof {
            assert(self@ =~= old(self)@.with(Proficiency::Skill(skill)));
        }
    }

    /// The skills proficiencies, in declaration order.
    pub fn get_skill_list(&self) -> (r: Vec<SkillType>)
        ensures
            r@.to_set() == self@.skills,
            forall|x| r@.contains(x) <==> self@.skills.contains(x),
            in_order(r@),
    {
        list_kinds(self.skills)
    }

    /// All proficiencies, by group (armor, weapon, shield, saving throw, skill)
    /// and within a group in declaration order.
    pub fn get_proficiency_list(&self) -> (r: Vec<Proficiency>)
        ensures
            forall|p: Proficiency| r@.contains(p) <==> self@.has(p),
            ranked(r@),
    {
        let mut list: Vec<Proficiency> = Vec::new();
        let ghost before_armor = list@;
        let ghost wrap_armor_spec = |x: ArmorType| Proficiency::Armor(x);
        let armor = self.get_armor_list();
        let ghost armor_items = armor@;
        push_all(
            &mut list,
            armor,
            Ghost(wrap_armor_spec),
            wrap_armor,
        );
        proof {
            lemma_append_group(before_armor, armor_items, wrap_armor_spec, 0);
        }
        let ghost before_weapon = list@;
        let ghost wrap_weapon_spec = |x: WeaponType| Proficiency::Weapon(x);
        let weapon = self.get_weapon_list();
        let ghost weapon_items = weapon@;
        push_all(
            &mut list,
            weapon,
            Ghost(wrap_weapon_spec),
            wrap_weapon,
        );
        proof {
            lemma_append_group(before_weapon, weapon_items, wrap_weapon_spec, 32);
        }
        let ghost before_shield = list@;
        let ghost wrap_shield_spec = |x: ShieldType| Proficiency::Shield(x);
        let shield = self.get_shield_list();
        let ghost shield_items = shield@;
        push_all(
            &mut list,
            shield,
            Ghost(wrap_shield_spec),
            wrap_shield,
        );
        proof {
            lemma_append_group(before_shield, shield_items, wrap_shield_spec, 64);
        }
        let ghost before_saving_throws = list@;
        let ghost wrap_saving_throws_spec = |x: AbilityType| Proficiency::SavingThrows(x);
        let saving_throws = self.get_saving_throw_list();
        let ghost saving_throws_items = saving_throws@;
        push_all(
            &mut list,
            saving_throws,
            Ghost(wrap_saving_throws_spec),
            wrap_saving_throws,
        );
        proof {
            lemma_append_group(before_saving_throws, saving_throws_items, wrap_saving_throws_spec, 96);
        }
        let ghost before_skills = list@;
        let ghost wrap_skills_spec = |x: SkillType| Proficiency::Skill(x);
        let skills = self.get_skill_list();
        let ghost skills_items = skills@;
        push_all(
            &mut list,
            skills,
            Ghost(wrap_skills_spec),
            wrap_skills,
        );
        proof {
            lemma_append_group(before_skills, skills_items, wrap_skills_spec, 128);
        }
        proof {
            assert forall|p: Proficiency| list@.contains(p) <==> self@.has(p) by {
                match p {
                    Proficiency::Armor(a) => {
                        assert(armor_items.contains(a) <==> self@.armor.contains(a));
                        if armor_items.contains(a) {
                            assert(armor_items.contains(a) && p == wrap_armor_spec(a));
                            assert(before_weapon.contains(p));
                            assert(before_shield.contains(p));
                            assert(before_saving_throws.contains(p));
                            assert(before_skills.contains(p));
                            assert(list@.contains(p));
                        }
                        if list@.contains(p) {
                            assert(!exists|x: SkillType| skills_items.contains(x) && p == wrap_skills_spec(x));
                            assert(before_skills.contains(p));
                            assert(!exists|x: AbilityType| saving_throws_items.contains(x) && p == wrap_saving_throws_spec(x));
                            assert(before_saving_throws.contains(p));
                            assert(!exists|x: ShieldType| shield_items.contains(x) && p == wrap_shield_spec(x));
                            assert(before_shield.contains(p));
                            assert(!exists|x: WeaponType| weapon_items.contains(x) && p == wrap_weapon_spec(x));
                            assert(before_weapon.contains(p));
                            assert(!before_armor.contains(p)) by {
                            }
                            let x = choose|x: ArmorType| armor_items.contains(x) && p == wrap_armor_spec(x);
                            assert(x == a);
                        }
                    },
                    Proficiency::Weapon(a) => {
                        assert(weapon_items.contains(a) <==> self@.weapon.contains(a));
                        if weapon_items.contains(a) {
                            assert(weapon_items.contains(a) && p == wrap_weapon_spec(a));
                            assert(before_shield.contains(p));
                            assert(before_saving_throws.contains(p));
                            assert(before_skills.contains(p));
                            assert(list@.contains(p));
                        }
                        if list@.contains(p) {
                            assert(!exists|x: SkillType| skills_items.contains(x) && p == wrap_skills_spec(x));
                            assert(before_skills.contains(p));
                            assert(!exists|x: AbilityType| saving_throws_items.contains(x) && p == wrap_saving_throws_spec(x));
                            assert(before_saving_throws.contains(p));
                            assert(!exists|x: ShieldType| shield_items.contains(x) && p == wrap_shield_spec(x));
                            assert(before_shield.contains(p));
                            assert(!before_weapon.contains(p)) by {
                                assert(!exists|x: ArmorType| armor_items.contains(x) && p == wrap_armor_spec(x));
                            }
                            let x = choose|x: WeaponType| weapon_items.contains(x) && p == wrap_weapon_spec(x);
                            assert(x == a);
                        }
                    },
                    Proficiency::Shield(a) => {
                        assert(shield_items.contains(a) <==> self@.shield.contains(a));
                        if shield_items.contains(a) {
                            assert(shield_items.contains(a) && p == wrap_shield_spec(a));
                            assert(before_saving_throws.contains(p));
                            assert(before_skills.contains(p));
                            assert(list@.contains(p));
                        }
                        if list@.contains(p) {
                            assert(!exists|x: SkillType| skills_items.contains(x) && p == wrap_skills_spec(x));
                            assert(before_skills.contains(p));
                            assert(!exists|x: AbilityType| saving_throws_items.contains(x) && p == wrap_saving_throws_spec(x));
                            assert(before_saving_throws.contains(p));
                            assert(!before_shield.contains(p)) by {
                                assert(!exists|x: WeaponType| weapon_items.contains(x) && p == wrap_weapon_spec(x));
                                assert(!exists|x: ArmorType| armor_items.contains(x) && p == wrap_armor_spec(x));
                            }
                            let x = choose|x: ShieldType| shield_items.contains(x) && p == wrap_shield_spec(x);
                            assert(x == a);
                        }
                    },
                    Proficiency::SavingThrows(a) => {
                        assert(saving_throws_items.contains(a) <==> self@.saving_throws.contains(a));
                        if saving_throws_items.contains(a) {
                            assert(saving_throws_items.contains(a) && p == wrap_saving_throws_spec(a));
                            assert(before_skills.contains(p));
                            assert(list@.contains(p));
                        }
                        if list@.contains(p) {
                            assert(!exists|x: SkillType| skills_items.contains(x) && p == wrap_skills_spec(x));
                            assert(before_skills.contains(p));
                            assert(!before_saving_throws.contains(p)) by {
                                assert(!exists|x: ShieldType| shield_items.contains(x) && p == wrap_shield_spec(x));
                                assert(!exists|x: WeaponType| weapon_items.contains(x) && p == wrap_weapon_spec(x));
                                assert(!exists|x: ArmorType| armor_items.contains(x) && p == wrap_armor_spec(x));
                            }
                            let x = choose|x: AbilityType| saving_throws_items.contains(x) && p == wrap_saving_throws_spec(x);
                            assert(x == a);
                        }
                    },
                    Proficiency::Skill(a) => {
                        assert(skills_items.contains(a) <==> self@.skills.contains(a));
                        if skills_items.contains(a) {
                            assert(skills_items.contains(a) && p == wrap_skills_spec(a));
                            assert(list@.contains(p));
                        }
                        if list@.contains(p) {
                            assert(!before_skills.contains(p)) by {
                                assert(!exists|x: AbilityType| saving_throws_items.contains(x) && p == wrap_saving_throws_spec(x));
                                assert(!exists|x: ShieldType| shield_items.contains(x) && p == wrap_shield_spec(x));
                                assert(!exists|x: WeaponType| weapon_items.contains(x) && p == wrap_weapon_spec(x));
                                assert(!exists|x: ArmorType| armor_items.contains(x) && p == wrap_armor_spec(x));
                            }
                            let x = choose|x: SkillType| skills_items.contains(x) && p == wrap_skills_spec(x);
                            assert(x == a);
                        }
                    },
                }
            }
        }
        list
    }
}

} // verus!
