//! The Armory: weapons, armor and their printed prices and properties.
use vstd::prelude::*;

use crate::model::HeroKind;

verus! {

#[derive(Clone, Copy, Debug, PartialEq, Eq, Structural, Hash)]
pub enum Weapon {
    Dagger,
    Shortsword,
    Broadsword,
    Longsword,
    Staff,
    Crossbow,
    BattleAxe,
}

#[derive(Clone, Copy, Debug, PartialEq, Eq, Structural, Hash)]
pub enum Armor {
    Helmet,
    ChainMail,
    PlateMail,
    Shield,
}

#[derive(Clone, Copy, Debug, PartialEq, Eq, Structural, Hash)]
pub enum ArmoryItem {
    Weapon(Weapon),
    Armor(Armor),
    ToolKit,
}

/// An Armory card as sold between quests.
#[derive(Clone, Copy, Debug, PartialEq, Eq, Structural, Hash)]
pub struct ArmoryListing {
    pub item: ArmoryItem,
    pub gold: u16,
}

pub open spec fn spec_attack_dice(weapon: Weapon) -> u8 {
    match weapon {
        Weapon::Dagger => 1,
        Weapon::Shortsword => 2,
        Weapon::Broadsword => 3,
        Weapon::Longsword => 3,
        Weapon::Staff => 1,
        Weapon::Crossbow => 3,
        Weapon::BattleAxe => 4,
    }
}

/// A shield may be carried with every weapon except the two-handed Battle Axe
/// and Staff.
pub open spec fn spec_permits_shield(weapon: Weapon) -> bool {
    !(weapon == Weapon::BattleAxe || weapon == Weapon::Staff)
}

/// The Staff and the Longsword also reach diagonally adjacent squares.
pub open spec fn spec_permits_diagonal_attack(weapon: Weapon) -> bool {
    weapon == Weapon::Staff || weapon == Weapon::Longsword
}

pub open spec fn spec_defense_bonus(armor: Armor) -> u8 {
    match armor {
        Armor::Helmet => 1,
        Armor::ChainMail => 1,
        Armor::PlateMail => 2,
        Armor::Shield => 1,
    }
}

pub open spec fn spec_price(item: ArmoryItem) -> u16 {
    match item {
        ArmoryItem::Weapon(Weapon::Dagger) => 25,
        ArmoryItem::Weapon(Weapon::Shortsword) => 150,
        ArmoryItem::Weapon(Weapon::Broadsword) => 250,
        ArmoryItem::Weapon(Weapon::Longsword) => 350,
        ArmoryItem::Weapon(Weapon::Staff) => 100,
        ArmoryItem::Weapon(Weapon::Crossbow) => 350,
        ArmoryItem::Weapon(Weapon::BattleAxe) => 400,
        ArmoryItem::Armor(Armor::Helmet) => 125,
        ArmoryItem::Armor(Armor::ChainMail) => 500,
        ArmoryItem::Armor(Armor::PlateMail) => 850,
        ArmoryItem::Armor(Armor::Shield) => 150,
        ArmoryItem::ToolKit => 250,
    }
}

pub open spec fn spec_starting_weapon(hero: HeroKind) -> Weapon {
    match hero {
        HeroKind::Barbarian => Weapon::Broadsword,
        HeroKind::Dwarf => Weapon::Shortsword,
        HeroKind::Elf => Weapon::Shortsword,
        HeroKind::Wizard => Weapon::Dagger,
    }
}

/// The Wizard may fight only with the Dagger and the Staff; every other hero
/// may use any Armory weapon.
pub open spec fn spec_allowed_by(weapon: Weapon, hero: HeroKind) -> bool {
    hero != HeroKind::Wizard || weapon == Weapon::Dagger || weapon == Weapon::Staff
}

impl Weapon {
    pub fn allowed_by(self, hero: HeroKind) -> (allowed: bool)
        ensures
            allowed == spec_allowed_by(self, hero),
    {
        match hero {
            HeroKind::Wizard => matches!(self, Weapon::Dagger | Weapon::Staff),
            _ => true,
        }
    }

    pub fn attack_dice(self) -> (dice: u8)
        ensures
            dice == spec_attack_dice(self),
    {
        match self {
            Weapon::Dagger => 1,
            Weapon::Shortsword => 2,
            Weapon::Broadsword => 3,
            Weapon::Longsword => 3,
            Weapon::Staff => 1,
            Weapon::Crossbow => 3,
            Weapon::BattleAxe => 4,
        }
    }

    pub fn permits_shield(self) -> (permits: bool)
        ensures
            permits == spec_permits_shield(self),
    {
        match self {
            Weapon::BattleAxe | Weapon::Staff => false,
            _ => true,
        }
    }

    pub fn permits_diagonal_attack(self) -> (permits: bool)
        ensures
            permits == spec_permits_diagonal_attack(self),
    {
        match self {
            Weapon::Staff | Weapon::Longsword => true,
            _ => false,
        }
    }

    pub fn name(self) -> (name: &'static str)
        ensures
            name@ == spec_weapon_name(self),
    {
        match self {
            Weapon::Dagger => "Dagger",
            Weapon::Shortsword => "Shortsword",
            Weapon::Broadsword => "Broadsword",
            Weapon::Longsword => "Longsword",
            Weapon::Staff => "Staff",
            Weapon::Crossbow => "Crossbow",
            Weapon::BattleAxe => "Battle Axe",
        }
    }
}

pub open spec fn spec_weapon_name(weapon: Weapon) -> Seq<char> {
    match weapon {
        Weapon::Dagger => "Dagger"@,
        Weapon::Shortsword => "Shortsword"@,
        Weapon::Broadsword => "Broadsword"@,
        Weapon::Longsword => "Longsword"@,
        Weapon::Staff => "Staff"@,
        Weapon::Crossbow => "Crossbow"@,
        Weapon::BattleAxe => "Battle Axe"@,
    }
}

impl Armor {
    pub fn defense_bonus(self) -> (bonus: u8)
        ensures
            bonus == spec_defense_bonus(self),
    {
        match self {
            Armor::Helmet => 1,
            Armor::ChainMail => 1,
            Armor::PlateMail => 2,
            Armor::Shield => 1,
        }
    }
}

/// The Armory card for `item`.
pub fn listing(item: ArmoryItem) -> (card: ArmoryListing)
    ensures
        card.item == item,
        card.gold == spec_price(item),
{
    let gold: u16 = match item {
        ArmoryItem::Weapon(Weapon::Dagger) => 25,
        ArmoryItem::Weapon(Weapon::Shortsword) => 150,
        ArmoryItem::Weapon(Weapon::Broadsword) => 250,
        ArmoryItem::Weapon(Weapon::Longsword) => 350,
        ArmoryItem::Weapon(Weapon::Staff) => 100,
        ArmoryItem::Weapon(Weapon::Crossbow) => 350,
        ArmoryItem::Weapon(Weapon::BattleAxe) => 400,
        ArmoryItem::Armor(Armor::Helmet) => 125,
        ArmoryItem::Armor(Armor::ChainMail) => 500,
        ArmoryItem::Armor(Armor::PlateMail) => 850,
        ArmoryItem::Armor(Armor::Shield) => 150,
        ArmoryItem::ToolKit => 250,
    };
    ArmoryListing { item, gold }
}

/// The weapon each hero begins the campaign with.
pub fn starting_weapon(hero: HeroKind) -> (weapon: Weapon)
    ensures
        weapon == spec_starting_weapon(hero),
{
    match hero {
        HeroKind::Barbarian => Weapon::Broadsword,
        HeroKind::Dwarf => Weapon::Shortsword,
        HeroKind::Elf => Weapon::Shortsword,
        HeroKind::Wizard => Weapon::Dagger,
    }
}

} // verus!
