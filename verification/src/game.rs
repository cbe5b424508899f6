//! Figures, their inventories and the pieces on the board, with the rules that
//! depend on a single figure or piece: defense and movement dice, attack
//! reach, door sides, furniture footprints and the finite figure supply.
use vstd::prelude::*;

use crate::cards::{Artifact, ChaosSpell, HeroSpell, TreasureCard};
use crate::equipment;
use crate::equipment::{Armor, ArmoryItem, Weapon, listing, starting_weapon};
use crate::model;
use crate::model::{
    BOARD_WIDTH, Direction, Faction, FigureKind, HeroKind, MonsterKind, Pos, PropKind, Stats, TrapKind,
};
use crate::quest::{MonsterModelVariant, QuestEffectDef};

verus! {

pub type UnitId = u32;

/// One board square as the rules see it: whether a figure may stand there,
/// the room it belongs to (0 for corridors, negative for solid rock) and
/// whether the heroes have revealed it.
#[derive(Clone, Copy, Debug, PartialEq, Eq, Structural)]
pub struct Cell {
    pub passable: bool,
    pub region: i16,
    pub revealed: bool,
}

impl Default for Cell {
    fn default() -> (cell: Self)
        ensures
            !cell.passable,
            cell.region == -1,
            !cell.revealed,
    {
        Cell { passable: false, region: -1, revealed: false }
    }
}

#[derive(Clone, Copy, Debug, PartialEq, Eq, Structural)]
pub struct Door {
    pub a: Pos,
    pub b: Pos,
    pub open: bool,
    pub secret: bool,
    pub discovered: bool,
    pub searchable: bool,
    pub false_door: bool,
}

/// The door joins the two squares, in either order.
pub open spec fn spec_connects(door: Door, a: Pos, b: Pos) -> bool {
    (door.a == a && door.b == b) || (door.a == b && door.b == a)
}

pub open spec fn spec_other_side(door: Door, pos: Pos) -> Option<Pos> {
    if door.a == pos {
        Some(door.b)
    } else if door.b == pos {
        Some(door.a)
    } else {
        None
    }
}

impl Door {
    pub fn connects(&self, a: Pos, b: Pos) -> (joins: bool)
        ensures
            joins == spec_connects(*self, a, b),
    {
        (self.a == a && self.b == b) || (self.a == b && self.b == a)
    }

    pub fn touches(&self, pos: Pos) -> (touching: bool)
        ensures
            touching == (self.a == pos || self.b == pos),
    {
        self.a == pos || self.b == pos
    }

    /// The square on the far side of the door from `pos`, when `pos` is one
    /// of its two squares.
    pub fn other_side(&self, pos: Pos) -> (far: Option<Pos>)
        ensures
            far == spec_other_side(*self, pos),
    {
        if self.a == pos {
            Some(self.b)
        } else if self.b == pos {
            Some(self.a)
        } else {
            None
        }
    }
}

/// Whether `item` appears in `items`.
pub fn contains_artifact(items: &Vec<Artifact>, item: Artifact) -> (found: bool)
    ensures
        found == items@.contains(item),
{
    let mut i: usize = 0;
    while i < items.len()
        invariant
            i <= items.len(),
            forall|j: int| 0 <= j < i ==> items@[j] != item,
        decreases items.len() - i,
    {
        if items[i] == item {
            return true;
        }
        i = i + 1;
    }
    false
}

/// Whether `item` appears in `items`.
pub fn contains_armor(items: &Vec<Armor>, item: Armor) -> (found: bool)
    ensures
        found == items@.contains(item),
{
    let mut i: usize = 0;
    while i < items.len()
        invariant
            i <= items.len(),
            forall|j: int| 0 <= j < i ==> items@[j] != item,
        decreases items.len() - i,
    {
        if items[i] == item {
            return true;
        }
        i = i + 1;
    }
    false
}

/// Whether `pos` appears in `squares`.
pub fn contains_pos(squares: &Vec<Pos>, pos: Pos) -> (found: bool)
    ensures
        found == squares@.contains(pos),
{
    let mut i: usize = 0;
    while i < squares.len()
        invariant
            i <= squares.len(),
            forall|j: int| 0 <= j < i ==> squares@[j] != pos,
        decreases squares.len() - i,
    {
        if squares[i] == pos {
            return true;
        }
        i = i + 1;
    }
    false
}

/// Whether `id` appears in `ids`.
pub fn contains_unit_id(ids: &Vec<UnitId>, id: UnitId) -> (found: bool)
    ensures
        found == ids@.contains(id),
{
    let mut i: usize = 0;
    while i < ids.len()
        invariant
            i <= ids.len(),
            forall|j: int| 0 <= j < i ==> ids@[j] != id,
        decreases ids.len() - i,
    {
        if ids[i] == id {
            return true;
        }
        i = i + 1;
    }
    false
}

/// A hero's cards, potions, gold and Armory equipment.
#[derive(Clone, Debug, PartialEq, Eq)]
pub struct Inventory {
    pub gold: u16,
    pub fools_gold: u16,
    pub heroic_brew: u8,
    pub potion_of_defense: u8,
    pub potion_of_healing: u8,
    pub healing_potion_strengths: Vec<u8>,
    pub potion_of_strength: u8,
    pub petrification_potion: u8,
    pub tool_kits: u8,
    pub artifacts: Vec<Artifact>,
    pub weapons: Vec<Weapon>,
    pub equipped_weapon: Option<Weapon>,
    pub armor: Vec<Armor>,
    pub equipped_body_armor: Option<Armor>,
}

/// An inventory with nothing in it.
pub open spec fn is_empty_inventory(inv: Inventory) -> bool {
    &&& inv.gold == 0
    &&& inv.fools_gold == 0
    &&& inv.heroic_brew == 0
    &&& inv.potion_of_defense == 0
    &&& inv.potion_of_healing == 0
    &&& inv.healing_potion_strengths@.len() == 0
    &&& inv.potion_of_strength == 0
    &&& inv.petrification_potion == 0
    &&& inv.tool_kits == 0
    &&& inv.artifacts@.len() == 0
    &&& inv.weapons@.len() == 0
    &&& inv.equipped_weapon is None
    &&& inv.armor@.len() == 0
    &&& inv.equipped_body_armor is None
}

impl Default for Inventory {
    fn default() -> (inv: Self)
        ensures
            is_empty_inventory(inv),
    {
        Inventory {
            gold: 0,
            fools_gold: 0,
            heroic_brew: 0,
            potion_of_defense: 0,
            potion_of_healing: 0,
            healing_potion_strengths: Vec::new(),
            potion_of_strength: 0,
            petrification_potion: 0,
            tool_kits: 0,
            artifacts: Vec::new(),
            weapons: Vec::new(),
            equipped_weapon: None,
            armor: Vec::new(),
            equipped_body_armor: None,
        }
    }
}

/// The body armor actually worn: the equipped Chain or Plate Mail when the
/// hero still owns it, otherwise the heaviest body armor owned.
pub open spec fn spec_body_armor(inv: Inventory) -> Option<Armor> {
    match inv.equipped_body_armor {
        Some(armor) if (armor == Armor::ChainMail || armor == Armor::PlateMail)
            && inv.armor@.contains(armor) => Some(armor),
        _ => if inv.armor@.contains(Armor::PlateMail) {
            Some(Armor::PlateMail)
        } else if inv.armor@.contains(Armor::ChainMail) {
            Some(Armor::ChainMail)
        } else {
            None
        },
    }
}

pub open spec fn spec_movement_dice(inv: Inventory) -> u8 {
    if spec_body_armor(inv) == Some(Armor::PlateMail) {
        1
    } else {
        2
    }
}

pub open spec fn spec_body_armor_bonus(inv: Inventory) -> u8 {
    match spec_body_armor(inv) {
        Some(armor) => equipment::spec_defense_bonus(armor),
        None => 0,
    }
}

/// One die for an owned Helmet, one for an owned Shield unless the equipped
/// weapon forbids a shield.
pub open spec fn spec_defense_accessory_bonus(inv: Inventory) -> u8 {
    let helmet: u8 = if inv.armor@.contains(Armor::Helmet) {
        1
    } else {
        0
    };
    let shield: u8 = if inv.armor@.contains(Armor::Shield) && match inv.equipped_weapon {
        Some(weapon) => equipment::spec_permits_shield(weapon),
        None => true,
    } {
        1
    } else {
        0
    };
    (helmet + shield) as u8
}

pub open spec fn spec_weapon_attack_dice(inv: Inventory, fallback: u8) -> u8 {
    match inv.equipped_weapon {
        Some(weapon) => equipment::spec_attack_dice(weapon),
        None => fallback,
    }
}

/// Defense dice from a printed base plus worn armor, helmet and shield.
pub open spec fn spec_inventory_defense(inv: Inventory, base: u8) -> int {
    base + spec_body_armor_bonus(inv) + spec_defense_accessory_bonus(inv)
}

impl Inventory {
    /// A hero's opening inventory: the hero's starting weapon, equipped.
    pub fn for_hero(hero: HeroKind) -> (inv: Self)
        ensures
            inv.weapons@ == seq![equipment::spec_starting_weapon(hero)],
            inv.equipped_weapon == Some(equipment::spec_starting_weapon(hero)),
            inv.gold == 0,
            inv.fools_gold == 0,
            inv.heroic_brew == 0,
            inv.potion_of_defense == 0,
            inv.potion_of_healing == 0,
            inv.healing_potion_strengths@.len() == 0,
            inv.potion_of_strength == 0,
            inv.petrification_potion == 0,
            inv.tool_kits == 0,
            inv.artifacts@.len() == 0,
            inv.armor@.len() == 0,
            inv.equipped_body_armor is None,
    {
        let weapon = starting_weapon(hero);
        let mut inv = Inventory::default();
        inv.weapons = vec![weapon];
        inv.equipped_weapon = Some(weapon);
        inv
    }

    /// Movement dice the worn armor allows: Plate Mail slows its wearer to one.
    pub fn movement_dice(&self) -> (dice: u8)
        ensures
            dice == spec_movement_dice(*self),
    {
        if self.body_armor() == Some(Armor::PlateMail) {
            1
        } else {
            2
        }
    }

    /// Attack dice of the equipped weapon, or `fallback` when none is equipped.
    pub fn weapon_attack_dice(&self, fallback: u8) -> (dice: u8)
        ensures
            dice == spec_weapon_attack_dice(*self, fallback),
    {
        match self.equipped_weapon {
            Some(weapon) => weapon.attack_dice(),
            None => fallback,
        }
    }

    pub fn body_armor_bonus(&self) -> (bonus: u8)
        ensures
            bonus == spec_body_armor_bonus(*self),
    {
        match self.body_armor() {
            Some(armor) => armor.defense_bonus(),
            None => 0,
        }
    }

    pub fn body_armor(&self) -> (worn: Option<Armor>)
        ensures
            worn == spec_body_armor(*self),
    {
        match self.equipped_body_armor {
            Some(armor) => {
                if (armor == Armor::ChainMail || armor == Armor::PlateMail) && contains_armor(
                    &self.armor,
                    armor,
                ) {
                    return Some(armor);
                }
            },
            None => {},
        }
        if contains_armor(&self.armor, Armor::PlateMail) {
            Some(Armor::PlateMail)
        } else if contains_armor(&self.armor, Armor::ChainMail) {
            Some(Armor::ChainMail)
        } else {
            None
        }
    }

    pub fn defense_accessory_bonus(&self) -> (bonus: u8)
        ensures
            bonus == spec_defense_accessory_bonus(*self),
            bonus <= 2,
    {
        let helmet: u8 = if contains_armor(&self.armor, Armor::Helmet) {
            1
        } else {
            0
        };
        let shield_allowed = match self.equipped_weapon {
            Some(weapon) => weapon.permits_shield(),
            None => true,
        };
        let shield: u8 = if contains_armor(&self.armor, Armor::Shield) && shield_allowed {
            1
        } else {
            0
        };
        helmet + shield
    }

    /// Defense dice for a figure whose printed defense is `base`.
    pub fn defense_dice(&self, base: u8) -> (dice: u8)
        requires
            spec_inventory_defense(*self, base) <= u8::MAX,
        ensures
            dice == spec_inventory_defense(*self, base),
    {
        base + self.body_armor_bonus() + self.defense_accessory_bonus()
    }
}

/// A figure on the board: a hero, a monster or an escorted ally.
#[derive(Clone, Debug)]
pub struct Unit {
    pub id: UnitId,
    pub name: String,
    pub figure: FigureKind,
    pub physical_figure: Option<FigureKind>,
    pub faction: Faction,
    pub model_variant: Option<MonsterModelVariant>,
    pub pos: Pos,
    pub stats: Stats,
    pub body: i16,
    pub alive: bool,
    pub in_pit: bool,
    pub inventory: Inventory,
    pub carried_quest_item: Option<usize>,
    pub dormant: bool,
    pub invulnerable_until_acts: bool,
    pub equipment_available: bool,
    pub spellcasting_available: bool,
    pub escaped: bool,
    pub chaos_spells: Vec<ChaosSpell>,
    pub discarded_chaos_spells: Vec<ChaosSpell>,
    pub hero_spells: Vec<HeroSpell>,
    pub discarded_hero_spells: Vec<HeroSpell>,
    pub spell_ring_spell: Option<HeroSpell>,
    pub spell_ring_casts_left: u8,
    pub escape_target: Option<Pos>,
    pub immune_to_fire_spells: bool,
    pub fearful: bool,
    pub sleeping: bool,
    pub clouded: bool,
    pub hero_sleep_caster: Option<UnitId>,
    pub skip_turns: u8,
    pub petrified_turns: u8,
    pub diagonal_attack: bool,
    pub hidden_until_activated: bool,
    pub immune_except_spirit_blade: bool,
    pub champion: bool,
    pub commanded: bool,
    pub swift_wind: bool,
    pub courage: bool,
    pub rock_skin: bool,
    pub pass_through_rock: bool,
    pub veil_of_mist: bool,
    pub potion_defense_bonus: u8,
}

pub open spec fn is_wizard(unit: Unit) -> bool {
    unit.figure == FigureKind::Hero(HeroKind::Wizard)
}

pub open spec fn is_elf_or_wizard(unit: Unit) -> bool {
    unit.figure == FigureKind::Hero(HeroKind::Elf) || unit.figure == FigureKind::Hero(
        HeroKind::Wizard,
    )
}

/// The figure's Mind, with a Talisman of Lore's point, fits in a byte.
pub open spec fn mind_fits(unit: Unit) -> bool {
    spec_effective_mind(unit) <= u8::MAX
}

pub open spec fn spec_effective_mind(unit: Unit) -> int {
    unit.stats.mind + if unit.equipment_available && unit.inventory.artifacts@.contains(
        Artifact::TalismanOfLore,
    ) {
        1int
    } else {
        0int
    }
}

/// Borin's Armor is worn by any hero but the Wizard while the hero has
/// equipment.
pub open spec fn spec_uses_borins_armor(unit: Unit) -> bool {
    &&& unit.faction == Faction::Hero
    &&& unit.equipment_available
    &&& !is_wizard(unit)
    &&& unit.inventory.artifacts@.contains(Artifact::BorinsArmor)
}

pub open spec fn spec_uses_wand_of_magic(unit: Unit) -> bool {
    &&& unit.faction == Faction::Hero
    &&& unit.equipment_available
    &&& unit.spellcasting_available
    &&& is_elf_or_wizard(unit)
    &&& unit.inventory.artifacts@.contains(Artifact::WandOfMagic)
}

pub open spec fn spec_uses_spell_ring(unit: Unit) -> bool {
    &&& unit.faction == Faction::Hero
    &&& unit.equipment_available
    &&& unit.spellcasting_available
    &&& is_elf_or_wizard(unit)
    &&& unit.inventory.artifacts@.contains(Artifact::SpellRing)
}

pub open spec fn spec_effective_movement_dice(unit: Unit) -> u8 {
    if spec_uses_borins_armor(unit) {
        2
    } else if is_wizard(unit) {
        2
    } else {
        spec_movement_dice(unit.inventory)
    }
}

/// Defense dice before any condition that takes them all away: the printed
/// defense with the armor the figure may use, the Wizard's Cloak, Rock Skin
/// and a Potion of Defense.
pub open spec fn spec_armed_defense(unit: Unit) -> int {
    let base: int = if is_wizard(unit) {
        unit.stats.defend as int
    } else if spec_uses_borins_armor(unit) {
        unit.stats.defend + 2 + spec_defense_accessory_bonus(unit.inventory)
    } else {
        spec_inventory_defense(unit.inventory, unit.stats.defend)
    };
    let cloak: int = if is_wizard(unit) && unit.inventory.artifacts@.contains(
        Artifact::WizardsCloak,
    ) {
        1
    } else {
        0
    };
    let rock: int = if unit.rock_skin {
        1
    } else {
        0
    };
    base + cloak + rock + unit.potion_defense_bonus
}

/// A sleeping, clouded or petrified figure, or a hero carrying the mine's
/// gold, rolls no defense dice; a hero whose equipment Zargon holds rolls two.
/// The figure defends with its armour and aids, not with a fixed number of
/// dice: it is awake and free, holds no fool's gold, and a hero has its
/// equipment.
pub open spec fn defense_is_armed(unit: Unit) -> bool {
    &&& !(unit.sleeping || unit.clouded || unit.petrified_turns > 0)
    &&& unit.inventory.fools_gold == 0
    &&& !(unit.faction == Faction::Hero && !unit.equipment_available)
}

pub open spec fn spec_effective_defense_dice(unit: Unit) -> int {
    if unit.sleeping || unit.clouded || unit.petrified_turns > 0 {
        0
    } else if unit.inventory.fools_gold > 0 {
        0
    } else if unit.faction == Faction::Hero && !unit.equipment_available {
        2
    } else {
        spec_armed_defense(unit)
    }
}

pub open spec fn spec_permits_diagonal(unit: Unit) -> bool {
    ||| unit.diagonal_attack
    ||| (unit.equipment_available && is_wizard(unit) && unit.inventory.artifacts@.contains(
        Artifact::WizardsStaff,
    ))
    ||| (unit.equipment_available && match unit.inventory.equipped_weapon {
        Some(weapon) => equipment::spec_permits_diagonal_attack(weapon),
        None => false,
    })
}

pub open spec fn spec_immune_to_hero_spell(unit: Unit, spell: HeroSpell) -> bool {
    unit.immune_except_spirit_blade || (unit.immune_to_fire_spells && (spell
        == HeroSpell::BallOfFlame || spell == HeroSpell::FireOfWrath))
}

/// Two records of the same figure that may differ only in body points,
/// life, inventory, petrification, Swift Wind and the Potion of Defense
/// bonus.
pub open spec fn same_figure(a: Unit, b: Unit) -> bool {
    &&& a.id == b.id
    &&& a.name == b.name
    &&& a.figure == b.figure
    &&& a.physical_figure == b.physical_figure
    &&& a.faction == b.faction
    &&& a.model_variant == b.model_variant
    &&& a.pos == b.pos
    &&& a.stats == b.stats
    &&& a.in_pit == b.in_pit
    &&& a.carried_quest_item == b.carried_quest_item
    &&& a.dormant == b.dormant
    &&& a.invulnerable_until_acts == b.invulnerable_until_acts
    &&& a.equipment_available == b.equipment_available
    &&& a.spellcasting_available == b.spellcasting_available
    &&& a.escaped == b.escaped
    &&& a.chaos_spells == b.chaos_spells
    &&& a.discarded_chaos_spells == b.discarded_chaos_spells
    &&& a.hero_spells == b.hero_spells
    &&& a.discarded_hero_spells == b.discarded_hero_spells
    &&& a.spell_ring_spell == b.spell_ring_spell
    &&& a.spell_ring_casts_left == b.spell_ring_casts_left
    &&& a.escape_target == b.escape_target
    &&& a.immune_to_fire_spells == b.immune_to_fire_spells
    &&& a.fearful == b.fearful
    &&& a.sleeping == b.sleeping
    &&& a.clouded == b.clouded
    &&& a.hero_sleep_caster == b.hero_sleep_caster
    &&& a.skip_turns == b.skip_turns
    &&& a.diagonal_attack == b.diagonal_attack
    &&& a.hidden_until_activated == b.hidden_until_activated
    &&& a.immune_except_spirit_blade == b.immune_except_spirit_blade
    &&& a.champion == b.champion
    &&& a.commanded == b.commanded
    &&& a.courage == b.courage
    &&& a.rock_skin == b.rock_skin
    &&& a.pass_through_rock == b.pass_through_rock
    &&& a.veil_of_mist == b.veil_of_mist
}

/// Only the figure at `slot` may have changed, and only in the ways
/// `same_figure` allows.
pub open spec fn units_changed_at(before: Seq<Unit>, after: Seq<Unit>, slot: int) -> bool {
    &&& after.len() == before.len()
    &&& 0 <= slot < before.len()
    &&& forall|j: int| 0 <= j < before.len() && j != slot ==> #[trigger] after[j] == before[j]
    &&& same_figure(after[slot], before[slot])
}

/// `after` is `before` with its Swift Wind spent and nothing else changed.
pub open spec fn swift_wind_spent(before: Unit, after: Unit) -> bool {
    &&& same_figure(after, before)
    &&& !after.swift_wind
    &&& after.body == before.body
    &&& after.alive == before.alive
    &&& after.inventory == before.inventory
    &&& after.petrified_turns == before.petrified_turns
    &&& after.potion_defense_bonus == before.potion_defense_bonus
}

/// How many potions of a kind the inventory holds.
pub open spec fn potion_count(inv: Inventory, kind: PotionKind) -> u8 {
    match kind {
        PotionKind::HeroicBrew => inv.heroic_brew,
        PotionKind::Defense => inv.potion_of_defense,
        PotionKind::Healing => inv.potion_of_healing,
        PotionKind::Strength => inv.potion_of_strength,
        PotionKind::Petrification => inv.petrification_potion,
    }
}

pub open spec fn with_potion_count(inv: Inventory, kind: PotionKind, count: u8) -> Inventory {
    match kind {
        PotionKind::HeroicBrew => Inventory { heroic_brew: count, ..inv },
        PotionKind::Defense => Inventory { potion_of_defense: count, ..inv },
        PotionKind::Healing => Inventory { potion_of_healing: count, ..inv },
        PotionKind::Strength => Inventory { potion_of_strength: count, ..inv },
        PotionKind::Petrification => Inventory { petrification_potion: count, ..inv },
    }
}

/// The figure with one potion of the kind fewer; a Potion of Healing takes
/// its last recorded strength with it.
pub open spec fn potion_taken(before: Unit, after: Unit, kind: PotionKind) -> bool {
    let strengths = before.inventory.healing_potion_strengths@;
    &&& after == (Unit {
        inventory: with_potion_count(
            Inventory {
                healing_potion_strengths: after.inventory.healing_potion_strengths,
                ..before.inventory
            },
            kind,
            if potion_count(before.inventory, kind) > 0 {
                (potion_count(before.inventory, kind) - 1) as u8
            } else {
                0
            },
        ),
        ..before
    })
    &&& after.inventory.healing_potion_strengths@ == if kind == PotionKind::Healing && strengths.len()
        > 0 {
        strengths.drop_last()
    } else {
        strengths
    }
}

/// The figure with one potion of the kind more (held at 255); a Potion of
/// Healing records its strength.
pub open spec fn potion_received(before: Unit, after: Unit, kind: PotionKind, strength: u8) -> bool {
    let strengths = before.inventory.healing_potion_strengths@;
    &&& after == (Unit {
        inventory: with_potion_count(
            Inventory {
                healing_potion_strengths: after.inventory.healing_potion_strengths,
                ..before.inventory
            },
            kind,
            if potion_count(before.inventory, kind) < u8::MAX {
                (potion_count(before.inventory, kind) + 1) as u8
            } else {
                u8::MAX
            },
        ),
        ..before
    })
    &&& after.inventory.healing_potion_strengths@ == if kind == PotionKind::Healing {
        strengths.push(strength)
    } else {
        strengths
    }
}

/// The figure after drinking a Potion of Healing: one potion and its last
/// recorded strength fewer, and, when `restored` is known, that many body
/// points more.
pub open spec fn healing_drunk(before: Unit, after: Unit, restored: Option<u8>) -> bool {
    let strengths = before.inventory.healing_potion_strengths@;
    &&& after == (Unit {
        body: match restored {
            Some(amount) => (before.body + amount) as i16,
            None => before.body,
        },
        alive: match restored {
            Some(amount) => before.body + amount > 0,
            None => before.alive,
        },
        inventory: Inventory {
            potion_of_healing: (before.inventory.potion_of_healing - 1) as u8,
            healing_potion_strengths: after.inventory.healing_potion_strengths,
            ..before.inventory
        },
        ..before
    })
    &&& after.inventory.healing_potion_strengths@ == if strengths.len() > 0 {
        strengths.drop_last()
    } else {
        strengths
    }
}

impl Unit {
    /// Spends the figure's Swift Wind.
    pub(crate) fn spend_swift_wind(self) -> (unit: Unit)
        ensures
            swift_wind_spent(self, unit),
    {
        Unit { swift_wind: false, ..self }
    }

    /// Mind points, with one more for a Talisman of Lore the figure may use.
    pub fn effective_mind(&self) -> (mind: u8)
        requires
            mind_fits(*self),
        ensures
            mind == spec_effective_mind(*self),
    {
        let talisman: u8 = if self.equipment_available && contains_artifact(
            &self.inventory.artifacts,
            Artifact::TalismanOfLore,
        ) {
            1
        } else {
            0
        };
        self.stats.mind + talisman
    }

    pub fn uses_borins_armor(&self) -> (uses: bool)
        ensures
            uses == spec_uses_borins_armor(*self),
    {
        self.faction == Faction::Hero && self.equipment_available && !(self.figure
            == FigureKind::Hero(HeroKind::Wizard)) && contains_artifact(
            &self.inventory.artifacts,
            Artifact::BorinsArmor,
        )
    }

    pub fn uses_wand_of_magic(&self) -> (uses: bool)
        ensures
            uses == spec_uses_wand_of_magic(*self),
    {
        self.faction == Faction::Hero && self.equipment_available && self.spellcasting_available
            && (self.figure == FigureKind::Hero(HeroKind::Elf) || self.figure == FigureKind::Hero(
            HeroKind::Wizard,
        )) && contains_artifact(&self.inventory.artifacts, Artifact::WandOfMagic)
    }

    pub fn uses_spell_ring(&self) -> (uses: bool)
        ensures
            uses == spec_uses_spell_ring(*self),
    {
        self.faction == Faction::Hero && self.equipment_available && self.spellcasting_available
            && (self.figure == FigureKind::Hero(HeroKind::Elf) || self.figure == FigureKind::Hero(
            HeroKind::Wizard,
        )) && contains_artifact(&self.inventory.artifacts, Artifact::SpellRing)
    }

    /// Movement dice: Borin's Armor and the Wizard never suffer Plate Mail's
    /// one-die restriction.
    pub fn effective_movement_dice(&self) -> (dice: u8)
        ensures
            dice == spec_effective_movement_dice(*self),
            1 <= dice <= 2,
    {
        if self.uses_borins_armor() {
            2
        } else if self.figure == FigureKind::Hero(HeroKind::Wizard) {
            2
        } else {
            self.inventory.movement_dice()
        }
    }

    pub fn effective_defense_dice(&self) -> (dice: u8)
        requires
            defense_is_armed(*self) ==> spec_armed_defense(*self) <= u8::MAX,
        ensures
            dice == spec_effective_defense_dice(*self),
    {
        if self.sleeping || self.clouded || self.petrified_turns > 0 {
            return 0;
        }
        if self.inventory.fools_gold > 0 {
            return 0;
        }
        if self.faction == Faction::Hero && !self.equipment_available {
            return 2;
        }
        let wizard = self.figure == FigureKind::Hero(HeroKind::Wizard);
        let base: u8 = if wizard {
            self.stats.defend
        } else if self.uses_borins_armor() {
            self.stats.defend + 2 + self.inventory.defense_accessory_bonus()
        } else {
            self.inventory.defense_dice(self.stats.defend)
        };
        let cloak: u8 = if wizard && contains_artifact(
            &self.inventory.artifacts,
            Artifact::WizardsCloak,
        ) {
            1
        } else {
            0
        };
        let rock: u8 = if self.rock_skin {
            1
        } else {
            0
        };
        base + cloak + rock + self.potion_defense_bonus
    }

    pub fn permits_diagonal_attack(&self) -> (permits: bool)
        ensures
            permits == spec_permits_diagonal(*self),
    {
        if self.diagonal_attack {
            return true;
        }
        if self.equipment_available && self.figure == FigureKind::Hero(HeroKind::Wizard)
            && contains_artifact(&self.inventory.artifacts, Artifact::WizardsStaff) {
            return true;
        }
        self.equipment_available && match self.inventory.equipped_weapon {
            Some(weapon) => weapon.permits_diagonal_attack(),
            None => false,
        }
    }

    pub fn is_immune_to_hero_spell(&self, spell: HeroSpell) -> (immune: bool)
        ensures
            immune == spec_immune_to_hero_spell(*self, spell),
    {
        self.immune_except_spirit_blade || (self.immune_to_fire_spells && (spell
            == HeroSpell::BallOfFlame || spell == HeroSpell::FireOfWrath))
    }
}

/// A piece of furniture or a quest token on the board.
#[derive(Clone, Copy, Debug, PartialEq, Eq, Structural)]
pub struct Prop {
    pub kind: PropKind,
    pub pos: Pos,
    pub rotation_quarters: u8,
    pub visible: bool,
    pub carried_by: Option<UnitId>,
}

/// The square lies inside the rectangle the piece covers.
pub open spec fn spec_occupies(prop: Prop, pos: Pos) -> bool {
    let (w, h) = model::spec_footprint(prop.kind, prop.rotation_quarters);
    &&& pos.x >= prop.pos.x
    &&& pos.y >= prop.pos.y
    &&& pos.x < prop.pos.x + w
    &&& pos.y < prop.pos.y + h
}

/// The piece's origin leaves room for any footprint in 8-bit coordinates.
pub open spec fn prop_fits(prop: Prop) -> bool {
    prop.pos.x + 3 <= u8::MAX && prop.pos.y + 3 <= u8::MAX
}

/// The piece's whole footprint has 8-bit coordinates.
pub open spec fn footprint_fits(prop: Prop) -> bool {
    &&& prop.pos.x + model::spec_footprint(prop.kind, prop.rotation_quarters).0 <= u8::MAX
    &&& prop.pos.y + model::spec_footprint(prop.kind, prop.rotation_quarters).1 <= u8::MAX
}

/// The squares listed as a piece's footprint are exactly the squares it
/// covers, each listed once.
pub proof fn lemma_footprint_is_coverage(prop: Prop)
    requires
        footprint_fits(prop),
    ensures
        forall|q: Pos|
            model::spec_footprint_squares(prop.kind, prop.pos, prop.rotation_quarters).contains(q)
                <==> spec_occupies(prop, q),
        forall|i: int, j: int|
            0 <= i < j < model::spec_footprint_squares(
                prop.kind,
                prop.pos,
                prop.rotation_quarters,
            ).len() ==> model::spec_footprint_squares(prop.kind, prop.pos, prop.rotation_quarters)[i]
                != model::spec_footprint_squares(prop.kind, prop.pos, prop.rotation_quarters)[j],
{
    let (w, h) = model::spec_footprint(prop.kind, prop.rotation_quarters);
    model::lemma_footprint_small(prop.kind, prop.rotation_quarters);
    let squares = model::spec_footprint_squares(prop.kind, prop.pos, prop.rotation_quarters);
    let wi = w as int;
    let hi = h as int;
    assert forall|q: Pos| squares.contains(q) <==> spec_occupies(prop, q) by {
        if squares.contains(q) {
            let i = choose|i: int| 0 <= i < squares.len() && squares[i] == q;
            assert(0 <= i % wi < wi && 0 <= i / wi < hi) by (nonlinear_arith)
                requires
                    0 <= i < wi * hi,
                    1 <= wi <= 3,
                    1 <= hi <= 3,
            ;
        }
        if spec_occupies(prop, q) {
            let dx = q.x - prop.pos.x;
            let dy = q.y - prop.pos.y;
            let i = dy * wi + dx;
            assert(0 <= i < wi * hi && i % wi == dx && i / wi == dy) by (nonlinear_arith)
                requires
                    0 <= dx < wi,
                    0 <= dy < hi,
                    i == dy * wi + dx,
                    1 <= wi <= 3,
                    1 <= hi <= 3,
            ;
            assert(squares[i] == q);
        }
    }
    assert forall|i: int, j: int| 0 <= i < j < squares.len() implies squares[i] != squares[j] by {
        assert(i % wi != j % wi || i / wi != j / wi) by (nonlinear_arith)
            requires
                0 <= i < j,
                1 <= wi <= 3,
        ;
        assert(0 <= i % wi < wi && 0 <= j % wi < wi && 0 <= i / wi < hi && 0 <= j / wi < hi)
            by (nonlinear_arith)
            requires
                0 <= i < j < wi * hi,
                1 <= wi <= 3,
                1 <= hi <= 3,
        ;
    }
}

impl Prop {
    pub fn footprint_squares(&self) -> (squares: Vec<Pos>)
        requires
            footprint_fits(*self),
        ensures
            squares@ == model::spec_footprint_squares(self.kind, self.pos, self.rotation_quarters),
    {
        self.kind.footprint_squares(self.pos, self.rotation_quarters)
    }

    pub fn occupies_square(&self, pos: Pos) -> (covered: bool)
        requires
            footprint_fits(*self),
        ensures
            covered == spec_occupies(*self, pos),
    {
        let (width, height) = self.kind.footprint(self.rotation_quarters);
        pos.x >= self.pos.x && pos.y >= self.pos.y && pos.x < self.pos.x + width && pos.y
            < self.pos.y + height
    }
}

#[derive(Clone, Debug, PartialEq, Eq)]
pub struct QuestItem {
    pub id: String,
    pub prop_index: usize,
    pub sealed_gold: u16,
    pub holder: Option<UnitId>,
    pub delivered: bool,
}

/// What sets off a quest note.
#[derive(Clone, Debug, PartialEq, Eq)]
pub enum QuestTrigger {
    SearchTreasure { region: i16 },
    SearchTreasureAfterDefeat { region: i16, name: String },
    RevealRoom { region: i16 },
    DefeatNamed { name: String },
    OpenDoor { a: Pos, b: Pos },
}

/// A quest note in play, and whether it has already fired.
#[derive(Debug)]
pub struct QuestEvent {
    pub id: String,
    pub trigger: QuestTrigger,
    pub effect: QuestEffectDef,
    pub message: Option<String>,
    pub resolved: bool,
}

#[derive(Clone, Copy, Debug, PartialEq, Eq, Structural)]
pub struct Trap {
    pub kind: TrapKind,
    pub pos: Pos,
    pub discovered: bool,
    pub sprung: bool,
    pub disarmed: bool,
    pub trigger_on_entry: bool,
    pub disarmable: bool,
}

#[derive(Clone, Copy, Debug, PartialEq, Eq, Structural)]
pub enum GamePhase {
    HeroTurn { order_index: usize },
    AllyTurn { ally: UnitId, controller_order_index: usize },
    ZargonTurn,
    Won,
    Retreated,
    Lost,
}

/// A Chaos spell whose target must still throw resistance dice.
#[derive(Clone, Copy, Debug, PartialEq, Eq, Structural)]
pub struct PendingChaosSpellRoll {
    pub caster: UnitId,
    pub target: UnitId,
    pub spell: ChaosSpell,
    pub dice_count: u8,
}

/// What the active hero has done so far this turn.
#[derive(Clone, Debug)]
pub struct HeroTurnState {
    pub movement_roll: Option<u8>,
    pub movement_left: u8,
    pub moved_steps: u8,
    pub action_used: bool,
    pub resistance_resolved: bool,
    pub resolved_chaos_resistances: Vec<ChaosSpell>,
    pub door_passed: bool,
    pub orcs_bane_follow_up: bool,
    pub heroic_brew_ready: bool,
    pub heroic_brew_follow_up: bool,
    pub potion_strength_bonus: u8,
    pub wand_first_spell: Option<HeroSpell>,
    pub wand_follow_up_used: bool,
}

/// The state at the start of a turn: nothing rolled, moved or done.
pub open spec fn is_fresh_turn(turn: HeroTurnState) -> bool {
    &&& turn.movement_roll is None
    &&& turn.movement_left == 0
    &&& turn.moved_steps == 0
    &&& !turn.action_used
    &&& !turn.resistance_resolved
    &&& turn.resolved_chaos_resistances@.len() == 0
    &&& !turn.door_passed
    &&& !turn.orcs_bane_follow_up
    &&& !turn.heroic_brew_ready
    &&& !turn.heroic_brew_follow_up
    &&& turn.potion_strength_bonus == 0
    &&& turn.wand_first_spell is None
    &&& !turn.wand_follow_up_used
}

impl Default for HeroTurnState {
    fn default() -> (turn: Self)
        ensures
            is_fresh_turn(turn),
    {
        HeroTurnState {
            movement_roll: None,
            movement_left: 0,
            moved_steps: 0,
            action_used: false,
            resistance_resolved: false,
            resolved_chaos_resistances: Vec::new(),
            door_passed: false,
            orcs_bane_follow_up: false,
            heroic_brew_ready: false,
            heroic_brew_follow_up: false,
            potion_strength_bonus: 0,
            wand_first_spell: None,
            wand_follow_up_used: false,
        }
    }
}

/// Whether a figure may enter, stop on, or continue moving from a square.
#[derive(Clone, Copy, Debug, PartialEq, Eq, Structural)]
pub struct MovementStepInfo {
    pub may_enter: bool,
    pub may_end: bool,
    pub may_continue: bool,
}

#[derive(Clone, Copy, Debug, PartialEq, Eq, Structural)]
pub enum AttackSource {
    Natural,
    Unarmed,
    Weapon(Weapon),
    ThrownDagger,
    OrcsBane,
    SpiritBlade,
    WizardsStaff,
}

pub open spec fn spec_attack_source_name(source: AttackSource) -> Seq<char> {
    match source {
        AttackSource::Natural => "Natural attack"@,
        AttackSource::Unarmed => "Unarmed"@,
        AttackSource::Weapon(weapon) => equipment::spec_weapon_name(weapon),
        AttackSource::ThrownDagger => "Thrown Dagger"@,
        AttackSource::OrcsBane => "Orc's Bane"@,
        AttackSource::SpiritBlade => "Spirit Blade"@,
        AttackSource::WizardsStaff => "Wizard's Staff"@,
    }
}

impl AttackSource {
    pub fn name(self) -> (name: &'static str)
        ensures
            name@ == spec_attack_source_name(self),
    {
        match self {
            AttackSource::Natural => "Natural attack",
            AttackSource::Unarmed => "Unarmed",
            AttackSource::Weapon(weapon) => weapon.name(),
            AttackSource::ThrownDagger => "Thrown Dagger",
            AttackSource::OrcsBane => "Orc's Bane",
            AttackSource::SpiritBlade => "Spirit Blade",
            AttackSource::WizardsStaff => "Wizard's Staff",
        }
    }
}

#[derive(Clone, Copy, Debug, PartialEq, Eq, Structural)]
pub struct AttackPlan {
    pub attacker: UnitId,
    pub defender: UnitId,
    pub source: AttackSource,
    pub attack_dice: u8,
    pub defend_dice: u8,
}

#[derive(Clone, Copy, Debug, PartialEq, Eq, Structural)]
pub struct CombatVisualEvent {
    pub sequence: u64,
    pub attacker: UnitId,
    pub defender: UnitId,
    pub damage: u8,
    pub defender_died: bool,
}

#[derive(Clone, Copy, Debug, PartialEq, Eq, Structural)]
pub enum ZargonStep {
    Moved { unit: UnitId, from: Pos, to: Pos },
    Attack(AttackPlan),
    Cast { caster: UnitId, target: UnitId, spell: ChaosSpell, resistance_dice: u8 },
    HeroSpellRoll(HeroSpellRoll),
    Finished,
}

#[derive(Clone, Copy, Debug, PartialEq, Eq, Structural)]
pub enum HeroSpellTarget {
    Unit(UnitId),
    Door(usize),
}

#[derive(Clone, Copy, Debug, PartialEq, Eq, Structural)]
pub enum HeroSpellDiceKind {
    Red,
    Combat { attack_dice: u8, defend_dice: u8 },
}

#[derive(Clone, Copy, Debug, PartialEq, Eq, Structural)]
pub struct HeroSpellRoll {
    pub caster: UnitId,
    pub target: UnitId,
    pub spell: HeroSpell,
    pub dice_count: u8,
    pub kind: HeroSpellDiceKind,
}

#[derive(Clone, Copy, Debug, PartialEq, Eq, Structural)]
pub enum HeroSpellCast {
    Resolved,
    Roll(HeroSpellRoll),
}

#[derive(Clone, Copy, Debug, PartialEq, Eq, Structural)]
pub enum HealingPotionUse {
    Restored { hero: UnitId, body: u8 },
    RollRedDie { hero: UnitId },
}

#[derive(Clone, Copy, Debug, PartialEq, Eq, Structural)]
pub enum PotionKind {
    HeroicBrew,
    Defense,
    Healing,
    Strength,
    Petrification,
}

pub open spec fn spec_potion_name(kind: PotionKind) -> Seq<char> {
    match kind {
        PotionKind::HeroicBrew => "Heroic Brew"@,
        PotionKind::Defense => "Potion of Defense"@,
        PotionKind::Healing => "Potion of Healing"@,
        PotionKind::Strength => "Potion of Strength"@,
        PotionKind::Petrification => "Mysterious Purple Potion"@,
    }
}

impl PotionKind {
    pub fn name(self) -> (name: &'static str)
        ensures
            name@ == spec_potion_name(self),
    {
        match self {
            PotionKind::HeroicBrew => "Heroic Brew",
            PotionKind::Defense => "Potion of Defense",
            PotionKind::Healing => "Potion of Healing",
            PotionKind::Strength => "Potion of Strength",
            PotionKind::Petrification => "Mysterious Purple Potion",
        }
    }
}

#[derive(Clone, Copy, Debug, PartialEq, Eq, Structural)]
pub enum HeroDeathChoice {
    HealingPotion,
    HealBody,
    WaterOfHealing,
    AcceptDeath,
}

pub open spec fn spec_death_choice_label(choice: HeroDeathChoice) -> Seq<char> {
    match choice {
        HeroDeathChoice::HealingPotion => "Potion of Healing"@,
        HeroDeathChoice::HealBody => "Heal Body"@,
        HeroDeathChoice::WaterOfHealing => "Water of Healing"@,
        HeroDeathChoice::AcceptDeath => "Accept death"@,
    }
}

impl HeroDeathChoice {
    pub fn label(self) -> (label: &'static str)
        ensures
            label@ == spec_death_choice_label(self),
    {
        match self {
            HeroDeathChoice::HealingPotion => "Potion of Healing",
            HeroDeathChoice::HealBody => "Heal Body",
            HeroDeathChoice::WaterOfHealing => "Water of Healing",
            HeroDeathChoice::AcceptDeath => "Accept death",
        }
    }
}

#[derive(Clone, Copy, Debug, PartialEq, Eq, Structural)]
pub struct PendingHeroDeath {
    pub hero: UnitId,
    pub potion_roll_pending: bool,
}

#[derive(Clone, Debug, PartialEq, Eq)]
pub struct PendingPossessionPickup {
    pub dead_hero: UnitId,
    pub eligible_heroes: Vec<UnitId>,
}

#[derive(Clone, Copy, Debug, PartialEq, Eq, Structural)]
pub struct CombatOutcome {
    pub skulls: u8,
    pub blocks: u8,
    pub damage: u8,
    pub defender_died: bool,
}

#[derive(Clone, Copy, Debug, PartialEq, Eq, Structural)]
pub enum TreasureDiscovery {
    Card(TreasureCard),
    Artifact(Artifact),
    Gold(u16),
    Empty,
    QuestEvent,
}

#[derive(Clone, Copy, Debug, PartialEq, Eq, Structural)]
pub struct TreasureSearchOutcome {
    pub discovery: TreasureDiscovery,
    pub wandering_monster: Option<UnitId>,
}

#[derive(Clone, Copy, Debug, PartialEq, Eq, Structural)]
pub struct PendingFallingBlock {
    pub hero: UnitId,
    pub trap: Pos,
    pub back: Option<Pos>,
    pub ahead: Option<Pos>,
}

/// A floor trap whose printed combat dice must be thrown before its result
/// can be applied, with the entry geometry a falling block needs afterwards.
#[derive(Clone, Copy, Debug, PartialEq, Eq, Structural)]
pub struct PendingTrapRoll {
    pub hero: UnitId,
    pub trap: Pos,
    pub from: Pos,
    pub direction: Direction,
    pub kind: TrapKind,
}

pub open spec fn spec_trap_dice(kind: TrapKind) -> u8 {
    match kind {
        TrapKind::Spear => 1,
        TrapKind::FallingBlock => 3,
        TrapKind::Pit => 0,
    }
}

impl PendingTrapRoll {
    /// Combat dice printed on the trap: one for a spear, three for a falling
    /// block, none for a pit.
    pub fn dice_count(self) -> (dice: u8)
        ensures
            dice == spec_trap_dice(self.kind),
    {
        match self.kind {
            TrapKind::Spear => 1,
            TrapKind::FallingBlock => 3,
            TrapKind::Pit => 0,
        }
    }
}

#[derive(Clone, Copy, Debug, PartialEq, Eq, Structural)]
pub struct DisarmPlan {
    pub hero: UnitId,
    pub trap_index: usize,
    pub from: Pos,
    pub trap: Pos,
    pub direction: Direction,
    pub dwarf: bool,
}

#[derive(Clone, Copy, Debug, PartialEq, Eq, Structural)]
pub struct JumpPlan {
    pub hero: UnitId,
    pub trap_index: usize,
    pub from: Pos,
    pub trap: Pos,
    pub landing: Pos,
    pub direction: Direction,
}

/// Metal equipment a Rust spell can destroy.
#[derive(Clone, Copy, Debug, PartialEq, Eq, Structural)]
pub enum RustedEquipment {
    Sword(Weapon),
    Helmet,
}

pub open spec fn spec_rusted_item(item: RustedEquipment) -> ArmoryItem {
    match item {
        RustedEquipment::Sword(weapon) => ArmoryItem::Weapon(weapon),
        RustedEquipment::Helmet => ArmoryItem::Armor(Armor::Helmet),
    }
}

impl RustedEquipment {
    pub fn name(self) -> (name: &'static str)
        ensures
            name@ == match self {
                RustedEquipment::Sword(weapon) => equipment::spec_weapon_name(weapon),
                RustedEquipment::Helmet => "Helmet"@,
            },
    {
        match self {
            RustedEquipment::Sword(weapon) => weapon.name(),
            RustedEquipment::Helmet => "Helmet",
        }
    }

    /// The Armory price of the destroyed item.
    pub fn value(self) -> (gold: u16)
        ensures
            gold == equipment::spec_price(spec_rusted_item(self)),
    {
        let item = match self {
            RustedEquipment::Sword(weapon) => ArmoryItem::Weapon(weapon),
            RustedEquipment::Helmet => ArmoryItem::Armor(Armor::Helmet),
        };
        listing(item).gold
    }
}

#[derive(Clone, Copy, Debug, PartialEq, Eq, Structural)]
pub struct PendingTeleportRoll {
    pub subject: UnitId,
    pub forbidden_destination: Option<Pos>,
}

/// Why a requested action breaks the rules.
#[derive(Clone, Copy, Debug, PartialEq, Eq, Structural, Hash)]
pub enum RuleError {
    NotHeroTurn,
    AlreadyRolled,
    MovementNotRolled,
    NoMovement,
    MustFinishOccupiedMove,
    MovementEndedByAction,
    OutsideBoard,
    Blocked,
    Occupied,
    ClosedDoor,
    NoDoor,
    FalseDoor,
    AlreadyActed,
    NoHealingPotion,
    NoHeroicBrew,
    NoPotionOfStrength,
    NoPotionOfDefense,
    PotionAlreadyActive,
    NoPetrificationPotion,
    FullBody,
    EquipmentUnavailable,
    Incapacitated,
    StaleSpellResistance,
    StaleChaosSpellRoll,
    NoHeroSpell,
    SpellcastingUnavailable,
    InvalidHeroSpellTarget,
    StaleHeroSpellRoll,
    HeroSpellRollPending,
    AlreadyCarryingQuestItem,
    NoQuestItem,
    NotCarryingQuestItem,
    NoQuestItemRecipient,
    NoTarget,
    CarryingFoolsGold,
    StaleAttack,
    InvalidDice,
    TreasureOnlyInRoom,
    MonstersInRoom,
    AlreadySearchedRoom,
    TreasureForbidden,
    QuestConditionNotMet,
    EmptyTreasureDeck,
    VisibleMonster,
    RetreatRequiresStairs,
    NoSecretDoors,
    NoTraps,
    InvalidFallingBlockChoice,
    NoDisarmableTrap,
    ToolKitRequired,
    DisarmBeforeMoving,
    NoJumpableTrap,
    StaleJump,
    StaleTeleport,
    NotAtMine,
    AlreadyCarryingFoolsGold,
    NotCarryingFoolsGold,
    NoRingOfReturn,
    NoElixirOfLife,
    InvalidElixirTarget,
    SpellRingUnavailable,
    InvalidSpellRingSpell,
    CollapsingCeilingRollPending,
    StaleCollapsingCeilingRoll,
    TrapRollPending,
    StaleTrapRoll,
    HeroDeathDecisionPending,
    StaleHealingPotionRoll,
    InvalidHeroDeathChoice,
    PossessionPickupPending,
    InvalidPossessionRecipient,
    NoGiftRecipient,
    NoPotionToGive,
    InvalidGoldTransfer,
}

/// The sentence shown to the player for each refusal.
pub open spec fn spec_rule_error_message(error: RuleError) -> Seq<char> {
    match error {
        RuleError::NotHeroTurn => "it is not a hero turn"@,
        RuleError::AlreadyRolled => "movement dice have already been rolled"@,
        RuleError::MovementNotRolled => "roll the movement dice first"@,
        RuleError::NoMovement => "no movement remains"@,
        RuleError::MustFinishOccupiedMove => "a moving Hero may pass through that figure but may not finish on its square"@,
        RuleError::MovementEndedByAction => "movement cannot continue after acting midway through a move"@,
        RuleError::OutsideBoard => "that square is outside the board"@,
        RuleError::Blocked => "solid rock or a wall blocks that square"@,
        RuleError::Occupied => "another figure occupies that square"@,
        RuleError::ClosedDoor => "the door is closed; open it first"@,
        RuleError::NoDoor => "there is no closed door beside the active hero"@,
        RuleError::FalseDoor => "this is a false door and can never be opened"@,
        RuleError::AlreadyActed => "the active hero has already acted"@,
        RuleError::NoHealingPotion => "the active hero has no Potion of Healing"@,
        RuleError::NoHeroicBrew => "the active Hero has no Heroic Brew"@,
        RuleError::NoPotionOfStrength => "the active Hero has no Potion of Strength"@,
        RuleError::NoPotionOfDefense => "that Hero has no Potion of Defense"@,
        RuleError::PotionAlreadyActive => "that potion is already waiting to affect the next roll"@,
        RuleError::NoPetrificationPotion => "the active hero has no mysterious purple potion"@,
        RuleError::FullBody => "the active hero is already at full Body Points"@,
        RuleError::EquipmentUnavailable => "the active hero's equipment is still held by Zargon"@,
        RuleError::Incapacitated => "the active hero is incapacitated and cannot act"@,
        RuleError::StaleSpellResistance => "that spell-resistance roll no longer applies"@,
        RuleError::StaleChaosSpellRoll => "that immediate Chaos-spell roll no longer applies"@,
        RuleError::NoHeroSpell => "the active Hero does not possess that spell card"@,
        RuleError::SpellcastingUnavailable => "the active Hero cannot cast spells right now"@,
        RuleError::InvalidHeroSpellTarget => "that figure or door is not a legal target for this spell"@,
        RuleError::StaleHeroSpellRoll => "that Hero-spell dice roll no longer applies"@,
        RuleError::HeroSpellRollPending => "a spell roll must be resolved before play continues"@,
        RuleError::AlreadyCarryingQuestItem => "the active hero is already carrying a quest item"@,
        RuleError::NoQuestItem => "there is no unclaimed quest item here"@,
        RuleError::NotCarryingQuestItem => "the active hero is not carrying a quest item"@,
        RuleError::NoQuestItemRecipient => "there is no adjacent empty-handed Hero to receive the quest item"@,
        RuleError::NoTarget => "there is no adjacent monster to attack"@,
        RuleError::CarryingFoolsGold => "a Hero carrying the mine's gold cannot attack"@,
        RuleError::StaleAttack => "the attack request no longer matches the current turn"@,
        RuleError::InvalidDice => "wrong number or type of dice results"@,
        RuleError::TreasureOnlyInRoom => "treasure can only be searched for in a room"@,
        RuleError::MonstersInRoom => "a room containing a monster cannot be searched for treasure"@,
        RuleError::AlreadySearchedRoom => "this hero has already searched this room for treasure"@,
        RuleError::TreasureForbidden => "this room cannot be searched for treasure"@,
        RuleError::QuestConditionNotMet => "the quest condition for searching this room has not been met"@,
        RuleError::EmptyTreasureDeck => "the treasure deck is empty"@,
        RuleError::VisibleMonster => "a visible monster prevents that search"@,
        RuleError::RetreatRequiresStairs => "every surviving Hero must return to the stairway before ending the quest"@,
        RuleError::NoSecretDoors => "there are no secret doors in this room or corridor"@,
        RuleError::NoTraps => "there are no traps in this room or corridor"@,
        RuleError::InvalidFallingBlockChoice => "choose the empty square ahead of or behind the falling block"@,
        RuleError::NoDisarmableTrap => "there is no adjacent discovered unsprung trap to disarm"@,
        RuleError::ToolKitRequired => "only the Dwarf can disarm a trap without a Tool Kit"@,
        RuleError::DisarmBeforeMoving => "a trap must be disarmed before beginning movement"@,
        RuleError::NoJumpableTrap => "there is no jumpable trap and empty landing square in that direction"@,
        RuleError::StaleJump => "the jump request no longer matches the current move"@,
        RuleError::StaleTeleport => "the magical-door roll no longer applies"@,
        RuleError::NotAtMine => "the active Hero is not in the mine entrance"@,
        RuleError::AlreadyCarryingFoolsGold => "the active Hero is already carrying the mine's gold"@,
        RuleError::NotCarryingFoolsGold => "the active Hero is not carrying the mine's gold"@,
        RuleError::NoRingOfReturn => "the active Hero does not possess the Ring of Return"@,
        RuleError::NoElixirOfLife => "the active Hero does not possess an available Elixir of Life"@,
        RuleError::InvalidElixirTarget => "choose a dead Hero to revive with the Elixir of Life"@,
        RuleError::SpellRingUnavailable => "the active Elf or Wizard has no available undeclared Spell Ring"@,
        RuleError::InvalidSpellRingSpell => "that spell cannot be stored in the Spell Ring"@,
        RuleError::CollapsingCeilingRollPending => "wait for the collapsing-ceiling red die to settle"@,
        RuleError::StaleCollapsingCeilingRoll => "there is no matching collapsing-ceiling roll to resolve"@,
        RuleError::TrapRollPending => "wait for the trap's combat dice to settle"@,
        RuleError::StaleTrapRoll => "there is no matching trap roll to resolve"@,
        RuleError::HeroDeathDecisionPending => "a dying Hero's rescue choice must be resolved first"@,
        RuleError::StaleHealingPotionRoll => "that Hero is not awaiting a death-saving potion roll"@,
        RuleError::InvalidHeroDeathChoice => "that death-saving option is not available"@,
        RuleError::PossessionPickupPending => "choose which present Hero receives the fallen Hero's possessions"@,
        RuleError::InvalidPossessionRecipient => "that Hero cannot receive these possessions"@,
        RuleError::NoGiftRecipient => "there is no other living Hero to receive that gift"@,
        RuleError::NoPotionToGive => "the active Hero does not own that potion"@,
        RuleError::InvalidGoldTransfer => "the requested gold gift must be positive and no greater than the giver's gold"@,
    }
}

impl RuleError {
    /// The sentence shown to the player for this refusal.
    pub fn message(self) -> (text: &'static str)
        ensures
            text@ == spec_rule_error_message(self),
    {
        match self {
            RuleError::NotHeroTurn => "it is not a hero turn",
            RuleError::AlreadyRolled => "movement dice have already been rolled",
            RuleError::MovementNotRolled => "roll the movement dice first",
            RuleError::NoMovement => "no movement remains",
            RuleError::MustFinishOccupiedMove => "a moving Hero may pass through that figure but may not finish on its square",
            RuleError::MovementEndedByAction => "movement cannot continue after acting midway through a move",
            RuleError::OutsideBoard => "that square is outside the board",
            RuleError::Blocked => "solid rock or a wall blocks that square",
            RuleError::Occupied => "another figure occupies that square",
            RuleError::ClosedDoor => "the door is closed; open it first",
            RuleError::NoDoor => "there is no closed door beside the active hero",
            RuleError::FalseDoor => "this is a false door and can never be opened",
            RuleError::AlreadyActed => "the active hero has already acted",
            RuleError::NoHealingPotion => "the active hero has no Potion of Healing",
            RuleError::NoHeroicBrew => "the active Hero has no Heroic Brew",
            RuleError::NoPotionOfStrength => "the active Hero has no Potion of Strength",
            RuleError::NoPotionOfDefense => "that Hero has no Potion of Defense",
            RuleError::PotionAlreadyActive => "that potion is already waiting to affect the next roll",
            RuleError::NoPetrificationPotion => "the active hero has no mysterious purple potion",
            RuleError::FullBody => "the active hero is already at full Body Points",
            RuleError::EquipmentUnavailable => "the active hero's equipment is still held by Zargon",
            RuleError::Incapacitated => "the active hero is incapacitated and cannot act",
            RuleError::StaleSpellResistance => "that spell-resistance roll no longer applies",
            RuleError::StaleChaosSpellRoll => "that immediate Chaos-spell roll no longer applies",
            RuleError::NoHeroSpell => "the active Hero does not possess that spell card",
            RuleError::SpellcastingUnavailable => "the active Hero cannot cast spells right now",
            RuleError::InvalidHeroSpellTarget => "that figure or door is not a legal target for this spell",
            RuleError::StaleHeroSpellRoll => "that Hero-spell dice roll no longer applies",
            RuleError::HeroSpellRollPending => "a spell roll must be resolved before play continues",
            RuleError::AlreadyCarryingQuestItem => "the active hero is already carrying a quest item",
            RuleError::NoQuestItem => "there is no unclaimed quest item here",
            RuleError::NotCarryingQuestItem => "the active hero is not carrying a quest item",
            RuleError::NoQuestItemRecipient => "there is no adjacent empty-handed Hero to receive the quest item",
            RuleError::NoTarget => "there is no adjacent monster to attack",
            RuleError::CarryingFoolsGold => "a Hero carrying the mine's gold cannot attack",
            RuleError::StaleAttack => "the attack request no longer matches the current turn",
            RuleError::InvalidDice => "wrong number or type of dice results",
            RuleError::TreasureOnlyInRoom => "treasure can only be searched for in a room",
            RuleError::MonstersInRoom => "a room containing a monster cannot be searched for treasure",
            RuleError::AlreadySearchedRoom => "this hero has already searched this room for treasure",
            RuleError::TreasureForbidden => "this room cannot be searched for treasure",
            RuleError::QuestConditionNotMet => "the quest condition for searching this room has not been met",
            RuleError::EmptyTreasureDeck => "the treasure deck is empty",
            RuleError::VisibleMonster => "a visible monster prevents that search",
            RuleError::RetreatRequiresStairs => "every surviving Hero must return to the stairway before ending the quest",
            RuleError::NoSecretDoors => "there are no secret doors in this room or corridor",
            RuleError::NoTraps => "there are no traps in this room or corridor",
            RuleError::InvalidFallingBlockChoice => "choose the empty square ahead of or behind the falling block",
            RuleError::NoDisarmableTrap => "there is no adjacent discovered unsprung trap to disarm",
            RuleError::ToolKitRequired => "only the Dwarf can disarm a trap without a Tool Kit",
            RuleError::DisarmBeforeMoving => "a trap must be disarmed before beginning movement",
            RuleError::NoJumpableTrap => "there is no jumpable trap and empty landing square in that direction",
            RuleError::StaleJump => "the jump request no longer matches the current move",
            RuleError::StaleTeleport => "the magical-door roll no longer applies",
            RuleError::NotAtMine => "the active Hero is not in the mine entrance",
            RuleError::AlreadyCarryingFoolsGold => "the active Hero is already carrying the mine's gold",
            RuleError::NotCarryingFoolsGold => "the active Hero is not carrying the mine's gold",
            RuleError::NoRingOfReturn => "the active Hero does not possess the Ring of Return",
            RuleError::NoElixirOfLife => "the active Hero does not possess an available Elixir of Life",
            RuleError::InvalidElixirTarget => "choose a dead Hero to revive with the Elixir of Life",
            RuleError::SpellRingUnavailable => "the active Elf or Wizard has no available undeclared Spell Ring",
            RuleError::InvalidSpellRingSpell => "that spell cannot be stored in the Spell Ring",
            RuleError::CollapsingCeilingRollPending => "wait for the collapsing-ceiling red die to settle",
            RuleError::StaleCollapsingCeilingRoll => "there is no matching collapsing-ceiling roll to resolve",
            RuleError::TrapRollPending => "wait for the trap's combat dice to settle",
            RuleError::StaleTrapRoll => "there is no matching trap roll to resolve",
            RuleError::HeroDeathDecisionPending => "a dying Hero's rescue choice must be resolved first",
            RuleError::StaleHealingPotionRoll => "that Hero is not awaiting a death-saving potion roll",
            RuleError::InvalidHeroDeathChoice => "that death-saving option is not available",
            RuleError::PossessionPickupPending => "choose which present Hero receives the fallen Hero's possessions",
            RuleError::InvalidPossessionRecipient => "that Hero cannot receive these possessions",
            RuleError::NoGiftRecipient => "there is no other living Hero to receive that gift",
            RuleError::NoPotionToGive => "the active Hero does not own that potion",
            RuleError::InvalidGoldTransfer => "the requested gold gift must be positive and no greater than the giver's gold",
        }
    }
}
/// The number of miniatures of each monster in the original boxed game.
pub open spec fn spec_figure_count(kind: MonsterKind) -> usize {
    match kind {
        MonsterKind::Goblin => 6,
        MonsterKind::Orc => 8,
        MonsterKind::Fimir => 3,
        MonsterKind::Skeleton => 4,
        MonsterKind::Zombie => 2,
        MonsterKind::Mummy => 2,
        MonsterKind::ChaosWarrior => 4,
        MonsterKind::Gargoyle => 1,
        MonsterKind::ChaosSorcerer => 1,
    }
}

pub fn original_us_monster_figure_count(kind: MonsterKind) -> (count: usize)
    ensures
        count == spec_figure_count(kind),
{
    match kind {
        MonsterKind::Goblin => 6,
        MonsterKind::Orc => 8,
        MonsterKind::Fimir => 3,
        MonsterKind::Skeleton => 4,
        MonsterKind::Zombie => 2,
        MonsterKind::Mummy => 2,
        MonsterKind::ChaosWarrior => 4,
        MonsterKind::Gargoyle => 1,
        MonsterKind::ChaosSorcerer => 1,
    }
}

/// The three sculpts cast in the same plastic colour as `kind`, which may
/// stand in for one another when a colour's supply runs short.
pub open spec fn spec_same_color(kind: MonsterKind) -> Seq<MonsterKind> {
    match kind {
        MonsterKind::Orc | MonsterKind::Goblin | MonsterKind::Fimir => seq![
            MonsterKind::Orc,
            MonsterKind::Goblin,
            MonsterKind::Fimir,
        ],
        MonsterKind::Skeleton | MonsterKind::Zombie | MonsterKind::Mummy => seq![
            MonsterKind::Skeleton,
            MonsterKind::Zombie,
            MonsterKind::Mummy,
        ],
        MonsterKind::ChaosWarrior | MonsterKind::Gargoyle | MonsterKind::ChaosSorcerer => seq![
            MonsterKind::ChaosWarrior,
            MonsterKind::Gargoyle,
            MonsterKind::ChaosSorcerer,
        ],
    }
}

pub fn same_color_monster_figures(kind: MonsterKind) -> (group: [MonsterKind; 3])
    ensures
        group@ == spec_same_color(kind),
{
    match kind {
        MonsterKind::Orc | MonsterKind::Goblin | MonsterKind::Fimir => [
            MonsterKind::Orc,
            MonsterKind::Goblin,
            MonsterKind::Fimir,
        ],
        MonsterKind::Skeleton | MonsterKind::Zombie | MonsterKind::Mummy => [
            MonsterKind::Skeleton,
            MonsterKind::Zombie,
            MonsterKind::Mummy,
        ],
        MonsterKind::ChaosWarrior | MonsterKind::Gargoyle | MonsterKind::ChaosSorcerer => [
            MonsterKind::ChaosWarrior,
            MonsterKind::Gargoyle,
            MonsterKind::ChaosSorcerer,
        ],
    }
}

/// The colour group of `kind`: its name, its index and how many pieces the
/// whole group holds (the sum of its three figure counts).
pub open spec fn spec_figure_group(kind: MonsterKind) -> (Seq<char>, u8, usize) {
    match kind {
        MonsterKind::Orc | MonsterKind::Goblin | MonsterKind::Fimir => ("green"@, 0u8, 17usize),
        MonsterKind::Skeleton | MonsterKind::Zombie | MonsterKind::Mummy => (
            "undead"@,
            1u8,
            8usize,
        ),
        MonsterKind::ChaosWarrior | MonsterKind::Gargoyle | MonsterKind::ChaosSorcerer => (
            "gray"@,
            2u8,
            6usize,
        ),
    }
}

pub fn monster_figure_group(kind: MonsterKind) -> (group: (&'static str, u8, usize))
    ensures
        group.0@ == spec_figure_group(kind).0,
        group.1 == spec_figure_group(kind).1,
        group.2 == spec_figure_group(kind).2,
{
    match kind {
        MonsterKind::Orc | MonsterKind::Goblin | MonsterKind::Fimir => ("green", 0, 17),
        MonsterKind::Skeleton | MonsterKind::Zombie | MonsterKind::Mummy => ("undead", 1, 8),
        MonsterKind::ChaosWarrior | MonsterKind::Gargoyle | MonsterKind::ChaosSorcerer => (
            "gray",
            2,
            6,
        ),
    }
}

/// How many effects a bundle holds (none for any other note).
pub open spec fn bundle_len(effect: QuestEffectDef) -> int {
    match effect {
        QuestEffectDef::Bundle { effects } => effects.len() as int,
        _ => 0,
    }
}

/// Whether a quest note arms the furniture at `pos` with a disarmable trap,
/// directly or inside a bundle of effects.
pub open spec fn spec_declares_furniture_trap(effect: QuestEffectDef, pos: Pos) -> bool
    decreases effect, bundle_len(effect) + 1,
{
    match effect {
        QuestEffectDef::DamageUnlessTrapDisarmed { pos: trap_pos, .. } => trap_pos == pos,
        QuestEffectDef::AwakenGuardianUnlessTrapDisarmed { pos: trap_pos, .. } => trap_pos == pos,
        QuestEffectDef::Bundle { effects } => spec_bundle_declares_from(effect, 0, pos),
        _ => false,
    }
}

/// Some effect of the bundle, from position `start` on, arms the furniture
/// at `pos`.
pub open spec fn spec_bundle_declares_from(effect: QuestEffectDef, start: int, pos: Pos) -> bool
    decreases effect, bundle_len(effect) - start,
{
    match effect {
        QuestEffectDef::Bundle { effects } => if 0 <= start < effects.len() {
            proof {
                assert(decreases_to!(effect => effects));
                assert(decreases_to!(effects => effects[start]));
            }
            spec_declares_furniture_trap(effects[start], pos) || spec_bundle_declares_from(
                effect,
                start + 1,
                pos,
            )
        } else {
            false
        },
        _ => false,
    }
}

pub fn quest_effect_declares_furniture_trap(effect: &QuestEffectDef, pos: Pos) -> (declares:
    bool)
    ensures
        declares == spec_declares_furniture_trap(*effect, pos),
    decreases *effect,
{
    match effect {
        QuestEffectDef::DamageUnlessTrapDisarmed { pos: trap_pos, .. } => *trap_pos == pos,
        QuestEffectDef::AwakenGuardianUnlessTrapDisarmed { pos: trap_pos, .. } => *trap_pos == pos,
        QuestEffectDef::Bundle { effects } => {
            let mut i: usize = 0;
            while i < effects.len()
                invariant
                    *effect is Bundle,
                    *effects == (*effect)->effects,
                    0 <= i <= effects.len(),
                    spec_declares_furniture_trap(*effect, pos) == spec_bundle_declares_from(
                        *effect,
                        i as int,
                        pos,
                    ),
                decreases effects.len() - i,
            {
                proof {
                    let ghost whole: QuestEffectDef = *effect;
                    assert(decreases_to!(whole => whole->effects));
                    assert(decreases_to!(whole->effects => whole->effects[i as int]));
                }
                if quest_effect_declares_furniture_trap(&effects[i], pos) {
                    return true;
                }
                i = i + 1;
            }
            false
        },
        _ => false,
    }
}

pub open spec fn spec_model_slots(kind: MonsterKind) -> Seq<MonsterModelVariant> {
    match kind {
        MonsterKind::Orc => seq![
            MonsterModelVariant::OrcSword,
            MonsterModelVariant::OrcSword,
            MonsterModelVariant::OrcSword,
            MonsterModelVariant::OrcFlail,
            MonsterModelVariant::OrcFlail,
            MonsterModelVariant::OrcCleaver,
            MonsterModelVariant::OrcCleaver,
            MonsterModelVariant::OrcNotchedSword,
        ],
        MonsterKind::Goblin => seq![
            MonsterModelVariant::GoblinSword,
            MonsterModelVariant::GoblinSword,
            MonsterModelVariant::GoblinAxe,
            MonsterModelVariant::GoblinAxe,
            MonsterModelVariant::GoblinScimitar,
            MonsterModelVariant::GoblinScimitar,
        ],
        _ => Seq::empty(),
    }
}

/// The sculpt of each boxed Orc and Goblin piece; other monsters have a
/// single sculpt.
pub fn model_slots(kind: MonsterKind) -> (slots: Vec<MonsterModelVariant>)
    ensures
        slots@ == spec_model_slots(kind),
{
    match kind {
        MonsterKind::Orc => vec![
            MonsterModelVariant::OrcSword,
            MonsterModelVariant::OrcSword,
            MonsterModelVariant::OrcSword,
            MonsterModelVariant::OrcFlail,
            MonsterModelVariant::OrcFlail,
            MonsterModelVariant::OrcCleaver,
            MonsterModelVariant::OrcCleaver,
            MonsterModelVariant::OrcNotchedSword,
        ],
        MonsterKind::Goblin => vec![
            MonsterModelVariant::GoblinSword,
            MonsterModelVariant::GoblinSword,
            MonsterModelVariant::GoblinAxe,
            MonsterModelVariant::GoblinAxe,
            MonsterModelVariant::GoblinScimitar,
            MonsterModelVariant::GoblinScimitar,
        ],
        _ => Vec::new(),
    }
}

/// The boxed piece a sculpt is made from: Grak's staff is a converted
/// sword-Orc, not a piece of its own.
pub fn model_slot_class(variant: MonsterModelVariant) -> (class: MonsterModelVariant)
    ensures
        class == (if variant == MonsterModelVariant::OrcStaff {
            MonsterModelVariant::OrcSword
        } else {
            variant
        }),
{
    match variant {
        MonsterModelVariant::OrcStaff => MonsterModelVariant::OrcSword,
        other => other,
    }
}

/// Orthogonal step distance between two squares, saturating at `u8::MAX`.
pub open spec fn spec_manhattan(a: Pos, b: Pos) -> u8 {
    let d = model::axis_gap(a.x, b.x) + model::axis_gap(a.y, b.y);
    if d > u8::MAX {
        u8::MAX
    } else {
        d as u8
    }
}

pub fn manhattan(a: Pos, b: Pos) -> (distance: u8)
    ensures
        distance == spec_manhattan(a, b),
{
    let dx: u8 = if a.x >= b.x {
        a.x - b.x
    } else {
        b.x - a.x
    };
    let dy: u8 = if a.y >= b.y {
        a.y - b.y
    } else {
        b.y - a.y
    };
    dx.saturating_add(dy)
}

/// The square stored at a row-major board index.
pub open spec fn spec_pos_from_cell_index(index: usize) -> Pos {
    Pos { x: (index % (BOARD_WIDTH as usize)) as u8, y: (index / (BOARD_WIDTH as usize)) as u8 }
}

pub fn pos_from_cell_index(index: usize) -> (pos: Pos)
    ensures
        pos == spec_pos_from_cell_index(index),
{
    let width: usize = BOARD_WIDTH as usize;
    Pos::new((index % width) as u8, (index / width) as u8)
}

/// A figure in a pit rolls one die fewer, but never fewer than one.
pub open spec fn spec_pit_adjusted(base: u8, in_pit: bool) -> u8 {
    if in_pit {
        if base <= 2 {
            1
        } else {
            (base - 1) as u8
        }
    } else {
        base
    }
}

pub fn pit_adjusted_dice(base: u8, in_pit: bool) -> (dice: u8)
    ensures
        dice == spec_pit_adjusted(base, in_pit),
{
    if in_pit {
        let reduced = base.saturating_sub(1);
        if reduced < 1 {
            1
        } else {
            reduced
        }
    } else {
        base
    }
}

/// Takes one potion from a count, refusing when none is owned.
pub fn decrement_owned(count: &mut u8) -> (outcome: Result<(), RuleError>)
    ensures
        *old(count) == 0 ==> outcome == Err::<(), RuleError>(RuleError::NoPotionToGive),
        *old(count) == 0 ==> *final(count) == 0,
        *old(count) > 0 ==> outcome is Ok,
        *old(count) > 0 ==> *final(count) == *old(count) - 1,
{
    if *count == 0 {
        return Err(RuleError::NoPotionToGive);
    }
    *count = *count - 1;
    Ok(())
}

} // verus!
