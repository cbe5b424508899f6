//! Single, exactly described changes to one figure's record, out of which
//! the rules build every change they make to a figure. Each takes the
//! record and hands back the changed one.
use vstd::prelude::*;

use crate::model::{Faction, FigureKind, MonsterKind, Pos, Stats};
use crate::game::{
    Inventory, PotionKind, Unit, healing_drunk, potion_received, potion_taken, with_potion_count,
};

verus! {

/// The figure after sitting out a turn: a turn as stone passes first, else a
/// turn lost to Tempest.
#[verifier::opaque]
pub open spec fn turn_sat_out(unit: Unit) -> Unit {
    if unit.petrified_turns > 0 {
        Unit { petrified_turns: (unit.petrified_turns - 1) as u8, ..unit }
    } else {
        Unit { skip_turns: (unit.skip_turns - 1) as u8, ..unit }
    }
}


/// Sitting out a turn changes only the turns left as stone or to Tempest.
pub(crate) proof fn lemma_turn_sat_out_keeps(unit: Unit)
    ensures
        turn_sat_out(unit).id == unit.id,
        turn_sat_out(unit).pos == unit.pos,
        turn_sat_out(unit).alive == unit.alive,
        turn_sat_out(unit).escaped == unit.escaped,
        turn_sat_out(unit).figure == unit.figure,
        turn_sat_out(unit).physical_figure == unit.physical_figure,
        turn_sat_out(unit).faction == unit.faction,
        turn_sat_out(unit).dormant == unit.dormant,
        turn_sat_out(unit).hidden_until_activated == unit.hidden_until_activated,
        turn_sat_out(unit).courage == unit.courage,
        turn_sat_out(unit).carried_quest_item == unit.carried_quest_item,
{
    reveal(turn_sat_out);
}

/// Each turn a figure sits out takes exactly one turn off what it still
/// has to sit out, the turns as stone going first.
pub proof fn lemma_sitting_out_counts_down(unit: Unit)
    requires
        unit.petrified_turns > 0 || unit.skip_turns > 0,
    ensures
        turn_sat_out(unit).petrified_turns + turn_sat_out(unit).skip_turns == unit.petrified_turns
            + unit.skip_turns - 1,
        unit.petrified_turns > 0 ==> turn_sat_out(unit).skip_turns == unit.skip_turns,
{
    reveal(turn_sat_out);
}

fn inventory_with_count(inv: Inventory, kind: PotionKind, count: u8) -> (out: Inventory)
    ensures
        out == with_potion_count(inv, kind, count),
{
    match kind {
        PotionKind::HeroicBrew => Inventory { heroic_brew: count, ..inv },
        PotionKind::Defense => Inventory { potion_of_defense: count, ..inv },
        PotionKind::Healing => Inventory { potion_of_healing: count, ..inv },
        PotionKind::Strength => Inventory { potion_of_strength: count, ..inv },
        PotionKind::Petrification => Inventory { petrification_potion: count, ..inv },
    }
}

fn count_of(inv: &Inventory, kind: PotionKind) -> (count: u8)
    ensures
        count == crate::game::potion_count(*inv, kind),
{
    match kind {
        PotionKind::HeroicBrew => inv.heroic_brew,
        PotionKind::Defense => inv.potion_of_defense,
        PotionKind::Healing => inv.potion_of_healing,
        PotionKind::Strength => inv.potion_of_strength,
        PotionKind::Petrification => inv.petrification_potion,
    }
}

/// The blank record: a fallen nameless Goblin with no id, no square of its
/// own, no characteristics and nothing carried or cast.
#[verifier::opaque]
pub open spec fn is_vacant(unit: Unit) -> bool {
    &&& unit.id == 0
    &&& unit.name@.len() == 0
    &&& unit.figure == FigureKind::Monster(MonsterKind::Goblin)
    &&& unit.physical_figure is None
    &&& unit.faction == Faction::Monster
    &&& unit.model_variant is None
    &&& unit.pos == (Pos { x: 0, y: 0 })
    &&& unit.stats == (Stats { movement: 0, attack: 0, defend: 0, body: 0, mind: 0 })
    &&& unit.body == 0
    &&& !unit.alive
    &&& !unit.in_pit
    &&& crate::game::is_empty_inventory(unit.inventory)
    &&& unit.carried_quest_item is None
    &&& !unit.dormant
    &&& !unit.invulnerable_until_acts
    &&& !unit.equipment_available
    &&& !unit.spellcasting_available
    &&& !unit.escaped
    &&& unit.chaos_spells@.len() == 0
    &&& unit.discarded_chaos_spells@.len() == 0
    &&& unit.hero_spells@.len() == 0
    &&& unit.discarded_hero_spells@.len() == 0
    &&& unit.spell_ring_spell is None
    &&& unit.spell_ring_casts_left == 0
    &&& unit.escape_target is None
    &&& !unit.immune_to_fire_spells
    &&& !unit.fearful
    &&& !unit.sleeping
    &&& !unit.clouded
    &&& unit.hero_sleep_caster is None
    &&& unit.skip_turns == 0
    &&& unit.petrified_turns == 0
    &&& !unit.diagonal_attack
    &&& !unit.hidden_until_activated
    &&& !unit.immune_except_spirit_blade
    &&& !unit.champion
    &&& !unit.commanded
    &&& !unit.swift_wind
    &&& !unit.courage
    &&& !unit.rock_skin
    &&& !unit.pass_through_rock
    &&& !unit.veil_of_mist
    &&& unit.potion_defense_bonus == 0
}

impl Unit {
    /// A blank record that briefly holds a figure's place while the figure
    /// itself is changed.
    pub(crate) fn vacant() -> (unit: Unit)
        ensures
            is_vacant(unit),
    {
        proof {
            reveal(is_vacant);
        }
        Unit {
            id: 0,
            name: String::new(),
            figure: FigureKind::Monster(MonsterKind::Goblin),
            physical_figure: None,
            faction: Faction::Monster,
            model_variant: None,
            pos: Pos { x: 0, y: 0 },
            stats: Stats { movement: 0, attack: 0, defend: 0, body: 0, mind: 0 },
            body: 0,
            alive: false,
            in_pit: false,
            inventory: Inventory::default(),
            carried_quest_item: None,
            dormant: false,
            invulnerable_until_acts: false,
            equipment_available: false,
            spellcasting_available: false,
            escaped: false,
            chaos_spells: Vec::new(),
            discarded_chaos_spells: Vec::new(),
            hero_spells: Vec::new(),
            discarded_hero_spells: Vec::new(),
            spell_ring_spell: None,
            spell_ring_casts_left: 0,
            escape_target: None,
            immune_to_fire_spells: false,
            fearful: false,
            sleeping: false,
            clouded: false,
            hero_sleep_caster: None,
            skip_turns: 0,
            petrified_turns: 0,
            diagonal_attack: false,
            hidden_until_activated: false,
            immune_except_spirit_blade: false,
            champion: false,
            commanded: false,
            swift_wind: false,
            courage: false,
            rock_skin: false,
            pass_through_rock: false,
            veil_of_mist: false,
            potion_defense_bonus: 0,
        }
    }

    pub(crate) fn drink_healing(self, restored: Option<u8>) -> (unit: Unit)
        requires
            self.inventory.potion_of_healing > 0,
            restored matches Some(amount) ==> self.body + amount <= i16::MAX,
        ensures
            healing_drunk(self, unit, restored),
    {
        let (body, alive) = match restored {
            Some(amount) => (self.body + amount as i16, self.body + amount as i16 > 0),
            None => (self.body, self.alive),
        };
        let potions = self.inventory.potion_of_healing - 1;
        let mut strengths = self.inventory.healing_potion_strengths;
        strengths.pop();
        Unit {
            body,
            alive,
            inventory: Inventory {
                potion_of_healing: potions,
                healing_potion_strengths: strengths,
                ..self.inventory
            },
            ..self
        }
    }

    pub(crate) fn take_potion(self, kind: PotionKind) -> (unit: Unit)
        ensures
            potion_taken(self, unit, kind),
    {
        let count = count_of(&self.inventory, kind);
        let remaining: u8 = if count > 0 {
            count - 1
        } else {
            0
        };
        let mut strengths = self.inventory.healing_potion_strengths;
        if kind == PotionKind::Healing {
            strengths.pop();
        }
        let inventory = Inventory { healing_potion_strengths: strengths, ..self.inventory };
        Unit { inventory: inventory_with_count(inventory, kind, remaining), ..self }
    }

    pub(crate) fn receive_potion(self, kind: PotionKind, strength: u8) -> (unit: Unit)
        ensures
            potion_received(self, unit, kind, strength),
    {
        let count = count_of(&self.inventory, kind);
        let held: u8 = if count < u8::MAX {
            count + 1
        } else {
            u8::MAX
        };
        let mut strengths = self.inventory.healing_potion_strengths;
        if kind == PotionKind::Healing {
            strengths.push(strength);
        }
        let inventory = Inventory { healing_potion_strengths: strengths, ..self.inventory };
        Unit { inventory: inventory_with_count(inventory, kind, held), ..self }
    }

    /// Heals `restored` body points; the figure lives while its body is
    /// positive.
    pub(crate) fn heal(self, restored: u8) -> (unit: Unit)
        requires
            self.body + restored <= i16::MAX,
        ensures
            unit == (Unit {
                body: (self.body + restored) as i16,
                alive: self.body + restored > 0,
                ..self
            }),
    {
        let body = self.body + restored as i16;
        Unit { body, alive: body > 0, ..self }
    }

    /// Drinks the purple liquid: one fewer, and five turns as stone.
    pub(crate) fn turn_to_stone(self) -> (unit: Unit)
        requires
            self.inventory.petrification_potion > 0,
        ensures
            unit == (Unit {
                inventory: Inventory {
                    petrification_potion: (self.inventory.petrification_potion - 1) as u8,
                    ..self.inventory
                },
                petrified_turns: 5,
                ..self
            }),
    {
        let remaining = self.inventory.petrification_potion - 1;
        Unit {
            inventory: Inventory { petrification_potion: remaining, ..self.inventory },
            petrified_turns: 5,
            ..self
        }
    }

    /// Drinks a Potion of Defense: one fewer, and two more dice for the next
    /// defense (held at 255).
    pub(crate) fn drink_defense(self) -> (unit: Unit)
        requires
            self.inventory.potion_of_defense > 0,
        ensures
            unit == (Unit {
                inventory: Inventory {
                    potion_of_defense: (self.inventory.potion_of_defense - 1) as u8,
                    ..self.inventory
                },
                potion_defense_bonus: if self.potion_defense_bonus + 2 > u8::MAX {
                    u8::MAX
                } else {
                    (self.potion_defense_bonus + 2) as u8
                },
                ..self
            }),
    {
        let remaining = self.inventory.potion_of_defense - 1;
        let bonus = self.potion_defense_bonus.saturating_add(2);
        Unit {
            inventory: Inventory { potion_of_defense: remaining, ..self.inventory },
            potion_defense_bonus: bonus,
            ..self
        }
    }

    pub(crate) fn set_fools_gold(self, amount: u16) -> (unit: Unit)
        ensures
            unit == (Unit { inventory: Inventory { fools_gold: amount, ..self.inventory }, ..self }),
    {
        Unit { inventory: Inventory { fools_gold: amount, ..self.inventory }, ..self }
    }

    pub(crate) fn set_gold(self, gold: u16) -> (unit: Unit)
        ensures
            unit == (Unit { inventory: Inventory { gold, ..self.inventory }, ..self }),
    {
        Unit { inventory: Inventory { gold, ..self.inventory }, ..self }
    }

    pub(crate) fn mark_escaped(self) -> (unit: Unit)
        ensures
            unit == (Unit { escaped: true, ..self }),
    {
        Unit { escaped: true, ..self }
    }

    /// The figure's possessions are taken from it; they are returned with the
    /// figure left holding nothing.
    pub(crate) fn give_up_possessions(self) -> (result: (Unit, Inventory))
        ensures
            result.0 == (Unit { inventory: result.0.inventory, ..self }),
            crate::game::is_empty_inventory(result.0.inventory),
            result.1 == self.inventory,
    {
        let possessions = self.inventory;
        (Unit { inventory: Inventory::default(), ..self }, possessions)
    }

    pub(crate) fn with_inventory(self, inventory: Inventory) -> (unit: Unit)
        ensures
            unit == (Unit { inventory, ..self }),
    {
        Unit { inventory, ..self }
    }

    pub(crate) fn with_life(self, body: i16, alive: bool) -> (unit: Unit)
        ensures
            unit == (Unit { body, alive, ..self }),
    {
        Unit { body, alive, ..self }
    }

    /// The figure loses `damage` Body Points, never going below none; any
    /// damage breaks Rock Skin.
    pub(crate) fn take_damage(self, damage: u8) -> (unit: Unit)
        ensures
            unit == (Unit {
                body: if self.body - damage < 0 {
                    0
                } else {
                    (self.body - damage) as i16
                },
                rock_skin: self.rock_skin && damage == 0,
                ..self
            }),
    {
        let lowered: i32 = self.body as i32 - damage as i32;
        let body: i16 = if lowered < 0 {
            0
        } else {
            lowered as i16
        };
        let rock_skin = self.rock_skin && damage == 0;
        Unit { body, rock_skin, ..self }
    }

    /// The figure casts the healing spell card at `card` to survive: the card
    /// is discarded and the figure stands with `body` Body Points.
    pub(crate) fn cast_saving_spell(self, card: usize, body: i16, alive: bool) -> (unit: Unit)
        requires
            card < self.hero_spells@.len(),
        ensures
            unit == (Unit {
                hero_spells: unit.hero_spells,
                discarded_hero_spells: unit.discarded_hero_spells,
                body,
                alive,
                ..self
            }),
            unit.hero_spells@ == self.hero_spells@.remove(card as int),
            unit.discarded_hero_spells@ == self.discarded_hero_spells@.push(
                self.hero_spells@[card as int],
            ),
    {
        let mut spells = self.hero_spells;
        let spell = spells.remove(card);
        let mut discarded = self.discarded_hero_spells;
        discarded.push(spell);
        Unit { hero_spells: spells, discarded_hero_spells: discarded, body, alive, ..self }
    }

    pub(crate) fn with_spell_ring(self, spell: Option<crate::cards::HeroSpell>, casts: u8) -> (unit: Unit)
        ensures
            unit == (Unit { spell_ring_spell: spell, spell_ring_casts_left: casts, ..self }),
    {
        Unit { spell_ring_spell: spell, spell_ring_casts_left: casts, ..self }
    }

    pub(crate) fn take_item(self, item: usize) -> (unit: Unit)
        ensures
            unit == (Unit { carried_quest_item: Some(item), ..self }),
    {
        Unit { carried_quest_item: Some(item), ..self }
    }

    pub(crate) fn put_down_item(self) -> (unit: Unit)
        ensures
            unit == (Unit { carried_quest_item: None, ..self }),
    {
        Unit { carried_quest_item: None, ..self }
    }

    pub(crate) fn with_movement_spells(self, pass_through_rock: bool, veil_of_mist: bool) -> (unit: Unit)
        ensures
            unit == (Unit { pass_through_rock, veil_of_mist, ..self }),
    {
        Unit { pass_through_rock, veil_of_mist, ..self }
    }

    pub(crate) fn fall(self) -> (unit: Unit)
        ensures
            unit == (Unit { body: 0, alive: false, ..self }),
    {
        Unit { body: 0, alive: false, ..self }
    }

    pub(crate) fn with_courage(self, courage: bool) -> (unit: Unit)
        ensures
            unit == (Unit { courage, ..self }),
    {
        Unit { courage, ..self }
    }

    pub(crate) fn crown_champion(self) -> (unit: Unit)
        ensures
            unit == (Unit { champion: true, ..self }),
    {
        Unit { champion: true, ..self }
    }

    pub(crate) fn sit_out(self) -> (unit: Unit)
        requires
            self.petrified_turns > 0 || self.skip_turns > 0,
        ensures
            unit == turn_sat_out(self),
    {
        proof {
            reveal(turn_sat_out);
        }
        if self.petrified_turns > 0 {
            let turns = self.petrified_turns - 1;
            Unit { petrified_turns: turns, ..self }
        } else {
            let turns = self.skip_turns - 1;
            Unit { skip_turns: turns, ..self }
        }
    }
}

} // verus!
