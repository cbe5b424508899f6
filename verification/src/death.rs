//! A hero at zero Body Points: the rescue choices, death, and what becomes
//! of the fallen hero's possessions.
use vstd::prelude::*;

use crate::cards::{Artifact, HeroSpell, spec_spell_name};
use crate::potions::healing_text;
use crate::status::{decimal_string, decimal_text};
use crate::engine::{
    Game, has_unit_id, lemma_slot_of, lemma_wf_ids, logged_one_line, spec_cell_index, spec_in_bounds,
    unit_slot,
};
use crate::model::{Faction, FigureKind};
use crate::turns::{acted_with, fallen_figure, item_put_down, lemma_fallen_keeps};
use crate::game::{
    Cell, CombatVisualEvent, GamePhase, HealingPotionUse, HeroDeathChoice, HeroTurnState, Inventory,
    PendingHeroDeath, PendingPossessionPickup, healing_drunk,
    RuleError, Unit, UnitId, contains_artifact, contains_unit_id, is_empty_inventory,
};

verus! {

/// Whether `spell` is among `spells`.
pub fn contains_hero_spell(spells: &Vec<HeroSpell>, spell: HeroSpell) -> (found: bool)
    ensures
        found == spells@.contains(spell),
{
    let mut i: usize = 0;
    while i < spells.len()
        invariant
            i <= spells.len(),
            forall|j: int| 0 <= j < i ==> spells@[j] != spell,
        decreases spells.len() - i,
    {
        if spells[i] == spell {
            return true;
        }
        i = i + 1;
    }
    false
}

/// What `inventory` holds after `loot` is added to it: every count grows
/// by the loot's, stopping at the largest count it can hold, and the loot's
/// potions, artifacts, weapons and armour follow its own; what is worn or
/// wielded stays.
pub open spec fn with_loot(inventory: Inventory, loot: Inventory, after: Inventory) -> bool {
    &&& after.gold == inventory.gold.saturating_add(loot.gold)
    &&& after.fools_gold == inventory.fools_gold.saturating_add(loot.fools_gold)
    &&& after.heroic_brew == inventory.heroic_brew.saturating_add(loot.heroic_brew)
    &&& after.potion_of_defense == inventory.potion_of_defense.saturating_add(loot.potion_of_defense)
    &&& after.potion_of_healing == inventory.potion_of_healing.saturating_add(loot.potion_of_healing)
    &&& after.potion_of_strength == inventory.potion_of_strength.saturating_add(
        loot.potion_of_strength,
    )
    &&& after.petrification_potion == inventory.petrification_potion.saturating_add(
        loot.petrification_potion,
    )
    &&& after.tool_kits == inventory.tool_kits.saturating_add(loot.tool_kits)
    &&& after.healing_potion_strengths@ == inventory.healing_potion_strengths@
        + loot.healing_potion_strengths@
    &&& after.artifacts@ == inventory.artifacts@ + loot.artifacts@
    &&& after.weapons@ == inventory.weapons@ + loot.weapons@
    &&& after.armor@ == inventory.armor@ + loot.armor@
    &&& after.equipped_weapon == inventory.equipped_weapon
    &&& after.equipped_body_armor == inventory.equipped_body_armor
}

fn add_loot(inventory: Inventory, loot: Inventory) -> (after: Inventory)
    ensures
        with_loot(inventory, loot, after),
{
    let Inventory {
        gold,
        fools_gold,
        heroic_brew,
        potion_of_defense,
        potion_of_healing,
        healing_potion_strengths,
        potion_of_strength,
        petrification_potion,
        tool_kits,
        artifacts,
        weapons,
        equipped_weapon,
        armor,
        equipped_body_armor,
    } = inventory;
    let Inventory {
        gold: loot_gold,
        fools_gold: loot_fools_gold,
        heroic_brew: loot_heroic_brew,
        potion_of_defense: loot_potion_of_defense,
        potion_of_healing: loot_potion_of_healing,
        healing_potion_strengths: loot_strengths,
        potion_of_strength: loot_potion_of_strength,
        petrification_potion: loot_petrification_potion,
        tool_kits: loot_tool_kits,
        artifacts: loot_artifacts,
        weapons: loot_weapons,
        armor: loot_armor,
        ..
    } = loot;
    let mut strengths = healing_potion_strengths;
    let mut more_strengths = loot_strengths;
    strengths.append(&mut more_strengths);
    let mut all_artifacts = artifacts;
    let mut more_artifacts = loot_artifacts;
    all_artifacts.append(&mut more_artifacts);
    let mut all_weapons = weapons;
    let mut more_weapons = loot_weapons;
    all_weapons.append(&mut more_weapons);
    let mut all_armor = armor;
    let mut more_armor = loot_armor;
    all_armor.append(&mut more_armor);
    Inventory {
        gold: gold.saturating_add(loot_gold),
        fools_gold: fools_gold.saturating_add(loot_fools_gold),
        heroic_brew: heroic_brew.saturating_add(loot_heroic_brew),
        potion_of_defense: potion_of_defense.saturating_add(loot_potion_of_defense),
        potion_of_healing: potion_of_healing.saturating_add(loot_potion_of_healing),
        healing_potion_strengths: strengths,
        potion_of_strength: potion_of_strength.saturating_add(loot_potion_of_strength),
        petrification_potion: petrification_potion.saturating_add(loot_petrification_potion),
        tool_kits: tool_kits.saturating_add(loot_tool_kits),
        artifacts: all_artifacts,
        weapons: all_weapons,
        equipped_weapon,
        armor: all_armor,
        equipped_body_armor,
    }
}

impl Game {
    /// A hero at zero Body Points may be saved by a healing spell: it can
    /// still cast, and either it is the active hero who has not yet acted,
    /// or it is the game master's turn and the hero did not act this round.
    pub open spec fn spell_save_allowed(self, hero: Unit) -> bool {
        &&& hero.spellcasting_available
        &&& match self.phase {
            GamePhase::HeroTurn { .. } => self.spec_active_hero_id() == Some(hero.id)
                && !self.hero_turn.action_used,
            GamePhase::ZargonTurn => !self.heroes_acted_this_round@.contains(hero.id),
            _ => false,
        }
    }

    /// The choices offered to a hero at zero Body Points, in order: a
    /// Potion of Healing it can use, the healing spells it may cast, and
    /// death. Nothing is offered while no hero waits for the choice, while
    /// its potion roll is awaited, or when the hero is not on the board.
    pub open spec fn spec_death_choices(self) -> Seq<HeroDeathChoice> {
        match self.pending_hero_death {
            None => Seq::empty(),
            Some(pending) => if pending.potion_roll_pending {
                Seq::empty()
            } else {
                match self.spec_unit(pending.hero) {
                    None => Seq::empty(),
                    Some(hero) => {
                        let potion = if hero.equipment_available && hero.inventory.potion_of_healing
                            > 0 {
                            seq![HeroDeathChoice::HealingPotion]
                        } else {
                            Seq::empty()
                        };
                        let heal_body = if self.spell_save_allowed(hero)
                            && hero.hero_spells@.contains(HeroSpell::HealBody) {
                            seq![HeroDeathChoice::HealBody]
                        } else {
                            Seq::empty()
                        };
                        let water = if self.spell_save_allowed(hero) && hero.hero_spells@.contains(
                            HeroSpell::WaterOfHealing,
                        ) {
                            seq![HeroDeathChoice::WaterOfHealing]
                        } else {
                            Seq::empty()
                        };
                        potion + heal_body + water + seq![HeroDeathChoice::AcceptDeath]
                    },
                }
            },
        }
    }

    /// The choices offered to the hero waiting at zero Body Points.
    pub fn pending_hero_death_choices(&self) -> (choices: Vec<HeroDeathChoice>)
        requires
            self.wf(),
        ensures
            choices@ == self.spec_death_choices(),
    {
        let pending = match self.pending_hero_death {
            Some(pending) => pending,
            None => return Vec::new(),
        };
        if pending.potion_roll_pending {
            return Vec::new();
        }
        let hero = match self.unit(pending.hero) {
            Some(hero) => hero,
            None => return Vec::new(),
        };
        let mut choices: Vec<HeroDeathChoice> = Vec::new();
        if hero.equipment_available && hero.inventory.potion_of_healing > 0 {
            choices.push(HeroDeathChoice::HealingPotion);
        }
        let spell_save_allowed = hero.spellcasting_available && match self.phase {
            GamePhase::HeroTurn { .. } => match self.active_hero_id() {
                Some(id) => id == hero.id && !self.hero_turn.action_used,
                None => false,
            },
            GamePhase::ZargonTurn => !contains_unit_id(&self.heroes_acted_this_round, hero.id),
            _ => false,
        };
        let ghost potion_part = choices@;
        if spell_save_allowed && contains_hero_spell(&hero.hero_spells, HeroSpell::HealBody) {
            choices.push(HeroDeathChoice::HealBody);
        }
        let ghost heal_part = choices@;
        if spell_save_allowed && contains_hero_spell(&hero.hero_spells, HeroSpell::WaterOfHealing) {
            choices.push(HeroDeathChoice::WaterOfHealing);
        }
        choices.push(HeroDeathChoice::AcceptDeath);
        choices
    }
}

impl Game {
    fn set_pending_possession_pickup(&mut self, pending: Option<PendingPossessionPickup>)
        requires
            old(self).wf(),
        ensures
            final(self).wf(),
            *final(self) == (Game { pending_possession_pickup: pending, ..*old(self) }),
    {
        reveal(Game::wf);
        self.pending_possession_pickup = pending;
    }

    /// Everything the figure at `from` owns goes to the figure at `to`.
    #[verifier::spinoff_prover]
    #[verifier::rlimit(30)]
    fn pass_possessions(&mut self, from: usize, to: usize)
        requires
            old(self).wf(),
            from < old(self).units@.len(),
            to < old(self).units@.len(),
        ensures
            final(self).wf(),
            final(self).units@.len() == old(self).units@.len(),
            forall|j: int|
                0 <= j < old(self).units@.len() && j != from && j != to
                    ==> #[trigger] final(self).units@[j] == old(self).units@[j],
            final(self).units@[to as int] == (Unit {
                inventory: final(self).units@[to as int].inventory,
                ..old(self).units@[to as int]
            }),
            from != to ==> {
                &&& final(self).units@[from as int] == (Unit {
                    inventory: final(self).units@[from as int].inventory,
                    ..old(self).units@[from as int]
                })
                &&& is_empty_inventory(final(self).units@[from as int].inventory)
                &&& with_loot(
                    old(self).units@[to as int].inventory,
                    old(self).units@[from as int].inventory,
                    final(self).units@[to as int].inventory,
                )
            },
            from == to ==> exists|emptied: Inventory|
                is_empty_inventory(emptied) && #[trigger] with_loot(
                    emptied,
                    old(self).units@[from as int].inventory,
                    final(self).units@[to as int].inventory,
                ),
            *final(self) == (Game { units: final(self).units, ..*old(self) }),
    {
        let ghost start = *self;
        let loot = self.unit_give_up_possessions(from);
        let held = self.unit_give_up_possessions(to);
        let ghost emptied = held;
        let gathered = add_loot(held, loot);
        self.unit_set_inventory(to, gathered);
        proof {
            if from == to {
                assert(is_empty_inventory(emptied));
                assert(with_loot(emptied, start.units@[from as int].inventory, self.units@[to as int].inventory));
            }
        }
    }

    /// Why `recipient` cannot take up the fallen hero's possessions, if it
    /// cannot.
    pub open spec fn possession_refusal(self, recipient: UnitId) -> Option<RuleError> {
        match self.pending_possession_pickup {
            None => Some(RuleError::InvalidPossessionRecipient),
            Some(pending) => if !pending.eligible_heroes@.contains(recipient) || !has_unit_id(
                self.units@,
                pending.dead_hero,
            ) || !has_unit_id(self.units@, recipient) {
                Some(RuleError::InvalidPossessionRecipient)
            } else {
                None
            },
        }
    }

    /// The chosen hero beside the fallen one takes up everything it owned.
    pub fn choose_possession_recipient(&mut self, recipient: UnitId) -> (result: Result<(), RuleError>)
        requires
            old(self).wf(),
        ensures
            final(self).wf(),
            match result {
                Err(e) => old(self).possession_refusal(recipient) == Some(e) && *final(self)
                    == *old(self),
                Ok(()) => old(self).possession_refusal(recipient) is None && {
                    let dead_id = old(self).pending_possession_pickup->Some_0.dead_hero;
                    let d = unit_slot(old(self).units@, dead_id);
                    let r = unit_slot(old(self).units@, recipient);
                    let dead = old(self).units@[d];
                    let receiver = old(self).units@[r];
                    let loot = dead.inventory;
                    &&& final(self).units@.len() == old(self).units@.len()
                    &&& forall|j: int|
                        0 <= j < old(self).units@.len() && j != d && j != r
                            ==> #[trigger] final(self).units@[j] == old(self).units@[j]
                    &&& final(self).units@[r] == (Unit {
                        inventory: final(self).units@[r].inventory,
                        ..receiver
                    })
                    &&& d != r ==> {
                        &&& final(self).units@[d] == (Unit {
                            inventory: final(self).units@[d].inventory,
                            ..dead
                        })
                        &&& is_empty_inventory(final(self).units@[d].inventory)
                        &&& with_loot(receiver.inventory, loot, final(self).units@[r].inventory)
                    }
                    &&& d == r ==> exists|emptied: Inventory|
                        is_empty_inventory(emptied) && #[trigger] with_loot(
                            emptied,
                            loot,
                            final(self).units@[r].inventory,
                        )
                    &&& final(self).pending_possession_pickup is None
                    &&& logged_one_line(old(self).log@, final(self).log@)
                    &&& final(self).log@.last()@ == receiver.name@ + " picked up "@ + dead.name@
                        + "'s weapons, armor, artifacts, gold, and potions."@
                    &&& *final(self) == (Game {
                        units: final(self).units,
                        pending_possession_pickup: final(self).pending_possession_pickup,
                        log: final(self).log,
                        ..*old(self)
                    })
                },
            },
    {
        let (dead_hero, eligible) = match &self.pending_possession_pickup {
            Some(pending) => (pending.dead_hero, contains_unit_id(&pending.eligible_heroes, recipient)),
            None => return Err(RuleError::InvalidPossessionRecipient),
        };
        if !eligible {
            return Err(RuleError::InvalidPossessionRecipient);
        }
        proof {
            lemma_wf_ids(*self);
        }
        let dead_index = match self.unit_index(dead_hero) {
            Some(index) => index,
            None => return Err(RuleError::InvalidPossessionRecipient),
        };
        let recipient_index = match self.unit_index(recipient) {
            Some(index) => index,
            None => return Err(RuleError::InvalidPossessionRecipient),
        };
        proof {
            lemma_slot_of(self.units@, dead_hero, dead_index as int);
            lemma_slot_of(self.units@, recipient, recipient_index as int);
        }
        self.pass_possessions(dead_index, recipient_index);
        let mut message = self.units[recipient_index].name.clone();
        message.append(" picked up ");
        message.append(self.units[dead_index].name.as_str());
        message.append("'s weapons, armor, artifacts, gold, and potions.");
        self.set_pending_possession_pickup(None);
        self.push_log(message);
        Ok(())
    }
}

/// A figure with Body Points left counts as alive.
#[verifier::opaque]
pub open spec fn still_standing(unit: Unit) -> Unit {
    Unit { alive: true, ..unit }
}

/// `unit` stands in the room or corridor section `region`.
pub open spec fn stands_in(cells: Seq<Cell>, region: i16, unit: Unit) -> bool {
    cells[spec_cell_index(unit.pos)].region == region
}

/// `unit` may take up the possessions of the fallen hero `hero_id`: a
/// living hero still in the dungeon, in the same room.
pub open spec fn is_heir(cells: Seq<Cell>, hero_id: UnitId, region: i16, unit: Unit) -> bool {
    &&& unit.id != hero_id
    &&& unit.alive
    &&& !unit.escaped
    &&& unit.faction == Faction::Hero
    &&& stands_in(cells, region, unit)
}

/// The ids, in order, of the first `n` figures that may take up the fallen
/// hero's possessions.
pub open spec fn heirs_upto(units: Seq<Unit>, cells: Seq<Cell>, hero_id: UnitId, region: i16, n: nat) -> Seq<
    UnitId,
>
    decreases n,
{
    if n == 0 {
        Seq::empty()
    } else {
        let earlier = heirs_upto(units, cells, hero_id, region, (n - 1) as nat);
        if is_heir(cells, hero_id, region, units[n - 1]) {
            earlier.push(units[n - 1].id)
        } else {
            earlier
        }
    }
}

/// `unit` can claim a fallen hero's possessions: a living, wakeful monster
/// in the same room.
pub open spec fn is_claimant(cells: Seq<Cell>, region: i16, unit: Unit) -> bool {
    &&& unit.alive
    &&& !unit.dormant
    &&& unit.faction == Faction::Monster
    &&& stands_in(cells, region, unit)
}

/// Some figure of `units` can claim the fallen hero's possessions.
pub open spec fn has_claimant(units: Seq<Unit>, cells: Seq<Cell>, region: i16) -> bool {
    exists|i: int| 0 <= i < units.len() && is_claimant(cells, region, #[trigger] units[i])
}

/// The artifacts monsters have stolen once `taken` are added, each once.
pub open spec fn stolen_after(stolen: Seq<Artifact>, taken: Seq<Artifact>) -> Seq<Artifact>
    decreases taken.len(),
{
    if taken.len() == 0 {
        stolen
    } else {
        let earlier = stolen_after(stolen, taken.drop_last());
        if earlier.contains(taken.last()) {
            earlier
        } else {
            earlier.push(taken.last())
        }
    }
}

/// The next number in the sequence of combat pictures, starting again at
/// zero after the largest.
pub open spec fn next_sequence(sequence: u64) -> u64 {
    if sequence == u64::MAX {
        0
    } else {
        (sequence + 1) as u64
    }
}

/// What a hero at zero Body Points is told after its name.
pub open spec fn rescue_prompt() -> Seq<char> {
    " reached zero Body Points. Choose an available Potion of Healing or unused healing spell now."@
}

/// `after` is `before` with two more lines logged.
pub open spec fn logged_two_lines(before: Seq<String>, after: Seq<String>) -> bool {
    exists|middle: Seq<String>| logged_one_line(before, middle) && #[trigger] logged_one_line(middle, after)
}

impl Game {
    /// Who may take up the possessions of the hero at `slot` once it has
    /// fallen: the living heroes in its room.
    pub open spec fn spec_heirs(self, slot: int) -> Seq<UnitId> {
        let hero = self.units@[slot];
        let units = self.units@.update(slot, fallen_figure(hero));
        heirs_upto(
            units,
            self.cells@,
            hero.id,
            self.cells@[spec_cell_index(hero.pos)].region,
            units.len(),
        )
    }

    /// `after` is the game once the hero at `slot` has fallen: it puts down
    /// what it carried; the living heroes in its room may take up its
    /// possessions, or, with none there, a monster in the room claims them
    /// and they leave the game, its artifacts counted as stolen; the fall is
    /// shown and logged.
    pub open spec fn hero_fell(self, slot: int, after: Game) -> bool {
        let hero = self.units@[slot];
        let fallen = fallen_figure(hero);
        let units = self.units@.update(slot, fallen);
        let region = self.cells@[spec_cell_index(hero.pos)].region;
        let heirs = self.spec_heirs(slot);
        let claimed = heirs.len() == 0 && has_claimant(units, self.cells@, region);
        &&& item_put_down(self.quest_items@, self.props@, after.quest_items@, after.props@, hero)
        &&& if heirs.len() > 0 {
            &&& after.units@ == units
            &&& after.pending_possession_pickup matches Some(pending) && pending.dead_hero == hero.id
                && pending.eligible_heroes@ == heirs
            &&& after.monster_stolen_artifacts == self.monster_stolen_artifacts
        } else if claimed {
            &&& after.units@ == units.update(
                slot,
                Unit { inventory: after.units@[slot].inventory, ..fallen },
            )
            &&& is_empty_inventory(after.units@[slot].inventory)
            &&& after.monster_stolen_artifacts@ == stolen_after(
                self.monster_stolen_artifacts@,
                hero.inventory.artifacts@,
            )
            &&& after.pending_possession_pickup == self.pending_possession_pickup
        } else {
            &&& after.units@ == units
            &&& after.monster_stolen_artifacts == self.monster_stolen_artifacts
            &&& after.pending_possession_pickup == self.pending_possession_pickup
        }
        &&& after.visual_sequence == next_sequence(self.visual_sequence)
        &&& after.last_combat_visual == Some(
            CombatVisualEvent {
                sequence: next_sequence(self.visual_sequence),
                attacker: hero.id,
                defender: hero.id,
                damage: 0,
                defender_died: true,
            },
        )
        &&& if claimed {
            logged_two_lines(self.log@, after.log@)
        } else {
            logged_one_line(self.log@, after.log@)
        }
        &&& after.log@.last()@ == hero.name@ + " has fallen and is removed for the rest of the quest."@
        &&& after == (Game {
            units: after.units,
            quest_items: after.quest_items,
            props: after.props,
            pending_possession_pickup: after.pending_possession_pickup,
            monster_stolen_artifacts: after.monster_stolen_artifacts,
            visual_sequence: after.visual_sequence,
            last_combat_visual: after.last_combat_visual,
            log: after.log,
            ..self
        })
    }

    /// `after` is the game once the hero with `hero_id` has fallen and the
    /// end of the quest was checked; nothing changes when no such figure is
    /// on the board.
    pub open spec fn death_settled(self, hero_id: UnitId, after: Game) -> bool {
        if has_unit_id(self.units@, hero_id) {
            exists|fallen: Game|
                #[trigger] self.hero_fell(unit_slot(self.units@, hero_id), fallen)
                    && fallen.settled_into(after)
        } else {
            after == self
        }
    }

    /// The ids of the living heroes other than `hero_id` standing in `region`.
    fn heirs_in(&self, hero_id: UnitId, region: i16) -> (heirs: Vec<UnitId>)
        requires
            self.wf(),
        ensures
            heirs@ == heirs_upto(self.units@, self.cells@, hero_id, region, self.units@.len()),
    {
        reveal(Game::wf);
        let mut heirs: Vec<UnitId> = Vec::new();
        let mut i: usize = 0;
        while i < self.units.len()
            invariant
                self.wf(),
                i <= self.units@.len(),
                heirs@ == heirs_upto(self.units@, self.cells@, hero_id, region, i as nat),
            decreases self.units.len() - i,
        {
            proof {
                reveal(Game::wf);
            }
            let unit = &self.units[i];
            if unit.id != hero_id && unit.alive && !unit.escaped && unit.faction == Faction::Hero
                && self.cells[Self::cell_index(unit.pos)].region == region {
                heirs.push(unit.id);
            }
            i = i + 1;
        }
        heirs
    }

    /// The name of the first figure able to claim a fallen hero's
    /// possessions in `region`, if any.
    fn claimant_in(&self, region: i16) -> (name: Option<String>)
        requires
            self.wf(),
        ensures
            name is Some <==> has_claimant(self.units@, self.cells@, region),
    {
        let mut i: usize = 0;
        while i < self.units.len()
            invariant
                self.wf(),
                i <= self.units@.len(),
                forall|j: int| 0 <= j < i ==> !is_claimant(self.cells@, region, #[trigger] self.units@[j]),
            decreases self.units.len() - i,
        {
            proof {
                reveal(Game::wf);
            }
            let unit = &self.units[i];
            if unit.alive && !unit.dormant && unit.faction == Faction::Monster
                && self.cells[Self::cell_index(unit.pos)].region == region {
                return Some(unit.name.clone());
            }
            i = i + 1;
        }
        None
    }

    /// The artifacts in `taken` join those monsters have stolen, each once.
    fn record_stolen_artifacts(&mut self, taken: &Vec<Artifact>)
        requires
            old(self).wf(),
        ensures
            final(self).wf(),
            final(self).monster_stolen_artifacts@ == stolen_after(
                old(self).monster_stolen_artifacts@,
                taken@,
            ),
            *final(self) == (Game {
                monster_stolen_artifacts: final(self).monster_stolen_artifacts,
                ..*old(self)
            }),
    {
        reveal(Game::wf);
        let ghost start = *self;
        let mut i: usize = 0;
        while i < taken.len()
            invariant
                i <= taken@.len(),
                self.monster_stolen_artifacts@ == stolen_after(
                    start.monster_stolen_artifacts@,
                    taken@.take(i as int),
                ),
                *self == (Game { monster_stolen_artifacts: self.monster_stolen_artifacts, ..start }),
            decreases taken.len() - i,
        {
            proof {
                assert(taken@.take(i + 1).drop_last() =~= taken@.take(i as int));
            }
            if !contains_artifact(&self.monster_stolen_artifacts, taken[i]) {
                self.monster_stolen_artifacts.push(taken[i]);
            }
            i = i + 1;
        }
        proof {
            assert(taken@.take(i as int) =~= taken@);
        }
    }

    /// The fall of the hero with `hero_id` is shown.
    fn show_fall(&mut self, hero_id: UnitId)
        requires
            old(self).wf(),
        ensures
            final(self).wf(),
            final(self).visual_sequence == next_sequence(old(self).visual_sequence),
            final(self).last_combat_visual == Some(
                CombatVisualEvent {
                    sequence: next_sequence(old(self).visual_sequence),
                    attacker: hero_id,
                    defender: hero_id,
                    damage: 0,
                    defender_died: true,
                },
            ),
            *final(self) == (Game {
                visual_sequence: final(self).visual_sequence,
                last_combat_visual: final(self).last_combat_visual,
                ..*old(self)
            }),
    {
        reveal(Game::wf);
        self.visual_sequence = self.visual_sequence.wrapping_add(1);
        self.last_combat_visual = Some(
            CombatVisualEvent {
                sequence: self.visual_sequence,
                attacker: hero_id,
                defender: hero_id,
                damage: 0,
                defender_died: true,
            },
        );
    }
}

impl Game {
    /// The hero with `hero_id` falls for good: see `hero_fell`; then the end
    /// of the quest is checked.
    #[verifier::spinoff_prover]
    #[verifier::rlimit(40)]
    pub(crate) fn finalize_hero_death(&mut self, hero_id: UnitId)
        requires
            old(self).wf(),
            old(self).spec_unit(hero_id) matches Some(hero) ==> old(self).carries_in_place(hero),
        ensures
            final(self).wf(),
            old(self).death_settled(hero_id, *final(self)),
    {
        proof {
            lemma_wf_ids(*self);
        }
        let index = match self.unit_index(hero_id) {
            Some(index) => index,
            None => return,
        };
        proof {
            lemma_slot_of(self.units@, hero_id, index as int);
            reveal(Game::wf);
            assert(spec_in_bounds(self.units@[index as int].pos));
        }
        let ghost start = *self;
        let pos = self.units[index].pos;
        let region = self.cells[Self::cell_index(pos)].region;
        self.fall_and_drop(index);
        proof {
            lemma_fallen_keeps(start.units@[index as int]);
        }
        let heirs = self.heirs_in(hero_id, region);
        let ghost mut middle: Seq<String> = self.log@;
        if heirs.len() > 0 {
            self.set_pending_possession_pickup(
                Some(PendingPossessionPickup { dead_hero: hero_id, eligible_heroes: heirs }),
            );
        } else {
            match self.claimant_in(region) {
                Some(monster_name) => {
                    let taken = self.unit_give_up_possessions(index);
                    self.record_stolen_artifacts(&taken.artifacts);
                    let mut message = monster_name;
                    message.append(
                        " claimed the fallen Hero's possessions; they are removed from the game.",
                    );
                    self.push_log(message);
                    proof {
                        middle = self.log@;
                    }
                },
                None => {},
            }
        }
        self.show_fall(hero_id);
        let mut message = self.units[index].name.clone();
        message.append(" has fallen and is removed for the rest of the quest.");
        self.push_log(message);
        let ghost fallen = *self;
        self.check_terminal();
        proof {
            assert(logged_one_line(middle, fallen.log@));
            assert(start.hero_fell(index as int, fallen));
            assert(fallen.settled_into(*self));
        }
    }
}

impl Game {
    /// `waiting` is the game with the hero at `slot` standing at zero Body
    /// Points, still alive, its rescue choice awaited.
    pub open spec fn awaits_rescue(self, slot: int, waiting: Game) -> bool {
        let unit = self.units@[slot];
        &&& waiting.units@ == self.units@.update(slot, Unit { body: 0, alive: true, ..unit })
        &&& waiting == (Game {
            units: waiting.units,
            pending_hero_death: Some(PendingHeroDeath { hero: unit.id, potion_roll_pending: false }),
            ..self
        })
    }

    /// `after` is the game once the figure with `unit_id` was checked for
    /// zero Body Points, and `ended` whether its part in the quest ended: a
    /// figure with Body Points left lives on; a monster at zero falls at
    /// once; a hero at zero is offered its rescue choices, and falls at once
    /// when death is the only one.
    pub open spec fn zero_body_resolved(self, unit_id: UnitId, after: Game, ended: bool) -> bool {
        if !has_unit_id(self.units@, unit_id) {
            !ended && after == self
        } else {
            let slot = unit_slot(self.units@, unit_id);
            let unit = self.units@[slot];
            if unit.body > 0 {
                &&& !ended
                &&& after.units@ == self.units@.update(slot, still_standing(unit))
                &&& after == (Game { units: after.units, ..self })
            } else if unit.faction != Faction::Hero || !(unit.figure is Hero) {
                &&& ended
                &&& after.units@ == self.units@.update(slot, fallen_figure(unit))
                &&& item_put_down(
                    self.quest_items@,
                    self.props@,
                    after.quest_items@,
                    after.props@,
                    unit,
                )
                &&& after == (Game {
                    units: after.units,
                    quest_items: after.quest_items,
                    props: after.props,
                    ..self
                })
            } else {
                exists|waiting: Game|
                    #[trigger] self.awaits_rescue(slot, waiting) && if waiting.spec_death_choices()
                        == seq![HeroDeathChoice::AcceptDeath] {
                        ended && (Game { pending_hero_death: None, ..waiting }).death_settled(
                            unit_id,
                            after,
                        )
                    } else {
                        !ended && logged_one_line(waiting.log@, after.log@) && after.log@.last()@
                            == unit.name@ + rescue_prompt() && after == (Game {
                            log: after.log,
                            ..waiting
                        })
                    }
            }
        }
    }

    /// Checks the figure with `unit_id` for zero Body Points; returns whether
    /// its part in the quest ended.
    #[verifier::spinoff_prover]
    #[verifier::rlimit(40)]
    pub(crate) fn resolve_zero_body(&mut self, unit_id: UnitId) -> (ended: bool)
        requires
            old(self).wf(),
            old(self).spec_unit(unit_id) matches Some(unit) ==> old(self).carries_in_place(unit),
        ensures
            final(self).wf(),
            old(self).zero_body_resolved(unit_id, *final(self), ended),
    {
        proof {
            lemma_wf_ids(*self);
        }
        let index = match self.unit_index(unit_id) {
            Some(index) => index,
            None => return false,
        };
        proof {
            lemma_slot_of(self.units@, unit_id, index as int);
        }
        if self.units[index].body > 0 {
            self.stand_at(index);
            return false;
        }
        let is_hero = self.units[index].faction == Faction::Hero && matches!(
            self.units[index].figure,
            FigureKind::Hero(_)
        );
        if !is_hero {
            self.fall_and_drop(index);
            return true;
        }
        self.offer_rescue(index)
    }

    /// The figure at `index` counts as alive.
    fn stand_at(&mut self, index: usize)
        requires
            old(self).wf(),
            index < old(self).units@.len(),
        ensures
            final(self).wf(),
            final(self).units@ == old(self).units@.update(
                index as int,
                still_standing(old(self).units@[index as int]),
            ),
            *final(self) == (Game { units: final(self).units, ..*old(self) }),
    {
        let body = self.units[index].body;
        self.unit_set_life(index, body, true);
        proof {
            reveal(still_standing);
        }
    }

    /// The hero at `index`, at zero Body Points, is offered its rescue
    /// choices, and falls at once when death is the only one; returns
    /// whether it fell.
    #[verifier::spinoff_prover]
    #[verifier::rlimit(40)]
    fn offer_rescue(&mut self, index: usize) -> (ended: bool)
        requires
            old(self).wf(),
            index < old(self).units@.len(),
            old(self).carries_in_place(old(self).units@[index as int]),
        ensures
            final(self).wf(),
            exists|waiting: Game|
                #[trigger] old(self).awaits_rescue(index as int, waiting) && if waiting.spec_death_choices()
                    == seq![HeroDeathChoice::AcceptDeath] {
                    ended && (Game { pending_hero_death: None, ..waiting }).death_settled(
                        old(self).units@[index as int].id,
                        *final(self),
                    )
                } else {
                    !ended && logged_one_line(waiting.log@, final(self).log@) && final(self).log@.last()@
                        == old(self).units@[index as int].name@ + rescue_prompt() && *final(self) == (Game {
                        log: final(self).log,
                        ..waiting
                    })
                },
    {
        let ghost start = *self;
        let unit_id = self.units[index].id;
        self.unit_set_life(index, 0, true);
        self.set_pending_hero_death(Some(PendingHeroDeath { hero: unit_id, potion_roll_pending: false }));
        let ghost waiting = *self;
        proof {
            assert(start.awaits_rescue(index as int, waiting));
        }
        let choices = self.pending_hero_death_choices();
        if choices.len() == 1 && choices[0] == HeroDeathChoice::AcceptDeath {
            proof {
                assert(choices@ =~= seq![HeroDeathChoice::AcceptDeath]);
            }
            self.set_pending_hero_death(None);
            proof {
                lemma_wf_ids(*self);
                lemma_slot_of(self.units@, unit_id, index as int);
            }
            self.finalize_hero_death(unit_id);
            return true;
        }
        proof {
            if choices@ == seq![HeroDeathChoice::AcceptDeath] {
                assert(choices@[0] == HeroDeathChoice::AcceptDeath);
            }
        }
        let mut message = self.units[index].name.clone();
        message.append(
            " reached zero Body Points. Choose an available Potion of Healing or unused healing spell now.",
        );
        self.push_log(message);
        false
    }

    /// `after` is the game once the figure with `unit_id` took `damage`
    /// that no defence can stop: a figure turned to stone takes none;
    /// another loses that many Body Points, down to none, any damage breaks
    /// its Rock Skin, and it is checked for zero Body Points.
    pub open spec fn damage_dealt(self, unit_id: UnitId, damage: u8, after: Game) -> bool {
        if !has_unit_id(self.units@, unit_id) {
            after == self
        } else {
            let slot = unit_slot(self.units@, unit_id);
            let unit = self.units@[slot];
            if unit.petrified_turns > 0 {
                after == self
            } else {
                exists|hit: Game, ended: bool|
                    #![trigger hit.zero_body_resolved(unit_id, after, ended)]
                    hit.units@ == self.units@.update(
                        slot,
                        Unit {
                            body: if unit.body - damage < 0 {
                                0
                            } else {
                                (unit.body - damage) as i16
                            },
                            rock_skin: unit.rock_skin && damage == 0,
                            ..unit
                        },
                    ) && hit == (Game { units: hit.units, ..self }) && hit.zero_body_resolved(
                        unit_id,
                        after,
                        ended,
                    )
            }
        }
    }

    /// The figure with `unit_id` takes `damage` that no defence can stop.
    pub fn damage_without_defense(&mut self, unit_id: UnitId, damage: u8)
        requires
            old(self).wf(),
            old(self).spec_unit(unit_id) matches Some(unit) ==> old(self).carries_in_place(unit),
        ensures
            final(self).wf(),
            old(self).damage_dealt(unit_id, damage, *final(self)),
    {
        proof {
            lemma_wf_ids(*self);
        }
        let index = match self.unit_index(unit_id) {
            Some(index) => index,
            None => return,
        };
        proof {
            lemma_slot_of(self.units@, unit_id, index as int);
        }
        if self.units[index].petrified_turns > 0 {
            return;
        }
        let ghost start = *self;
        self.unit_take_damage(index, damage);
        let ghost hit = *self;
        proof {
            lemma_wf_ids(hit);
            lemma_slot_of(hit.units@, unit_id, index as int);
        }
        let ended = self.resolve_zero_body(unit_id);
        proof {
            assert(hit.zero_body_resolved(unit_id, *self, ended));
        }
    }
}

/// Whether `choice` is among `choices`.
fn contains_death_choice(choices: &Vec<HeroDeathChoice>, choice: HeroDeathChoice) -> (found: bool)
    ensures
        found == choices@.contains(choice),
{
    let mut i: usize = 0;
    while i < choices.len()
        invariant
            i <= choices.len(),
            forall|j: int| 0 <= j < i ==> choices@[j] != choice,
        decreases choices.len() - i,
    {
        if choices[i] == choice {
            return true;
        }
        i = i + 1;
    }
    false
}

/// `card` is where `spell` first appears among `spells`.
pub open spec fn is_first_card(spells: Seq<HeroSpell>, spell: HeroSpell, card: int) -> bool {
    &&& 0 <= card < spells.len()
    &&& spells[card] == spell
    &&& forall|j: int| 0 <= j < card ==> spells[j] != spell
}

/// Where `spell` first appears among `spells`, if it does.
fn first_card(spells: &Vec<HeroSpell>, spell: HeroSpell) -> (card: Option<usize>)
    ensures
        match card {
            Some(c) => is_first_card(spells@, spell, c as int),
            None => !spells@.contains(spell),
        },
{
    let mut i: usize = 0;
    while i < spells.len()
        invariant
            i <= spells.len(),
            forall|j: int| 0 <= j < i ==> spells@[j] != spell,
        decreases spells.len() - i,
    {
        if spells[i] == spell {
            return Some(i);
        }
        i = i + 1;
    }
    None
}

/// The Body Points a hero stands with after a healing spell saved it.
pub open spec fn saved_body(unit: Unit) -> i16 {
    if unit.stats.body < 4 {
        unit.stats.body as i16
    } else {
        4
    }
}

/// The healing spell a death-saving choice casts.
pub open spec fn saving_spell(choice: HeroDeathChoice) -> HeroSpell {
    if choice == HeroDeathChoice::HealBody {
        HeroSpell::HealBody
    } else {
        HeroSpell::WaterOfHealing
    }
}

impl Game {
    /// The hero awaiting its rescue choice can make it: it is on the board
    /// with its Body Points in range and what it carries in place.
    pub open spec fn rescue_defined(self, hero_id: UnitId) -> bool {
        self.spec_unit(hero_id) matches Some(hero) ==> 0 <= hero.body <= hero.stats.body
            && self.carries_in_place(hero)
    }

    /// Why `choice` cannot be taken now, if it cannot.
    pub open spec fn death_choice_refusal(self, choice: HeroDeathChoice) -> Option<RuleError> {
        match self.pending_hero_death {
            None => Some(RuleError::InvalidHeroDeathChoice),
            Some(pending) => if pending.potion_roll_pending || !self.spec_death_choices().contains(
                choice,
            ) {
                Some(RuleError::InvalidHeroDeathChoice)
            } else {
                None
            },
        }
    }

    /// `after` is the game once the hero with `hero_id` drank a Potion of
    /// Healing at zero Body Points: restored, its choice is over; with a
    /// potion of unknown strength, the red die for it is awaited.
    pub open spec fn drank_at_zero(self, hero_id: UnitId, used: HealingPotionUse, after: Game) -> bool {
        let slot = unit_slot(self.units@, hero_id);
        &&& after.units@.len() == self.units@.len()
        &&& forall|j: int|
            0 <= j < self.units@.len() && j != slot ==> #[trigger] after.units@[j] == self.units@[j]
        &&& logged_one_line(self.log@, after.log@)
        &&& after.log@.last()@ == healing_text(self.units@[slot].name@, used)
        &&& match used {
            HealingPotionUse::RollRedDie { .. } => {
                &&& healing_drunk(self.units@[slot], after.units@[slot], None)
                &&& after == (Game {
                    units: after.units,
                    log: after.log,
                    pending_healing_potion_roll: Some(hero_id),
                    pending_hero_death: Some(
                        PendingHeroDeath { hero: hero_id, potion_roll_pending: true },
                    ),
                    ..self
                })
            },
            HealingPotionUse::Restored { body, .. } => {
                &&& healing_drunk(self.units@[slot], after.units@[slot], Some(body))
                &&& after == (Game {
                    units: after.units,
                    log: after.log,
                    pending_hero_death: None,
                    ..self
                })
            },
        }
    }

    /// `after` is the game once the hero with `hero_id` cast `spell` to
    /// survive at zero Body Points: the first such card is discarded, the
    /// hero stands with up to four Body Points, its choice is over, and it
    /// has acted: its action is spent if it is the active hero, and it is
    /// counted as having acted this round.
    pub open spec fn saved_by_spell(self, hero_id: UnitId, spell: HeroSpell, after: Game) -> bool {
        let slot = unit_slot(self.units@, hero_id);
        let hero = self.units@[slot];
        let saved = after.units@[slot];
        &&& exists|card: int|
            #[trigger] is_first_card(hero.hero_spells@, spell, card) && saved.hero_spells@
                == hero.hero_spells@.remove(card) && saved.discarded_hero_spells@
                == hero.discarded_hero_spells@.push(spell)
        &&& after.units@ == self.units@.update(slot, saved)
        &&& saved == (Unit {
            hero_spells: saved.hero_spells,
            discarded_hero_spells: saved.discarded_hero_spells,
            body: saved_body(hero),
            alive: saved.alive,
            ..hero
        })
        &&& saved.alive
        &&& after.pending_hero_death is None
        &&& after.hero_turn == if self.spec_active_hero_id() == Some(hero_id) {
            HeroTurnState { action_used: after.hero_turn.action_used, ..self.hero_turn }
        } else {
            self.hero_turn
        }
        &&& self.spec_active_hero_id() == Some(hero_id) ==> after.hero_turn.action_used
        &&& after.heroes_acted_this_round@ == acted_with(self.heroes_acted_this_round@, hero_id)
        &&& logged_one_line(self.log@, after.log@)
        &&& after.log@.last()@ == hero.name@ + " cast "@ + spec_spell_name(spell)
            + " at zero Body Points and survived with "@ + decimal_text(saved_body(hero) as nat)
            + " Body Points."@
        &&& after == (Game {
            units: after.units,
            pending_hero_death: after.pending_hero_death,
            hero_turn: after.hero_turn,
            heroes_acted_this_round: after.heroes_acted_this_round,
            log: after.log,
            ..self
        })
    }

    fn spend_action(&mut self)
        requires
            old(self).wf(),
        ensures
            final(self).wf(),
            final(self).hero_turn == (HeroTurnState {
                action_used: final(self).hero_turn.action_used,
                ..old(self).hero_turn
            }),
            final(self).hero_turn.action_used,
            *final(self) == (Game { hero_turn: final(self).hero_turn, ..*old(self) }),
    {
        reveal(Game::wf);
        self.hero_turn.action_used = true;
    }

    /// The hero at `index` survives by casting the spell card at `card`.
    #[verifier::spinoff_prover]
    #[verifier::rlimit(80)]
    fn save_with_spell(&mut self, index: usize, card: usize)
        requires
            old(self).wf(),
            index < old(self).units@.len(),
            card < old(self).units@[index as int].hero_spells@.len(),
        ensures
            final(self).wf(),
            ({
                let hero = old(self).units@[index as int];
                let hero_id = hero.id;
                let saved = final(self).units@[index as int];
                &&& saved.hero_spells@ == hero.hero_spells@.remove(card as int)
                &&& saved.discarded_hero_spells@ == hero.discarded_hero_spells@.push(
                    hero.hero_spells@[card as int],
                )
                &&& final(self).units@ == old(self).units@.update(index as int, saved)
                &&& saved == (Unit {
                    hero_spells: saved.hero_spells,
                    discarded_hero_spells: saved.discarded_hero_spells,
                    body: saved_body(hero),
                    alive: saved.alive,
                    ..hero
                })
                &&& saved.alive
                &&& final(self).pending_hero_death is None
                &&& final(self).hero_turn == if old(self).spec_active_hero_id() == Some(hero_id) {
                    HeroTurnState { action_used: final(self).hero_turn.action_used, ..old(self).hero_turn }
                } else {
                    old(self).hero_turn
                }
                &&& old(self).spec_active_hero_id() == Some(hero_id) ==> final(self).hero_turn.action_used
                &&& final(self).heroes_acted_this_round@ == acted_with(
                    old(self).heroes_acted_this_round@,
                    hero_id,
                )
                &&& logged_one_line(old(self).log@, final(self).log@)
                &&& final(self).log@.last()@ == hero.name@ + " cast "@ + spec_spell_name(
                    hero.hero_spells@[card as int],
                ) + " at zero Body Points and survived with "@ + decimal_text(saved_body(hero) as nat)
                    + " Body Points."@
                &&& *final(self) == (Game {
                    units: final(self).units,
                    pending_hero_death: final(self).pending_hero_death,
                    hero_turn: final(self).hero_turn,
                    heroes_acted_this_round: final(self).heroes_acted_this_round,
                    log: final(self).log,
                    ..*old(self)
                })
            }),
    {
        let hero_id = self.units[index].id;
        let printed = self.units[index].stats.body;
        let body: i16 = if printed < 4 {
            printed as i16
        } else {
            4
        };
        let spell = self.units[index].hero_spells[card];
        self.unit_cast_saving_spell(index, card, body, true);
        self.set_pending_hero_death(None);
        let active = self.active_hero_id();
        match active {
            Some(id) => {
                if id == hero_id {
                    self.spend_action();
                }
            },
            None => {},
        }
        self.note_hero_acted(hero_id);
        let ghost noted = *self;
        let mut message = self.units[index].name.clone();
        message.append(" cast ");
        message.append(spell.name());
        message.append(" at zero Body Points and survived with ");
        let survived = decimal_string(body as u64);
        message.append(survived.as_str());
        message.append(" Body Points.");
        proof {
            let hero = old(self).units@[index as int];
            assert(noted.units@[index as int].name == hero.name);
            assert(body as u64 as nat == saved_body(hero) as nat);
            assert(message@ == hero.name@ + " cast "@ + spec_spell_name(spell)
                + " at zero Body Points and survived with "@ + decimal_text(saved_body(hero) as nat)
                + " Body Points."@);
        }
        self.push_log(message);
    }
}

impl Game {
    /// The hero at zero Body Points makes its choice: drink a Potion of
    /// Healing, cast a healing spell to survive, or accept death. The
    /// potion drunk is returned when the choice was a potion.
    #[verifier::spinoff_prover]
    #[verifier::rlimit(40)]
    pub fn choose_pending_hero_death(&mut self, choice: HeroDeathChoice) -> (result: Result<
        Option<HealingPotionUse>,
        RuleError,
    >)
        requires
            old(self).wf(),
            old(self).pending_hero_death matches Some(pending) ==> old(self).rescue_defined(
                pending.hero,
            ),
        ensures
            final(self).wf(),
            match result {
                Err(e) => old(self).death_choice_refusal(choice) == Some(e) && *final(self)
                    == *old(self),
                Ok(used) => old(self).death_choice_refusal(choice) is None && {
                    let hero_id = old(self).pending_hero_death->Some_0.hero;
                    match choice {
                        HeroDeathChoice::HealingPotion => old(self).spec_healing_use(hero_id) matches Ok(
                            drunk,
                        ) && used == Some(drunk) && old(self).drank_at_zero(
                            hero_id,
                            drunk,
                            *final(self),
                        ),
                        HeroDeathChoice::AcceptDeath => used is None && (Game {
                            pending_hero_death: None,
                            ..*old(self)
                        }).death_settled(hero_id, *final(self)),
                        _ => used is None && old(self).saved_by_spell(
                            hero_id,
                            saving_spell(choice),
                            *final(self),
                        ),
                    }
                },
            },
    {
        let pending = match self.pending_hero_death {
            Some(pending) => pending,
            None => return Err(RuleError::InvalidHeroDeathChoice),
        };
        if pending.potion_roll_pending {
            return Err(RuleError::InvalidHeroDeathChoice);
        }
        let choices = self.pending_hero_death_choices();
        if !contains_death_choice(&choices, choice) {
            return Err(RuleError::InvalidHeroDeathChoice);
        }
        proof {
            lemma_wf_ids(*self);
        }
        match choice {
            HeroDeathChoice::HealingPotion => {
                let ghost start = *self;
                let outcome = self.consume_healing_potion(pending.hero);
                match outcome {
                    Ok(used) => {
                        match used {
                            HealingPotionUse::Restored { .. } => {
                                self.set_pending_hero_death(None);
                            },
                            HealingPotionUse::RollRedDie { .. } => {
                                self.set_pending_hero_death(
                                    Some(PendingHeroDeath { hero: pending.hero, potion_roll_pending: true }),
                                );
                            },
                        }
                        proof {
                            assert(start.drank_at_zero(pending.hero, used, *self));
                        }
                        Ok(Some(used))
                    },
                    Err(e) => Err(e),
                }
            },
            HeroDeathChoice::AcceptDeath => {
                self.set_pending_hero_death(None);
                self.finalize_hero_death(pending.hero);
                Ok(None)
            },
            _ => {
                let spell = if choice == HeroDeathChoice::HealBody {
                    HeroSpell::HealBody
                } else {
                    HeroSpell::WaterOfHealing
                };
                let index = match self.unit_index(pending.hero) {
                    Some(index) => index,
                    None => return Err(RuleError::InvalidHeroDeathChoice),
                };
                proof {
                    lemma_slot_of(self.units@, pending.hero, index as int);
                }
                let card = match first_card(&self.units[index].hero_spells, spell) {
                    Some(card) => card,
                    None => return Err(RuleError::InvalidHeroDeathChoice),
                };
                let ghost start = *self;
                self.save_with_spell(index, card);
                proof {
                    assert(is_first_card(start.units@[index as int].hero_spells@, spell, card as int));
                    assert(start.saved_by_spell(pending.hero, spell, *self));
                }
                Ok(None)
            },
        }
    }
}

} // verus!
