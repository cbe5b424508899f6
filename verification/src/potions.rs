//! Potions the heroes drink, the mine's fool's gold, and leaving a quest
//! at the stairway.
use vstd::prelude::*;

use crate::engine::{
    Game, has_unit_id, lemma_wf_ids, logged_one_line, spec_cell_index, unit_slot,
};
use crate::game;
use crate::game::{
    healing_drunk, GamePhase, HealingPotionUse, HeroTurnState, Inventory, PotionKind, RuleError, Unit, UnitId,
};
use crate::cards::Artifact;
use crate::model::Faction;
use crate::combat::defense_fits;
use crate::outcome::HeroTally;
use crate::status::{decimal_string, decimal_text};

verus! {

/// The strength recorded for the potion a hero would drink next, or none.
/// The line logged when the hero named `name` drinks a Potion of Healing
/// with the outcome `used`.
pub open spec fn healing_text(name: Seq<char>, used: HealingPotionUse) -> Seq<char> {
    match used {
        HealingPotionUse::RollRedDie { .. } => name
            + " drinks a Potion of Healing; one physical red die determines the Body Points restored."@,
        HealingPotionUse::Restored { body, .. } => name + " drank a Potion of Healing and restored "@
            + decimal_text(body as nat) + " Body Points."@,
    }
}

pub open spec fn last_strength(hero: Unit) -> u8 {
    let strengths = hero.inventory.healing_potion_strengths@;
    if strengths.len() > 0 {
        strengths.last()
    } else {
        0
    }
}

/// Body points a healing of up to `limit` restores: never past the printed
/// body points.
pub open spec fn healing_amount(hero: Unit, limit: u8) -> u8 {
    let missing = hero.stats.body - hero.body;
    if missing < limit {
        missing as u8
    } else {
        limit
    }
}

/// Only the figure at `slot` may differ.
pub open spec fn final_units_agree(before: Seq<Unit>, after: Seq<Unit>, slot: int) -> bool {
    after =~= before.update(slot, after[slot])
}

impl Game {
    /// What drinking a Potion of Healing does for a hero: restore its
    /// recorded strength at once, or, with no strength recorded, wait for one
    /// red die.
    pub open spec fn spec_healing_use(self, hero_id: UnitId) -> Result<HealingPotionUse, RuleError> {
        match self.spec_unit(hero_id) {
            None => Err(RuleError::NoHealingPotion),
            Some(hero) => if !hero.equipment_available {
                Err(RuleError::EquipmentUnavailable)
            } else if hero.inventory.potion_of_healing == 0 {
                Err(RuleError::NoHealingPotion)
            } else if last_strength(hero) == 0 {
                Ok(HealingPotionUse::RollRedDie { hero: hero_id })
            } else {
                Ok(HealingPotionUse::Restored { hero: hero_id, body: healing_amount(hero, last_strength(hero)) })
            },
        }
    }

    /// The figure's body points lie between zero and its printed body points.
    pub open spec fn body_in_range(self, hero_id: UnitId) -> bool {
        self.spec_unit(hero_id) matches Some(hero) ==> 0 <= hero.body <= hero.stats.body
    }

    pub(crate) fn consume_healing_potion(&mut self, hero_id: UnitId) -> (outcome: Result<HealingPotionUse, RuleError>)
        requires
            old(self).wf(),
            old(self).body_in_range(hero_id),
        ensures
            final(self).wf(),
            outcome == old(self).spec_healing_use(hero_id),
            outcome is Err ==> *final(self) == *old(self),
            outcome is Ok ==> has_unit_id(old(self).units@, hero_id) && logged_one_line(
                old(self).log@,
                final(self).log@,
            ) && final(self).log@.last()@ == healing_text(
                old(self).units@[unit_slot(old(self).units@, hero_id)].name@,
                outcome->Ok_0,
            ) && final(self).units@.len() == old(self).units@.len() && forall|j: int|
                0 <= j < old(self).units@.len() && j != unit_slot(old(self).units@, hero_id)
                    ==> #[trigger] final(self).units@[j] == old(self).units@[j],
            outcome matches Ok(HealingPotionUse::RollRedDie { hero }) ==> {
                let slot = unit_slot(old(self).units@, hero_id);
                &&& healing_drunk(old(self).units@[slot], final(self).units@[slot], None)
                &&& *final(self) == (Game {
                    units: final(self).units,
                    log: final(self).log,
                    pending_healing_potion_roll: Some(hero_id),
                    ..*old(self)
                })
            },
            outcome matches Ok(HealingPotionUse::Restored { hero, body }) ==> {
                let slot = unit_slot(old(self).units@, hero_id);
                &&& healing_drunk(old(self).units@[slot], final(self).units@[slot], Some(body))
                &&& *final(self) == (Game {
                    units: final(self).units,
                    log: final(self).log,
                    ..*old(self)
                })
            },
    {
        proof {
            lemma_wf_ids(*self);
        }
        let index = match self.unit_index(hero_id) {
            Some(index) => index,
            None => return Err(RuleError::NoHealingPotion),
        };
        if !self.units[index].equipment_available {
            return Err(RuleError::EquipmentUnavailable);
        }
        if self.units[index].inventory.potion_of_healing == 0 {
            return Err(RuleError::NoHealingPotion);
        }
        let limit: u8 = match self.units[index].inventory.healing_potion_strengths.last() {
            Some(last) => *last,
            None => 0,
        };
        let mut message = self.units[index].name.clone();
        if limit == 0 {
            self.unit_drink_healing(index, None);
            self.set_pending_healing_roll(Some(hero_id));
            message.append(
                " drinks a Potion of Healing; one physical red die determines the Body Points restored.",
            );
            self.push_log(message);
            return Ok(HealingPotionUse::RollRedDie { hero: hero_id });
        }
        let missing: i16 = self.units[index].stats.body as i16 - self.units[index].body;
        let restored: u8 = if missing < limit as i16 {
            missing as u8
        } else {
            limit
        };
        self.unit_drink_healing(index, Some(restored));
        message.append(" drank a Potion of Healing and restored ");
        let amount = decimal_string(restored as u64);
        message.append(amount.as_str());
        message.append(" Body Points.");
        self.push_log(message);
        Ok(HealingPotionUse::Restored { hero: hero_id, body: restored })
    }

    /// Applies the red die thrown for a Potion of Healing that recorded no
    /// strength: up to the face in body points come back.
    pub fn resolve_healing_potion_roll(&mut self, hero_id: UnitId, face: u8) -> (outcome: Result<
        u8,
        RuleError,
    >)
        requires
            old(self).wf(),
            old(self).body_in_range(hero_id),
        ensures
            final(self).wf(),
            old(self).pending_healing_potion_roll != Some(hero_id) ==> outcome == Err::<u8, RuleError>(
                RuleError::StaleHealingPotionRoll,
            ),
            old(self).pending_healing_potion_roll == Some(hero_id) && !(1 <= face <= 6) ==> outcome
                == Err::<u8, RuleError>(RuleError::InvalidDice),
            old(self).pending_healing_potion_roll == Some(hero_id) && 1 <= face <= 6 ==> outcome
                == match old(self).spec_unit(hero_id) {
                Some(hero) => Ok::<u8, RuleError>(healing_amount(hero, face)),
                None => Err(RuleError::StaleHealingPotionRoll),
            },
            outcome is Err ==> *final(self) == *old(self),
            outcome matches Ok(restored) ==> {
                let slot = unit_slot(old(self).units@, hero_id);
                let before = old(self).units@[slot];
                &&& final(self).units@ == old(self).units@.update(
                    slot,
                    Unit {
                        body: (before.body + restored) as i16,
                        alive: before.body + restored > 0,
                        ..before
                    },
                )
                &&& final(self).pending_healing_potion_roll is None
                &&& final(self).pending_hero_death == if old(self).pending_hero_death matches Some(
                    pending,
                ) && pending.hero == hero_id {
                    None
                } else {
                    old(self).pending_hero_death
                }
                &&& logged_one_line(old(self).log@, final(self).log@)
                &&& final(self).log@.last()@ == before.name@ + "'s Potion of Healing rolled "@ + decimal_text(
                    face as nat,
                ) + " and restored "@ + decimal_text(restored as nat) + " Body Points."@
                &&& *final(self) == (Game {
                    units: final(self).units,
                    log: final(self).log,
                    pending_healing_potion_roll: None,
                    pending_hero_death: final(self).pending_hero_death,
                    ..*old(self)
                })
            },
    {
        proof {
            lemma_wf_ids(*self);
        }
        if self.pending_healing_potion_roll != Some(hero_id) {
            return Err(RuleError::StaleHealingPotionRoll);
        }
        if face < 1 || face > 6 {
            return Err(RuleError::InvalidDice);
        }
        let index = match self.unit_index(hero_id) {
            Some(index) => index,
            None => return Err(RuleError::StaleHealingPotionRoll),
        };
        let missing: i16 = self.units[index].stats.body as i16 - self.units[index].body;
        let restored: u8 = if missing < face as i16 {
            missing as u8
        } else {
            face
        };
        self.unit_heal(index, restored);
        let mut message = self.units[index].name.clone();
        self.settle_healing_roll(hero_id);
        message.append("'s Potion of Healing rolled ");
        let face_text = decimal_string(face as u64);
        message.append(face_text.as_str());
        message.append(" and restored ");
        let amount = decimal_string(restored as u64);
        message.append(amount.as_str());
        message.append(" Body Points.");
        self.push_log(message);
        Ok(restored)
    }

    /// Starting to drink a Potion of Healing: the active, awake hero must be
    /// missing body points.
    pub open spec fn spec_begin_healing(self) -> Result<HealingPotionUse, RuleError> {
        match self.spec_active_awake_hero_id() {
            Err(error) => Err(error),
            Ok(id) => match self.spec_unit(id) {
                Some(hero) => if hero.body >= hero.stats.body {
                    Err(RuleError::FullBody)
                } else {
                    self.spec_healing_use(id)
                },
                None => Err(RuleError::NotHeroTurn),
            },
        }
    }

    /// The active hero drinks a Potion of Healing.
    pub fn begin_active_healing_potion(&mut self) -> (outcome: Result<HealingPotionUse, RuleError>)
        requires
            old(self).wf(),
            old(self).spec_active_awake_hero_id() matches Ok(id) ==> has_unit_id(old(self).units@, id)
                && old(self).spec_unit(id).unwrap().body >= 0,
        ensures
            final(self).wf(),
            outcome == old(self).spec_begin_healing(),
            outcome is Err ==> *final(self) == *old(self),
            outcome is Ok ==> {
                let id = old(self).spec_active_awake_hero_id()->Ok_0;
                let slot = unit_slot(old(self).units@, id);
                &&& final(self).units@ == old(self).units@.update(slot, final(self).units@[slot])
                &&& healing_drunk(
                    old(self).units@[slot],
                    final(self).units@[slot],
                    match outcome {
                        Ok(HealingPotionUse::Restored { body, .. }) => Some(body),
                        _ => None,
                    },
                )
                &&& final(self).pending_healing_potion_roll == match outcome {
                    Ok(HealingPotionUse::RollRedDie { .. }) => Some(id),
                    _ => old(self).pending_healing_potion_roll,
                }
                &&& logged_one_line(old(self).log@, final(self).log@)
                &&& final(self).log@.last()@ == healing_text(old(self).units@[slot].name@, outcome->Ok_0)
                &&& *final(self) == (Game {
                    units: final(self).units,
                    log: final(self).log,
                    pending_healing_potion_roll: final(self).pending_healing_potion_roll,
                    ..*old(self)
                })
            },
    {
        let hero_id = match self.active_awake_hero_id() {
            Ok(id) => id,
            Err(error) => return Err(error),
        };
        let full = match self.unit(hero_id) {
            Some(hero) => hero.body >= hero.stats.body as i16,
            None => return Err(RuleError::NotHeroTurn),
        };
        if full {
            return Err(RuleError::FullBody);
        }
        let outcome = self.consume_healing_potion(hero_id);
        proof {
            lemma_wf_ids(*old(self));
            if outcome is Ok {
                let slot = unit_slot(old(self).units@, hero_id);
                assert(final_units_agree(old(self).units@, self.units@, slot));
            }
        }
        outcome
    }

    /// Drinks a Potion of Healing for the active hero, throwing the red die
    /// with the game's generator when the potion recorded no strength.
    pub fn use_healing_potion(&mut self) -> (outcome: Result<u8, RuleError>)
        requires
            old(self).wf(),
            old(self).spec_active_awake_hero_id() matches Ok(id) ==> has_unit_id(old(self).units@, id)
                && old(self).spec_unit(id).unwrap().body >= 0,
        ensures
            final(self).wf(),
            old(self).spec_begin_healing() matches Err(error) ==> outcome == Err::<u8, RuleError>(
                error,
            ) && *final(self) == *old(self),
            old(self).spec_begin_healing() matches Ok(HealingPotionUse::Restored { body, .. })
                ==> outcome == Ok::<u8, RuleError>(body),
            old(self).spec_begin_healing() matches Ok(HealingPotionUse::RollRedDie { hero })
                ==> exists|face: u8|
                1 <= face <= 6 && outcome == Ok::<u8, RuleError>(
                    healing_amount(old(self).spec_unit(hero).unwrap(), face),
                ),
    {
        let ghost start = *self;
        match self.begin_active_healing_potion() {
            Err(error) => Err(error),
            Ok(HealingPotionUse::Restored { body, .. }) => Ok(body),
            Ok(HealingPotionUse::RollRedDie { hero }) => {
                let ghost drunk = *self;
                proof {
                    lemma_wf_ids(start);
                    lemma_wf_ids(drunk);
                    let slot = unit_slot(start.units@, hero);
                    assert(drunk.units@[slot].id == hero);
                    assert(drunk.spec_unit(hero) == Some(drunk.units@[slot])) by {
                        assert(has_unit_id(drunk.units@, hero));
                        let other = unit_slot(drunk.units@, hero);
                        if other != slot {
                            assert(drunk.units@[other] == start.units@[other]);
                        }
                    }
                }
                let face = self.roll_die();
                let outcome = self.resolve_healing_potion_roll(hero, face);
                proof {
                    let slot = unit_slot(start.units@, hero);
                    assert(start.spec_unit(hero) == Some(start.units@[slot]));
                    assert(drunk.units@[slot].body == start.units@[slot].body);
                    assert(drunk.units@[slot].stats == start.units@[slot].stats);
                    assert(healing_amount(drunk.units@[slot], face) == healing_amount(
                        start.units@[slot],
                        face,
                    ));
                    assert(outcome == Ok::<u8, RuleError>(
                        healing_amount(start.spec_unit(hero).unwrap(), face),
                    ));
                }
                outcome
            },
        }
    }

    pub open spec fn spec_petrification(self) -> Result<UnitId, RuleError> {
        match self.spec_active_awake_hero_id() {
            Err(error) => Err(error),
            Ok(id) => match self.spec_unit(id) {
                Some(hero) => if !hero.equipment_available {
                    Err(RuleError::EquipmentUnavailable)
                } else if hero.inventory.petrification_potion == 0 {
                    Err(RuleError::NoPetrificationPotion)
                } else {
                    Ok(id)
                },
                None => Err(RuleError::NotHeroTurn),
            },
        }
    }

    /// The active hero drinks the purple liquid: invulnerable stone for the
    /// next five turns, and the turn ends.
    pub fn use_petrification_potion(&mut self) -> (outcome: Result<(), RuleError>)
        requires
            old(self).wf(),
            old(self).spec_active_awake_hero_id() matches Ok(id) ==> has_unit_id(old(self).units@, id),
        ensures
            final(self).wf(),
            old(self).spec_petrification() matches Err(error) ==> outcome == Err::<(), RuleError>(
                error,
            ) && *final(self) == *old(self),
            old(self).spec_petrification() matches Ok(id) ==> {
                let slot = unit_slot(old(self).units@, id);
                let before = old(self).units@[slot];
                &&& outcome is Ok
                &&& final(self).units@ == old(self).units@.update(
                    slot,
                    Unit {
                        inventory: Inventory {
                            petrification_potion: (before.inventory.petrification_potion - 1) as u8,
                            ..before.inventory
                        },
                        petrified_turns: 5,
                        ..before
                    },
                )
                &&& final(self).hero_turn == (HeroTurnState {
                    action_used: true,
                    movement_left: 0,
                    ..old(self).hero_turn
                })
                &&& logged_one_line(old(self).log@, final(self).log@)
                &&& final(self).log@.last()@ == old(self).units@[slot].name@
                    + " drank the purple liquid and turned to invulnerable stone for five turns."@
                &&& *final(self) == (Game {
                    units: final(self).units,
                    hero_turn: final(self).hero_turn,
                    log: final(self).log,
                    ..*old(self)
                })
            },
    {
        proof {
            lemma_wf_ids(*self);
        }
        let hero_id = match self.active_awake_hero_id() {
            Ok(id) => id,
            Err(error) => return Err(error),
        };
        let index = match self.unit_index(hero_id) {
            Some(index) => index,
            None => return Err(RuleError::NotHeroTurn),
        };
        if !self.units[index].equipment_available {
            return Err(RuleError::EquipmentUnavailable);
        }
        if self.units[index].inventory.petrification_potion == 0 {
            return Err(RuleError::NoPetrificationPotion);
        }
        let mut message = self.units[index].name.clone();
        self.unit_turn_to_stone(index);
        self.spend_action_and_movement();
        message.append(" drank the purple liquid and turned to invulnerable stone for five turns.");
        self.push_log(message);
        Ok(())
    }

    pub open spec fn spec_defense_potion(self, hero_id: UnitId) -> Result<(), RuleError> {
        match self.spec_unit(hero_id) {
            None => Err(RuleError::NoPotionOfDefense),
            Some(hero) => if !hero.alive || hero.escaped || hero.faction != Faction::Hero {
                Err(RuleError::NoPotionOfDefense)
            } else if !hero.equipment_available {
                Err(RuleError::EquipmentUnavailable)
            } else if hero.inventory.potion_of_defense == 0 {
                Err(RuleError::NoPotionOfDefense)
            } else {
                Ok(())
            },
        }
    }

    /// A living hero drinks a Potion of Defense: the next defense rolls two
    /// more dice.
    pub fn drink_potion_of_defense_for(&mut self, hero_id: UnitId) -> (outcome: Result<(), RuleError>)
        requires
            old(self).wf(),
        ensures
            final(self).wf(),
            outcome == old(self).spec_defense_potion(hero_id),
            outcome is Err ==> *final(self) == *old(self),
            outcome is Ok ==> {
                let slot = unit_slot(old(self).units@, hero_id);
                let before = old(self).units@[slot];
                &&& final(self).units@ == old(self).units@.update(
                    slot,
                    Unit {
                        inventory: Inventory {
                            potion_of_defense: (before.inventory.potion_of_defense - 1) as u8,
                            ..before.inventory
                        },
                        potion_defense_bonus: if before.potion_defense_bonus + 2 > u8::MAX {
                            u8::MAX
                        } else {
                            (before.potion_defense_bonus + 2) as u8
                        },
                        ..before
                    },
                )
                &&& logged_one_line(old(self).log@, final(self).log@)
                &&& final(self).log@.last()@ == old(self).units@[slot].name@
                    + " drank a Potion of Defense; the next defense gains two combat dice."@
                &&& *final(self) == (Game {
                    units: final(self).units,
                    log: final(self).log,
                    ..*old(self)
                })
            },
    {
        proof {
            lemma_wf_ids(*self);
        }
        let index = match self.unit_index(hero_id) {
            Some(index) => index,
            None => return Err(RuleError::NoPotionOfDefense),
        };
        if !self.units[index].alive || self.units[index].escaped || self.units[index].faction
            != Faction::Hero {
            return Err(RuleError::NoPotionOfDefense);
        }
        if !self.units[index].equipment_available {
            return Err(RuleError::EquipmentUnavailable);
        }
        if self.units[index].inventory.potion_of_defense == 0 {
            return Err(RuleError::NoPotionOfDefense);
        }
        let mut message = self.units[index].name.clone();
        self.unit_drink_defense(index);
        message.append(" drank a Potion of Defense; the next defense gains two combat dice.");
        self.push_log(message);
        Ok(())
    }

    /// The active, awake hero drinks a Potion of Defense.
    pub fn drink_active_potion_of_defense(&mut self) -> (outcome: Result<(), RuleError>)
        requires
            old(self).wf(),
        ensures
            final(self).wf(),
            outcome == match old(self).spec_active_awake_hero_id() {
                Err(error) => Err(error),
                Ok(id) => old(self).spec_defense_potion(id),
            },
            outcome is Err ==> *final(self) == *old(self),
    {
        let hero_id = match self.active_awake_hero_id() {
            Ok(id) => id,
            Err(error) => return Err(error),
        };
        self.drink_potion_of_defense_for(hero_id)
    }

    /// The active hero stands in the mine's room with empty hands.
    pub open spec fn spec_can_take_fools_gold(self) -> bool {
        match (self.spec_active_hero(), self.mine_region) {
            (Some(hero), Some(region)) => hero.alive && !hero.escaped && hero.inventory.fools_gold
                == 0 && self.cells@[spec_cell_index(hero.pos)].region == region,
            _ => false,
        }
    }

    /// The active hero can use the Ring of Return: it is in the dungeon,
    /// alive, with its equipment at hand and the Ring among its artifacts.
    pub open spec fn spec_can_use_ring_of_return(self) -> bool {
        &&& self.spec_active_hero() matches Some(hero)
        &&& hero.alive
        &&& !hero.escaped
        &&& hero.equipment_available
        &&& hero.inventory.artifacts@.contains(Artifact::RingOfReturn)
    }

    pub fn can_use_ring_of_return(&self) -> (can: bool)
        requires
            self.wf(),
        ensures
            can == self.spec_can_use_ring_of_return(),
    {
        match self.active_hero() {
            Some(hero) => hero.alive && !hero.escaped && hero.equipment_available
                && crate::game::contains_artifact(&hero.inventory.artifacts, Artifact::RingOfReturn),
            None => false,
        }
    }

    pub fn can_take_fools_gold(&self) -> (can: bool)
        requires
            self.wf(),
        ensures
            can == self.spec_can_take_fools_gold(),
    {
        reveal(Game::wf);
        let hero = match self.active_hero() {
            Some(hero) => hero,
            None => return false,
        };
        match self.mine_region {
            Some(region) => hero.alive && !hero.escaped && hero.inventory.fools_gold == 0 && match self.cell(
                hero.pos,
            ) {
                Some(cell) => cell.region == region,
                None => false,
            },
            None => false,
        }
    }

    pub open spec fn spec_take_fools_gold(self) -> Result<UnitId, RuleError> {
        match self.spec_active_awake_hero_id() {
            Err(error) => Err(error),
            Ok(id) => match self.spec_unit(id) {
                Some(hero) => if !(self.mine_region matches Some(region)
                    && self.cells@[spec_cell_index(hero.pos)].region == region) {
                    Err(RuleError::NotAtMine)
                } else if hero.inventory.fools_gold > 0 {
                    Err(RuleError::AlreadyCarryingFoolsGold)
                } else {
                    Ok(id)
                },
                None => Err(RuleError::NotHeroTurn),
            },
        }
    }

    /// The active hero takes the mine's gold: it weighs the hero down and
    /// will vanish at the end of the quest.
    pub fn take_fools_gold(&mut self) -> (outcome: Result<u16, RuleError>)
        requires
            old(self).wf(),
            old(self).spec_active_awake_hero_id() matches Ok(id) ==> has_unit_id(old(self).units@, id),
        ensures
            final(self).wf(),
            old(self).spec_take_fools_gold() matches Err(error) ==> outcome == Err::<u16, RuleError>(
                error,
            ) && *final(self) == *old(self),
            old(self).spec_take_fools_gold() matches Ok(id) ==> {
                let slot = unit_slot(old(self).units@, id);
                let before = old(self).units@[slot];
                &&& outcome == Ok::<u16, RuleError>(old(self).mine_gold_amount)
                &&& final(self).units@ == old(self).units@.update(
                    slot,
                    Unit {
                        inventory: Inventory {
                            fools_gold: old(self).mine_gold_amount,
                            ..before.inventory
                        },
                        ..before
                    },
                )
                &&& logged_one_line(old(self).log@, final(self).log@)
                &&& final(self).log@.last()@ == before.name@ + " took "@ + decimal_text(
                    old(self).mine_gold_amount as nat,
                ) + " gold coins from the mine and can no longer attack or defend."@
                &&& *final(self) == (Game {
                    units: final(self).units,
                    log: final(self).log,
                    ..*old(self)
                })
            },
    {
        proof {
            lemma_wf_ids(*self);
            reveal(Game::wf);
        }
        let hero_id = match self.active_awake_hero_id() {
            Ok(id) => id,
            Err(error) => return Err(error),
        };
        let index = match self.unit_index(hero_id) {
            Some(index) => index,
            None => return Err(RuleError::NotHeroTurn),
        };
        let at_mine = match self.mine_region {
            Some(region) => match self.cell(self.units[index].pos) {
                Some(cell) => cell.region == region,
                None => false,
            },
            None => false,
        };
        if !at_mine {
            return Err(RuleError::NotAtMine);
        }
        if self.units[index].inventory.fools_gold > 0 {
            return Err(RuleError::AlreadyCarryingFoolsGold);
        }
        let amount = self.mine_gold_amount;
        let mut message = self.units[index].name.clone();
        self.unit_set_fools_gold(index, amount);
        message.append(" took ");
        let coins = decimal_string(amount as u64);
        message.append(coins.as_str());
        message.append(" gold coins from the mine and can no longer attack or defend.");
        self.push_log(message);
        Ok(amount)
    }

    pub open spec fn spec_drop_fools_gold(self) -> Result<UnitId, RuleError> {
        match self.spec_active_awake_hero_id() {
            Err(error) => Err(error),
            Ok(id) => match self.spec_unit(id) {
                Some(hero) => if hero.inventory.fools_gold == 0 {
                    Err(RuleError::NotCarryingFoolsGold)
                } else {
                    Ok(id)
                },
                None => Err(RuleError::NotHeroTurn),
            },
        }
    }

    /// The active hero puts the mine's gold down; it vanishes back into the
    /// mine.
    pub fn drop_fools_gold(&mut self) -> (outcome: Result<u16, RuleError>)
        requires
            old(self).wf(),
            old(self).spec_active_awake_hero_id() matches Ok(id) ==> has_unit_id(old(self).units@, id),
        ensures
            final(self).wf(),
            old(self).spec_drop_fools_gold() matches Err(error) ==> outcome == Err::<u16, RuleError>(
                error,
            ) && *final(self) == *old(self),
            old(self).spec_drop_fools_gold() matches Ok(id) ==> {
                let slot = unit_slot(old(self).units@, id);
                let before = old(self).units@[slot];
                &&& outcome == Ok::<u16, RuleError>(before.inventory.fools_gold)
                &&& final(self).units@ == old(self).units@.update(
                    slot,
                    Unit { inventory: Inventory { fools_gold: 0, ..before.inventory }, ..before },
                )
                &&& logged_one_line(old(self).log@, final(self).log@)
                &&& final(self).log@.last()@ == before.name@ + " put down the mine's "@ + decimal_text(
                    before.inventory.fools_gold as nat,
                ) + " gold coins; they vanished back into the mine."@
                &&& *final(self) == (Game {
                    units: final(self).units,
                    log: final(self).log,
                    ..*old(self)
                })
            },
    {
        proof {
            lemma_wf_ids(*self);
        }
        let hero_id = match self.active_awake_hero_id() {
            Ok(id) => id,
            Err(error) => return Err(error),
        };
        let index = match self.unit_index(hero_id) {
            Some(index) => index,
            None => return Err(RuleError::NotHeroTurn),
        };
        let amount = self.units[index].inventory.fools_gold;
        if amount == 0 {
            return Err(RuleError::NotCarryingFoolsGold);
        }
        let mut message = self.units[index].name.clone();
        self.unit_set_fools_gold(index, 0);
        message.append(" put down the mine's ");
        let coins = decimal_string(amount as u64);
        message.append(coins.as_str());
        message.append(" gold coins; they vanished back into the mine.");
        self.push_log(message);
        Ok(amount)
    }

    /// The heroes may end the quest unfinished when, on a hero turn with no
    /// death or pickup pending, some hero lives and every living hero stands
    /// on the stairway.
    pub open spec fn spec_can_retreat(self) -> bool {
        &&& self.phase is HeroTurn
        &&& self.pending_hero_death is None
        &&& self.pending_possession_pickup is None
        &&& self.spec_tally(HeroTally::Living) > 0
        &&& self.spec_all_living_on_stairs()
    }

    pub fn can_voluntarily_retreat(&self) -> (can: bool)
        requires
            self.wf(),
        ensures
            can == self.spec_can_retreat(),
    {
        matches!(self.phase, GamePhase::HeroTurn { .. }) && self.pending_hero_death.is_none()
            && self.pending_possession_pickup.is_none() && self.living_hero_count() > 0
            && self.all_living_on_stairs()
    }

    /// Ends the quest unfinished at the stairway, with no reward.
    pub fn voluntarily_retreat(&mut self) -> (outcome: Result<(), RuleError>)
        requires
            old(self).wf(),
        ensures
            final(self).wf(),
            outcome is Ok <==> old(self).spec_can_retreat(),
            outcome is Err ==> outcome == Err::<(), RuleError>(RuleError::RetreatRequiresStairs)
                && *final(self) == *old(self),
            outcome is Ok ==> {
                &&& final(self).phase == GamePhase::Retreated
                &&& game::is_fresh_turn(final(self).hero_turn)
                &&& final(self).log@.last()@
                    == "The surviving Heroes voluntarily ended the unfinished quest at the stairway; no completion or final reward was recorded."@
                &&& *final(self) == (Game {
                    phase: GamePhase::Retreated,
                    hero_turn: final(self).hero_turn,
                    log: final(self).log,
                    ..*old(self)
                })
            },
    {
        if !self.can_voluntarily_retreat() {
            return Err(RuleError::RetreatRequiresStairs);
        }
        self.set_phase(GamePhase::Retreated);
        self.reset_hero_turn();
        self.log_text(
            "The surviving Heroes voluntarily ended the unfinished quest at the stairway; no completion or final reward was recorded.",
        );
        Ok(())
    }

    /// Why a hero may not drink a potion that changes the next attack, if
    /// any: the active hero must be awake, free to attack, hold the potion
    /// and have equipment at hand.
    pub open spec fn spec_attack_potion(self, kind: PotionKind) -> Result<UnitId, RuleError> {
        match self.spec_active_awake_hero_id() {
            Err(error) => Err(error),
            Ok(id) => if self.hero_turn.action_used && !self.hero_turn.orcs_bane_follow_up
                && !self.hero_turn.heroic_brew_follow_up {
                Err(RuleError::AlreadyActed)
            } else if self.spec_attack_options() is Err {
                Err(self.spec_attack_options()->Err_0)
            } else {
                match self.spec_unit(id) {
                    Some(hero) => if !hero.equipment_available {
                        Err(RuleError::EquipmentUnavailable)
                    } else if game::potion_count(hero.inventory, kind) == 0 {
                        Err(
                            if kind == PotionKind::HeroicBrew {
                                RuleError::NoHeroicBrew
                            } else {
                                RuleError::NoPotionOfStrength
                            },
                        )
                    } else if kind == PotionKind::HeroicBrew && (self.hero_turn.heroic_brew_ready
                        || self.hero_turn.heroic_brew_follow_up) {
                        Err(RuleError::PotionAlreadyActive)
                    } else {
                        Ok(id)
                    },
                    None => Err(RuleError::NotHeroTurn),
                }
            },
        }
    }

    fn check_attack_potion(&self, kind: PotionKind) -> (outcome: Result<usize, RuleError>)
        requires
            self.wf(),
            defense_fits(self.units@),
            kind == PotionKind::HeroicBrew || kind == PotionKind::Strength,
        ensures
            match outcome {
                Ok(index) => self.spec_attack_potion(kind) matches Ok(id) && index == unit_slot(
                    self.units@,
                    id,
                ) && index < self.units@.len() && has_unit_id(self.units@, id),
                Err(error) => self.spec_attack_potion(kind) == Err::<UnitId, RuleError>(error),
            },
    {
        proof {
            lemma_wf_ids(*self);
        }
        let hero_id = match self.active_awake_hero_id() {
            Ok(id) => id,
            Err(error) => return Err(error),
        };
        if self.hero_turn.action_used && !self.hero_turn.orcs_bane_follow_up
            && !self.hero_turn.heroic_brew_follow_up {
            return Err(RuleError::AlreadyActed);
        }
        match self.active_attack_options() {
            Ok(_) => {},
            Err(error) => return Err(error),
        }
        let index = match self.unit_index(hero_id) {
            Some(index) => index,
            None => return Err(RuleError::NotHeroTurn),
        };
        if !self.units[index].equipment_available {
            return Err(RuleError::EquipmentUnavailable);
        }
        let owned = match kind {
            PotionKind::HeroicBrew => self.units[index].inventory.heroic_brew,
            _ => self.units[index].inventory.potion_of_strength,
        };
        if owned == 0 {
            return Err(
                if kind == PotionKind::HeroicBrew {
                    RuleError::NoHeroicBrew
                } else {
                    RuleError::NoPotionOfStrength
                },
            );
        }
        if kind == PotionKind::HeroicBrew && (self.hero_turn.heroic_brew_ready
            || self.hero_turn.heroic_brew_follow_up) {
            return Err(RuleError::PotionAlreadyActive);
        }
        Ok(index)
    }

    /// The active hero drinks a Heroic Brew: the next attack action strikes
    /// twice.
    pub fn drink_heroic_brew(&mut self) -> (outcome: Result<(), RuleError>)
        requires
            old(self).wf(),
            defense_fits(old(self).units@),
        ensures
            final(self).wf(),
            old(self).spec_attack_potion(PotionKind::HeroicBrew) matches Err(error) ==> outcome
                == Err::<(), RuleError>(error) && *final(self) == *old(self),
            old(self).spec_attack_potion(PotionKind::HeroicBrew) matches Ok(id) ==> {
                let slot = unit_slot(old(self).units@, id);
                &&& outcome is Ok
                &&& final(self).units@ == old(self).units@.update(slot, final(self).units@[slot])
                &&& game::potion_taken(
                    old(self).units@[slot],
                    final(self).units@[slot],
                    PotionKind::HeroicBrew,
                )
                &&& final(self).hero_turn == (HeroTurnState {
                    heroic_brew_ready: true,
                    ..old(self).hero_turn
                })
                &&& logged_one_line(old(self).log@, final(self).log@)
                &&& final(self).log@.last()@ == old(self).units@[slot].name@
                    + " drank a Heroic Brew and may make two attacks with the next attack action."@
                &&& *final(self) == (Game {
                    units: final(self).units,
                    hero_turn: final(self).hero_turn,
                    log: final(self).log,
                    ..*old(self)
                })
            },
    {
        let index = match self.check_attack_potion(PotionKind::HeroicBrew) {
            Ok(index) => index,
            Err(error) => return Err(error),
        };
        let mut message = self.units[index].name.clone();
        self.unit_take_potion(index, PotionKind::HeroicBrew);
        self.ready_heroic_brew();
        message.append(" drank a Heroic Brew and may make two attacks with the next attack action.");
        self.push_log(message);
        Ok(())
    }

    /// The active hero drinks a Potion of Strength: the next attack rolls
    /// two more dice.
    pub fn drink_potion_of_strength(&mut self) -> (outcome: Result<(), RuleError>)
        requires
            old(self).wf(),
            defense_fits(old(self).units@),
        ensures
            final(self).wf(),
            old(self).spec_attack_potion(PotionKind::Strength) matches Err(error) ==> outcome
                == Err::<(), RuleError>(error) && *final(self) == *old(self),
            old(self).spec_attack_potion(PotionKind::Strength) matches Ok(id) ==> {
                let slot = unit_slot(old(self).units@, id);
                &&& outcome is Ok
                &&& final(self).units@ == old(self).units@.update(slot, final(self).units@[slot])
                &&& game::potion_taken(
                    old(self).units@[slot],
                    final(self).units@[slot],
                    PotionKind::Strength,
                )
                &&& final(self).hero_turn.potion_strength_bonus == if old(self).hero_turn.potion_strength_bonus
                    + 2 > u8::MAX {
                    u8::MAX
                } else {
                    (old(self).hero_turn.potion_strength_bonus + 2) as u8
                }
                &&& logged_one_line(old(self).log@, final(self).log@)
                &&& final(self).log@.last()@ == old(self).units@[slot].name@
                    + " drank a Potion of Strength; the next attack gains two combat dice."@
                &&& *final(self) == (Game {
                    units: final(self).units,
                    hero_turn: HeroTurnState {
                        potion_strength_bonus: final(self).hero_turn.potion_strength_bonus,
                        ..old(self).hero_turn
                    },
                    log: final(self).log,
                    ..*old(self)
                })
            },
    {
        let index = match self.check_attack_potion(PotionKind::Strength) {
            Ok(index) => index,
            Err(error) => return Err(error),
        };
        let mut message = self.units[index].name.clone();
        self.unit_take_potion(index, PotionKind::Strength);
        self.add_strength_bonus();
        message.append(" drank a Potion of Strength; the next attack gains two combat dice.");
        self.push_log(message);
        Ok(())
    }

    /// The potions the active hero owns, in card order.
    pub open spec fn spec_owned_potions(hero: Unit) -> Seq<PotionKind> {
        let inv = hero.inventory;
        let brew = if inv.heroic_brew > 0 {
            seq![PotionKind::HeroicBrew]
        } else {
            Seq::empty()
        };
        let defense = if inv.potion_of_defense > 0 {
            brew.push(PotionKind::Defense)
        } else {
            brew
        };
        let healing = if inv.potion_of_healing > 0 {
            defense.push(PotionKind::Healing)
        } else {
            defense
        };
        let strength = if inv.potion_of_strength > 0 {
            healing.push(PotionKind::Strength)
        } else {
            healing
        };
        if inv.petrification_potion > 0 {
            strength.push(PotionKind::Petrification)
        } else {
            strength
        }
    }

    pub fn active_owned_potion_kinds(&self) -> (potions: Vec<PotionKind>)
        requires
            self.wf(),
        ensures
            potions@ == match self.spec_active_hero() {
                Some(hero) => Self::spec_owned_potions(hero),
                None => Seq::empty(),
            },
    {
        let hero = match self.active_hero() {
            Some(hero) => hero,
            None => return Vec::new(),
        };
        let mut potions: Vec<PotionKind> = Vec::new();
        if hero.inventory.heroic_brew > 0 {
            potions.push(PotionKind::HeroicBrew);
        }
        if hero.inventory.potion_of_defense > 0 {
            potions.push(PotionKind::Defense);
        }
        if hero.inventory.potion_of_healing > 0 {
            potions.push(PotionKind::Healing);
        }
        if hero.inventory.potion_of_strength > 0 {
            potions.push(PotionKind::Strength);
        }
        if hero.inventory.petrification_potion > 0 {
            potions.push(PotionKind::Petrification);
        }
        potions
    }

    /// The fallen heroes among the first `n` in turn order (dead and not
    /// escaped).
    pub open spec fn fallen_upto(self, n: nat) -> Seq<UnitId>
        decreases n,
    {
        if n == 0 {
            Seq::empty()
        } else {
            let prev = self.fallen_upto((n - 1) as nat);
            let id = self.hero_order@[n - 1];
            if self.spec_unit(id) matches Some(hero) && !hero.alive && !hero.escaped {
                prev.push(id)
            } else {
                prev
            }
        }
    }

    /// The active hero may use the Elixir of Life: alive, in the dungeon,
    /// able to act, with equipment at hand and the Elixir owned.
    pub open spec fn can_use_elixir(owner: Unit) -> bool {
        &&& owner.alive
        &&& !owner.escaped
        &&& !owner.sleeping
        &&& !owner.clouded
        &&& owner.petrified_turns == 0
        &&& owner.equipment_available
        &&& owner.inventory.artifacts@.contains(crate::cards::Artifact::ElixirOfLife)
    }

    /// The fallen heroes the active hero's Elixir of Life could revive.
    pub fn elixir_of_life_targets(&self) -> (targets: Vec<UnitId>)
        requires
            self.wf(),
        ensures
            targets@ == match self.spec_active_hero() {
                Some(owner) => if Self::can_use_elixir(owner) {
                    self.fallen_upto(self.hero_order@.len())
                } else {
                    Seq::empty()
                },
                None => Seq::empty(),
            },
    {
        let owner = match self.active_hero() {
            Some(owner) => owner,
            None => return Vec::new(),
        };
        if !owner.alive || owner.escaped || owner.sleeping || owner.clouded || owner.petrified_turns
            > 0 || !owner.equipment_available || !game::contains_artifact(
            &owner.inventory.artifacts,
            crate::cards::Artifact::ElixirOfLife,
        ) {
            return Vec::new();
        }
        let mut targets: Vec<UnitId> = Vec::new();
        let mut i: usize = 0;
        while i < self.hero_order.len()
            invariant
                self.wf(),
                i <= self.hero_order@.len(),
                targets@ == self.fallen_upto(i as nat),
            decreases self.hero_order.len() - i,
        {
            let id = self.hero_order[i];
            let fallen = match self.unit(id) {
                Some(hero) => !hero.alive && !hero.escaped,
                None => false,
            };
            if fallen {
                targets.push(id);
            }
            i = i + 1;
        }
        targets
    }
}

} // verus!
