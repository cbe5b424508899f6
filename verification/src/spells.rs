//! Which elemental spells the active hero may cast, store or resist, and the
//! figures and doors each spell may be cast at.
use vstd::prelude::*;

use crate::cards::{ChaosSpell, HeroSpell, spec_spell_name};
use crate::engine::{
    Game, lemma_slot_of, lemma_wf_ids, logged_one_line, spec_cell_index, spec_in_bounds, unit_slot,
};
use crate::game::{
    Door, HeroSpellTarget, RuleError, Unit, UnitId, spec_effective_mind, spec_immune_to_hero_spell,
    spec_uses_spell_ring, spec_uses_wand_of_magic,
};
use crate::model::{Faction, FigureKind, MonsterKind};

verus! {

/// The side a spell other than Genie is cast at.
pub open spec fn spell_target_faction(spell: HeroSpell) -> Faction {
    match spell {
        HeroSpell::Tempest | HeroSpell::BallOfFlame | HeroSpell::FireOfWrath | HeroSpell::Sleep => Faction::Monster,
        _ => Faction::Hero,
    }
}

/// Whether `spell` is among `spells`.
fn contains_spell(spells: &Vec<HeroSpell>, spell: HeroSpell) -> (found: bool)
    ensures
        found == spells@.contains(spell),
{
    let mut i: usize = 0;
    while i < spells.len()
        invariant
            i <= spells.len(),
            forall|j: int| 0 <= j < i ==> spells@[j] != spell,
        decreases spells.len() - i,
    {
        if spells[i] == spell {
            return true;
        }
        i = i + 1;
    }
    false
}

/// Whether `spell` is among `spells`.
fn contains_chaos_spell(spells: &Vec<ChaosSpell>, spell: ChaosSpell) -> (found: bool)
    ensures
        found == spells@.contains(spell),
{
    let mut i: usize = 0;
    while i < spells.len()
        invariant
            i <= spells.len(),
            forall|j: int| 0 <= j < i ==> spells@[j] != spell,
        decreases spells.len() - i,
    {
        if spells[i] == spell {
            return true;
        }
        i = i + 1;
    }
    false
}

/// The undead, whom Sleep cannot touch.
pub open spec fn is_undead(unit: Unit) -> bool {
    unit.figure == FigureKind::Monster(MonsterKind::Skeleton) || unit.figure == FigureKind::Monster(
        MonsterKind::Zombie,
    ) || unit.figure == FigureKind::Monster(MonsterKind::Mummy)
}

impl Game {
    /// A spell may be cast this turn: the action is still free, or the
    /// Wand of Magic lets a second, different spell follow the first.
    pub open spec fn spell_action_allowed(self, caster: Unit, spell: HeroSpell) -> bool {
        ||| !self.hero_turn.action_used
        ||| spec_uses_wand_of_magic(caster) && !self.hero_turn.wand_follow_up_used
            && self.hero_turn.wand_first_spell is Some && self.hero_turn.wand_first_spell
            != Some(spell)
    }

    pub(crate) fn hero_spell_action_allowed(&self, caster: &Unit, spell: HeroSpell) -> (allowed: bool)
        ensures
            allowed == self.spell_action_allowed(*caster, spell),
    {
        if !self.hero_turn.action_used {
            return true;
        }
        caster.uses_wand_of_magic() && !self.hero_turn.wand_follow_up_used && match self.hero_turn.wand_first_spell {
            Some(first) => first != spell,
            None => false,
        }
    }

    /// The caster is free to cast: awake, not stone, able to cast, and no
    /// spell's dice are awaited.
    pub open spec fn free_to_cast(self, caster: Unit) -> bool {
        &&& !caster.sleeping
        &&& !caster.clouded
        &&& caster.petrified_turns == 0
        &&& caster.spellcasting_available
        &&& self.pending_hero_spell_roll is None
    }

    /// The first `n` of the caster's spell cards that it may cast now, in
    /// order.
    pub open spec fn castable_upto(self, caster: Unit, n: nat) -> Seq<HeroSpell>
        decreases n,
    {
        if n == 0 {
            Seq::empty()
        } else {
            let earlier = self.castable_upto(caster, (n - 1) as nat);
            let spell = caster.hero_spells@[n - 1];
            if self.spell_action_allowed(caster, spell) {
                earlier.push(spell)
            } else {
                earlier
            }
        }
    }

    pub open spec fn spec_castable_hero_spells(self) -> Seq<HeroSpell> {
        match self.spec_active_hero() {
            None => Seq::empty(),
            Some(caster) => if self.free_to_cast(caster) {
                self.castable_upto(caster, caster.hero_spells@.len())
            } else {
                Seq::empty()
            },
        }
    }

    /// The spell cards the active hero may cast now, in the order it holds
    /// them.
    pub fn active_castable_hero_spells(&self) -> (spells: Vec<HeroSpell>)
        requires
            self.wf(),
        ensures
            spells@ == self.spec_castable_hero_spells(),
    {
        let caster = match self.active_hero() {
            Some(caster) => caster,
            None => return Vec::new(),
        };
        if caster.sleeping || caster.clouded || caster.petrified_turns > 0
            || !caster.spellcasting_available || self.pending_hero_spell_roll.is_some() {
            return Vec::new();
        }
        let mut spells: Vec<HeroSpell> = Vec::new();
        let mut i: usize = 0;
        while i < caster.hero_spells.len()
            invariant
                i <= caster.hero_spells@.len(),
                spells@ == self.castable_upto(*caster, i as nat),
            decreases caster.hero_spells.len() - i,
        {
            let spell = caster.hero_spells[i];
            if self.hero_spell_action_allowed(caster, spell) {
                spells.push(spell);
            }
            i = i + 1;
        }
        spells
    }

    pub open spec fn spec_ring_storable_spells(self) -> Seq<HeroSpell> {
        match self.spec_active_hero() {
            None => Seq::empty(),
            Some(hero) => if !hero.alive || hero.escaped || hero.sleeping || hero.clouded
                || hero.petrified_turns > 0 || !spec_uses_spell_ring(hero) || hero.spell_ring_spell
                is Some || self.hero_turn.movement_roll is Some || self.hero_turn.moved_steps > 0
                || self.hero_turn.action_used {
                Seq::empty()
            } else {
                hero.hero_spells@
            },
        }
    }

    /// The spell cards the active Elf or Wizard may declare stored in its
    /// Spell Ring: all it holds, before it has moved or acted, while the
    /// Ring holds none.
    pub fn spell_ring_storable_spells(&self) -> (spells: Vec<HeroSpell>)
        requires
            self.wf(),
        ensures
            spells@ == self.spec_ring_storable_spells(),
    {
        let hero = match self.active_hero() {
            Some(hero) => hero,
            None => return Vec::new(),
        };
        if !hero.alive || hero.escaped || hero.sleeping || hero.clouded || hero.petrified_turns > 0
            || !hero.uses_spell_ring() || hero.spell_ring_spell.is_some()
            || self.hero_turn.movement_roll.is_some() || self.hero_turn.moved_steps > 0
            || self.hero_turn.action_used {
            return Vec::new();
        }
        let mut spells: Vec<HeroSpell> = Vec::new();
        let mut i: usize = 0;
        while i < hero.hero_spells.len()
            invariant
                i <= hero.hero_spells@.len(),
                spells@ == hero.hero_spells@.take(i as int),
            decreases hero.hero_spells.len() - i,
        {
            proof {
                assert(hero.hero_spells@.take(i + 1) =~= hero.hero_spells@.take(i as int).push(
                    hero.hero_spells@[i as int],
                ));
            }
            spells.push(hero.hero_spells[i]);
            i = i + 1;
        }
        proof {
            assert(hero.hero_spells@.take(i as int) =~= hero.hero_spells@);
        }
        spells
    }

    /// The Chaos spell the active hero must next try to resist, if any:
    /// Sleep, then Cloud of Chaos, Fear and Command, each while it holds the
    /// hero and has not been resisted this turn; with the hero's id and the
    /// Mind Points it resists with.
    pub open spec fn spec_spell_resistance(self) -> Option<(UnitId, ChaosSpell, u8)> {
        match self.spec_active_hero() {
            None => None,
            Some(hero) => {
                let resolved = self.hero_turn.resolved_chaos_resistances@;
                let mind = spec_effective_mind(hero) as u8;
                if hero.sleeping && !resolved.contains(ChaosSpell::Sleep) {
                    Some((hero.id, ChaosSpell::Sleep, mind))
                } else if hero.clouded && !resolved.contains(ChaosSpell::CloudOfChaos) {
                    Some((hero.id, ChaosSpell::CloudOfChaos, mind))
                } else if hero.fearful && !resolved.contains(ChaosSpell::Fear) {
                    Some((hero.id, ChaosSpell::Fear, mind))
                } else if hero.commanded && !resolved.contains(ChaosSpell::Command) {
                    Some((hero.id, ChaosSpell::Command, mind))
                } else {
                    None
                }
            },
        }
    }

    /// The Chaos spell the active hero must next try to resist, if any.
    pub fn pending_hero_spell_resistance(&self) -> (resistance: Option<(UnitId, ChaosSpell, u8)>)
        requires
            self.wf(),
            self.spec_active_hero() matches Some(hero) ==> crate::game::mind_fits(hero),
        ensures
            resistance == self.spec_spell_resistance(),
    {
        let hero = match self.active_hero() {
            Some(hero) => hero,
            None => return None,
        };
        let resolved = &self.hero_turn.resolved_chaos_resistances;
        let spell = if hero.sleeping && !contains_chaos_spell(resolved, ChaosSpell::Sleep) {
            ChaosSpell::Sleep
        } else if hero.clouded && !contains_chaos_spell(resolved, ChaosSpell::CloudOfChaos) {
            ChaosSpell::CloudOfChaos
        } else if hero.fearful && !contains_chaos_spell(resolved, ChaosSpell::Fear) {
            ChaosSpell::Fear
        } else if hero.commanded && !contains_chaos_spell(resolved, ChaosSpell::Command) {
            ChaosSpell::Command
        } else {
            return None;
        };
        Some((hero.id, spell, hero.effective_mind()))
    }
}

impl Game {
    /// A monster Genie may strike: alive, awake, on the board and not
    /// immune.
    pub open spec fn genie_may_strike(self, unit: Unit) -> bool {
        &&& unit.alive
        &&& unit.faction == Faction::Monster
        &&& !unit.dormant
        &&& self.spec_is_visible(unit)
        &&& !spec_immune_to_hero_spell(unit, HeroSpell::Genie)
    }

    /// A door Genie may open: closed, a true door, not a hidden secret one,
    /// beside a revealed square.
    pub open spec fn genie_may_open(self, door: Door) -> bool {
        &&& !door.open
        &&& !door.false_door
        &&& (!door.secret || door.discovered)
        &&& (self.cells@[spec_cell_index(door.a)].revealed || self.cells@[spec_cell_index(
            door.b,
        )].revealed)
    }

    /// A figure the caster may cast `spell` at: alive and in the dungeon,
    /// of the side the spell is cast at, awake, on the board, in the
    /// caster's sight and not immune; a healing spell only at a figure
    /// short of its Body Points, Sleep never at the undead, and Courage only
    /// at a figure that sees a monster.
    pub open spec fn spell_may_target(self, caster: Unit, spell: HeroSpell, unit: Unit) -> bool {
        &&& unit.alive
        &&& !unit.escaped
        &&& unit.faction == spell_target_faction(spell)
        &&& !unit.dormant
        &&& self.spec_is_visible(unit)
        &&& self.spec_can_see(caster.pos, unit.pos)
        &&& !spec_immune_to_hero_spell(unit, spell)
        &&& (spell == HeroSpell::HealBody || spell == HeroSpell::WaterOfHealing) ==> unit.body
            < unit.stats.body
        &&& spell == HeroSpell::Sleep ==> !is_undead(unit)
        &&& spell == HeroSpell::Courage ==> exists|i: int|
            0 <= i < self.units@.len() && self.sees_monster(unit.pos, #[trigger] self.units@[i])
    }

    /// The first `n` figures Genie may strike, in order.
    pub open spec fn genie_units_upto(self, n: nat) -> Seq<HeroSpellTarget>
        decreases n,
    {
        if n == 0 {
            Seq::empty()
        } else {
            let earlier = self.genie_units_upto((n - 1) as nat);
            let unit = self.units@[n - 1];
            if self.genie_may_strike(unit) {
                earlier.push(HeroSpellTarget::Unit(unit.id))
            } else {
                earlier
            }
        }
    }

    /// The first `n` doors Genie may open, in order.
    pub open spec fn genie_doors_upto(self, n: nat) -> Seq<HeroSpellTarget>
        decreases n,
    {
        if n == 0 {
            Seq::empty()
        } else {
            let earlier = self.genie_doors_upto((n - 1) as nat);
            if self.genie_may_open(self.doors@[n - 1]) {
                earlier.push(HeroSpellTarget::Door((n - 1) as usize))
            } else {
                earlier
            }
        }
    }

    /// The first `n` figures the caster may cast `spell` at, in order.
    pub open spec fn spell_units_upto(self, caster: Unit, spell: HeroSpell, n: nat) -> Seq<
        HeroSpellTarget,
    >
        decreases n,
    {
        if n == 0 {
            Seq::empty()
        } else {
            let earlier = self.spell_units_upto(caster, spell, (n - 1) as nat);
            let unit = self.units@[n - 1];
            if self.spell_may_target(caster, spell, unit) {
                earlier.push(HeroSpellTarget::Unit(unit.id))
            } else {
                earlier
            }
        }
    }

    /// Everything the active hero may cast `spell` at now: nothing unless it
    /// is free to cast, holds the card and may still cast; for Genie the
    /// monsters it may strike and then the doors it may open; for any other
    /// spell the figures it may be cast at.
    pub open spec fn spec_spell_targets(self, spell: HeroSpell) -> Seq<HeroSpellTarget> {
        match self.spec_active_hero() {
            None => Seq::empty(),
            Some(caster) => if !(self.free_to_cast(caster) && caster.hero_spells@.contains(spell)
                && self.spell_action_allowed(caster, spell)) {
                Seq::empty()
            } else if spell == HeroSpell::Genie {
                self.genie_units_upto(self.units@.len()) + self.genie_doors_upto(self.doors@.len())
            } else {
                self.spell_units_upto(caster, spell, self.units@.len())
            },
        }
    }

    fn genie_targets(&self) -> (targets: Vec<HeroSpellTarget>)
        requires
            self.wf(),
        ensures
            targets@ == self.genie_units_upto(self.units@.len()) + self.genie_doors_upto(
                self.doors@.len(),
            ),
    {
        let mut targets: Vec<HeroSpellTarget> = Vec::new();
        let mut i: usize = 0;
        while i < self.units.len()
            invariant
                self.wf(),
                i <= self.units@.len(),
                targets@ == self.genie_units_upto(i as nat),
            decreases self.units.len() - i,
        {
            proof {
                reveal(Game::wf);
                assert(spec_in_bounds(self.units@[i as int].pos));
            }
            let unit = &self.units[i];
            if unit.alive && unit.faction == Faction::Monster && !unit.dormant && self.is_visible(unit)
                && !unit.is_immune_to_hero_spell(HeroSpell::Genie) {
                targets.push(HeroSpellTarget::Unit(unit.id));
            }
            i = i + 1;
        }
        let ghost units_part = targets@;
        let mut d: usize = 0;
        while d < self.doors.len()
            invariant
                self.wf(),
                d <= self.doors@.len(),
                units_part == self.genie_units_upto(self.units@.len()),
                targets@ == units_part + self.genie_doors_upto(d as nat),
            decreases self.doors.len() - d,
        {
            proof {
                reveal(Game::wf);
                assert(spec_in_bounds(self.doors@[d as int].a) && spec_in_bounds(self.doors@[d as int].b));
            }
            let door = &self.doors[d];
            if !door.open && !door.false_door && (!door.secret || door.discovered) && (
            self.cells[Self::cell_index(door.a)].revealed
                || self.cells[Self::cell_index(door.b)].revealed) {
                targets.push(HeroSpellTarget::Door(d));
            }
            proof {
                assert(units_part + self.genie_doors_upto((d + 1) as nat) =~= if self.genie_may_open(
                    self.doors@[d as int],
                ) {
                    (units_part + self.genie_doors_upto(d as nat)).push(HeroSpellTarget::Door(d))
                } else {
                    units_part + self.genie_doors_upto(d as nat)
                });
            }
            d = d + 1;
        }
        targets
    }

    /// Every figure and door the active hero may cast `spell` at now.
    pub fn valid_hero_spell_targets(&self, spell: HeroSpell) -> (targets: Vec<HeroSpellTarget>)
        requires
            self.wf(),
        ensures
            targets@ == self.spec_spell_targets(spell),
    {
        let caster = match self.active_hero() {
            Some(caster) => caster,
            None => return Vec::new(),
        };
        if caster.sleeping || caster.clouded || caster.petrified_turns > 0
            || !caster.spellcasting_available || !contains_spell(&caster.hero_spells, spell)
            || self.pending_hero_spell_roll.is_some() || !self.hero_spell_action_allowed(
            caster,
            spell,
        ) {
            return Vec::new();
        }
        if spell == HeroSpell::Genie {
            return self.genie_targets();
        }
        let target_faction = match spell {
            HeroSpell::Tempest | HeroSpell::BallOfFlame | HeroSpell::FireOfWrath | HeroSpell::Sleep => Faction::Monster,
            _ => Faction::Hero,
        };
        proof {
            lemma_wf_ids(*self);
        }
        let mut targets: Vec<HeroSpellTarget> = Vec::new();
        let mut i: usize = 0;
        while i < self.units.len()
            invariant
                self.wf(),
                crate::engine::unique_unit_ids(self.units@),
                target_faction == spell_target_faction(spell),
                i <= self.units@.len(),
                targets@ == self.spell_units_upto(*caster, spell, i as nat),
            decreases self.units.len() - i,
        {
            proof {
                reveal(Game::wf);
                assert(spec_in_bounds(self.units@[i as int].pos));
            }
            let unit = &self.units[i];
            let mut allowed = unit.alive && !unit.escaped && unit.faction == target_faction
                && !unit.dormant && self.is_visible(unit) && self.can_see(caster.pos, unit.pos)
                && !unit.is_immune_to_hero_spell(spell);
            if allowed && (spell == HeroSpell::HealBody || spell == HeroSpell::WaterOfHealing) {
                allowed = unit.body < unit.stats.body as i16;
            }
            if allowed && spell == HeroSpell::Sleep {
                allowed = !matches!(
                    unit.figure,
                    FigureKind::Monster(MonsterKind::Skeleton)
                        | FigureKind::Monster(MonsterKind::Zombie)
                        | FigureKind::Monster(MonsterKind::Mummy)
                );
            }
            if allowed && spell == HeroSpell::Courage {
                proof {
                    lemma_slot_of(self.units@, unit.id, i as int);
                }
                allowed = self.unit_can_see_monster(unit.id);
            }
            if allowed {
                targets.push(HeroSpellTarget::Unit(unit.id));
            }
            i = i + 1;
        }
        targets
    }
}

impl Game {
    /// The spell cards the active hero holds.
    pub fn active_hero_spells(&self) -> (spells: &[HeroSpell])
        requires
            self.wf(),
        ensures
            spells@ == match self.spec_active_hero() {
                Some(hero) => hero.hero_spells@,
                None => Seq::empty(),
            },
    {
        match self.active_hero() {
            Some(hero) => hero.hero_spells.as_slice(),
            None => &[],
        }
    }

    /// Why `spell` cannot be stored in the active hero's Spell Ring, if it
    /// cannot.
    pub open spec fn ring_refusal(self, spell: HeroSpell) -> Option<RuleError> {
        if !self.spec_ring_storable_spells().contains(spell) {
            if self.spec_active_hero() matches Some(hero) && spec_uses_spell_ring(hero) {
                Some(RuleError::InvalidSpellRingSpell)
            } else {
                Some(RuleError::SpellRingUnavailable)
            }
        } else {
            None
        }
    }

    /// The active Elf or Wizard declares `spell` stored in its Spell Ring,
    /// to be cast twice this quest.
    pub fn store_active_spell_in_ring(&mut self, spell: HeroSpell) -> (result: Result<(), RuleError>)
        requires
            old(self).wf(),
        ensures
            final(self).wf(),
            match result {
                Err(e) => old(self).ring_refusal(spell) == Some(e) && *final(self) == *old(self),
                Ok(()) => old(self).ring_refusal(spell) is None && {
                    let id = old(self).spec_active_hero_id()->Some_0;
                    let slot = unit_slot(old(self).units@, id);
                    &&& final(self).units@ == old(self).units@.update(
                        slot,
                        Unit {
                            spell_ring_spell: Some(spell),
                            spell_ring_casts_left: 2,
                            ..old(self).units@[slot]
                        },
                    )
                    &&& logged_one_line(old(self).log@, final(self).log@)
                    &&& final(self).log@.last()@ == old(self).units@[slot].name@ + " stored "@ + spec_spell_name(
                        spell,
                    ) + " in the Spell Ring; it may be cast twice this Quest."@
                    &&& *final(self) == (Game {
                        units: final(self).units,
                        log: final(self).log,
                        ..*old(self)
                    })
                },
            },
    {
        let storable = self.spell_ring_storable_spells();
        if !contains_spell(&storable, spell) {
            let uses_ring = match self.active_hero() {
                Some(hero) => hero.uses_spell_ring(),
                None => false,
            };
            return Err(if uses_ring {
                RuleError::InvalidSpellRingSpell
            } else {
                RuleError::SpellRingUnavailable
            });
        }
        let hero_id = match self.active_awake_hero_id() {
            Ok(id) => id,
            Err(e) => return Err(e),
        };
        proof {
            lemma_wf_ids(*self);
        }
        let index = match self.unit_index(hero_id) {
            Some(index) => index,
            None => return Err(RuleError::NotHeroTurn),
        };
        proof {
            lemma_slot_of(self.units@, hero_id, index as int);
        }
        self.unit_set_spell_ring(index, Some(spell), 2);
        let mut message = self.units[index].name.clone();
        message.append(" stored ");
        message.append(spell.name());
        message.append(" in the Spell Ring; it may be cast twice this Quest.");
        self.push_log(message);
        Ok(())
    }
}

} // verus!
