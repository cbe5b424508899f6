//! Casting an elemental spell: the card (or a Spell Ring charge) is spent,
//! the action is used, and the spell takes effect on its figure or door, or
//! waits for its dice.
use vstd::prelude::*;

use crate::cards::{HeroSpell, spec_spell_name};
use crate::model::Pos;
use crate::status::decimal_text;
use crate::engine::{
    Game, has_unit_id, lemma_slot_of, lemma_wf_after_unit_change, lemma_wf_ids, logged_one_line,
    unit_slot,
};
use crate::game::{
    HeroSpellCast, HeroSpellDiceKind, HeroSpellRoll, HeroSpellTarget, HeroTurnState, RuleError,
    Unit, UnitId, defense_is_armed, spec_armed_defense, spec_effective_defense_dice,
    spec_effective_mind, spec_uses_spell_ring, spec_uses_wand_of_magic,
};

verus! {

/// `i` is where the first copy of `spell` lies among `cards`.
pub open spec fn first_copy(cards: Seq<HeroSpell>, spell: HeroSpell, i: int) -> bool {
    &&& 0 <= i < cards.len()
    &&& cards[i] == spell
    &&& forall|j: int| 0 <= j < i ==> cards[j] != spell
}

/// The Spell Ring pays for this cast: it holds `spell` and has a charge left.
pub open spec fn ring_pays(caster: Unit, spell: HeroSpell) -> bool {
    spec_uses_spell_ring(caster) && caster.spell_ring_spell == Some(spell)
        && caster.spell_ring_casts_left > 0
}

/// `after` is the caster once `spell` is paid for: a Spell Ring charge is
/// spent where the ring pays, and the first copy of the card goes to the
/// discards unless a ring charge is left.
pub open spec fn card_spent(before: Unit, after: Unit, spell: HeroSpell) -> bool {
    let ring = ring_pays(before, spell);
    let left = if ring {
        (before.spell_ring_casts_left - 1) as u8
    } else {
        before.spell_ring_casts_left
    };
    &&& after == (Unit {
        hero_spells: after.hero_spells,
        discarded_hero_spells: after.discarded_hero_spells,
        spell_ring_casts_left: left,
        ..before
    })
    &&& if !ring || left == 0 {
        exists|i: int|
            #[trigger] first_copy(before.hero_spells@, spell, i) && after.hero_spells@
                == before.hero_spells@.remove(i) && after.discarded_hero_spells@
                == before.discarded_hero_spells@.push(spell)
    } else {
        after.hero_spells@ == before.hero_spells@ && after.discarded_hero_spells@
            == before.discarded_hero_spells@
    }
}

/// The figure a spell is cast at, once the spell has taken hold of it.
#[verifier::opaque]
pub open spec fn spell_effect(unit: Unit, spell: HeroSpell, caster: UnitId) -> Unit {
    if spell == HeroSpell::Tempest {
        Unit {
            skip_turns: if unit.skip_turns == u8::MAX {
                u8::MAX
            } else {
                (unit.skip_turns + 1) as u8
            },
            ..unit
        }
    } else if spell == HeroSpell::HealBody || spell == HeroSpell::WaterOfHealing {
        Unit {
            body: if unit.body + 4 < unit.stats.body {
                (unit.body + 4) as i16
            } else {
                unit.stats.body as i16
            },
            ..unit
        }
    } else if spell == HeroSpell::Sleep {
        Unit { sleeping: true, hero_sleep_caster: Some(caster), ..unit }
    } else if spell == HeroSpell::SwiftWind {
        Unit { swift_wind: true, ..unit }
    } else if spell == HeroSpell::PassThroughRock {
        Unit { pass_through_rock: true, ..unit }
    } else if spell == HeroSpell::RockSkin {
        Unit { rock_skin: true, ..unit }
    } else if spell == HeroSpell::Courage {
        Unit { courage: true, ..unit }
    } else if spell == HeroSpell::VeilOfMist {
        Unit { veil_of_mist: true, ..unit }
    } else {
        unit
    }
}

/// What a spell does to the figure it holds, case by case.
proof fn lemma_effect_unfolds(unit: Unit, spell: HeroSpell, caster: UnitId)
    ensures
        spell == HeroSpell::Tempest ==> spell_effect(unit, spell, caster) == (Unit {
            skip_turns: if unit.skip_turns == u8::MAX {
                u8::MAX
            } else {
                (unit.skip_turns + 1) as u8
            },
            ..unit
        }),
        (spell == HeroSpell::HealBody || spell == HeroSpell::WaterOfHealing) ==> spell_effect(
            unit,
            spell,
            caster,
        ) == (Unit {
            body: if unit.body + 4 < unit.stats.body {
                (unit.body + 4) as i16
            } else {
                unit.stats.body as i16
            },
            ..unit
        }),
        spell == HeroSpell::Sleep ==> spell_effect(unit, spell, caster) == (Unit {
            sleeping: true,
            hero_sleep_caster: Some(caster),
            ..unit
        }),
        !(spell == HeroSpell::Tempest || spell == HeroSpell::HealBody || spell
            == HeroSpell::WaterOfHealing || spell == HeroSpell::Sleep) ==> spell_effect(
            unit,
            spell,
            caster,
        ) == (if spell == HeroSpell::SwiftWind {
            Unit { swift_wind: true, ..unit }
        } else if spell == HeroSpell::PassThroughRock {
            Unit { pass_through_rock: true, ..unit }
        } else if spell == HeroSpell::RockSkin {
            Unit { rock_skin: true, ..unit }
        } else if spell == HeroSpell::Courage {
            Unit { courage: true, ..unit }
        } else if spell == HeroSpell::VeilOfMist {
            Unit { veil_of_mist: true, ..unit }
        } else {
            unit
        }),
{
    reveal(spell_effect);
}

/// A spell leaves the figure it holds where it stands, under its own id.
proof fn lemma_effect_keeps_place(unit: Unit, spell: HeroSpell, caster: UnitId)
    ensures
        spell_effect(unit, spell, caster).id == unit.id,
        spell_effect(unit, spell, caster).pos == unit.pos,
        spell_effect(unit, spell, caster).stats == unit.stats,
        spell == HeroSpell::Genie ==> spell_effect(unit, spell, caster) == unit,
        (spell == HeroSpell::HealBody || spell == HeroSpell::WaterOfHealing) && unit.body
            < unit.stats.body ==> unit.body <= spell_effect(unit, spell, caster).body <= unit.body + 4,
{
    reveal(spell_effect);
}

/// The spells whose outcome waits for dice.
pub open spec fn spell_rolls(spell: HeroSpell) -> bool {
    spell == HeroSpell::BallOfFlame || spell == HeroSpell::FireOfWrath || spell == HeroSpell::Sleep
        || spell == HeroSpell::Genie
}

/// The dice a spell cast at `unit` (already under the spell) asks for: two
/// red dice for Ball of Flame, one for Fire of Wrath, the target's Mind in
/// red dice for Sleep, and for Genie five attack dice against the target's
/// defend dice.
pub open spec fn spell_roll(caster: UnitId, target: UnitId, spell: HeroSpell, unit: Unit) -> HeroSpellRoll {
    let defend = spec_effective_defense_dice(unit) as u8;
    HeroSpellRoll {
        caster,
        target,
        spell,
        dice_count: match spell {
            HeroSpell::BallOfFlame => 2,
            HeroSpell::FireOfWrath => 1,
            HeroSpell::Sleep => spec_effective_mind(unit) as u8,
            _ => (5 + defend) as u8,
        },
        kind: if spell == HeroSpell::Genie {
            HeroSpellDiceKind::Combat { attack_dice: 5, defend_dice: defend }
        } else {
            HeroSpellDiceKind::Red
        },
    }
}

impl Game {
    /// The active hero's figure is on the board whenever there is one.
    pub open spec fn caster_present(self) -> bool {
        self.spec_active_hero_id() matches Some(id) ==> self.spec_unit(id) is Some
    }

    /// The dice a spell at a figure asks for can be counted: a Sleep target's
    /// Mind, and a Genie target's defend dice with five more, fit in a byte.
    pub open spec fn spell_dice_fit(self, spell: HeroSpell, target: HeroSpellTarget) -> bool {
        target matches HeroSpellTarget::Unit(id) ==> (self.spec_unit(id) matches Some(unit) ==> {
            &&& spell == HeroSpell::Sleep ==> crate::game::mind_fits(unit)
            &&& spell == HeroSpell::Genie ==> (defense_is_armed(unit) ==> spec_armed_defense(unit)
                <= u8::MAX) && spec_effective_defense_dice(unit) + 5 <= u8::MAX
        })
    }

    /// Why the active hero cannot cast `spell` at `target` now, if it cannot.
    pub open spec fn spell_refusal(self, spell: HeroSpell, target: HeroSpellTarget) -> Option<RuleError> {
        if self.pending_hero_spell_roll is Some {
            Some(RuleError::HeroSpellRollPending)
        } else {
            match self.spec_active_awake_hero_id() {
                Err(e) => Some(e),
                Ok(id) => {
                    let caster = self.spec_unit(id)->Some_0;
                    if !caster.spellcasting_available {
                        Some(RuleError::SpellcastingUnavailable)
                    } else if !self.spell_action_allowed(caster, spell) {
                        Some(RuleError::AlreadyActed)
                    } else if !caster.hero_spells@.contains(spell) {
                        Some(RuleError::NoHeroSpell)
                    } else if !self.spec_spell_targets(spell).contains(target) {
                        Some(RuleError::InvalidHeroSpellTarget)
                    } else {
                        None
                    }
                },
            }
        }
    }

    /// The turn once a spell is cast: the action is used (or, after one,
    /// the Wand of Magic's second spell), the Wand remembers the first
    /// spell, and a hero who has moved can move no further.
    pub open spec fn turn_after_cast(self, caster: Unit, spell: HeroSpell) -> HeroTurnState {
        let acted = if self.hero_turn.action_used {
            HeroTurnState { wand_follow_up_used: true, ..self.hero_turn }
        } else {
            HeroTurnState {
                action_used: true,
                wand_first_spell: if spec_uses_wand_of_magic(caster) {
                    Some(spell)
                } else {
                    self.hero_turn.wand_first_spell
                },
                ..self.hero_turn
            }
        };
        if self.hero_turn.moved_steps > 0 {
            HeroTurnState { movement_left: 0, ..acted }
        } else {
            acted
        }
    }

    /// `paid` is this game once the active hero has paid for `spell`.
    pub open spec fn spell_paid(self, spell: HeroSpell, paid: Game) -> bool {
        let slot = unit_slot(self.units@, self.spec_active_hero_id()->Some_0);
        let caster = self.units@[slot];
        &&& paid.units@ == self.units@.update(slot, paid.units@[slot])
        &&& card_spent(caster, paid.units@[slot], spell)
        &&& paid == (Game {
            units: paid.units,
            hero_turn: self.turn_after_cast(caster, spell),
            ..self
        })
    }

    /// `after` is this (paid) game once `spell`, cast by `caster` at
    /// `target`, takes effect: Genie flings a door open; at a figure the
    /// spell takes hold, and a spell with dice waits for them; one line is
    /// logged.
    pub open spec fn spell_took_effect(
        self,
        caster: UnitId,
        spell: HeroSpell,
        target: HeroSpellTarget,
        cast: HeroSpellCast,
        after: Game,
    ) -> bool {
        match target {
            HeroSpellTarget::Door(index) => {
                &&& cast == HeroSpellCast::Resolved
                &&& exists|opened: Game|
                    #[trigger] self.door_opened(index as int, opened) && after == (Game {
                        log: after.log,
                        ..opened
                    }) && logged_one_line(opened.log@, after.log@) && after.log@.last()@ == genie_door_text(
                        self.units@[unit_slot(self.units@, caster)].name@,
                        self.doors@[index as int].a,
                        self.doors@[index as int].b,
                    )
            },
            HeroSpellTarget::Unit(id) => {
                let slot = unit_slot(self.units@, id);
                let held = spell_effect(self.units@[slot], spell, caster);
                &&& after.units@ == self.units@.update(slot, held)
                &&& logged_one_line(self.log@, after.log@)
                &&& after.log@.last()@ == cast_text(
                    self.units@[unit_slot(self.units@, caster)].name@,
                    spell,
                    self.units@[slot].name@,
                    held.body - self.units@[slot].body,
                    cast,
                )
                &&& if spell_rolls(spell) {
                    let roll = spell_roll(caster, id, spell, held);
                    &&& cast == HeroSpellCast::Roll(roll)
                    &&& after == (Game {
                        units: after.units,
                        log: after.log,
                        pending_hero_spell_roll: Some(roll),
                        ..self
                    })
                } else {
                    &&& cast == HeroSpellCast::Resolved
                    &&& after == (Game { units: after.units, log: after.log, ..self })
                }
            },
        }
    }

    /// `after` is this game once the active hero has cast `spell` at
    /// `target`, with `cast` what came of it.
    pub open spec fn spell_cast(self, spell: HeroSpell, target: HeroSpellTarget, cast: HeroSpellCast, after: Game) -> bool {
        exists|paid: Game|
            #[trigger] self.spell_paid(spell, paid) && paid.spell_took_effect(
                self.spec_active_hero_id()->Some_0,
                spell,
                target,
                cast,
                after,
            )
    }
}

/// The figures a spell other than Genie may be cast at are figures, each
/// one the caster may cast it at.
proof fn lemma_spell_units(game: Game, caster: Unit, spell: HeroSpell, n: nat)
    requires
        n <= game.units@.len(),
    ensures
        forall|x: HeroSpellTarget|
            #[trigger] game.spell_units_upto(caster, spell, n).contains(x) ==> (x matches HeroSpellTarget::Unit(
                id,
            ) && exists|i: int|
                0 <= i < n && game.units@[i].id == id && game.spell_may_target(
                    caster,
                    spell,
                    #[trigger] game.units@[i],
                )),
    decreases n,
{
    if n > 0 {
        lemma_spell_units(game, caster, spell, (n - 1) as nat);
        let earlier = game.spell_units_upto(caster, spell, (n - 1) as nat);
        let unit = game.units@[n - 1];
        assert forall|x: HeroSpellTarget| #[trigger]
            game.spell_units_upto(caster, spell, n).contains(x) implies (x matches HeroSpellTarget::Unit(
                id,
            ) && exists|i: int|
                0 <= i < n && game.units@[i].id == id && game.spell_may_target(
                    caster,
                    spell,
                    #[trigger] game.units@[i],
                )) by {
            if !earlier.contains(x) {
                assert(x == HeroSpellTarget::Unit(unit.id));
                assert(game.spell_may_target(caster, spell, game.units@[n - 1]));
            }
        }
    }
}

/// Genie's figures are figures it may strike.
proof fn lemma_genie_units(game: Game, n: nat)
    requires
        n <= game.units@.len(),
    ensures
        forall|x: HeroSpellTarget|
            #[trigger] game.genie_units_upto(n).contains(x) ==> (x matches HeroSpellTarget::Unit(id)
                && exists|i: int|
                0 <= i < n && game.units@[i].id == id && game.genie_may_strike(#[trigger] game.units@[i])),
    decreases n,
{
    if n > 0 {
        lemma_genie_units(game, (n - 1) as nat);
        let earlier = game.genie_units_upto((n - 1) as nat);
        let unit = game.units@[n - 1];
        assert forall|x: HeroSpellTarget| #[trigger] game.genie_units_upto(n).contains(x) implies (x matches HeroSpellTarget::Unit(
            id,
        ) && exists|i: int|
            0 <= i < n && game.units@[i].id == id && game.genie_may_strike(#[trigger] game.units@[i])) by {
            if !earlier.contains(x) {
                assert(x == HeroSpellTarget::Unit(unit.id));
                assert(game.genie_may_strike(game.units@[n - 1]));
            }
        }
    }
}

/// Genie's doors are doors it may open.
proof fn lemma_genie_doors(game: Game, n: nat)
    requires
        n <= game.doors@.len(),
        game.doors@.len() <= usize::MAX,
    ensures
        forall|x: HeroSpellTarget|
            #[trigger] game.genie_doors_upto(n).contains(x) ==> (x matches HeroSpellTarget::Door(d) && d
                < n && game.genie_may_open(game.doors@[d as int])),
    decreases n,
{
    if n > 0 {
        lemma_genie_doors(game, (n - 1) as nat);
        let earlier = game.genie_doors_upto((n - 1) as nat);
        assert forall|x: HeroSpellTarget| #[trigger] game.genie_doors_upto(n).contains(x) implies (x matches HeroSpellTarget::Door(
            d,
        ) && d < n && game.genie_may_open(game.doors@[d as int])) by {
            if !earlier.contains(x) {
                assert(x == HeroSpellTarget::Door((n - 1) as usize));
            }
        }
    }
}

/// A target the active hero may cast `spell` at is a door only for Genie,
/// one Genie may open, and otherwise a figure on the board, short of its
/// Body Points when the spell heals.
proof fn lemma_target_kinds(game: Game, spell: HeroSpell, target: HeroSpellTarget)
    requires
        game.spec_spell_targets(spell).contains(target),
        game.doors@.len() <= usize::MAX,
    ensures
        target matches HeroSpellTarget::Door(d) ==> (spell == HeroSpell::Genie && game.door_refusal(d as int)
            is None),
        target matches HeroSpellTarget::Unit(id) ==> (has_unit_id(game.units@, id) && ((spell
            == HeroSpell::HealBody || spell == HeroSpell::WaterOfHealing) ==> exists|i: int|
            0 <= i < game.units@.len() && game.units@[i].id == id && #[trigger] game.units@[i].body
                < game.units@[i].stats.body)),
{
    let caster = game.spec_active_hero()->Some_0;
    let units = game.genie_units_upto(game.units@.len());
    let doors = game.genie_doors_upto(game.doors@.len());
    if spell == HeroSpell::Genie {
        lemma_genie_units(game, game.units@.len());
        lemma_genie_doors(game, game.doors@.len());
        if units.contains(target) {
        } else {
            let k = choose|k: int| 0 <= k < (units + doors).len() && (units + doors)[k] == target;
            assert(doors[k - units.len()] == target);
            assert(doors.contains(target));
        }
    } else {
        lemma_spell_units(game, caster, spell, game.units@.len());
    }
}

impl Unit {
    /// This figure once it has paid for `spell` with the card at `card`, its
    /// first copy, or with a Spell Ring charge.
    fn pay_for(self, card: usize, spell: HeroSpell) -> (unit: Unit)
        requires
            first_copy(self.hero_spells@, spell, card as int),
        ensures
            card_spent(self, unit, spell),
    {
        let ring = self.uses_spell_ring() && match self.spell_ring_spell {
            Some(stored) => stored == spell,
            None => false,
        } && self.spell_ring_casts_left > 0;
        let left = if ring {
            self.spell_ring_casts_left - 1
        } else {
            self.spell_ring_casts_left
        };
        if !ring || left == 0 {
            let mut spells = self.hero_spells;
            let removed = spells.remove(card);
            let mut discarded = self.discarded_hero_spells;
            discarded.push(removed);
            Unit {
                hero_spells: spells,
                discarded_hero_spells: discarded,
                spell_ring_casts_left: left,
                ..self
            }
        } else {
            Unit { spell_ring_casts_left: left, ..self }
        }
    }

    /// This figure with one more turn to miss, short of the most a count
    /// can hold.
    fn storm_bound(self) -> (unit: Unit)
        ensures
            unit == (Unit {
                skip_turns: if self.skip_turns == u8::MAX {
                    u8::MAX
                } else {
                    (self.skip_turns + 1) as u8
                },
                ..self
            }),
    {
        let skip_turns = self.skip_turns.saturating_add(1);
        Unit { skip_turns, ..self }
    }

    /// This figure healed by four Body Points, up to its starting Body.
    fn healed_by_spell(self) -> (unit: Unit)
        requires
            self.body < self.stats.body,
        ensures
            unit == (Unit {
                body: if self.body + 4 < self.stats.body {
                    (self.body + 4) as i16
                } else {
                    self.stats.body as i16
                },
                ..self
            }),
    {
        let healed = self.body + 4;
        let body = if healed < self.stats.body as i16 {
            healed
        } else {
            self.stats.body as i16
        };
        Unit { body, ..self }
    }

    /// This figure once `spell`, cast by `caster`, has taken hold of it.
    #[verifier::spinoff_prover]
    #[verifier::rlimit(80)]
    fn under_spell(self, spell: HeroSpell, caster: UnitId) -> (unit: Unit)
        requires
            (spell == HeroSpell::HealBody || spell == HeroSpell::WaterOfHealing) ==> self.body
                < self.stats.body,
        ensures
            unit == spell_effect(self, spell, caster),
    {
        proof {
            lemma_effect_unfolds(self, spell, caster);
        }
        if spell == HeroSpell::HealBody || spell == HeroSpell::WaterOfHealing {
            self.healed_by_spell()
        } else if spell == HeroSpell::Tempest {
            self.storm_bound()
        } else if spell == HeroSpell::Sleep {
            self.put_to_sleep(caster)
        } else {
            self.blessed(spell)
        }
    }

    /// This figure asleep under a hero's Sleep spell.
    fn put_to_sleep(self, caster: UnitId) -> (unit: Unit)
        ensures
            unit == (Unit { sleeping: true, hero_sleep_caster: Some(caster), ..self }),
    {
        Unit { sleeping: true, hero_sleep_caster: Some(caster), ..self }
    }

    /// This figure with the lasting boon of `spell`, if it grants one.
    fn blessed(self, spell: HeroSpell) -> (unit: Unit)
        ensures
            unit == (if spell == HeroSpell::SwiftWind {
                Unit { swift_wind: true, ..self }
            } else if spell == HeroSpell::PassThroughRock {
                Unit { pass_through_rock: true, ..self }
            } else if spell == HeroSpell::RockSkin {
                Unit { rock_skin: true, ..self }
            } else if spell == HeroSpell::Courage {
                Unit { courage: true, ..self }
            } else if spell == HeroSpell::VeilOfMist {
                Unit { veil_of_mist: true, ..self }
            } else {
                self
            }),
    {
        let swift_wind = self.swift_wind || spell == HeroSpell::SwiftWind;
        let pass_through_rock = self.pass_through_rock || spell == HeroSpell::PassThroughRock;
        let rock_skin = self.rock_skin || spell == HeroSpell::RockSkin;
        let courage = self.courage || spell == HeroSpell::Courage;
        let veil_of_mist = self.veil_of_mist || spell == HeroSpell::VeilOfMist;
        Unit { swift_wind, pass_through_rock, rock_skin, courage, veil_of_mist, ..self }
    }
}

impl Game {
    /// The active hero pays for `spell` with the card at `card`, its first
    /// copy, or with a Spell Ring charge.
    #[verifier::spinoff_prover]
    #[verifier::rlimit(30)]
    fn spend_card(&mut self, slot: usize, card: usize, spell: HeroSpell)
        requires
            old(self).wf(),
            slot < old(self).units@.len(),
            first_copy(old(self).units@[slot as int].hero_spells@, spell, card as int),
        ensures
            final(self).wf(),
            final(self).units@ == old(self).units@.update(slot as int, final(self).units@[slot as int]),
            card_spent(old(self).units@[slot as int], final(self).units@[slot as int], spell),
            *final(self) == (Game { units: final(self).units, ..*old(self) }),
    {
        let ghost before = *self;
        let mut unit = Unit::vacant();
        self.units.set_and_swap(slot, &mut unit);
        assert(unit == before.units@[slot as int]);
        let changed = unit.pay_for(card, spell);
        self.units.set(slot, changed);
        proof {
            assert(self.units@ =~= before.units@.update(slot as int, changed));
            lemma_wf_after_unit_change(before, *self, slot as int);
        }
    }

    /// The spell takes hold of the figure at `slot`.
    #[verifier::spinoff_prover]
    #[verifier::rlimit(30)]
    fn take_hold(&mut self, slot: usize, spell: HeroSpell, caster: UnitId)
        requires
            old(self).wf(),
            slot < old(self).units@.len(),
            (spell == HeroSpell::HealBody || spell == HeroSpell::WaterOfHealing) ==> old(
                self,
            ).units@[slot as int].body < old(self).units@[slot as int].stats.body,
        ensures
            final(self).wf(),
            final(self).units@ == old(self).units@.update(
                slot as int,
                spell_effect(old(self).units@[slot as int], spell, caster),
            ),
            *final(self) == (Game { units: final(self).units, ..*old(self) }),
    {
        let ghost before = *self;
        let mut unit = Unit::vacant();
        self.units.set_and_swap(slot, &mut unit);
        assert(unit == before.units@[slot as int]);
        let changed = unit.under_spell(spell, caster);
        self.units.set(slot, changed);
        proof {
            lemma_effect_keeps_place(before.units@[slot as int], spell, caster);
            assert(self.units@ =~= before.units@.update(slot as int, changed));
            lemma_wf_after_unit_change(before, *self, slot as int);
        }
    }
}

/// Where the first copy of `spell` lies among `cards`, if anywhere.
fn first_card(cards: &Vec<HeroSpell>, spell: HeroSpell) -> (card: Option<usize>)
    ensures
        match card {
            Some(i) => first_copy(cards@, spell, i as int),
            None => !cards@.contains(spell),
        },
{
    let mut i: usize = 0;
    while i < cards.len()
        invariant
            i <= cards@.len(),
            forall|j: int| 0 <= j < i ==> cards@[j] != spell,
        decreases cards.len() - i,
    {
        if cards[i] == spell {
            return Some(i);
        }
        i = i + 1;
    }
    None
}

/// Whether `target` is among `targets`.
fn has_target(targets: &Vec<HeroSpellTarget>, target: HeroSpellTarget) -> (found: bool)
    ensures
        found == targets@.contains(target),
{
    let mut i: usize = 0;
    while i < targets.len()
        invariant
            i <= targets@.len(),
            forall|j: int| 0 <= j < i ==> targets@[j] != target,
        decreases targets.len() - i,
    {
        if targets[i] == target {
            proof {
                assert(targets@[i as int] == target);
            }
            return true;
        }
        i = i + 1;
    }
    false
}

impl Game {
    /// The active hero casts `spell` at `target`: the card (or a Spell Ring
    /// charge) is spent and the action used; Genie flings a door open; a
    /// spell at a figure takes hold of it, and Ball of Flame, Fire of Wrath,
    /// Sleep and Genie then wait for their dice.
    #[verifier::spinoff_prover]
    #[verifier::rlimit(100)]
    pub fn cast_active_hero_spell(&mut self, spell: HeroSpell, target: HeroSpellTarget) -> (cast: Result<HeroSpellCast, RuleError>)
        requires
            old(self).wf(),
            old(self).caster_present(),
            old(self).spell_dice_fit(spell, target),
        ensures
            final(self).wf(),
            match cast {
                Err(e) => old(self).spell_refusal(spell, target) == Some(e) && *final(self) == *old(self),
                Ok(c) => old(self).spell_refusal(spell, target) is None && old(self).spell_cast(
                    spell,
                    target,
                    c,
                    *final(self),
                ),
            },
    {
        if self.pending_hero_spell_roll.is_some() {
            return Err(RuleError::HeroSpellRollPending);
        }
        let caster_id = match self.active_awake_hero_id() {
            Ok(id) => id,
            Err(e) => return Err(e),
        };
        proof {
            lemma_wf_ids(*self);
        }
        let slot = match self.unit_index(caster_id) {
            Some(i) => i,
            None => return Err(RuleError::NotHeroTurn),
        };
        proof {
            lemma_slot_of(self.units@, caster_id, slot as int);
        }
        if !self.units[slot].spellcasting_available {
            return Err(RuleError::SpellcastingUnavailable);
        }
        if !self.hero_spell_action_allowed(&self.units[slot], spell) {
            return Err(RuleError::AlreadyActed);
        }
        let card = match first_card(&self.units[slot].hero_spells, spell) {
            Some(card) => card,
            None => return Err(RuleError::NoHeroSpell),
        };
        let targets = self.valid_hero_spell_targets(spell);
        if !has_target(&targets, target) {
            return Err(RuleError::InvalidHeroSpellTarget);
        }
        let door_count = self.doors.len();
        proof {
            lemma_target_kinds(*self, spell, target);
        }
        let ghost start = *self;
        let caster_name = self.units[slot].name.clone();
        let wand = self.units[slot].uses_wand_of_magic();
        self.spend_card(slot, card, spell);
        if self.hero_turn.action_used {
            self.hero_turn.wand_follow_up_used = true;
        } else {
            self.hero_turn.action_used = true;
            if wand {
                self.hero_turn.wand_first_spell = Some(spell);
            }
        }
        if self.hero_turn.moved_steps > 0 {
            self.hero_turn.movement_left = 0;
        }
        proof {
            reveal(Game::wf);
            assert(start.spell_paid(spell, *self));
        }
        let ghost paid = *self;
        proof {
            lemma_wf_ids(paid);
            assert(paid.units@[slot as int].id == caster_id);
            lemma_slot_of(paid.units@, caster_id, slot as int);
            assert(caster_name@ == paid.units@[unit_slot(paid.units@, caster_id)].name@);
        }
        match target {
            HeroSpellTarget::Door(index) => {
                let opened = self.open_door_index(index);
                match opened {
                    Ok((a, b)) => {
                        let mut line = caster_name;
                        line.append(" cast Genie; the door at ");
                        line.append(crate::status::decimal_string(a.x as u64 + 1).as_str());
                        line.append(",");
                        line.append(crate::status::decimal_string(a.y as u64 + 1).as_str());
                        line.append(" - ");
                        line.append(crate::status::decimal_string(b.x as u64 + 1).as_str());
                        line.append(",");
                        line.append(crate::status::decimal_string(b.y as u64 + 1).as_str());
                        line.append(" flew open.");
                        let ghost opened_game = *self;
                        self.push_log(line);
                        proof {
                            assert(paid.door_opened(index as int, opened_game));
                            assert(paid.spell_took_effect(caster_id, spell, target, HeroSpellCast::Resolved, *self));
                        }
                        Ok(HeroSpellCast::Resolved)
                    },
                    Err(e) => Err(e),
                }
            },
            HeroSpellTarget::Unit(target_id) => {
                proof {
                    lemma_paid_target(start, *self, spell, target_id);
                }
                let outcome = self.cast_at_figure(caster_id, caster_name, spell, target_id);
                Ok(outcome)
            },
        }
    }

    /// `spell`, paid for, takes hold of the figure `target`; the line is
    /// logged.
    #[verifier::spinoff_prover]
    #[verifier::rlimit(60)]
    fn cast_at_figure(&mut self, caster_id: UnitId, caster_name: String, spell: HeroSpell, target_id: UnitId) -> (outcome: HeroSpellCast)
        requires
            old(self).wf(),
            has_unit_id(old(self).units@, target_id),
            old(self).target_fits(spell, target_id),
            caster_name@ == old(self).units@[unit_slot(old(self).units@, caster_id)].name@,
        ensures
            final(self).wf(),
            old(self).spell_took_effect(caster_id, spell, HeroSpellTarget::Unit(target_id), outcome, *final(self)),
    {
        proof {
            lemma_wf_ids(*self);
        }
        let t = match self.unit_index(target_id) {
            Some(t) => t,
            None => return HeroSpellCast::Resolved,
        };
        proof {
            lemma_effect_keeps_place(self.units@[t as int], spell, caster_id);
            lemma_effect_unfolds(self.units@[t as int], spell, caster_id);
        }
        let ghost paid = *self;
        let target_name = self.units[t].name.clone();
        let before_body = self.units[t].body;
        self.take_hold(t, spell, caster_id);
        let restored: i16 = if spell == HeroSpell::HealBody || spell == HeroSpell::WaterOfHealing {
            self.units[t].body - before_body
        } else {
            0
        };
        let outcome = self.spell_outcome(caster_id, target_id, t, spell);
        let line = cast_line(caster_name, spell, target_name, restored, outcome);
        self.push_log(line);
        proof {
            assert(paid.spell_took_effect(caster_id, spell, HeroSpellTarget::Unit(target_id), outcome, *self));
        }
        outcome
    }

    /// The figure `target` may take `spell`: short of its Body Points for a
    /// healing spell, and with dice that can be counted.
    pub open spec fn target_fits(self, spell: HeroSpell, target: UnitId) -> bool {
        let unit = self.units@[unit_slot(self.units@, target)];
        &&& (spell == HeroSpell::HealBody || spell == HeroSpell::WaterOfHealing) ==> unit.body
            < unit.stats.body
        &&& spell == HeroSpell::Sleep ==> crate::game::mind_fits(unit)
        &&& spell == HeroSpell::Genie ==> (defense_is_armed(unit) ==> spec_armed_defense(unit)
            <= u8::MAX) && spec_effective_defense_dice(unit) + 5 <= u8::MAX
    }
}

/// Paying for a spell leaves its target figure on the board, fit to take it.
proof fn lemma_paid_target(start: Game, paid: Game, spell: HeroSpell, target: UnitId)
    requires
        start.wf(),
        start.caster_present(),
        start.spell_dice_fit(spell, HeroSpellTarget::Unit(target)),
        start.spec_spell_targets(spell).contains(HeroSpellTarget::Unit(target)),
        start.doors@.len() <= usize::MAX,
        start.spec_active_hero_id() is Some,
        start.spell_paid(spell, paid),
        paid.wf(),
    ensures
        has_unit_id(paid.units@, target),
        paid.target_fits(spell, target),
{
    lemma_wf_ids(start);
    lemma_target_kinds(start, spell, HeroSpellTarget::Unit(target));
    let i = choose|i: int| 0 <= i < start.units@.len() && #[trigger] start.units@[i].id == target;
    lemma_slot_of(start.units@, target, i);
    let cs = unit_slot(start.units@, start.spec_active_hero_id()->Some_0);
    assert(paid.units@[i].id == target);
    lemma_wf_ids(paid);
    lemma_slot_of(paid.units@, target, i);
}


impl Game {
    /// Sets the dice a spell at the figure at `slot` waits for, if it waits
    /// for any.
    #[verifier::spinoff_prover]
    #[verifier::rlimit(40)]
    fn spell_outcome(&mut self, caster: UnitId, target: UnitId, slot: usize, spell: HeroSpell) -> (cast: HeroSpellCast)
        requires
            old(self).wf(),
            slot < old(self).units@.len(),
            spell == HeroSpell::Sleep ==> crate::game::mind_fits(old(self).units@[slot as int]),
            spell == HeroSpell::Genie ==> (defense_is_armed(old(self).units@[slot as int])
                ==> spec_armed_defense(old(self).units@[slot as int]) <= u8::MAX)
                && spec_effective_defense_dice(old(self).units@[slot as int]) + 5 <= u8::MAX,
        ensures
            final(self).wf(),
            if spell_rolls(spell) {
                let roll = spell_roll(caster, target, spell, old(self).units@[slot as int]);
                &&& cast == HeroSpellCast::Roll(roll)
                &&& *final(self) == (Game { pending_hero_spell_roll: Some(roll), ..*old(self) })
            } else {
                &&& cast == HeroSpellCast::Resolved
                &&& *final(self) == *old(self)
            },
    {
        proof {
            reveal(Game::wf);
        }
        let roll = if spell == HeroSpell::BallOfFlame {
            HeroSpellRoll { caster, target, spell, dice_count: 2, kind: HeroSpellDiceKind::Red }
        } else if spell == HeroSpell::FireOfWrath {
            HeroSpellRoll { caster, target, spell, dice_count: 1, kind: HeroSpellDiceKind::Red }
        } else if spell == HeroSpell::Sleep {
            let mind = self.units[slot].effective_mind();
            HeroSpellRoll { caster, target, spell, dice_count: mind, kind: HeroSpellDiceKind::Red }
        } else if spell == HeroSpell::Genie {
            let defend = self.units[slot].effective_defense_dice();
            HeroSpellRoll {
                caster,
                target,
                spell,
                dice_count: 5 + defend,
                kind: HeroSpellDiceKind::Combat { attack_dice: 5, defend_dice: defend },
            }
        } else {
            return HeroSpellCast::Resolved;
        };
        self.pending_hero_spell_roll = Some(roll);
        HeroSpellCast::Roll(roll)
    }
}

/// The line logged when `caster` flings open with Genie the door between
/// `a` and `b`, squares counted from one.
pub open spec fn genie_door_text(caster: Seq<char>, a: Pos, b: Pos) -> Seq<char> {
    caster + " cast Genie; the door at "@ + decimal_text((a.x + 1) as nat) + ","@ + decimal_text((a.y + 1) as nat)
        + " - "@ + decimal_text((b.x + 1) as nat) + ","@ + decimal_text((b.y + 1) as nat) + " flew open."@
}

/// What a spell cast at a figure adds to the line after the target's name.
pub open spec fn cast_effect_text(spell: HeroSpell, restored: int, outcome: HeroSpellCast) -> Seq<char> {
    match outcome {
        HeroSpellCast::Roll(roll) => "; "@ + decimal_text(roll.dice_count as nat)
            + " physical red dice must resolve the spell."@,
        HeroSpellCast::Resolved => if spell == HeroSpell::HealBody || spell == HeroSpell::WaterOfHealing {
            ", restoring "@ + (if restored >= 0 {
                decimal_text(restored as nat)
            } else {
                Seq::empty()
            }) + " Body Points."@
        } else if spell == HeroSpell::SwiftWind {
            "; the next movement roll uses twice the normal red dice."@
        } else if spell == HeroSpell::PassThroughRock {
            "; walls may be crossed during the next move."@
        } else if spell == HeroSpell::RockSkin {
            "; one extra defend die applies until damage is suffered."@
        } else if spell == HeroSpell::Courage {
            "; the next attack gains two combat dice."@
        } else {
            "; Monsters may be passed through during the next move."@
        },
    }
}

/// The line logged when `caster` casts `spell` at the figure `target`,
/// `restored` Body Points coming back to it, with `outcome` what came of it.
pub open spec fn cast_text(caster: Seq<char>, spell: HeroSpell, target: Seq<char>, restored: int, outcome: HeroSpellCast) -> Seq<char> {
    if spell == HeroSpell::Genie {
        caster + " summoned the Genie to attack "@ + target + " with five combat dice."@
    } else if spell == HeroSpell::Tempest {
        caster + " cast Tempest; "@ + target + " will miss the next turn."@
    } else {
        caster + " cast "@ + spec_spell_name(spell) + " on "@ + target + cast_effect_text(spell, restored, outcome)
    }
}

/// The line logged for a spell cast at a figure.
fn cast_line(caster: String, spell: HeroSpell, target: String, restored: i16, outcome: HeroSpellCast) -> (line: String)
    ensures
        line@ == cast_text(caster@, spell, target@, restored as int, outcome),
{
    let mut line = caster;
    if spell == HeroSpell::Genie {
        line.append(" summoned the Genie to attack ");
        line.append(target.as_str());
        line.append(" with five combat dice.");
        return line;
    }
    if spell == HeroSpell::Tempest {
        line.append(" cast Tempest; ");
        line.append(target.as_str());
        line.append(" will miss the next turn.");
        return line;
    }
    line.append(" cast ");
    line.append(spell.name());
    line.append(" on ");
    line.append(target.as_str());
    match outcome {
        HeroSpellCast::Roll(roll) => {
            line.append("; ");
            line.append(crate::status::decimal_string(roll.dice_count as u64).as_str());
            line.append(" physical red dice must resolve the spell.");
        },
        HeroSpellCast::Resolved => {
            if spell == HeroSpell::HealBody || spell == HeroSpell::WaterOfHealing {
                line.append(", restoring ");
                if restored >= 0 {
                    line.append(crate::status::decimal_string(restored as u64).as_str());
                }
                line.append(" Body Points.");
            } else if spell == HeroSpell::SwiftWind {
                line.append("; the next movement roll uses twice the normal red dice.");
            } else if spell == HeroSpell::PassThroughRock {
                line.append("; walls may be crossed during the next move.");
            } else if spell == HeroSpell::RockSkin {
                line.append("; one extra defend die applies until damage is suffered.");
            } else if spell == HeroSpell::Courage {
                line.append("; the next attack gains two combat dice.");
            } else {
                line.append("; Monsters may be passed through during the next move.");
            }
        },
    }
    line
}

} // verus!
