//! The dice an elemental spell waits for: red dice for Ball of Flame, Fire
//! of Wrath and Sleep, combat dice for the Genie's attack.
use vstd::prelude::*;

use crate::cards::HeroSpell;
use crate::engine::{
    Game, all_d6_faces, all_faces_valid, has_unit_id, lemma_slot_of, lemma_wf_ids, log_after,
    logged_one_line, spec_in_bounds, unit_slot,
};
use crate::game::{
    CombatOutcome, CombatVisualEvent, HeroSpellDiceKind, HeroSpellRoll, RuleError, Unit, UnitId,
};
use crate::hazards::skulls;
use crate::model::{CombatFace, FigureKind, MonsterKind};
use crate::status::decimal_string;

verus! {

/// How many of `dice` show five or six.
pub open spec fn high_faces(dice: Seq<u8>) -> nat
    decreases dice.len(),
{
    if dice.len() == 0 {
        0
    } else {
        high_faces(dice.drop_last()) + if dice.last() >= 5 {
            1nat
        } else {
            0nat
        }
    }
}

/// How many of `faces` are black shields.
pub open spec fn black_shields(faces: Seq<CombatFace>) -> nat
    decreases faces.len(),
{
    if faces.len() == 0 {
        0
    } else {
        black_shields(faces.drop_last()) + if faces.last() == CombatFace::BlackShield {
            1nat
        } else {
            0nat
        }
    }
}

/// How many of `dice` show five or six.
fn count_high(dice: &[u8]) -> (n: u8)
    requires
        dice@.len() <= 255,
    ensures
        n == high_faces(dice@),
{
    let mut n: u8 = 0;
    let mut i: usize = 0;
    while i < dice.len()
        invariant
            i <= dice@.len() <= 255,
            n == high_faces(dice@.subrange(0, i as int)),
            n <= i,
        decreases dice.len() - i,
    {
        proof {
            assert(dice@.subrange(0, i as int + 1).drop_last() =~= dice@.subrange(0, i as int));
        }
        if dice[i] >= 5 {
            n = n + 1;
        }
        i = i + 1;
    }
    proof {
        assert(dice@.subrange(0, dice@.len() as int) =~= dice@);
    }
    n
}

/// How many of `faces` show `face`, for skulls and black shields.
fn count_faces(faces: &[CombatFace], face: CombatFace) -> (n: u8)
    requires
        faces@.len() <= 255,
        face == CombatFace::Skull || face == CombatFace::BlackShield,
    ensures
        face == CombatFace::Skull ==> n == skulls(faces@),
        face == CombatFace::BlackShield ==> n == black_shields(faces@),
{
    let mut n: u8 = 0;
    let mut i: usize = 0;
    while i < faces.len()
        invariant
            i <= faces@.len() <= 255,
            face == CombatFace::Skull || face == CombatFace::BlackShield,
            face == CombatFace::Skull ==> n == skulls(faces@.subrange(0, i as int)),
            face == CombatFace::BlackShield ==> n == black_shields(faces@.subrange(0, i as int)),
            n <= i,
        decreases faces.len() - i,
    {
        proof {
            assert(faces@.subrange(0, i as int + 1).drop_last() =~= faces@.subrange(0, i as int));
        }
        if faces[i] == face {
            n = n + 1;
        }
        i = i + 1;
    }
    proof {
        assert(faces@.subrange(0, faces@.len() as int) =~= faces@);
    }
    n
}

/// Whether any of `dice` shows a six.
fn any_six(dice: &[u8]) -> (six: bool)
    ensures
        six == dice@.contains(6u8),
{
    let mut i: usize = 0;
    while i < dice.len()
        invariant
            i <= dice@.len(),
            forall|j: int| 0 <= j < i ==> dice@[j] != 6,
        decreases dice.len() - i,
    {
        if dice[i] == 6 {
            proof {
                assert(dice@[i as int] == 6u8);
            }
            return true;
        }
        i = i + 1;
    }
    false
}

impl Game {
    /// `after` is this game once the spell cast by `caster` hits `target`
    /// for `damage`: its Body Points drop (not below zero) and Rock Skin
    /// breaks on any damage, a figure at zero is dealt with, the blow is
    /// shown, and a figure defeated pays its bounty to the caster and sets
    /// off the quest notes for its defeat.
    pub open spec fn spell_damage_dealt(self, caster: UnitId, target: UnitId, damage: u8, after: Game) -> bool {
        if !has_unit_id(self.units@, target) {
            after == self
        } else {
            let slot = unit_slot(self.units@, target);
            let unit = self.units@[slot];
            exists|hit: Game, resolved: Game, died: bool|
                #![trigger hit.zero_body_resolved(target, resolved, died)]
                hit.units@ == self.units@.update(
                    slot,
                    Unit {
                        body: if unit.body - damage < 0 {
                            0
                        } else {
                            (unit.body - damage) as i16
                        },
                        rock_skin: unit.rock_skin && damage == 0,
                        ..unit
                    },
                ) && hit == (Game { units: hit.units, ..self }) && hit.zero_body_resolved(
                    target,
                    resolved,
                    died,
                ) && {
                    let sequence = if resolved.visual_sequence == u64::MAX {
                        0
                    } else {
                        (resolved.visual_sequence + 1) as u64
                    };
                    let shown = Game {
                        visual_sequence: sequence,
                        last_combat_visual: Some(
                            CombatVisualEvent {
                                sequence,
                                attacker: caster,
                                defender: target,
                                damage,
                                defender_died: died,
                            },
                        ),
                        ..resolved
                    };
                    if died {
                        let figure = match resolved.spec_unit(target) {
                            Some(u) => u.figure,
                            None => FigureKind::Monster(MonsterKind::Goblin),
                        };
                        exists|paid: Game|
                            #[trigger] paid.defeat_events_resolved(unit.name@, Some(caster), after) && if figure
                                is Monster {
                                shown.bounty_paid(caster, figure, paid)
                            } else {
                                paid == shown
                            }
                    } else {
                        after == shown
                    }
                }
        }
    }

    /// The spell cast by `caster` hits `target` for `damage`.
    #[verifier::spinoff_prover]
    #[verifier::rlimit(60)]
    fn damage_from_hero_spell(&mut self, caster: UnitId, target: UnitId, damage: u8)
        requires
            old(self).wf(),
            old(self).spec_unit(target) matches Some(unit) ==> old(self).carries_in_place(unit),
        ensures
            final(self).wf(),
            old(self).spell_damage_dealt(caster, target, damage, *final(self)),
    {
        proof {
            lemma_wf_ids(*self);
        }
        let index = match self.unit_index(target) {
            Some(index) => index,
            None => return,
        };
        proof {
            lemma_slot_of(self.units@, target, index as int);
        }
        let name = self.units[index].name.clone();
        proof {
            assert(name@ == old(self).units@[index as int].name@);
        }
        self.unit_take_damage(index, damage);
        let ghost hit = *self;
        proof {
            lemma_wf_ids(hit);
            lemma_slot_of(hit.units@, target, index as int);
        }
        let died = self.resolve_zero_body(target);
        let ghost resolved = *self;
        proof {
            reveal(Game::wf);
        }
        self.visual_sequence = self.visual_sequence.wrapping_add(1);
        self.last_combat_visual = Some(
            CombatVisualEvent {
                sequence: self.visual_sequence,
                attacker: caster,
                defender: target,
                damage,
                defender_died: died,
            },
        );
        proof {
            assert(self.wf());
        }
        let ghost shown = *self;
        if died {
            proof {
                lemma_wf_ids(*self);
            }
            let figure = match self.unit_index(target) {
                Some(i) => self.units[i].figure,
                None => FigureKind::Monster(MonsterKind::Goblin),
            };
            proof {
                if has_unit_id(self.units@, target) {
                    lemma_slot_of(self.units@, target, unit_slot(self.units@, target));
                }
            }
            match figure {
                FigureKind::Monster(kind) => {
                    self.award_monster_bounty(caster, FigureKind::Monster(kind));
                },
                FigureKind::Hero(_) => {},
            }
            let ghost paid = *self;
            self.resolve_defeat_events(&name, Some(caster));
            proof {
                assert(paid.defeat_events_resolved(name@, Some(caster), *self));
                assert(shown.spec_unit(target) == resolved.spec_unit(target));
                assert(figure == match resolved.spec_unit(target) {
                    Some(u) => u.figure,
                    None => FigureKind::Monster(MonsterKind::Goblin),
                });
                if figure is Monster {
                    assert(shown.bounty_paid(caster, figure, paid));
                } else {
                    assert(paid == shown);
                }
                assert(hit.zero_body_resolved(target, resolved, died));
                assert(old(self).spell_damage_dealt(caster, target, damage, *self));
            }
        } else {
            proof {
                assert(hit.zero_body_resolved(target, resolved, died));
            }
        }
    }
}

impl Game {
    /// The game with no spell dice waiting.
    pub open spec fn spell_roll_cleared(self) -> Game {
        Game { pending_hero_spell_roll: None, ..self }
    }

    /// `after` is this game once a line is logged and the quest is checked
    /// for its end.
    pub open spec fn told_and_settled(self, after: Game) -> bool {
        exists|told: Game|
            #![trigger told.settled_into(after)]
            told == (Game { log: told.log, ..self }) && logged_one_line(self.log@, told.log@)
                && told.settled_into(after)
    }

    /// Logs `line` and checks the quest for its end.
    fn tell_and_settle(&mut self, line: String)
        requires
            old(self).wf(),
        ensures
            final(self).wf(),
            old(self).told_and_settled(*final(self)),
    {
        let ghost told_line = line;
        self.push_log(line);
        let ghost told = *self;
        proof {
            assert(told.log@ == log_after(old(self).log@, told_line));
        }
        self.check_terminal();
        proof {
            assert(told.settled_into(*self));
        }
    }

    /// The thrown red `dice` are not the roll's number of dice of one to six.
    pub open spec fn red_dice_wrong(roll: HeroSpellRoll, dice: Seq<u8>) -> bool {
        dice.len() != roll.dice_count || !all_d6_faces(dice)
    }

    /// Why `dice` cannot settle the red-dice spell roll `roll`, if they
    /// cannot: wrong dice; a roll not waiting or not of red dice; or (the
    /// roll then cleared) its target gone or its spell one without red dice.
    pub open spec fn red_roll_refusal(self, roll: HeroSpellRoll, dice: Seq<u8>) -> Option<RuleError> {
        if self.pending_hero_spell_roll != Some(roll) || roll.kind != HeroSpellDiceKind::Red
            || Game::red_dice_wrong(roll, dice) {
            if Game::red_dice_wrong(roll, dice) {
                Some(RuleError::InvalidDice)
            } else {
                Some(RuleError::StaleHeroSpellRoll)
            }
        } else if self.spec_unit(roll.target) is None || !(roll.spell == HeroSpell::BallOfFlame
            || roll.spell == HeroSpell::FireOfWrath || roll.spell == HeroSpell::Sleep) {
            Some(RuleError::StaleHeroSpellRoll)
        } else {
            None
        }
    }

    /// The Body Points a red-dice spell costs its target: Ball of Flame two,
    /// less one per five or six; Fire of Wrath one unless the die shows five
    /// or six.
    pub open spec fn red_damage(roll: HeroSpellRoll, dice: Seq<u8>) -> u8 {
        if roll.spell == HeroSpell::BallOfFlame {
            if high_faces(dice) >= 2 {
                0
            } else {
                (2 - high_faces(dice)) as u8
            }
        } else if dice[0] >= 5 {
            0
        } else {
            1
        }
    }

    /// `after` is this game (the roll cleared) once the red `dice` take
    /// effect: Ball of Flame and Fire of Wrath wound the target, Sleep holds
    /// it unless a six was thrown; a line is logged and the quest checked
    /// for its end.
    pub open spec fn red_roll_applied(self, roll: HeroSpellRoll, dice: Seq<u8>, after: Game) -> bool {
        if roll.spell == HeroSpell::Sleep {
            let awakened = dice.contains(6u8);
            let slot = unit_slot(self.units@, roll.target);
            let unit = self.units@[slot];
            exists|slept: Game|
                #![trigger slept.told_and_settled(after)]
                slept.units@ == self.units@.update(slot, Game::sleep_result(unit, awakened)) && slept
                    == (Game { units: slept.units, ..self }) && slept.told_and_settled(after)
        } else {
            exists|dealt: Game|
                #![trigger dealt.told_and_settled(after)]
                self.spell_damage_dealt(roll.caster, roll.target, Game::red_damage(roll, dice), dealt)
                    && dealt.told_and_settled(after)
        }
    }

    /// A figure under a hero's Sleep once the dice are read.
    pub open spec fn sleep_result(unit: Unit, awakened: bool) -> Unit {
        if awakened {
            Unit { sleeping: false, hero_sleep_caster: None, ..unit }
        } else {
            Unit { sleeping: true, ..unit }
        }
    }

    /// Settles the red dice a Ball of Flame, Fire of Wrath or Sleep spell
    /// waits for.
    #[verifier::spinoff_prover]
    #[verifier::rlimit(100)]
    pub fn resolve_hero_spell_red_roll(&mut self, roll: HeroSpellRoll, dice: &[u8]) -> (result: Result<(), RuleError>)
        requires
            old(self).wf(),
            old(self).spec_unit(roll.target) matches Some(unit) ==> old(self).carries_in_place(unit),
            old(self).red_roll_refusal(roll, dice@) is None && roll.spell == HeroSpell::FireOfWrath
                ==> dice@.len() >= 1,
        ensures
            final(self).wf(),
            match result {
                Err(e) => old(self).red_roll_refusal(roll, dice@) == Some(e) && *final(self) == if old(
                    self,
                ).pending_hero_spell_roll == Some(roll) && roll.kind == HeroSpellDiceKind::Red
                    && !Game::red_dice_wrong(roll, dice@) {
                    old(self).spell_roll_cleared()
                } else {
                    *old(self)
                },
                Ok(()) => old(self).red_roll_refusal(roll, dice@) is None && old(
                    self,
                ).spell_roll_cleared().red_roll_applied(roll, dice@, *final(self)),
            },
    {
        let wrong = dice.len() != roll.dice_count as usize || !all_faces_valid(dice);
        if self.pending_hero_spell_roll != Some(roll) || roll.kind != HeroSpellDiceKind::Red || wrong {
            return Err(
                if wrong {
                    RuleError::InvalidDice
                } else {
                    RuleError::StaleHeroSpellRoll
                },
            );
        }
        proof {
            reveal(Game::wf);
        }
        self.pending_hero_spell_roll = None;
        proof {
            assert(self.wf());
            lemma_wf_ids(*self);
        }
        let caster_name = match self.unit_index(roll.caster) {
            Some(i) => self.units[i].name.clone(),
            None => String::from_str("The caster"),
        };
        let t = match self.unit_index(roll.target) {
            Some(t) => t,
            None => return Err(RuleError::StaleHeroSpellRoll),
        };
        proof {
            lemma_slot_of(self.units@, roll.target, t as int);
        }
        let target_name = self.units[t].name.clone();
        if roll.spell == HeroSpell::BallOfFlame || roll.spell == HeroSpell::FireOfWrath {
            self.red_damage_roll(roll, dice, target_name);
            Ok(())
        } else if roll.spell == HeroSpell::Sleep {
            self.sleep_roll(t, roll, dice, caster_name, target_name);
            Ok(())
        } else {
            Err(RuleError::StaleHeroSpellRoll)
        }
    }

    /// Ball of Flame or Fire of Wrath wounds its target as the red dice say.
    #[verifier::spinoff_prover]
    #[verifier::rlimit(60)]
    fn red_damage_roll(&mut self, roll: HeroSpellRoll, dice: &[u8], target_name: String)
        requires
            old(self).wf(),
            roll.spell == HeroSpell::BallOfFlame || roll.spell == HeroSpell::FireOfWrath,
            roll.spell == HeroSpell::FireOfWrath ==> dice@.len() >= 1,
            dice@.len() <= 255,
            old(self).spec_unit(roll.target) matches Some(unit) ==> old(self).carries_in_place(unit),
        ensures
            final(self).wf(),
            old(self).red_roll_applied(roll, dice@, *final(self)),
    {
        let mut line = target_name;
        line.append(" rolled ");
        if roll.spell == HeroSpell::BallOfFlame {
            let saves = count_high(dice);
            let damage: u8 = if saves >= 2 {
                0
            } else {
                2 - saves
            };
            self.damage_from_hero_spell(roll.caster, roll.target, damage);
            line.append(decimal_string(saves as u64).as_str());
            line.append(" Ball of Flame saves and suffered ");
            line.append(decimal_string(damage as u64).as_str());
            line.append(" Body Points.");
        } else {
            let saved = dice[0] >= 5;
            let damage: u8 = if saved {
                0
            } else {
                1
            };
            self.damage_from_hero_spell(roll.caster, roll.target, damage);
            line.append(decimal_string(dice[0] as u64).as_str());
            line.append(" against Fire of Wrath; ");
            if saved {
                line.append("the flame was extinguished.");
            } else {
                line.append("1 Body Point was lost.");
            }
        }
        let ghost dealt = *self;
        self.tell_and_settle(line);
        proof {
            assert(dealt.told_and_settled(*self));
        }
    }

    /// Sleep holds its target (at `slot`) unless a six was thrown.
    #[verifier::spinoff_prover]
    #[verifier::rlimit(60)]
    fn sleep_roll(&mut self, slot: usize, roll: HeroSpellRoll, dice: &[u8], caster_name: String, target_name: String)
        requires
            old(self).wf(),
            roll.spell == HeroSpell::Sleep,
            slot < old(self).units@.len(),
            slot == unit_slot(old(self).units@, roll.target),
        ensures
            final(self).wf(),
            old(self).red_roll_applied(roll, dice@, *final(self)),
    {
        let awakened = any_six(dice);
        let change = if awakened {
            crate::strike::Reshape::Woken
        } else {
            crate::strike::Reshape::Slumbering
        };
        self.unit_reshape(slot, change);
        let ghost slept = *self;
        let mut line = caster_name;
        line.append("'s Sleep spell ");
        if awakened {
            line.append("was broken immediately by ");
        } else {
            line.append("sent ");
        }
        line.append(target_name.as_str());
        line.append(".");
        self.tell_and_settle(line);
        proof {
            assert(slept.told_and_settled(*self));
        }
    }

    /// Why the combat dice thrown cannot settle the Genie's roll `roll`, if
    /// they cannot: a roll not of combat dice or not waiting; dice not the
    /// roll's numbers; or (the roll then cleared) its target gone.
    pub open spec fn combat_roll_refusal(
        self,
        roll: HeroSpellRoll,
        attack: Seq<CombatFace>,
        defend: Seq<CombatFace>,
    ) -> Option<RuleError> {
        match roll.kind {
            HeroSpellDiceKind::Combat { attack_dice, defend_dice } => if self.pending_hero_spell_roll
                != Some(roll) {
                Some(RuleError::StaleHeroSpellRoll)
            } else if attack.len() != attack_dice || defend.len() != defend_dice {
                Some(RuleError::InvalidDice)
            } else if self.spec_unit(roll.target) is None {
                Some(RuleError::StaleHeroSpellRoll)
            } else {
                None
            },
            _ => Some(RuleError::StaleHeroSpellRoll),
        }
    }

    /// The Genie's blow: its skulls, the target's black shields, and the
    /// damage, the skulls the shields do not stop.
    pub open spec fn genie_blow(attack: Seq<CombatFace>, defend: Seq<CombatFace>) -> (u8, u8, u8) {
        let hits = skulls(attack) as u8;
        let blocks = black_shields(defend) as u8;
        (hits, blocks, if hits > blocks {
            (hits - blocks) as u8
        } else {
            0
        })
    }

    /// Settles the Genie's attack with the combat dice thrown: each skull
    /// the target's black shields do not stop costs it a Body Point.
    #[verifier::spinoff_prover]
    #[verifier::rlimit(100)]
    pub fn resolve_hero_spell_combat_roll(
        &mut self,
        roll: HeroSpellRoll,
        attack_faces: &[CombatFace],
        defend_faces: &[CombatFace],
    ) -> (outcome: Result<CombatOutcome, RuleError>)
        requires
            old(self).wf(),
            old(self).spec_unit(roll.target) matches Some(unit) ==> old(self).carries_in_place(unit),
        ensures
            final(self).wf(),
            match outcome {
                Err(e) => old(self).combat_roll_refusal(roll, attack_faces@, defend_faces@) == Some(e)
                    && *final(self) == if e == RuleError::StaleHeroSpellRoll && roll.kind is Combat
                    && old(self).pending_hero_spell_roll == Some(roll) {
                    old(self).spell_roll_cleared()
                } else {
                    *old(self)
                },
                Ok(o) => old(self).combat_roll_refusal(roll, attack_faces@, defend_faces@) is None && {
                    let (hits, blocks, damage) = Game::genie_blow(attack_faces@, defend_faces@);
                    &&& o.skulls == hits
                    &&& o.blocks == blocks
                    &&& o.damage == damage
                    &&& exists|dealt: Game|
                        #![trigger dealt.told_and_settled(*final(self))]
                        old(self).spell_roll_cleared().spell_damage_dealt(
                            roll.caster,
                            roll.target,
                            damage,
                            dealt,
                        ) && o.defender_died == !(dealt.spec_unit(roll.target) matches Some(unit)
                            && unit.alive) && dealt.told_and_settled(*final(self))
                },
            },
    {
        let (attack_dice, defend_dice) = match roll.kind {
            HeroSpellDiceKind::Combat { attack_dice, defend_dice } => (attack_dice, defend_dice),
            _ => return Err(RuleError::StaleHeroSpellRoll),
        };
        if self.pending_hero_spell_roll != Some(roll) {
            return Err(RuleError::StaleHeroSpellRoll);
        }
        if attack_faces.len() != attack_dice as usize || defend_faces.len() != defend_dice as usize {
            return Err(RuleError::InvalidDice);
        }
        proof {
            reveal(Game::wf);
        }
        self.pending_hero_spell_roll = None;
        proof {
            assert(self.wf());
            lemma_wf_ids(*self);
        }
        let hits = count_faces(attack_faces, CombatFace::Skull);
        let blocks = count_faces(defend_faces, CombatFace::BlackShield);
        let damage: u8 = if hits > blocks {
            hits - blocks
        } else {
            0
        };
        let t = match self.unit_index(roll.target) {
            Some(t) => t,
            None => return Err(RuleError::StaleHeroSpellRoll),
        };
        proof {
            lemma_slot_of(self.units@, roll.target, t as int);
        }
        let target_name = self.units[t].name.clone();
        self.damage_from_hero_spell(roll.caster, roll.target, damage);
        let ghost dealt = *self;
        proof {
            lemma_wf_ids(*self);
        }
        let died = match self.unit_index(roll.target) {
            Some(i) => !self.units[i].alive,
            None => true,
        };
        proof {
            if has_unit_id(self.units@, roll.target) {
                lemma_slot_of(self.units@, roll.target, unit_slot(self.units@, roll.target));
            }
        }
        let mut line = String::from_str("The Genie attacked ");
        line.append(target_name.as_str());
        line.append(": ");
        line.append(decimal_string(hits as u64).as_str());
        line.append(" skulls, ");
        line.append(decimal_string(blocks as u64).as_str());
        line.append(" blocks, ");
        line.append(decimal_string(damage as u64).as_str());
        line.append(" damage");
        if died {
            line.append(" - defeated");
        }
        line.append(". ");
        self.tell_and_settle(line);
        Ok(CombatOutcome { skulls: hits, blocks, damage, defender_died: died })
    }
}

} // verus!
