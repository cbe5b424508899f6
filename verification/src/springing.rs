//! Traps sprung by a hero's step: an open pit, a hidden pit, a spear and a
//! falling block; and the hero's attempts to disarm or jump a known trap.
use vstd::prelude::*;

use crate::engine::{
    Game, has_unit_id, lemma_slot_of, lemma_wf_after_unit_change, lemma_wf_ids, log_after,
    logged_one_line, spec_in_bounds, unit_slot,
};
use crate::game::{DisarmPlan, HeroTurnState, JumpPlan, PendingTrapRoll, RuleError, Trap, Unit, UnitId};
use crate::model::{CombatFace, Direction, Pos, TrapKind};
use crate::ring::carried_home;

verus! {

/// `i` is the first trap on `pos` that a step sets off: set off by entry,
/// neither sprung nor disarmed.
pub open spec fn first_live_trap(traps: Seq<Trap>, pos: Pos, i: int) -> bool {
    &&& 0 <= i < traps.len()
    &&& live_trap(traps[i], pos)
    &&& forall|j: int| 0 <= j < i ==> !live_trap(#[trigger] traps[j], pos)
}

/// A trap on `pos` that a step sets off.
pub open spec fn live_trap(trap: Trap, pos: Pos) -> bool {
    trap.pos == pos && trap.trigger_on_entry && !trap.sprung && !trap.disarmed
}

impl Game {
    /// `after` is this game once the hero `hero` is dropped into a pit.
    pub open spec fn hero_in_pit(self, hero: UnitId, after: Game) -> bool {
        let slot = unit_slot(self.units@, hero);
        &&& after.units@ == self.units@.update(slot, Unit { in_pit: true, ..self.units@[slot] })
        &&& after == (Game { units: after.units, ..self })
    }

    /// `after` is this game once the hero, hurt for one Body Point with no
    /// defence (`start` the game before), has its movement spent, a line
    /// logged and its turn ended by force.
    pub open spec fn hurt_and_ended(self, hero: UnitId, line: Seq<char>, after: Game) -> bool {
        exists|hit: Game, told: Game|
            #![trigger self.damage_dealt(hero, 1, hit), told.log]
            self.damage_dealt(hero, 1, hit) && told == (Game {
                hero_turn: HeroTurnState { movement_left: 0, ..hit.hero_turn },
                log: told.log,
                ..hit
            }) && logged_one_line(hit.log@, told.log@) && told.log@.last()@ == line && told.forced_end(after)
    }

    /// Every hurt of one Body Point to `hero` leaves a turn that can be
    /// ended by force.
    pub open spec fn hurt_end_defined(self, hero: UnitId) -> bool {
        forall|hit: Game, told: Game|
            #![trigger self.damage_dealt(hero, 1, hit), told.log]
            self.damage_dealt(hero, 1, hit) && told == (Game {
                hero_turn: HeroTurnState { movement_left: 0, ..hit.hero_turn },
                log: told.log,
                ..hit
            }) ==> told.forced_end_defined()
    }

    /// `after` is this game once the trap at index `i` is found and sprung.
    pub open spec fn trap_sprung_at(self, i: int, after: Game) -> bool {
        &&& after.traps@ == self.traps@.update(
            i,
            Trap { discovered: true, sprung: true, ..self.traps@[i] },
        )
        &&& after == (Game { traps: after.traps, ..self })
    }

    /// `after` is this game once the hero's step from `from` onto `pos`, in
    /// `direction`, sets off what lies there: an open pit drops it in for a
    /// Body Point and ends its turn; the first live trap there is found and
    /// sprung, a pit then doing the same, a spear striking at once when
    /// `forced` and otherwise waiting for its die, and a falling block
    /// spending the movement and waiting for its dice; each logs a line.
    pub open spec fn square_trap_sprung(
        self,
        hero: UnitId,
        from: Pos,
        pos: Pos,
        direction: Direction,
        forced: bool,
        after: Game,
    ) -> bool {
        if self.spec_is_sprung_pit(pos) {
            exists|dropped: Game|
                #[trigger] self.hero_in_pit(hero, dropped) && dropped.hurt_and_ended(
                    hero,
                    self.hero_name(hero) + " voluntarily entered the open pit: 1 Body Point lost; the turn ends."@,
                    after,
                )
        } else if !(exists|i: int| #[trigger] first_live_trap(self.traps@, pos, i)) {
            after == self
        } else {
            let i = choose|i: int| #[trigger] first_live_trap(self.traps@, pos, i);
            let kind = self.traps@[i].kind;
            exists|sprung: Game|
                #[trigger] self.trap_sprung_at(i, sprung) && sprung.trap_effect(
                    hero,
                    kind,
                    from,
                    pos,
                    direction,
                    forced,
                    after,
                )
        }
    }

    /// `after` is this game (a trap of `kind` on `pos` just sprung) once
    /// the trap does its work: a pit drops the hero in for a Body Point and
    /// ends its turn, a spear strikes at once when `forced` and otherwise
    /// waits for its die, and a falling block spends the movement and waits
    /// for its dice; each logs a line.
    pub open spec fn trap_effect(
        self,
        hero: UnitId,
        kind: TrapKind,
        from: Pos,
        pos: Pos,
        direction: Direction,
        forced: bool,
        after: Game,
    ) -> bool {
        if kind == TrapKind::Pit {
            exists|dropped: Game|
                #[trigger] self.hero_in_pit(hero, dropped) && dropped.hurt_and_ended(
                    hero,
                    self.hero_name(hero) + " fell into a pit: 1 Body Point lost; the turn ends."@,
                    after,
                )
        } else if kind == TrapKind::Spear && forced {
            self.hurt_and_ended(
                hero,
                "A spear struck "@ + self.hero_name(hero) + ": 1 Body Point lost; the turn ends."@,
                after,
            )
        } else {
            let roll = PendingTrapRoll { hero, trap: pos, from, direction, kind };
            let turn = if kind == TrapKind::FallingBlock {
                HeroTurnState { movement_left: 0, ..self.hero_turn }
            } else {
                self.hero_turn
            };
            &&& after == (Game {
                pending_trap_roll: Some(roll),
                hero_turn: turn,
                log: after.log,
                ..self
            })
            &&& logged_one_line(self.log@, after.log@)
            &&& after.log@.last()@ == if kind == TrapKind::FallingBlock {
                "A falling block descends on "@ + self.hero_name(hero) + "; roll three physical combat dice."@
            } else {
                "A spear shoots toward "@ + self.hero_name(hero) + "; roll one physical combat die."@
            }
        }
    }

    /// A trap the hero's step may set off leaves it a turn that can be
    /// ended by force, whatever the trap does to it.
    pub open spec fn square_trap_defined(self, hero: UnitId) -> bool {
        &&& has_unit_id(self.units@, hero)
        &&& self.spec_unit(hero) matches Some(unit) ==> self.carries_in_place(unit)
        &&& forall|dropped: Game| #[trigger] self.hero_in_pit(hero, dropped) ==> dropped.hurt_end_defined(hero)
        &&& forall|i: int, sprung: Game|
            #[trigger] self.trap_sprung_at(i, sprung) ==> sprung.hurt_end_defined(hero) && forall|
                dropped: Game,
            | #[trigger] sprung.hero_in_pit(hero, dropped) ==> dropped.hurt_end_defined(hero)
    }

    /// Drops the hero at `slot` into a pit.
    #[verifier::spinoff_prover]
    #[verifier::rlimit(30)]
    fn drop_in_pit(&mut self, slot: usize)
        requires
            old(self).wf(),
            slot < old(self).units@.len(),
        ensures
            final(self).wf(),
            final(self).units@ == old(self).units@.update(
                slot as int,
                Unit { in_pit: true, ..old(self).units@[slot as int] },
            ),
            *final(self) == (Game { units: final(self).units, ..*old(self) }),
    {
        let ghost before = *self;
        let mut unit = Unit::vacant();
        self.units.set_and_swap(slot, &mut unit);
        assert(unit == before.units@[slot as int]);
        let changed = Unit { in_pit: true, ..unit };
        self.units.set(slot, changed);
        proof {
            reveal(Game::wf);
            assert(self.units@ =~= before.units@.update(slot as int, changed));
            assert forall|i: int| 0 <= i < self.units@.len() implies spec_in_bounds(
                #[trigger] self.units@[i].pos,
            ) && self.units@[i].id == before.units@[i].id by {}
            assert(crate::engine::unique_unit_ids(self.units@));
        }
    }

    /// Hurts the hero for one Body Point with no defence, spends its
    /// movement, logs `line` and ends its turn by force.
    fn hurt_and_end(&mut self, hero: UnitId, line: String)
        requires
            old(self).wf(),
            old(self).spec_unit(hero) matches Some(unit) ==> old(self).carries_in_place(unit),
            old(self).hurt_end_defined(hero),
        ensures
            final(self).wf(),
            old(self).hurt_and_ended(hero, line@, *final(self)),
    {
        self.damage_without_defense(hero, 1);
        let ghost hit = *self;
        proof {
            reveal(Game::wf);
        }
        self.hero_turn.movement_left = 0;
        proof {
            assert(self.wf());
        }
        let ghost told_line = line;
        let ghost spent = *self;
        self.push_log(line);
        proof {
            assert(self.log@ == log_after(spent.log@, told_line));
            assert(logged_one_line(hit.log@, self.log@));
        }
        let ghost told = *self;
        self.end_forced_hero_turn();
    }

    /// Finds and springs the trap at index `i`.
    fn spring_trap(&mut self, i: usize)
        requires
            old(self).wf(),
            i < old(self).traps@.len(),
        ensures
            final(self).wf(),
            old(self).trap_sprung_at(i as int, *final(self)),
    {
        proof {
            reveal(Game::wf);
        }
        let trap = self.traps[i];
        self.traps.set(i, Trap { discovered: true, sprung: true, ..trap });
        proof {
            assert(self.wf());
        }
    }

    /// Where the first trap a step onto `pos` sets off lies, if any.
    fn live_trap_index(&self, pos: Pos) -> (index: Option<usize>)
        ensures
            match index {
                Some(i) => first_live_trap(self.traps@, pos, i as int),
                None => !(exists|i: int| #[trigger] first_live_trap(self.traps@, pos, i)),
            },
    {
        let mut i: usize = 0;
        while i < self.traps.len()
            invariant
                i <= self.traps@.len(),
                forall|j: int| 0 <= j < i ==> !live_trap(#[trigger] self.traps@[j], pos),
            decreases self.traps.len() - i,
        {
            let trap = self.traps[i];
            if trap.pos == pos && trap.trigger_on_entry && !trap.sprung && !trap.disarmed {
                return Some(i);
            }
            i = i + 1;
        }
        None
    }

    /// The hero's step from `from` onto `pos`, in `direction`, sets off
    /// what lies there (a spear strikes at once when `forced`).
    #[verifier::spinoff_prover]
    #[verifier::rlimit(100)]
    pub(crate) fn trigger_square_trap(&mut self, hero: UnitId, from: Pos, pos: Pos, direction: Direction, forced: bool)
        requires
            old(self).wf(),
            old(self).square_trap_defined(hero),
        ensures
            final(self).wf(),
            old(self).square_trap_sprung(hero, from, pos, direction, forced, *final(self)),
    {
        proof {
            lemma_wf_ids(*self);
        }
        let slot = match self.unit_index(hero) {
            Some(slot) => slot,
            None => return,
        };
        proof {
            lemma_slot_of(self.units@, hero, slot as int);
        }
        let name = self.units[slot].name.clone();
        if self.is_sprung_pit(pos) {
            self.drop_in_pit(slot);
            proof {
                assert(old(self).hero_in_pit(hero, *self));
            }
            let ghost dropped = *self;
            let mut line = name;
            line.append(" voluntarily entered the open pit: 1 Body Point lost; the turn ends.");
            self.hurt_and_end(hero, line);
            proof {
                assert(old(self).hero_in_pit(hero, dropped));
            }
            return;
        }
        let index = match self.live_trap_index(pos) {
            Some(index) => index,
            None => return,
        };
        let kind = self.traps[index].kind;
        self.spring_trap(index);
        let ghost sprung = *self;
        proof {
            lemma_first_unique(old(self).traps@, pos, index as int);
            assert(old(self).trap_sprung_at(index as int, sprung));
            assert(old(self).units@ == sprung.units@);
            lemma_wf_ids(*self);
            lemma_slot_of(self.units@, hero, slot as int);
        }
        self.work_trap(hero, slot, name, kind, from, pos, direction, forced);
    }

    /// The trap of `kind` just sprung on `pos` does its work on the hero at
    /// `slot`, named `name`.
    #[verifier::spinoff_prover]
    #[verifier::rlimit(100)]
    fn work_trap(
        &mut self,
        hero: UnitId,
        slot: usize,
        name: String,
        kind: TrapKind,
        from: Pos,
        pos: Pos,
        direction: Direction,
        forced: bool,
    )
        requires
            old(self).wf(),
            slot < old(self).units@.len(),
            slot == unit_slot(old(self).units@, hero),
            name@ == old(self).hero_name(hero),
            has_unit_id(old(self).units@, hero),
            old(self).spec_unit(hero) matches Some(unit) ==> old(self).carries_in_place(unit),
            old(self).hurt_end_defined(hero),
            forall|dropped: Game| #[trigger] old(self).hero_in_pit(hero, dropped) ==> dropped.hurt_end_defined(hero),
        ensures
            final(self).wf(),
            old(self).trap_effect(hero, kind, from, pos, direction, forced, *final(self)),
    {
        let ghost sprung = *self;
        match kind {
            TrapKind::Pit => {
                proof {
                    lemma_wf_ids(*self);
                    lemma_slot_of(self.units@, hero, slot as int);
                }
                self.drop_in_pit(slot);
                proof {
                    assert(sprung.hero_in_pit(hero, *self));
                    lemma_wf_ids(*self);
                    lemma_slot_of(self.units@, hero, slot as int);
                    assert(self.carries_in_place(self.units@[slot as int]));
                }
                let ghost dropped = *self;
                let mut line = name;
                line.append(" fell into a pit: 1 Body Point lost; the turn ends.");
                self.hurt_and_end(hero, line);
                proof {
                    assert(sprung.hero_in_pit(hero, dropped));
                }
            },
            TrapKind::Spear => {
                if forced {
                    let mut line = String::from_str("A spear struck ");
                    line.append(name.as_str());
                    line.append(": 1 Body Point lost; the turn ends.");
                    self.hurt_and_end(hero, line);
                } else {
                    self.pending_trap_roll = Some(
                        PendingTrapRoll { hero, trap: pos, from, direction, kind },
                    );
                    let mut line = String::from_str("A spear shoots toward ");
                    line.append(name.as_str());
                    line.append("; roll one physical combat die.");
                    let ghost told_line = line;
                    let ghost waiting = *self;
                    proof {
                        reveal(Game::wf);
                    }
                    self.push_log(line);
                    proof {
                        assert(self.log@ == log_after(waiting.log@, told_line));
                    }
                }
            },
            TrapKind::FallingBlock => {
                self.hero_turn.movement_left = 0;
                self.pending_trap_roll = Some(PendingTrapRoll { hero, trap: pos, from, direction, kind });
                let mut line = String::from_str("A falling block descends on ");
                line.append(name.as_str());
                line.append("; roll three physical combat dice.");
                let ghost told_line = line;
                let ghost waiting = *self;
                proof {
                    reveal(Game::wf);
                }
                self.push_log(line);
                proof {
                    assert(self.log@ == log_after(waiting.log@, told_line));
                }
            },
        }
    }
}

/// The first live trap on a square is one trap.
proof fn lemma_first_unique(traps: Seq<Trap>, pos: Pos, i: int)
    requires
        first_live_trap(traps, pos, i),
    ensures
        forall|k: int| #[trigger] first_live_trap(traps, pos, k) ==> k == i,
{
    assert forall|k: int| #[trigger] first_live_trap(traps, pos, k) implies k == i by {
        if k < i {
            assert(!live_trap(traps[k], pos));
        } else if i < k {
            assert(!live_trap(traps[i], pos));
        }
    }
}

impl Game {
    /// Why the hero cannot try to disarm as `plan` says, if it cannot: it
    /// is not that hero's turn, it has acted or moved or has no movement,
    /// or the plan's trap is not a known trap still armed on its square.
    pub open spec fn disarm_refusal(self, plan: DisarmPlan) -> Option<RuleError> {
        if self.spec_active_hero_id() != Some(plan.hero) || self.hero_turn.action_used
            || self.hero_turn.moved_steps > 0 || self.hero_turn.movement_left == 0 || !(plan.trap_index
            < self.traps@.len() && {
            let trap = self.traps@[plan.trap_index as int];
            trap.pos == plan.trap && trap.discovered && !trap.sprung && !trap.disarmed
        }) {
            Some(RuleError::StaleAttack)
        } else {
            None
        }
    }

    /// A Dwarf fails only on a black shield, anyone else on a skull.
    pub open spec fn disarm_succeeds(plan: DisarmPlan, face: CombatFace) -> bool {
        if plan.dwarf {
            face != CombatFace::BlackShield
        } else {
            face != CombatFace::Skull
        }
    }

    /// `stepped` is this game once the hero has spent its action and one
    /// square of movement on the trap: on a floor trap it stands on the
    /// trap's square, out of any pit; at a piece of furniture it stays put.
    pub open spec fn disarm_stepped(self, plan: DisarmPlan, stepped: Game) -> bool {
        let slot = unit_slot(self.units@, plan.hero);
        let unit = self.units@[slot];
        let dest = if self.spec_is_furniture_square(plan.trap) {
            unit.pos
        } else {
            plan.trap
        };
        &&& stepped.units@ == self.units@.update(slot, carried_home(unit, dest, false))
        &&& stepped == (Game {
            units: stepped.units,
            hero_turn: HeroTurnState {
                action_used: true,
                moved_steps: (self.hero_turn.moved_steps + 1) as u8,
                movement_left: (self.hero_turn.movement_left - 1) as u8,
                ..self.hero_turn
            },
            ..self
        })
    }

    /// `after` is this game once the disarm as `plan` says is tried with
    /// the die showing `face`: a success disarms the trap, a failure sets
    /// it off with its spear striking at once; a line is logged.
    pub open spec fn disarm_tried(self, plan: DisarmPlan, face: CombatFace, after: Game) -> bool {
        exists|stepped: Game, told: Game|
            #![trigger self.disarm_stepped(plan, stepped), told.log]
            self.disarm_stepped(plan, stepped) && logged_one_line(stepped.log@, told.log@) && if Game::disarm_succeeds(
                plan,
                face,
            ) {
                let i = plan.trap_index as int;
                &&& told.traps@ == stepped.traps@.update(i, Trap { disarmed: true, ..stepped.traps@[i] })
                &&& told == (Game { traps: told.traps, log: told.log, ..stepped })
                &&& told.log@.last()@ == self.hero_name(plan.hero) + " disarmed the trap and may continue moving."@
                &&& after == told
            } else {
                &&& told == (Game { log: told.log, ..stepped })
                &&& told.log@.last()@ == self.hero_name(plan.hero) + " failed to disarm the trap!"@
                &&& told.square_trap_sprung(plan.hero, plan.from, plan.trap, plan.direction, true, after)
            }
    }

    /// The hero of an allowed disarm is on the board, the trap's square lies
    /// on the board, and a failed disarm leaves a turn that can be ended by
    /// force, whatever the trap does.
    pub open spec fn disarm_defined(self, plan: DisarmPlan) -> bool {
        &&& self.disarm_refusal(plan) is None ==> has_unit_id(self.units@, plan.hero)
        &&& spec_in_bounds(plan.trap)
        &&& forall|stepped: Game, told: Game|
            #![trigger self.disarm_stepped(plan, stepped), told.log]
            self.disarm_stepped(plan, stepped) && told == (Game { log: told.log, ..stepped })
                ==> told.square_trap_defined(plan.hero)
    }

    /// The active hero tries to disarm a known trap as `plan` says, with the
    /// combat die showing `face`: it steps onto a floor trap (or works at a
    /// piece of furniture), spending its action and a square of movement;
    /// on a success the trap is disarmed, on a failure it goes off. Returns
    /// whether the trap was disarmed.
    #[verifier::spinoff_prover]
    #[verifier::rlimit(100)]
    pub fn resolve_disarm(&mut self, plan: DisarmPlan, face: CombatFace) -> (disarmed: Result<bool, RuleError>)
        requires
            old(self).wf(),
            old(self).disarm_defined(plan),
        ensures
            final(self).wf(),
            match disarmed {
                Err(e) => old(self).disarm_refusal(plan) == Some(e) && *final(self) == *old(self),
                Ok(d) => old(self).disarm_refusal(plan) is None && d == Game::disarm_succeeds(plan, face)
                    && old(self).disarm_tried(plan, face, *final(self)),
            },
    {
        if self.active_hero_id() != Some(plan.hero) || self.hero_turn.action_used
            || self.hero_turn.moved_steps > 0 || self.hero_turn.movement_left == 0 || plan.trap_index
            >= self.traps.len() {
            return Err(RuleError::StaleAttack);
        }
        let trap = self.traps[plan.trap_index];
        if trap.pos != plan.trap || !trap.discovered || trap.sprung || trap.disarmed {
            return Err(RuleError::StaleAttack);
        }
        let success = if plan.dwarf {
            face != CombatFace::BlackShield
        } else {
            face != CombatFace::Skull
        };
        let furniture = self.is_furniture_square(plan.trap);
        proof {
            lemma_wf_ids(*self);
        }
        let slot = match self.unit_index(plan.hero) {
            Some(slot) => slot,
            None => return Err(RuleError::StaleAttack),
        };
        proof {
            lemma_slot_of(self.units@, plan.hero, slot as int);
            reveal(Game::wf);
            assert(spec_in_bounds(self.units@[slot as int].pos));
        }
        let mut line = self.units[slot].name.clone();
        let dest = if furniture {
            self.units[slot].pos
        } else {
            plan.trap
        };
        self.unit_carry_home(slot, dest, false);
        let ghost carried = *self;
        proof {
            reveal(Game::wf);
            assert(carried.wf());
        }
        self.hero_turn.action_used = true;
        self.hero_turn.moved_steps = self.hero_turn.moved_steps + 1;
        self.hero_turn.movement_left = self.hero_turn.movement_left - 1;
        proof {
            assert(self.wf());
        }
        let ghost stepped = *self;
        proof {
            assert(old(self).disarm_stepped(plan, stepped));
        }
        if success {
            proof {
                reveal(Game::wf);
            }
            let armed = self.traps[plan.trap_index];
            self.traps.set(plan.trap_index, Trap { disarmed: true, ..armed });
            proof {
                assert(self.wf());
            }
            line.append(" disarmed the trap and may continue moving.");
            let ghost told_line = line;
            let ghost before_log = *self;
            self.push_log(line);
            proof {
                assert(self.log@ == log_after(before_log.log@, told_line));
            }
        } else {
            line.append(" failed to disarm the trap!");
            let ghost told_line = line;
            self.push_log(line);
            let ghost told = *self;
            proof {
                assert(self.log@ == log_after(stepped.log@, told_line));
                assert(told.square_trap_defined(plan.hero));
            }
            self.trigger_square_trap(plan.hero, plan.from, plan.trap, plan.direction, true);
            proof {
                assert(old(self).disarm_tried(plan, face, *self));
            }
        }
        Ok(success)
    }
}

impl Game {
    /// Why the hero cannot try the jump `plan` describes, if it cannot: it
    /// is not that hero's turn or it has fewer than two squares of movement,
    /// it no longer stands where the plan starts, the trap is not a known
    /// armed trap (or an open pit) on its square, the trap is furniture, or
    /// the landing square is not open to it.
    pub open spec fn jump_refusal(self, plan: JumpPlan) -> Option<RuleError> {
        if self.spec_active_hero_id() != Some(plan.hero) || self.hero_turn.movement_left < 2 || !(
        self.spec_unit(plan.hero) matches Some(unit) && unit.pos == plan.from) || !(plan.trap_index
            < self.traps@.len() && {
            let trap = self.traps@[plan.trap_index as int];
            &&& trap.pos == plan.trap
            &&& !trap.disarmed
            &&& trap.discovered || trap.sprung
            &&& !trap.sprung || trap.kind == TrapKind::Pit
        }) || self.spec_is_furniture_square(plan.trap) || !self.square_open(
            plan.landing,
            Some(plan.hero),
        ) {
            Some(RuleError::StaleJump)
        } else {
            None
        }
    }

    /// This game with two squares of movement spent on a jump.
    pub open spec fn jump_spent(self) -> Game {
        Game {
            hero_turn: HeroTurnState {
                movement_left: (self.hero_turn.movement_left - 2) as u8,
                moved_steps: (self.hero_turn.moved_steps + 2) as u8,
                ..self.hero_turn
            },
            ..self
        }
    }

    /// `placed` is this game with the hero `hero` standing on `pos`.
    pub open spec fn hero_placed(self, hero: UnitId, pos: Pos, placed: Game) -> bool {
        let slot = unit_slot(self.units@, hero);
        &&& placed.units@ == self.units@.update(slot, Unit { pos, ..self.units@[slot] })
        &&& placed == (Game { units: placed.units, ..self })
    }

    /// `after` is this game once the jump `plan` is tried with the die
    /// showing `face`: anything but a skull lands the hero past the trap,
    /// out of any pit, where it sees around it; a skull leaves it on the
    /// trap, an open pit then dropping it in for a Body Point and ending its
    /// turn, any other trap going off with its spear striking at once; a
    /// line is logged.
    pub open spec fn jump_tried(self, plan: JumpPlan, face: CombatFace, after: Game) -> bool {
        let trap = self.traps@[plan.trap_index as int];
        if face != CombatFace::Skull {
            self.jump_spent().jump_landed(plan, after)
        } else {
            self.jump_spent().jump_failed(plan, trap.sprung && trap.kind == TrapKind::Pit, after)
        }
    }

    /// `after` is this game once the hero clears the trap: it stands on the
    /// landing square, out of any pit, sees around it, and a line is logged.
    pub open spec fn jump_landed(self, plan: JumpPlan, after: Game) -> bool {
        let slot = unit_slot(self.units@, plan.hero);
        exists|landed: Game, shown: Game|
            #![trigger landed.area_revealed(plan.landing, shown)]
            landed.units@ == self.units@.update(slot, carried_home(self.units@[slot], plan.landing, false))
                && landed == (Game { units: landed.units, ..self }) && landed.area_revealed(
                plan.landing,
                shown,
            ) && after == (Game { log: after.log, ..shown }) && logged_one_line(shown.log@, after.log@)
                && after.log@.last()@ == self.hero_name(plan.hero)
                + " jumped the trap and spent two movement squares."@
    }

    /// `after` is this game once the hero falls short onto the trap: an
    /// open pit (`open_pit`) drops it in for a Body Point and ends its turn,
    /// any other trap goes off with its spear striking at once; a line is
    /// logged.
    pub open spec fn jump_failed(self, plan: JumpPlan, open_pit: bool, after: Game) -> bool {
        exists|placed: Game|
            #[trigger] self.hero_placed(plan.hero, plan.trap, placed) && if open_pit {
                exists|dropped: Game|
                    #[trigger] placed.hero_in_pit(plan.hero, dropped) && dropped.hurt_and_ended(
                        plan.hero,
                        self.hero_name(plan.hero) + " failed the jump and fell into the pit for 1 Body Point."@,
                        after,
                    )
            } else {
                exists|told: Game|
                    #![trigger told.log]
                    told == (Game { log: told.log, ..placed }) && logged_one_line(placed.log@, told.log@)
                        && told.log@.last()@ == self.hero_name(plan.hero) + " failed the jump and sprung the trap!"@
                        && told.square_trap_sprung(plan.hero, plan.from, plan.trap, plan.direction, true, after)
            }
    }

    /// An allowed jump can be counted and carried out: its hero has moved
    /// fewer than 254 squares, the trap lies on the board, and a failed
    /// jump leaves a turn that can be ended by force, whatever the trap
    /// does.
    pub open spec fn jump_defined(self, plan: JumpPlan) -> bool {
        &&& self.jump_refusal(plan) is None ==> self.hero_turn.moved_steps <= 253
        &&& spec_in_bounds(plan.trap)
        &&& forall|placed: Game|
            #[trigger] self.jump_spent().hero_placed(plan.hero, plan.trap, placed) ==> {
                &&& forall|dropped: Game|
                    #[trigger] placed.hero_in_pit(plan.hero, dropped) ==> dropped.hurt_end_defined(plan.hero)
                        && (dropped.spec_unit(plan.hero) matches Some(unit) ==> dropped.carries_in_place(unit))
                &&& forall|told: Game|
                    #![trigger told.log]
                    told == (Game { log: told.log, ..placed }) ==> told.square_trap_defined(plan.hero)
            }
    }

    /// Stands the hero at `slot` on `pos`.
    #[verifier::spinoff_prover]
    #[verifier::rlimit(30)]
    fn place_hero(&mut self, slot: usize, pos: Pos)
        requires
            old(self).wf(),
            slot < old(self).units@.len(),
            spec_in_bounds(pos),
        ensures
            final(self).wf(),
            final(self).units@ == old(self).units@.update(slot as int, Unit { pos, ..old(self).units@[slot as int] }),
            *final(self) == (Game { units: final(self).units, ..*old(self) }),
    {
        let ghost before = *self;
        let mut unit = Unit::vacant();
        self.units.set_and_swap(slot, &mut unit);
        assert(unit == before.units@[slot as int]);
        let changed = Unit { pos, ..unit };
        self.units.set(slot, changed);
        proof {
            reveal(Game::wf);
            assert(self.units@ =~= before.units@.update(slot as int, changed));
            assert forall|i: int| 0 <= i < self.units@.len() implies spec_in_bounds(
                #[trigger] self.units@[i].pos,
            ) && self.units@[i].id == before.units@[i].id by {}
            assert(crate::engine::unique_unit_ids(self.units@));
        }
    }

    /// The active hero tries to jump a known trap as `plan` says, with the
    /// combat die showing `face`, spending two squares of movement. Returns
    /// whether it cleared the trap.
    #[verifier::spinoff_prover]
    #[verifier::rlimit(100)]
    pub fn resolve_jump(&mut self, plan: JumpPlan, face: CombatFace) -> (cleared: Result<bool, RuleError>)
        requires
            old(self).wf(),
            old(self).jump_defined(plan),
        ensures
            final(self).wf(),
            match cleared {
                Err(e) => old(self).jump_refusal(plan) == Some(e) && *final(self) == *old(self),
                Ok(c) => old(self).jump_refusal(plan) is None && c == (face != CombatFace::Skull)
                    && old(self).jump_tried(plan, face, *final(self)),
            },
    {
        if self.active_hero_id() != Some(plan.hero) || self.hero_turn.movement_left < 2 {
            return Err(RuleError::StaleJump);
        }
        proof {
            lemma_wf_ids(*self);
        }
        let slot = match self.unit_index(plan.hero) {
            Some(slot) => slot,
            None => return Err(RuleError::StaleJump),
        };
        proof {
            lemma_slot_of(self.units@, plan.hero, slot as int);
        }
        if self.units[slot].pos != plan.from || plan.trap_index >= self.traps.len() {
            return Err(RuleError::StaleJump);
        }
        let trap = self.traps[plan.trap_index];
        if trap.pos != plan.trap || trap.disarmed || (!trap.discovered && !trap.sprung) || (trap.sprung
            && trap.kind != TrapKind::Pit) || self.is_furniture_square(plan.trap)
            || !self.square_is_open_for_figure(plan.landing, Some(plan.hero)) {
            return Err(RuleError::StaleJump);
        }
        self.spend_jump();
        let line = self.units[slot].name.clone();
        if face != CombatFace::Skull {
            self.land_jump(slot, plan, line);
            Ok(true)
        } else {
            self.fail_jump(slot, plan, trap.sprung && trap.kind == TrapKind::Pit, line);
            Ok(false)
        }
    }

    /// Spends two squares of movement on a jump.
    fn spend_jump(&mut self)
        requires
            old(self).wf(),
            old(self).hero_turn.movement_left >= 2,
            old(self).hero_turn.moved_steps <= 253,
        ensures
            final(self).wf(),
            *final(self) == old(self).jump_spent(),
    {
        proof {
            reveal(Game::wf);
        }
        self.hero_turn.movement_left = self.hero_turn.movement_left - 2;
        self.hero_turn.moved_steps = self.hero_turn.moved_steps + 2;
        proof {
            assert(self.wf());
        }
    }

    /// The hero at `slot` clears the trap and lands.
    #[verifier::spinoff_prover]
    #[verifier::rlimit(60)]
    fn land_jump(&mut self, slot: usize, plan: JumpPlan, name: String)
        requires
            old(self).wf(),
            slot < old(self).units@.len(),
            slot == unit_slot(old(self).units@, plan.hero),
            name@ == old(self).hero_name(plan.hero),
            spec_in_bounds(plan.landing),
        ensures
            final(self).wf(),
            old(self).jump_landed(plan, *final(self)),
    {
        self.unit_carry_home(slot, plan.landing, false);
        let ghost landed = *self;
        self.reveal_from(plan.landing);
        let ghost shown = *self;
        let mut line = name;
        line.append(" jumped the trap and spent two movement squares.");
        let ghost told_line = line;
        self.push_log(line);
        proof {
            assert(self.log@ == log_after(shown.log@, told_line));
            assert(landed.area_revealed(plan.landing, shown));
        }
    }

    /// The hero at `slot` falls short onto the trap.
    #[verifier::spinoff_prover]
    #[verifier::rlimit(80)]
    fn fail_jump(&mut self, slot: usize, plan: JumpPlan, open_pit: bool, name: String)
        requires
            old(self).wf(),
            slot < old(self).units@.len(),
            slot == unit_slot(old(self).units@, plan.hero),
            name@ == old(self).hero_name(plan.hero),
            has_unit_id(old(self).units@, plan.hero),
            spec_in_bounds(plan.trap),
            forall|placed: Game|
                #[trigger] old(self).hero_placed(plan.hero, plan.trap, placed) ==> {
                    &&& forall|dropped: Game|
                        #[trigger] placed.hero_in_pit(plan.hero, dropped) ==> dropped.hurt_end_defined(plan.hero)
                            && (dropped.spec_unit(plan.hero) matches Some(unit) ==> dropped.carries_in_place(unit))
                    &&& forall|told: Game|
                        #![trigger told.log]
                        told == (Game { log: told.log, ..placed }) ==> told.square_trap_defined(plan.hero)
                },
        ensures
            final(self).wf(),
            old(self).jump_failed(plan, open_pit, *final(self)),
    {
        self.place_hero(slot, plan.trap);
        let ghost placed = *self;
        proof {
            assert(old(self).hero_placed(plan.hero, plan.trap, placed));
            lemma_wf_ids(*self);
            lemma_slot_of(self.units@, plan.hero, slot as int);
        }
        let mut line = name;
        if open_pit {
            self.drop_in_pit(slot);
            let ghost dropped = *self;
            proof {
                assert(placed.hero_in_pit(plan.hero, dropped));
            }
            line.append(" failed the jump and fell into the pit for 1 Body Point.");
            self.hurt_and_end(plan.hero, line);
        } else {
            line.append(" failed the jump and sprung the trap!");
            let ghost told_line = line;
            self.push_log(line);
            proof {
                assert(self.log@ == log_after(placed.log@, told_line));
                assert(self.square_trap_defined(plan.hero));
            }
            self.trigger_square_trap(plan.hero, plan.from, plan.trap, plan.direction, true);
        }
    }
}

impl Game {
    /// Every disarm attempt fails on exactly one face of the combat die: a
    /// black shield for a Dwarf, a skull for any other hero; every other
    /// face disarms the trap.
    pub proof fn lemma_disarm_fails_on_one_face(plan: DisarmPlan)
        ensures
            exists|bad: CombatFace|
                #![trigger Game::disarm_succeeds(plan, bad)]
                !Game::disarm_succeeds(plan, bad) && forall|face: CombatFace|
                    !Game::disarm_succeeds(plan, face) ==> face == bad,
            plan.dwarf ==> !Game::disarm_succeeds(plan, CombatFace::BlackShield),
            !plan.dwarf ==> !Game::disarm_succeeds(plan, CombatFace::Skull),
    {
        let bad = if plan.dwarf {
            CombatFace::BlackShield
        } else {
            CombatFace::Skull
        };
        assert(!Game::disarm_succeeds(plan, bad));
    }
}

} // verus!
