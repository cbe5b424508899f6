//! Hazards that end a hero's turn by force: loose stone falling from a
//! collapsing ceiling, and the forced end of the turn itself.
use vstd::prelude::*;

use crate::engine::{
    Game, has_unit_id, lemma_slot_of, lemma_wf_ids, log_after, logged_one_line, spec_cell_index,
    spec_in_bounds, unit_slot,
};
use crate::equipment::Armor;
use crate::game::{
    Cell, GamePhase, HeroTurnState, PendingFallingBlock, PendingTrapRoll, RuleError, UnitId,
    spec_trap_dice,
};
use crate::model::{CombatFace, Direction, Pos, TrapKind, spec_offset};
use crate::ring::carried_home;
use crate::status::{decimal_string, decimal_text};

verus! {

impl Game {
    /// Once the quest is checked for its end, a hero turn with no death or
    /// possession choice waiting can be ended.
    pub open spec fn forced_end_defined(self) -> bool {
        forall|settled: Game|
            #[trigger] self.settled_into(settled) && settled.phase is HeroTurn
                && settled.pending_hero_death is None && settled.pending_possession_pickup is None
                ==> settled.end_turn_refusal() is None && settled.turn_end_defined()
    }

    /// `after` is this game once its turn is ended by force: the quest is
    /// checked for its end, then, in a hero turn with no choice waiting, the
    /// turn is wrapped up and handed on.
    pub open spec fn forced_end(self, after: Game) -> bool {
        exists|settled: Game|
            #[trigger] self.settled_into(settled) && if settled.phase is HeroTurn
                && settled.pending_hero_death is None && settled.pending_possession_pickup is None {
                exists|wrapped: Game|
                    #[trigger] settled.turn_wrapped_up(wrapped) && wrapped.turn_handed_on(after)
            } else {
                after == settled
            }
    }

    /// Ends the turn by force: the quest is checked for its end and, in a
    /// hero turn with no choice waiting, play passes on.
    pub(crate) fn end_forced_hero_turn(&mut self)
        requires
            old(self).wf(),
            old(self).forced_end_defined(),
        ensures
            final(self).wf(),
            old(self).forced_end(*final(self)),
    {
        self.check_terminal();
        let ghost settled = *self;
        proof {
            assert(old(self).settled_into(settled));
        }
        if self.pending_hero_death.is_some() || self.pending_possession_pickup.is_some() {
            return;
        }
        let hero_turn = match self.phase {
            GamePhase::HeroTurn { .. } => true,
            _ => false,
        };
        if hero_turn {
            let ended = self.end_hero_turn();
        }
    }
}

/// The hero's armour holds a Helmet.
fn wears_helmet(armor: &Vec<Armor>) -> (found: bool)
    ensures
        found == armor@.contains(Armor::Helmet),
{
    let mut i: usize = 0;
    while i < armor.len()
        invariant
            i <= armor@.len(),
            forall|j: int| 0 <= j < i ==> armor@[j] != Armor::Helmet,
        decreases armor.len() - i,
    {
        if armor[i] == Armor::Helmet {
            return true;
        }
        i = i + 1;
    }
    false
}

impl Game {
    /// Why `die` cannot settle a collapsing-ceiling roll for `hero`, if it
    /// cannot: not a face of a die, no such roll waiting, or the hero gone.
    pub open spec fn ceiling_refusal(self, hero: UnitId, die: u8) -> Option<RuleError> {
        if !(1 <= die <= 6) {
            Some(RuleError::InvalidDice)
        } else if self.pending_collapsing_ceiling_roll != Some(hero) || self.spec_unit(hero) is None {
            Some(RuleError::StaleCollapsingCeilingRoll)
        } else {
            None
        }
    }

    /// The stone hits: a six always, four or five too unless the hero wears
    /// a Helmet it may use.
    pub open spec fn ceiling_hits(self, hero: UnitId, die: u8) -> bool {
        let unit = self.spec_unit(hero)->Some_0;
        let helmet = unit.equipment_available && unit.inventory.armor@.contains(Armor::Helmet);
        die == 6 || (!helmet && die >= 4)
    }

    /// The line a collapsing-ceiling roll of `die` logs for `hero`: a hit,
    /// or a miss, saying when a Helmet turned the stone aside.
    pub open spec fn ceiling_text(self, hero: UnitId, die: u8) -> Seq<char> {
        let unit = self.spec_unit(hero)->Some_0;
        let helmet = unit.equipment_available && unit.inventory.armor@.contains(Armor::Helmet);
        unit.name@ + " rolled "@ + decimal_text(die as nat) + if self.ceiling_hits(hero, die) {
            "; falling stone inflicts 1 Body Point with no defense."@
        } else if helmet {
            "; the Helmet protects the Hero"@ + "; no Body Point is lost and movement may continue."@
        } else {
            "; no Body Point is lost and movement may continue."@
        }
    }

    /// The game with the collapsing-ceiling roll no longer waiting.
    pub open spec fn ceiling_cleared(self) -> Game {
        Game { pending_collapsing_ceiling_roll: None, ..self }
    }

    /// `after` is this game (the roll cleared) once falling stone has hit
    /// `hero` for one Body Point with no defence and a line is logged: a
    /// hero still standing may go on, after the quest is checked for its
    /// end; a hero felled loses its movement and its turn ends by force.
    pub open spec fn stone_fell(self, hero: UnitId, line: Seq<char>, after: Game) -> bool {
        exists|hit: Game, told: Game|
            #![trigger self.damage_dealt(hero, 1, hit), told.log]
            self.damage_dealt(hero, 1, hit) && told == (Game { log: told.log, ..hit })
                && logged_one_line(hit.log@, told.log@) && told.log@.last()@ == line && if told.spec_unit(hero) matches Some(
                unit,
            ) && unit.alive {
                told.settled_into(after)
            } else {
                (Game { hero_turn: HeroTurnState { movement_left: 0, ..told.hero_turn }, ..told }).forced_end(
                    after,
                )
            }
    }

    /// Every way the stone can fall on `hero` leaves a turn that can be
    /// ended by force.
    pub open spec fn stone_end_defined(self, hero: UnitId) -> bool {
        forall|hit: Game, told: Game|
            #![trigger self.ceiling_cleared().damage_dealt(hero, 1, hit), told.log]
            self.ceiling_cleared().damage_dealt(hero, 1, hit) && told == (Game { log: told.log, ..hit })
                ==> (Game { hero_turn: HeroTurnState { movement_left: 0, ..told.hero_turn }, ..told }).forced_end_defined()
    }

    /// Settles a collapsing-ceiling roll for `hero` with the red die thrown:
    /// a hit costs one Body Point with no defence (a Helmet turns four and
    /// five aside), and a hero it fells loses its turn. Returns whether the
    /// stone hit.
    #[verifier::spinoff_prover]
    #[verifier::rlimit(60)]
    pub fn resolve_collapsing_ceiling_roll(&mut self, hero: UnitId, die: u8) -> (hit: Result<bool, RuleError>)
        requires
            old(self).wf(),
            old(self).spec_unit(hero) matches Some(unit) ==> old(self).carries_in_place(unit),
            old(self).stone_end_defined(hero),
        ensures
            final(self).wf(),
            match hit {
                Err(e) => old(self).ceiling_refusal(hero, die) == Some(e) && *final(self) == if e
                    == RuleError::StaleCollapsingCeilingRoll && old(self).pending_collapsing_ceiling_roll
                    == Some(hero) {
                    old(self).ceiling_cleared()
                } else {
                    *old(self)
                },
                Ok(h) => old(self).ceiling_refusal(hero, die) is None && h == old(self).ceiling_hits(
                    hero,
                    die,
                ) && if h {
                    old(self).ceiling_cleared().stone_fell(
                        hero,
                        old(self).ceiling_text(hero, die),
                        *final(self),
                    )
                } else {
                    *final(self) == (Game { log: final(self).log, ..old(self).ceiling_cleared() })
                        && logged_one_line(old(self).log@, final(self).log@) && final(self).log@.last()@
                        == old(self).ceiling_text(hero, die)
                },
            },
    {
        if die < 1 || die > 6 {
            return Err(RuleError::InvalidDice);
        }
        if self.pending_collapsing_ceiling_roll != Some(hero) {
            return Err(RuleError::StaleCollapsingCeilingRoll);
        }
        proof {
            reveal(Game::wf);
        }
        self.pending_collapsing_ceiling_roll = None;
        proof {
            lemma_wf_ids(*self);
        }
        let slot = match self.unit_index(hero) {
            Some(slot) => slot,
            None => return Err(RuleError::StaleCollapsingCeilingRoll),
        };
        proof {
            lemma_slot_of(self.units@, hero, slot as int);
        }
        let name = self.units[slot].name.clone();
        let helmet = self.units[slot].equipment_available && wears_helmet(
            &self.units[slot].inventory.armor,
        );
        let hits = die == 6 || (!helmet && die >= 4);
        let mut line = name;
        line.append(" rolled ");
        line.append(decimal_string(die as u64).as_str());
        let ghost head = line@;
        proof {
            assert(head == old(self).spec_unit(hero)->Some_0.name@ + " rolled "@ + decimal_text(die as nat));
        }
        if hits {
            let ghost cleared = *self;
            self.damage_without_defense(hero, 1);
            let ghost hit_state = *self;
            line.append("; falling stone inflicts 1 Body Point with no defense.");
            let ghost told_line = line;
            self.push_log(line);
            let ghost told = *self;
            proof {
                assert(told.log@ == log_after(hit_state.log@, told_line));
                lemma_wf_ids(*self);
            }
            let standing = match self.unit_index(hero) {
                Some(index) => self.units[index].alive,
                None => false,
            };
            proof {
                if standing {
                    lemma_slot_of(self.units@, hero, unit_slot(self.units@, hero));
                }
            }
            if !standing {
                self.stop_moving();
                self.end_forced_hero_turn();
            } else {
                self.check_terminal();
            }
            proof {
                assert(told_line@ == old(self).ceiling_text(hero, die));
                assert(cleared.stone_fell(hero, old(self).ceiling_text(hero, die), *self));
            }
        } else {
            if helmet {
                line.append("; the Helmet protects the Hero");
            }
            line.append("; no Body Point is lost and movement may continue.");
            let ghost told_line = line;
            let ghost cleared = *self;
            proof {
                assert(told_line@ == old(self).ceiling_text(hero, die));
            }
            self.push_log(line);
            proof {
                assert(self.log@ == log_after(cleared.log@, told_line));
            }
        }
        Ok(hits)
    }
}

impl Game {
    /// Why a falling block's victim cannot flee in `direction`, if it
    /// cannot: no block has fallen, or the square that way is neither the
    /// one behind nor the one ahead.
    pub open spec fn escape_refusal(self, direction: Direction) -> Option<RuleError> {
        match self.pending_falling_block {
            None => Some(RuleError::InvalidFallingBlockChoice),
            Some(p) => match spec_offset(p.trap, direction) {
                Some(pos) => if Some(pos) == p.back || Some(pos) == p.ahead {
                    None
                } else {
                    Some(RuleError::InvalidFallingBlockChoice)
                },
                None => Some(RuleError::InvalidFallingBlockChoice),
            },
        }
    }

    /// `moved` is this game once the falling block's victim stands on
    /// `chosen`, out of any pit, and no block waits any more.
    pub open spec fn block_fled(self, chosen: Pos, moved: Game) -> bool {
        let hero = self.pending_falling_block->Some_0.hero;
        let slot = unit_slot(self.units@, hero);
        &&& moved.units@ == self.units@.update(slot, carried_home(self.units@[slot], chosen, false))
        &&& moved == (Game { units: moved.units, pending_falling_block: None, ..self })
    }

    /// Every way of fleeing to `chosen` leaves a turn that can be ended by
    /// force.
    pub open spec fn flight_end_defined(self, chosen: Pos) -> bool {
        forall|moved: Game, told: Game|
            #![trigger self.block_fled(chosen, moved), told.log]
            self.block_fled(chosen, moved) && told == (Game { log: told.log, ..moved })
                ==> told.forced_end_defined()
    }

    /// The game is fit to settle a falling block: its victim is on the
    /// board, the block's square lies on the board, and fleeing either way
    /// leaves a turn that can be ended by force.
    pub open spec fn block_settleable(self) -> bool {
        self.pending_falling_block matches Some(p) ==> {
            &&& has_unit_id(self.units@, p.hero)
            &&& spec_in_bounds(p.trap)
            &&& forall|d: Direction| #[trigger] spec_offset(p.trap, d) matches Some(pos)
                ==> self.flight_end_defined(pos)
        }
    }

    /// `after` is this game once the falling block's victim has fled to
    /// `chosen`: it stands there, a line is logged, and its turn ends by
    /// force.
    pub open spec fn block_escaped(self, chosen: Pos, after: Game) -> bool {
        exists|moved: Game, told: Game|
            #![trigger self.block_fled(chosen, moved), told.log]
            self.block_fled(chosen, moved) && told == (Game { log: told.log, ..moved })
                && logged_one_line(moved.log@, told.log@) && told.log@.last()@ == self.hero_name(
                self.pending_falling_block->Some_0.hero,
            ) + " escaped the collapse; the fallen stone now blocks the path."@ && told.forced_end(after)
    }

    /// The name of the figure with `id` (meaningful when it is there).
    pub open spec fn hero_name(self, id: UnitId) -> Seq<char> {
        self.units@[unit_slot(self.units@, id)].name@
    }

    /// The victim of a falling block flees to the square behind it or the
    /// one ahead, in `direction`; the fallen stone blocks the way and its
    /// turn ends.
    #[verifier::spinoff_prover]
    #[verifier::rlimit(60)]
    pub fn resolve_falling_block_escape(&mut self, direction: Direction) -> (fled: Result<Pos, RuleError>)
        requires
            old(self).wf(),
            old(self).block_settleable(),
        ensures
            final(self).wf(),
            match fled {
                Err(e) => old(self).escape_refusal(direction) == Some(e) && *final(self) == *old(self),
                Ok(chosen) => old(self).escape_refusal(direction) is None && Some(chosen) == spec_offset(
                    old(self).pending_falling_block->Some_0.trap,
                    direction,
                ) && old(self).block_escaped(chosen, *final(self)),
            },
    {
        let pending = match self.pending_falling_block {
            Some(pending) => pending,
            None => return Err(RuleError::InvalidFallingBlockChoice),
        };
        let chosen = match pending.trap.offset(direction) {
            Some(pos) => pos,
            None => return Err(RuleError::InvalidFallingBlockChoice),
        };
        if !(Some(chosen) == pending.back || Some(chosen) == pending.ahead) {
            return Err(RuleError::InvalidFallingBlockChoice);
        }
        proof {
            lemma_wf_ids(*self);
            assert(self.flight_end_defined(chosen));
        }
        let slot = match self.unit_index(pending.hero) {
            Some(slot) => slot,
            None => return Err(RuleError::InvalidFallingBlockChoice),
        };
        proof {
            lemma_slot_of(self.units@, pending.hero, slot as int);
        }
        let mut line = self.units[slot].name.clone();
        proof {
            reveal(Game::wf);
        }
        self.pending_falling_block = None;
        self.unit_carry_home(slot, chosen, false);
        let ghost moved = *self;
        line.append(" escaped the collapse; the fallen stone now blocks the path.");
        let ghost told_line = line;
        self.push_log(line);
        let ghost told = *self;
        proof {
            assert(old(self).block_fled(chosen, moved));
            assert(told.log@ == log_after(moved.log@, told_line));
            assert(told.forced_end_defined());
        }
        self.end_forced_hero_turn();
        proof {
            assert(old(self).block_escaped(chosen, *self));
        }
        Ok(chosen)
    }
}

/// How many of `faces` are skulls.
pub open spec fn skulls(faces: Seq<CombatFace>) -> nat
    decreases faces.len(),
{
    if faces.len() == 0 {
        0
    } else {
        skulls(faces.drop_last()) + if faces.last() == CombatFace::Skull {
            1nat
        } else {
            0nat
        }
    }
}

/// How many of `faces` are skulls.
fn count_skulls(faces: &[CombatFace]) -> (n: u8)
    requires
        faces@.len() <= 3,
    ensures
        n == skulls(faces@),
{
    let mut n: u8 = 0;
    let mut i: usize = 0;
    while i < faces.len()
        invariant
            i <= faces@.len() <= 3,
            n == skulls(faces@.subrange(0, i as int)),
            n <= i,
        decreases faces.len() - i,
    {
        proof {
            assert(faces@.subrange(0, i as int + 1).drop_last() =~= faces@.subrange(0, i as int));
        }
        if faces[i] == CombatFace::Skull {
            n = n + 1;
        }
        i = i + 1;
    }
    proof {
        assert(faces@.subrange(0, faces@.len() as int) =~= faces@);
    }
    n
}

impl Game {
    /// `pos` is on the board, passable, free of other living figures (but
    /// `except`) and of furniture.
    pub open spec fn square_open(self, pos: Pos, except: Option<UnitId>) -> bool {
        &&& spec_in_bounds(pos)
        &&& self.cells@[spec_cell_index(pos)].passable
        &&& !self.spec_occupied(pos, except)
        &&& !self.spec_is_furniture_square(pos)
    }

    /// Why the thrown `faces` cannot settle the trap roll `pending`, if they
    /// cannot: it is not the roll waiting, the dice are not the trap's
    /// number, or (the roll then cleared) its hero is gone or the trap is a
    /// pit, which has no roll.
    pub open spec fn trap_roll_refusal(self, pending: PendingTrapRoll, faces: Seq<CombatFace>) -> Option<RuleError> {
        if self.pending_trap_roll != Some(pending) {
            Some(RuleError::StaleTrapRoll)
        } else if faces.len() != spec_trap_dice(pending.kind) {
            Some(RuleError::InvalidDice)
        } else if self.spec_unit(pending.hero) is None || pending.kind == TrapKind::Pit {
            Some(RuleError::StaleTrapRoll)
        } else {
            None
        }
    }

    /// The game with no trap roll waiting.
    pub open spec fn trap_cleared(self) -> Game {
        Game { pending_trap_roll: None, ..self }
    }

    /// `told` is this game (the trap roll cleared, `hit` after its damage)
    /// once the hero's movement is spent, the block's square (for a falling
    /// block) is sealed, and one line is logged.
    pub open spec fn trap_told(pending: PendingTrapRoll, hit: Game, told: Game) -> bool {
        let turn = HeroTurnState { movement_left: 0, ..hit.hero_turn };
        &&& logged_one_line(hit.log@, told.log@)
        &&& if pending.kind == TrapKind::FallingBlock {
            let c = spec_cell_index(pending.trap);
            &&& told.cells@ == hit.cells@.update(c, Cell { passable: false, ..hit.cells@[c] })
            &&& told == (Game { hero_turn: turn, cells: told.cells, log: told.log, ..hit })
        } else {
            told == (Game { hero_turn: turn, log: told.log, ..hit })
        }
    }

    /// The squares a falling block's victim may flee to, as the board
    /// stands once the block has hit (`hit`): back where it came from, and
    /// ahead, each when open to it.
    pub open spec fn flight_squares(pending: PendingTrapRoll, hit: Game) -> (Option<Pos>, Option<Pos>) {
        let back = if hit.square_open(pending.from, Some(pending.hero)) {
            Some(pending.from)
        } else {
            None
        };
        let ahead = match spec_offset(pending.trap, pending.direction) {
            Some(pos) => if hit.spec_boundary_is_open(pending.trap, pos) && hit.square_open(
                pos,
                Some(pending.hero),
            ) {
                Some(pos)
            } else {
                None
            },
            None => None,
        };
        (back, ahead)
    }

    /// `told` with the falling block waiting for its victim to flee.
    pub open spec fn block_waiting(pending: PendingTrapRoll, hit: Game, told: Game) -> Game {
        let (back, ahead) = Game::flight_squares(pending, hit);
        Game {
            pending_falling_block: Some(
                PendingFallingBlock { hero: pending.hero, trap: pending.trap, back, ahead },
            ),
            ..told
        }
    }

    /// `after` is this game (the trap roll cleared) once the trap's dice
    /// `faces` take effect: a spear that shows a skull costs one Body Point
    /// and ends the turn, otherwise the hero moves on; a falling block costs
    /// a Body Point per skull, spends the movement and seals its square,
    /// then its victim, if still standing, must flee back or ahead (at once
    /// when only one way is open), and otherwise the turn ends.
    pub open spec fn trap_sprang(self, pending: PendingTrapRoll, faces: Seq<CombatFace>, after: Game) -> bool {
        if pending.kind == TrapKind::Spear && faces[0] != CombatFace::Skull {
            exists|told: Game|
                #![trigger told.log]
                told == (Game { log: told.log, ..self }) && logged_one_line(self.log@, told.log@)
                    && told.log@.last()@ == self.hero_name(pending.hero)
                    + " dodged the spear and may continue moving."@ && told.settled_into(after)
        } else if pending.kind == TrapKind::Spear {
            exists|hit: Game, told: Game|
                #![trigger self.damage_dealt(pending.hero, 1, hit), told.log]
                self.damage_dealt(pending.hero, 1, hit) && Game::trap_told(pending, hit, told)
                    && told.log@.last()@ == "A spear struck "@ + self.hero_name(pending.hero)
                    + ": 1 Body Point lost; the turn ends."@ && told.forced_end(after)
        } else {
            self.block_fell(pending, skulls(faces) as u8, after)
        }
    }

    /// `after` is this game once a falling block has hit its victim for
    /// `damage`: the movement is spent, the square sealed and a line
    /// logged; a victim still standing must flee back or ahead (at once
    /// when only one way is open), and otherwise the turn ends.
    pub open spec fn block_fell(self, pending: PendingTrapRoll, damage: u8, after: Game) -> bool {
        exists|hit: Game, told: Game|
            #![trigger self.damage_dealt(pending.hero, damage, hit), told.log]
            self.damage_dealt(pending.hero, damage, hit) && Game::trap_told(pending, hit, told)
                && told.log@.last()@ == "The ceiling collapsed on "@ + self.hero_name(pending.hero)
                + ": "@ + decimal_text(damage as nat)
                + " Body Point(s), with no defense. Choose ahead or back."@
                && if told.spec_unit(pending.hero) matches Some(unit) && unit.alive {
                let (back, ahead) = Game::flight_squares(pending, hit);
                let waiting = Game::block_waiting(pending, hit, told);
                if back is None {
                    waiting.block_escaped(ahead->Some_0, after)
                } else if ahead is None {
                    waiting.block_escaped(back->Some_0, after)
                } else {
                    after == waiting
                }
            } else {
                told.forced_end(after)
            }
    }

    /// Whatever damage the trap does, the turn it may end can be ended by
    /// force, and a falling block leaves its victim a way out.
    pub open spec fn sprang_defined(self, pending: PendingTrapRoll) -> bool {
        forall|damage: u8, hit: Game, told: Game|
            #![trigger self.damage_dealt(pending.hero, damage, hit), told.log]
            self.damage_dealt(pending.hero, damage, hit) && Game::trap_told(pending, hit, told) ==> {
                &&& told.forced_end_defined()
                &&& pending.kind == TrapKind::FallingBlock ==> {
                    let (back, ahead) = Game::flight_squares(pending, hit);
                    &&& back is Some || ahead is Some
                    &&& Game::block_waiting(pending, hit, told).block_settleable()
                }
            }
    }

    /// The trap roll `pending` can be settled whatever the dice show: the
    /// hero carries what it holds in place, the trap's square is on the
    /// board, the hero entered it from the square behind, some way out of a
    /// falling block stays open, and every turn the trap may end can be
    /// ended by force.
    pub open spec fn trap_roll_defined(self, pending: PendingTrapRoll) -> bool {
        &&& self.spec_unit(pending.hero) matches Some(unit) ==> self.carries_in_place(unit)
        &&& spec_in_bounds(pending.trap)
        &&& spec_offset(pending.from, pending.direction) == Some(pending.trap)
        &&& self.trap_cleared().sprang_defined(pending)
    }

    /// Settles a spear or falling-block trap with the combat dice thrown.
    #[verifier::spinoff_prover]
    #[verifier::rlimit(100)]
    pub fn resolve_trap_roll(&mut self, pending: PendingTrapRoll, faces: &[CombatFace]) -> (result: Result<(), RuleError>)
        requires
            old(self).wf(),
            old(self).trap_roll_defined(pending),
        ensures
            final(self).wf(),
            match result {
                Err(e) => old(self).trap_roll_refusal(pending, faces@) == Some(e) && *final(self) == if old(
                    self,
                ).pending_trap_roll == Some(pending) && faces@.len() == spec_trap_dice(pending.kind) {
                    old(self).trap_cleared()
                } else {
                    *old(self)
                },
                Ok(()) => old(self).trap_roll_refusal(pending, faces@) is None && old(
                    self,
                ).trap_cleared().trap_sprang(pending, faces@, *final(self)),
            },
    {
        if self.pending_trap_roll != Some(pending) {
            return Err(RuleError::StaleTrapRoll);
        }
        if faces.len() != pending.dice_count() as usize {
            return Err(RuleError::InvalidDice);
        }
        proof {
            reveal(Game::wf);
        }
        self.pending_trap_roll = None;
        let ghost cleared = *self;
        proof {
            lemma_wf_ids(*self);
        }
        let slot = match self.unit_index(pending.hero) {
            Some(slot) => slot,
            None => return Err(RuleError::StaleTrapRoll),
        };
        proof {
            lemma_slot_of(self.units@, pending.hero, slot as int);
        }
        let mut line = self.units[slot].name.clone();
        match pending.kind {
            TrapKind::Spear => {
                if faces[0] == CombatFace::Skull {
                    self.damage_without_defense(pending.hero, 1);
                    let ghost hit = *self;
                    self.hero_turn.movement_left = 0;
                    let mut message = String::from_str("A spear struck ");
                    message.append(line.as_str());
                    message.append(": 1 Body Point lost; the turn ends.");
                    let ghost told_line = message;
                    proof {
                        reveal(Game::wf);
                        assert(self.wf());
                    }
                    self.push_log(message);
                    proof {
                        assert(self.log@ == log_after(hit.log@, told_line));
                        assert(Game::trap_told(pending, hit, *self));
                    }
                    self.end_forced_hero_turn();
                } else {
                    line.append(" dodged the spear and may continue moving.");
                    let ghost told_line = line;
                    self.push_log(line);
                    proof {
                        assert(self.log@ == log_after(cleared.log@, told_line));
                    }
                    let ghost told = *self;
                    self.check_terminal();
                    proof {
                        assert(told.settled_into(*self));
                    }
                }
                Ok(())
            },
            TrapKind::FallingBlock => {
                let damage = count_skulls(faces);
                self.settle_falling_block(pending, damage, line);
                proof {
                    assert(cleared.block_fell(pending, skulls(faces@) as u8, *self));
                }
                Ok(())
            },
            TrapKind::Pit => Err(RuleError::StaleTrapRoll),
        }
    }
}

impl Game {
    /// A falling block hits its victim for `damage`: the movement is spent,
    /// the square sealed, and the victim, if still standing, must flee.
    #[verifier::spinoff_prover]
    #[verifier::rlimit(100)]
    fn settle_falling_block(&mut self, pending: PendingTrapRoll, damage: u8, name: String)
        requires
            old(self).wf(),
            pending.kind == TrapKind::FallingBlock,
            old(self).spec_unit(pending.hero) matches Some(unit) ==> old(self).carries_in_place(unit),
            spec_in_bounds(pending.trap),
            spec_offset(pending.from, pending.direction) == Some(pending.trap),
            old(self).sprang_defined(pending),
            name@ == old(self).hero_name(pending.hero),
        ensures
            final(self).wf(),
            old(self).block_fell(pending, damage, *final(self)),
    {
        self.damage_without_defense(pending.hero, damage);
        let ghost hit = *self;
        proof {
            reveal(Game::wf);
        }
        self.hero_turn.movement_left = 0;
        proof {
            assert(self.wf());
        }
        let ahead = match pending.trap.offset(pending.direction) {
            Some(pos) => if self.boundary_is_open(pending.trap, pos) && self.square_is_open_for_figure(
                pos,
                Some(pending.hero),
            ) {
                Some(pos)
            } else {
                None
            },
            None => None,
        };
        let back = if self.square_is_open_for_figure(pending.from, Some(pending.hero)) {
            Some(pending.from)
        } else {
            None
        };
        proof {
            assert((back, ahead) == Game::flight_squares(pending, hit));
        }
        let c = Self::cell_index(pending.trap);
        proof {
            crate::reach::lemma_cell_round_trip(0, pending.trap);
            reveal(Game::wf);
        }
        let cell = self.cells[c];
        self.cells.set(c, Cell { passable: false, ..cell });
        proof {
            assert(self.wf());
        }
        let mut message = String::from_str("The ceiling collapsed on ");
        message.append(name.as_str());
        message.append(": ");
        message.append(decimal_string(damage as u64).as_str());
        message.append(" Body Point(s), with no defense. Choose ahead or back.");
        let ghost told_line = message;
        let ghost sealed = *self;
        self.push_log(message);
        let ghost told = *self;
        proof {
            assert(told.log@ == log_after(sealed.log@, told_line));
            assert(Game::trap_told(pending, hit, told));
            lemma_wf_ids(*self);
        }
        let standing = match self.unit_index(pending.hero) {
            Some(index) => self.units[index].alive,
            None => false,
        };
        proof {
            if standing {
                lemma_slot_of(self.units@, pending.hero, unit_slot(self.units@, pending.hero));
            }
        }
        if standing {
            proof {
                reveal(Game::wf);
            }
            self.pending_falling_block = Some(
                PendingFallingBlock { hero: pending.hero, trap: pending.trap, back, ahead },
            );
            proof {
                assert(self.wf());
                assert(*self == Game::block_waiting(pending, hit, told));
            }
            if back.is_none() || ahead.is_none() {
                let direction = if back.is_none() {
                    pending.direction
                } else {
                    proof {
                        crate::reach::lemma_opposite_returns(pending.from, pending.direction, pending.trap);
                    }
                    crate::reach::opposite(pending.direction)
                };
                let fled = self.resolve_falling_block_escape(direction);
            }
        } else {
            self.end_forced_hero_turn();
        }
    }
}

impl Game {
    /// The active figure has no movement left.
    pub(crate) fn stop_moving(&mut self)
        requires
            old(self).wf(),
        ensures
            final(self).wf(),
            *final(self) == (Game {
                hero_turn: HeroTurnState { movement_left: 0, ..old(self).hero_turn },
                ..*old(self)
            }),
    {
        proof {
            reveal(Game::wf);
        }
        self.hero_turn.movement_left = 0;
        proof {
            assert(self.wf());
        }
    }
}

} // verus!
