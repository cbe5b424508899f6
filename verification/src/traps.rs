//! Dealing with a trap beside the active hero: disarming it, or jumping
//! over it.
use vstd::prelude::*;

use crate::engine::{Game, spec_cell_index, spec_in_bounds};
use crate::game::{DisarmPlan, JumpPlan, RuleError, Trap, Unit};
use crate::model::{Direction, FigureKind, HeroKind, Pos, TrapKind, spec_offset};

verus! {

/// A trap that can be disarmed: of a disarmable kind, found, and neither
/// sprung nor disarmed.
pub open spec fn can_be_disarmed(trap: Trap) -> bool {
    &&& trap.disarmable
    &&& trap.discovered
    &&& !trap.sprung
    &&& !trap.disarmed
}

/// A trap that can be jumped: not disarmed, and either found and not yet
/// sprung, or a sprung pit.
pub open spec fn can_be_jumped(trap: Trap) -> bool {
    &&& !trap.disarmed
    &&& ((trap.discovered && !trap.sprung) || (trap.sprung && trap.kind == TrapKind::Pit))
}

/// `i` is the first trap on `pos` that can be disarmed.
pub open spec fn is_first_disarmable(traps: Seq<Trap>, pos: Pos, i: int) -> bool {
    &&& 0 <= i < traps.len()
    &&& traps[i].pos == pos && can_be_disarmed(traps[i])
    &&& forall|j: int| 0 <= j < i ==> !(traps[j].pos == pos && can_be_disarmed(#[trigger] traps[j]))
}

/// `i` is the first trap on `pos` that can be jumped.
pub open spec fn is_first_jumpable(traps: Seq<Trap>, pos: Pos, i: int) -> bool {
    &&& 0 <= i < traps.len()
    &&& traps[i].pos == pos && can_be_jumped(traps[i])
    &&& forall|j: int| 0 <= j < i ==> !(traps[j].pos == pos && can_be_jumped(#[trigger] traps[j]))
}

impl Game {
    /// Open floor with no living figure other than `except` and no
    /// furniture.
    pub open spec fn spec_open_for_figure(self, pos: Pos, except: Option<crate::game::UnitId>) -> bool {
        &&& spec_in_bounds(pos)
        &&& self.cells@[spec_cell_index(pos)].passable
        &&& !self.spec_occupied(pos, except)
        &&& !self.spec_is_furniture_square(pos)
    }

    fn first_disarmable_trap(&self, pos: Pos) -> (found: Option<usize>)
        ensures
            match found {
                Some(i) => is_first_disarmable(self.traps@, pos, i as int),
                None => forall|j: int|
                    0 <= j < self.traps@.len() ==> !(self.traps@[j].pos == pos && can_be_disarmed(
                        #[trigger] self.traps@[j],
                    )),
            },
    {
        let mut i: usize = 0;
        while i < self.traps.len()
            invariant
                i <= self.traps@.len(),
                forall|j: int|
                    0 <= j < i ==> !(self.traps@[j].pos == pos && can_be_disarmed(#[trigger] self.traps@[j])),
            decreases self.traps.len() - i,
        {
            let trap = self.traps[i];
            if trap.pos == pos && trap.disarmable && trap.discovered && !trap.sprung && !trap.disarmed {
                return Some(i);
            }
            i = i + 1;
        }
        None
    }

    fn first_jumpable_trap(&self, pos: Pos) -> (found: Option<usize>)
        ensures
            match found {
                Some(i) => is_first_jumpable(self.traps@, pos, i as int),
                None => forall|j: int|
                    0 <= j < self.traps@.len() ==> !(self.traps@[j].pos == pos && can_be_jumped(
                        #[trigger] self.traps@[j],
                    )),
            },
    {
        let mut i: usize = 0;
        while i < self.traps.len()
            invariant
                i <= self.traps@.len(),
                forall|j: int|
                    0 <= j < i ==> !(self.traps@[j].pos == pos && can_be_jumped(#[trigger] self.traps@[j])),
            decreases self.traps.len() - i,
        {
            let trap = self.traps[i];
            if trap.pos == pos && !trap.disarmed && ((trap.discovered && !trap.sprung) || (trap.sprung
                && trap.kind == TrapKind::Pit)) {
                return Some(i);
            }
            i = i + 1;
        }
        None
    }

    /// The hero can reach the trap beside it in `direction` to disarm it: a
    /// trap there can be disarmed, the way to it is open, and its square is
    /// clear (a furniture square only of other figures).
    pub open spec fn disarm_toward(self, hero: Unit, direction: Direction) -> Option<int> {
        match spec_offset(hero.pos, direction) {
            None => None,
            Some(pos) => if exists|i: int| is_first_disarmable(self.traps@, pos, i) {
                let clear = if self.spec_is_furniture_square(pos) {
                    !self.spec_occupied(pos, Some(hero.id))
                } else {
                    self.spec_open_for_figure(pos, Some(hero.id))
                };
                if self.spec_boundary_is_open(hero.pos, pos) && clear {
                    Some(choose|i: int| is_first_disarmable(self.traps@, pos, i))
                } else {
                    None
                }
            } else {
                None
            },
        }
    }

    /// The disarming plan toward `direction`, if that way leads to a trap
    /// the hero may disarm.
    pub open spec fn disarm_plan_toward(self, hero: Unit, dwarf: bool, direction: Direction) -> Option<
        DisarmPlan,
    > {
        match self.disarm_toward(hero, direction) {
            None => None,
            Some(i) => Some(
                DisarmPlan {
                    hero: hero.id,
                    trap_index: i as usize,
                    from: hero.pos,
                    trap: spec_offset(hero.pos, direction)->Some_0,
                    direction,
                    dwarf,
                },
            ),
        }
    }

    /// The active hero's plan to disarm a trap beside it, or why it cannot:
    /// it must be awake, not have acted or begun moving, have rolled and
    /// still have movement, and be the Dwarf or carry a usable Tool Kit; the
    /// first direction, north, east, south then west, that leads to a trap
    /// it may disarm is chosen.
    pub open spec fn spec_disarm_plan(self) -> Result<DisarmPlan, RuleError> {
        match self.spec_active_hero() {
            None => Err(RuleError::NotHeroTurn),
            Some(hero) => {
                let dwarf = hero.figure == FigureKind::Hero(HeroKind::Dwarf);
                if hero.sleeping || hero.clouded {
                    Err(RuleError::Incapacitated)
                } else if self.hero_turn.action_used {
                    Err(RuleError::AlreadyActed)
                } else if self.hero_turn.moved_steps > 0 {
                    Err(RuleError::DisarmBeforeMoving)
                } else if self.hero_turn.movement_roll is None {
                    Err(RuleError::MovementNotRolled)
                } else if self.hero_turn.movement_left == 0 {
                    Err(RuleError::NoMovement)
                } else if !dwarf && !hero.equipment_available && hero.inventory.tool_kits > 0 {
                    Err(RuleError::EquipmentUnavailable)
                } else if !dwarf && hero.inventory.tool_kits == 0 {
                    Err(RuleError::ToolKitRequired)
                } else if let Some(plan) = self.disarm_plan_toward(hero, dwarf, Direction::North) {
                    Ok(plan)
                } else if let Some(plan) = self.disarm_plan_toward(hero, dwarf, Direction::East) {
                    Ok(plan)
                } else if let Some(plan) = self.disarm_plan_toward(hero, dwarf, Direction::South) {
                    Ok(plan)
                } else if let Some(plan) = self.disarm_plan_toward(hero, dwarf, Direction::West) {
                    Ok(plan)
                } else {
                    Err(RuleError::NoDisarmableTrap)
                }
            },
        }
    }

    fn disarm_plan_in(&self, hero: &Unit, dwarf: bool, direction: Direction) -> (plan: Option<DisarmPlan>)
        requires
            self.wf(),
        ensures
            plan == self.disarm_plan_toward(*hero, dwarf, direction),
    {
        let pos = match hero.pos.offset(direction) {
            Some(pos) => pos,
            None => return None,
        };
        let trap_index = match self.first_disarmable_trap(pos) {
            Some(i) => i,
            None => return None,
        };
        let clear = if self.is_furniture_square(pos) {
            self.occupied_by_alive(pos, Some(hero.id)).is_none()
        } else {
            self.square_is_open_for_figure(pos, Some(hero.id))
        };
        if self.boundary_is_open(hero.pos, pos) && clear {
            proof {
                let k = choose|i: int| is_first_disarmable(self.traps@, pos, i);
                if k != trap_index as int {
                    if k < trap_index as int {
                        assert(!(self.traps@[k].pos == pos && can_be_disarmed(self.traps@[k])));
                    } else {
                        assert(!(self.traps@[trap_index as int].pos == pos && can_be_disarmed(
                            self.traps@[trap_index as int],
                        )));
                    }
                }
            }
            Some(DisarmPlan { hero: hero.id, trap_index, from: hero.pos, trap: pos, direction, dwarf })
        } else {
            None
        }
    }

    /// The active hero's plan to disarm a trap beside it.
    pub fn active_disarm_plan(&self) -> (plan: Result<DisarmPlan, RuleError>)
        requires
            self.wf(),
        ensures
            plan == self.spec_disarm_plan(),
    {
        let hero = match self.active_hero() {
            Some(hero) => hero,
            None => return Err(RuleError::NotHeroTurn),
        };
        if hero.sleeping || hero.clouded {
            return Err(RuleError::Incapacitated);
        }
        if self.hero_turn.action_used {
            return Err(RuleError::AlreadyActed);
        }
        if self.hero_turn.moved_steps > 0 {
            return Err(RuleError::DisarmBeforeMoving);
        }
        if self.hero_turn.movement_roll.is_none() {
            return Err(RuleError::MovementNotRolled);
        }
        if self.hero_turn.movement_left == 0 {
            return Err(RuleError::NoMovement);
        }
        let dwarf = hero.figure == FigureKind::Hero(HeroKind::Dwarf);
        if !dwarf && !hero.equipment_available && hero.inventory.tool_kits > 0 {
            return Err(RuleError::EquipmentUnavailable);
        }
        if !dwarf && hero.inventory.tool_kits == 0 {
            return Err(RuleError::ToolKitRequired);
        }
        let directions = Direction::all();
        let mut k: usize = 0;
        while k < 4
            invariant
                self.wf(),
                k <= 4,
                directions@ == seq![Direction::North, Direction::East, Direction::South, Direction::West],
                self.spec_active_hero() == Some(*hero),
                dwarf == (hero.figure == FigureKind::Hero(HeroKind::Dwarf)),
                !hero.sleeping && !hero.clouded,
                !self.hero_turn.action_used && self.hero_turn.moved_steps == 0,
                self.hero_turn.movement_roll is Some && self.hero_turn.movement_left != 0,
                !(!dwarf && !hero.equipment_available && hero.inventory.tool_kits > 0),
                !(!dwarf && hero.inventory.tool_kits == 0),
                forall|j: int| 0 <= j < k ==> self.disarm_plan_toward(*hero, dwarf, #[trigger] directions@[j]) is None,
            decreases 4 - k,
        {
            match self.disarm_plan_in(hero, dwarf, directions[k]) {
                Some(plan) => {
                    proof {
                        if k >= 1 {
                            assert(self.disarm_plan_toward(*hero, dwarf, directions@[0]) is None);
                        }
                        if k >= 2 {
                            assert(self.disarm_plan_toward(*hero, dwarf, directions@[1]) is None);
                        }
                        if k >= 3 {
                            assert(self.disarm_plan_toward(*hero, dwarf, directions@[2]) is None);
                        }
                    }
                    return Ok(plan);
                },
                None => {},
            }
            k = k + 1;
        }
        proof {
            assert(self.disarm_plan_toward(*hero, dwarf, directions@[0]) is None);
            assert(self.disarm_plan_toward(*hero, dwarf, directions@[1]) is None);
            assert(self.disarm_plan_toward(*hero, dwarf, directions@[2]) is None);
            assert(self.disarm_plan_toward(*hero, dwarf, directions@[3]) is None);
        }
        Err(RuleError::NoDisarmableTrap)
    }
}

impl Game {
    /// The active hero's plan to jump the trap beside it in `direction`, or
    /// why it cannot: it must be awake, have rolled and have two moves
    /// left; the square beyond must be on the board, a trap there must be
    /// jumpable, neither square may be furniture behind a closed way, and
    /// the landing must be open floor.
    pub open spec fn spec_jump_plan(self, direction: Direction) -> Result<JumpPlan, RuleError> {
        match self.spec_active_hero() {
            None => Err(RuleError::NotHeroTurn),
            Some(hero) => if hero.sleeping || hero.clouded {
                Err(RuleError::Incapacitated)
            } else if self.hero_turn.movement_roll is None {
                Err(RuleError::MovementNotRolled)
            } else if self.hero_turn.movement_left < 2 {
                Err(RuleError::NoMovement)
            } else {
                match spec_offset(hero.pos, direction) {
                    None => Err(RuleError::NoJumpableTrap),
                    Some(trap) => match spec_offset(trap, direction) {
                        None => Err(RuleError::NoJumpableTrap),
                        Some(landing) => if !(exists|i: int| is_first_jumpable(self.traps@, trap, i)) {
                            Err(RuleError::NoJumpableTrap)
                        } else if self.spec_is_furniture_square(trap) || !self.spec_boundary_is_open(
                            hero.pos,
                            trap,
                        ) || !self.spec_boundary_is_open(trap, landing) || !self.spec_open_for_figure(
                            landing,
                            Some(hero.id),
                        ) {
                            Err(RuleError::NoJumpableTrap)
                        } else {
                            Ok(
                                JumpPlan {
                                    hero: hero.id,
                                    trap_index: (choose|i: int| is_first_jumpable(self.traps@, trap, i)) as usize,
                                    from: hero.pos,
                                    trap,
                                    landing,
                                    direction,
                                },
                            )
                        },
                    },
                }
            },
        }
    }

    /// The active hero's plan to jump the trap beside it in `direction`.
    pub fn active_jump_plan(&self, direction: Direction) -> (plan: Result<JumpPlan, RuleError>)
        requires
            self.wf(),
        ensures
            plan == self.spec_jump_plan(direction),
    {
        let hero = match self.active_hero() {
            Some(hero) => hero,
            None => return Err(RuleError::NotHeroTurn),
        };
        if hero.sleeping || hero.clouded {
            return Err(RuleError::Incapacitated);
        }
        if self.hero_turn.movement_roll.is_none() {
            return Err(RuleError::MovementNotRolled);
        }
        if self.hero_turn.movement_left < 2 {
            return Err(RuleError::NoMovement);
        }
        let trap = match hero.pos.offset(direction) {
            Some(trap) => trap,
            None => return Err(RuleError::NoJumpableTrap),
        };
        let landing = match trap.offset(direction) {
            Some(landing) => landing,
            None => return Err(RuleError::NoJumpableTrap),
        };
        let trap_index = match self.first_jumpable_trap(trap) {
            Some(i) => i,
            None => return Err(RuleError::NoJumpableTrap),
        };
        if self.is_furniture_square(trap) || !self.boundary_is_open(hero.pos, trap)
            || !self.boundary_is_open(trap, landing) || !self.square_is_open_for_figure(
            landing,
            Some(hero.id),
        ) {
            return Err(RuleError::NoJumpableTrap);
        }
        proof {
            let k = choose|i: int| is_first_jumpable(self.traps@, trap, i);
            if k != trap_index as int {
                if k < trap_index as int {
                    assert(!(self.traps@[k].pos == trap && can_be_jumped(self.traps@[k])));
                } else {
                    assert(!(self.traps@[trap_index as int].pos == trap && can_be_jumped(
                        self.traps@[trap_index as int],
                    )));
                }
            }
        }
        Ok(JumpPlan { hero: hero.id, trap_index, from: hero.pos, trap, landing, direction })
    }
}

} // verus!
