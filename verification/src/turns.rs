//! Passing the turn: escaping by the stairway, movement spells running out,
//! carried quest items falling to the floor, and the order in which heroes
//! and the game master take their turns.
use vstd::prelude::*;
use vstd::pervasive::VecAdditionalExecFns;

use crate::engine::{
    Game, distinct_ids, has_unit_id, lemma_sees_monster_alike, lemma_slot_of, lemma_wf_ids,
    logged_one_line, seen_alike, spec_in_bounds, unique_unit_ids, unit_slot,
};
use crate::game;
use crate::game::contains_unit_id;
use crate::game::{GamePhase, HeroTurnState, Prop, QuestItem, RuleError, Unit, UnitId, is_fresh_turn};
use crate::model::Pos;
use crate::unit_ops::{lemma_turn_sat_out_keeps, turn_sat_out};
use crate::outcome::{is_escape_objective, is_terminal_phase};

verus! {

/// The figure with Pass Through Rock and Veil of Mist ended.
#[verifier::opaque]
pub open spec fn movement_spells_ended(unit: Unit) -> Unit {
    Unit { pass_through_rock: false, veil_of_mist: false, ..unit }
}

/// The figure once it has fallen: no Body Points left, no longer alive, and
/// nothing in hand.
#[verifier::opaque]
pub open spec fn fallen_figure(unit: Unit) -> Unit {
    Unit { body: 0, alive: false, carried_quest_item: None, ..unit }
}

pub(crate) proof fn lemma_fallen(unit: Unit, sealed: Unit)
    requires
        sealed == (Unit { body: 0, alive: false, carried_quest_item: None, ..unit }),
    ensures
        sealed == fallen_figure(unit),
{
    reveal(fallen_figure);
}

/// A figure that falls keeps its id, square, side, kind, name and
/// possessions.
pub(crate) proof fn lemma_fallen_keeps(unit: Unit)
    ensures
        fallen_figure(unit).id == unit.id,
        fallen_figure(unit).pos == unit.pos,
        fallen_figure(unit).faction == unit.faction,
        fallen_figure(unit).figure == unit.figure,
        fallen_figure(unit).name == unit.name,
        fallen_figure(unit).inventory == unit.inventory,
        !fallen_figure(unit).alive,
        fallen_figure(unit).carried_quest_item is None,
{
    reveal(fallen_figure);
}

/// A hero called to play who must sit the turn out: turned to stone, or held
/// by Tempest.
pub open spec fn sits_out(unit: Unit) -> bool {
    unit.alive && !unit.escaped && (unit.petrified_turns > 0 || unit.skip_turns > 0)
}

/// A hero who plays when called.
pub open spec fn takes_turn(unit: Unit) -> bool {
    unit.alive && !unit.escaped && unit.petrified_turns == 0 && unit.skip_turns == 0
}

/// The figure with `id` is called at a place of `order` from `from` up to,
/// not including, `to`.
pub open spec fn called_between(order: Seq<UnitId>, from: int, to: int, id: UnitId) -> bool {
    exists|j: int| from <= j < to && #[trigger] order[j] == id
}

/// The figures after each hero called from `from` up to `to` sat out the
/// turn it had to.
pub open spec fn after_sitting_out(units: Seq<Unit>, order: Seq<UnitId>, from: int, to: int) -> Seq<
    Unit,
> {
    Seq::new(
        units.len(),
        |k: int|
            if sits_out(units[k]) && called_between(order, from, to, units[k].id) {
                turn_sat_out(units[k])
            } else {
                units[k]
            },
    )
}

/// No hero called from `from` up to `to` plays.
pub open spec fn none_ready_between(game: Game, from: int, to: int) -> bool {
    forall|j: int|
        from <= j < to ==> !(#[trigger] game.spec_unit(game.hero_order@[j]) matches Some(hero)
            && takes_turn(hero))
}

/// `units` after the hero with `hero_id` starts its turn: Courage leaves it
/// when no monster of `game` is in its sight.
pub open spec fn courage_checked(game: Game, units: Seq<Unit>, hero_id: UnitId) -> Seq<Unit> {
    let slot = unit_slot(game.units@, hero_id);
    let hero = units[slot];
    if hero.courage && !(exists|i: int|
        0 <= i < game.units@.len() && game.sees_monster(hero.pos, #[trigger] game.units@[i])) {
        units.update(slot, Unit { courage: false, ..hero })
    } else {
        units
    }
}

proof fn lemma_turn_sat_out(unit: Unit)
    ensures
        seen_alike(unit, turn_sat_out(unit)),
        turn_sat_out(unit).id == unit.id,
        turn_sat_out(unit).courage == unit.courage,
        turn_sat_out(unit).carried_quest_item == unit.carried_quest_item,
{
    lemma_turn_sat_out_keeps(unit);
}

/// Calling a place whose id names no figure changes no one.
proof fn lemma_sitting_out_skip(units: Seq<Unit>, order: Seq<UnitId>, from: int, to: int)
    requires
        from <= to < order.len(),
        forall|k: int| 0 <= k < units.len() ==> #[trigger] units[k].id != order[to]
            || !sits_out(units[k]),
    ensures
        after_sitting_out(units, order, from, to + 1) == after_sitting_out(units, order, from, to),
{
    assert forall|k: int| 0 <= k < units.len() implies #[trigger] after_sitting_out(
        units,
        order,
        from,
        to + 1,
    )[k] == after_sitting_out(units, order, from, to)[k] by {
        if sits_out(units[k]) {
            if called_between(order, from, to + 1, units[k].id) {
                let j = choose|j: int| from <= j < to + 1 && #[trigger] order[j] == units[k].id;
                assert(j != to);
                assert(called_between(order, from, to, units[k].id));
            }
            if called_between(order, from, to, units[k].id) {
                let j = choose|j: int| from <= j < to && #[trigger] order[j] == units[k].id;
                assert(called_between(order, from, to + 1, units[k].id));
            }
        }
    }
    assert(after_sitting_out(units, order, from, to + 1) =~= after_sitting_out(
        units,
        order,
        from,
        to,
    ));
}

/// Calling the hero at `slot`, not called before, makes it sit out if it must.
proof fn lemma_sitting_out_call(units: Seq<Unit>, order: Seq<UnitId>, from: int, to: int, slot: int)
    requires
        0 <= from <= to < order.len(),
        unique_unit_ids(units),
        distinct_ids(order),
        0 <= slot < units.len(),
        units[slot].id == order[to],
    ensures
        after_sitting_out(units, order, from, to)[slot] == units[slot],
        after_sitting_out(units, order, from, to + 1) == after_sitting_out(
            units,
            order,
            from,
            to,
        ).update(
            slot,
            if sits_out(units[slot]) {
                turn_sat_out(units[slot])
            } else {
                units[slot]
            },
        ),
{
    if called_between(order, from, to, units[slot].id) {
        let j = choose|j: int| from <= j < to && #[trigger] order[j] == units[slot].id;
        assert(order[j] != order[to]);
    }
    assert(order[to] == units[slot].id);
    assert(called_between(order, from, to + 1, units[slot].id));
    assert forall|k: int| 0 <= k < units.len() && k != slot implies #[trigger] after_sitting_out(
        units,
        order,
        from,
        to + 1,
    )[k] == after_sitting_out(units, order, from, to)[k] by {
        assert(units[k].id != units[slot].id);
        if called_between(order, from, to + 1, units[k].id) {
            let j = choose|j: int| from <= j < to + 1 && #[trigger] order[j] == units[k].id;
            assert(j != to);
            assert(called_between(order, from, to, units[k].id));
        }
        if called_between(order, from, to, units[k].id) {
            let j = choose|j: int| from <= j < to && #[trigger] order[j] == units[k].id;
            assert(called_between(order, from, to + 1, units[k].id));
        }
    }
    assert(after_sitting_out(units, order, from, to + 1) =~= after_sitting_out(
        units,
        order,
        from,
        to,
    ).update(
        slot,
        if sits_out(units[slot]) {
            turn_sat_out(units[slot])
        } else {
            units[slot]
        },
    ));
}

/// Sitting out keeps every figure's id, and how it looks to an observer.
proof fn lemma_sitting_out_alike(units: Seq<Unit>, order: Seq<UnitId>, from: int, to: int)
    ensures
        after_sitting_out(units, order, from, to).len() == units.len(),
        forall|k: int|
            0 <= k < units.len() ==> seen_alike(
                #[trigger] units[k],
                after_sitting_out(units, order, from, to)[k],
            ) && after_sitting_out(units, order, from, to)[k].id == units[k].id
                && after_sitting_out(units, order, from, to)[k].courage == units[k].courage
                && after_sitting_out(units, order, from, to)[k].carried_quest_item
                == units[k].carried_quest_item,
{
    assert forall|k: int| 0 <= k < units.len() implies seen_alike(
        #[trigger] units[k],
        after_sitting_out(units, order, from, to)[k],
    ) && after_sitting_out(units, order, from, to)[k].id == units[k].id
        && after_sitting_out(units, order, from, to)[k].courage == units[k].courage
        && after_sitting_out(units, order, from, to)[k].carried_quest_item
        == units[k].carried_quest_item by {
        lemma_turn_sat_out(units[k]);
    }
}

/// The piece of a quest item put down on `pos`, face up and held by no one.
pub open spec fn dropped_prop(prop: Prop, pos: Pos) -> Prop {
    Prop { pos, visible: true, carried_by: None, ..prop }
}

/// The quest items and pieces after `unit` put down what it carried.
pub open spec fn item_put_down(
    items: Seq<QuestItem>,
    props: Seq<Prop>,
    items_after: Seq<QuestItem>,
    props_after: Seq<Prop>,
    unit: Unit,
) -> bool {
    match unit.carried_quest_item {
        Some(item) => {
            let prop = items[item as int].prop_index as int;
            &&& items_after == items.update(item as int, items_after[item as int])
            &&& items_after[item as int] == (QuestItem { holder: None, ..items[item as int] })
            &&& props_after == props.update(prop, dropped_prop(props[prop], unit.pos))
        },
        None => items_after == items && props_after == props,
    }
}

/// The game after the movement spells of the figure at `slot` ran out: each
/// ends; one who used Pass Through Rock and stands where no one can walk is
/// sealed in the rock and puts down what it carried; a line is logged when
/// a spell was in use. Nothing else of the game changes.
pub open spec fn spell_movement_finished(before: Game, after: Game, slot: int) -> bool {
    let hero = before.units@[slot];
    let ended = movement_spells_ended(hero);
    let entombed = hero.pass_through_rock && !(before.spec_cell(hero.pos) matches Some(cell)
        && cell.passable);
    &&& after.units@ == before.units@.update(slot, after.units@[slot])
    &&& after.units@[slot] == if entombed {
        fallen_figure(ended)
    } else {
        ended
    }
    &&& if entombed {
        item_put_down(before.quest_items@, before.props@, after.quest_items@, after.props@, hero)
    } else {
        after.quest_items@ == before.quest_items@ && after.props@ == before.props@
    }
    &&& if hero.pass_through_rock || hero.veil_of_mist {
        logged_one_line(before.log@, after.log@)
    } else {
        after.log@ == before.log@
    }
}

proof fn lemma_entombed_finished(start: Game, ended: Game, after: Game, slot: int)
    requires
        0 <= slot < start.units@.len(),
        start.units@[slot].pass_through_rock,
        !(start.spec_cell(start.units@[slot].pos) matches Some(cell) && cell.passable),
        ended.units@ == start.units@.update(slot, ended.units@[slot]),
        ended.units@[slot] == movement_spells_ended(start.units@[slot]),
        ended == (Game { units: ended.units, ..start }),
        after.units@ == ended.units@.update(slot, after.units@[slot]),
        after.units@[slot] == fallen_figure(ended.units@[slot]),
        item_put_down(
            ended.quest_items@,
            ended.props@,
            after.quest_items@,
            after.props@,
            ended.units@[slot],
        ),
        logged_one_line(ended.log@, after.log@),
        after == (Game {
            units: after.units,
            quest_items: after.quest_items,
            props: after.props,
            log: after.log,
            ..ended
        }),
    ensures
        spell_movement_finished(start, after, slot),
{
    assert(after.units@ =~= start.units@.update(slot, after.units@[slot]));
    assert(ended.units@[slot].carried_quest_item == start.units@[slot].carried_quest_item
        && ended.units@[slot].pos == start.units@[slot].pos) by {
        reveal(movement_spells_ended);
    }
}

proof fn lemma_spells_ended_finished(start: Game, ended: Game, after: Game, slot: int)
    requires
        0 <= slot < start.units@.len(),
        !(start.units@[slot].pass_through_rock && !(start.spec_cell(start.units@[slot].pos) matches Some(
            cell,
        ) && cell.passable)),
        ended.units@ == start.units@.update(slot, ended.units@[slot]),
        ended.units@[slot] == movement_spells_ended(start.units@[slot]),
        ended == (Game { units: ended.units, ..start }),
        if start.units@[slot].pass_through_rock || start.units@[slot].veil_of_mist {
            logged_one_line(ended.log@, after.log@)
        } else {
            after.log@ == ended.log@
        },
        after == (Game { log: after.log, ..ended }),
    ensures
        spell_movement_finished(start, after, slot),
{
}

/// Who comes next when the heroes are called from place `start` of the turn
/// order: `next` is the first who plays, each hero called before it sat out
/// the turn it had to, and Courage left the one who plays when no monster is
/// in its sight; or no one plays and every hero called sat out. `units` are
/// the figures afterwards.
pub open spec fn next_called(before: Game, start: int, next: Option<usize>, units: Seq<Unit>) -> bool {
    let order = before.hero_order@;
    match next {
        Some(i) => {
            &&& start <= i < order.len()
            &&& before.spec_unit(order[i as int]) matches Some(hero) && takes_turn(hero)
            &&& none_ready_between(before, start, i as int)
            &&& units == courage_checked(
                before,
                after_sitting_out(before.units@, order, start, i as int),
                order[i as int],
            )
        },
        None => {
            &&& none_ready_between(before, start, order.len() as int)
            &&& units == after_sitting_out(before.units@, order, start, order.len() as int)
        },
    }
}

/// The heroes who acted this round, with `id` among them.
pub open spec fn acted_with(acted: Seq<UnitId>, id: UnitId) -> Seq<UnitId> {
    if acted.contains(id) {
        acted
    } else {
        acted.push(id)
    }
}

/// The place in the turn order whose turn is ending.
pub open spec fn ending_order_index(phase: GamePhase) -> int {
    match phase {
        GamePhase::HeroTurn { order_index } => order_index as int,
        GamePhase::AllyTurn { controller_order_index, .. } => controller_order_index as int,
        _ => 0,
    }
}

impl Game {
    /// What `unit` carries, if anything, is a quest item of this game whose
    /// piece is on the board.
    pub open spec fn carries_in_place(self, unit: Unit) -> bool {
        match unit.carried_quest_item {
            Some(k) => k < self.quest_items@.len() && self.quest_items@[k as int].prop_index
                < self.props@.len(),
            None => true,
        }
    }

    /// The active hero has moved and stands where another living figure
    /// stands, on a square it may not share.
    pub open spec fn stopped_on_occupied_square(self) -> bool {
        &&& self.spec_active_hero_id() matches Some(id)
        &&& self.hero_turn.movement_roll is Some
        &&& self.spec_unit(id) matches Some(hero)
        &&& self.spec_occupied(hero.pos, Some(id))
        &&& !self.spec_hero_may_share_square(id, hero.pos)
    }

    /// A trap roll, a dying hero's rescue or a fallen hero's possessions
    /// await a decision.
    pub open spec fn decision_pending(self) -> bool {
        self.pending_trap_roll is Some || self.pending_hero_death is Some
            || self.pending_possession_pickup is Some
    }

    /// The active hero is on the board, and what it carries is in place.
    pub open spec fn active_hero_carries_in_place(self) -> bool {
        &&& self.spec_active_hero() matches Some(hero)
        &&& self.carries_in_place(hero)
    }

    /// The ending turn names a place in the turn order, and a following place
    /// can be counted.
    pub open spec fn turn_position_valid(self) -> bool {
        &&& self.phase matches GamePhase::HeroTurn { order_index } ==> order_index
            < self.hero_order@.len()
        &&& self.phase matches GamePhase::AllyTurn { controller_order_index, .. }
            ==> controller_order_index < usize::MAX
    }

    /// Ending the turn only looks up what exists: the active hero who moved is
    /// on the board with what it carries in place, and a turn that can end
    /// names its place in the order.
    pub open spec fn turn_end_defined(self) -> bool {
        &&& !self.decision_pending() && self.moved_this_turn() ==> self.active_hero_carries_in_place()
        &&& self.end_turn_refusal() is None ==> self.turn_position_valid()
    }

    /// Why the turn cannot end now, if it cannot.
    pub open spec fn end_turn_refusal(self) -> Option<RuleError> {
        if self.pending_trap_roll is Some {
            Some(RuleError::TrapRollPending)
        } else if self.pending_hero_death is Some {
            Some(RuleError::HeroDeathDecisionPending)
        } else if self.pending_possession_pickup is Some {
            Some(RuleError::PossessionPickupPending)
        } else if self.stopped_on_occupied_square() {
            Some(RuleError::MustFinishOccupiedMove)
        } else if !(self.phase is HeroTurn || self.phase is AllyTurn) {
            Some(RuleError::NotHeroTurn)
        } else {
            None
        }
    }

    /// The active hero has rolled for movement this turn.
    pub open spec fn moved_this_turn(self) -> bool {
        self.spec_active_hero_id() is Some && self.hero_turn.movement_roll is Some
    }

    /// The game once the ending turn is wrapped up: the active hero's movement
    /// spells run out if it moved, and a hero who acted is counted as having
    /// acted this round.
    pub open spec fn turn_wrapped_up(self, after: Game) -> bool {
        &&& if self.moved_this_turn() {
            spell_movement_finished(
                self,
                after,
                unit_slot(self.units@, self.spec_active_hero_id()->Some_0),
            )
        } else {
            after.units@ == self.units@ && after.quest_items@ == self.quest_items@ && after.props@
                == self.props@ && after.log@ == self.log@
        }
        &&& after.heroes_acted_this_round@ == match self.phase {
            GamePhase::HeroTurn { order_index } => if self.hero_turn.action_used {
                acted_with(self.heroes_acted_this_round@, self.hero_order@[order_index as int])
            } else {
                self.heroes_acted_this_round@
            },
            _ => self.heroes_acted_this_round@,
        }
        &&& after == (Game {
            units: after.units,
            quest_items: after.quest_items,
            props: after.props,
            log: after.log,
            heroes_acted_this_round: after.heroes_acted_this_round,
            ..self
        })
    }

    /// An escorted ally moves next: the hero whose turn ends escorts it, and
    /// it lives and has not reached the stairway.
    pub open spec fn escort_takes_over(self) -> bool {
        &&& self.phase matches GamePhase::HeroTurn { order_index }
        &&& self.escorted_ally matches Some((ally, controller))
        &&& self.hero_order@[ending_order_index(self.phase)] == controller
        &&& self.spec_unit(ally) matches Some(unit)
        &&& unit.alive
        &&& !self.stairs@.contains(unit.pos)
    }

    /// The game once play passes on from the wrapped-up turn: to the
    /// escorted ally, to the end of the quest, to the next hero who plays, or
    /// to the game master when no hero is left to play this round.
    pub open spec fn turn_handed_on(self, after: Game) -> bool {
        let next_start = ending_order_index(self.phase) + 1;
        if self.escort_takes_over() {
            &&& after.phase == (GamePhase::AllyTurn {
                ally: self.escorted_ally->Some_0.0,
                controller_order_index: ending_order_index(self.phase) as usize,
            })
            &&& is_fresh_turn(after.hero_turn)
            &&& logged_one_line(self.log@, after.log@)
            &&& after == (Game {
                phase: after.phase,
                hero_turn: after.hero_turn,
                log: after.log,
                ..self
            })
        } else if is_terminal_phase(self.spec_settled_phase()) {
            &&& after.phase == self.spec_settled_phase()
            &&& after.units@ == self.spec_settled_units()
            &&& after.log@.len() > 0
            &&& after.log@.last()@ == self.spec_settle_message()
            &&& after == (Game { phase: after.phase, units: after.units, log: after.log, ..self })
        } else {
            &&& is_fresh_turn(after.hero_turn)
            &&& match after.phase {
                GamePhase::HeroTurn { order_index } => {
                    &&& next_called(self, next_start, Some(order_index), after.units@)
                    &&& after == (Game {
                        phase: after.phase,
                        hero_turn: after.hero_turn,
                        units: after.units,
                        log: after.log,
                        ..self
                    })
                },
                GamePhase::ZargonTurn => {
                    &&& next_called(self, next_start, None, after.units@)
                    &&& !after.zargon_turn_started
                    &&& after.zargon_queue@.len() == 0
                    &&& after.zargon_active is None
                    &&& after.zargon_commanded_queue@.len() == 0
                    &&& after.zargon_commanded_active is None
                    &&& after.pending_chaos_spell_rolls@.len() == 0
                    &&& after == (Game {
                        phase: after.phase,
                        hero_turn: after.hero_turn,
                        units: after.units,
                        log: after.log,
                        zargon_turn_started: after.zargon_turn_started,
                        zargon_queue: after.zargon_queue,
                        zargon_active: after.zargon_active,
                        zargon_commanded_queue: after.zargon_commanded_queue,
                        zargon_commanded_active: after.zargon_commanded_active,
                        pending_chaos_spell_rolls: after.pending_chaos_spell_rolls,
                        ..self
                    })
                },
                _ => false,
            }
        }
    }

    /// A hero on an escape quest who stands on the stairway, alive and not yet
    /// gone, escapes.
    pub open spec fn spec_escapes(self, hero_id: UnitId) -> bool {
        &&& is_escape_objective(self.objective)
        &&& self.spec_unit(hero_id) matches Some(hero)
        &&& hero.alive
        &&& !hero.escaped
        &&& self.stairs@.contains(hero.pos)
    }

    /// Lets a hero standing on the stairway escape the dungeon on an escape
    /// quest; the hero's turn ends there.
    pub fn escape_hero_on_stairs(&mut self, hero_id: UnitId) -> (escaped: bool)
        requires
            old(self).wf(),
        ensures
            final(self).wf(),
            escaped == old(self).spec_escapes(hero_id),
            !escaped ==> *final(self) == *old(self),
            escaped ==> {
                let slot = unit_slot(old(self).units@, hero_id);
                &&& final(self).units@ == old(self).units@.update(slot, final(self).units@[slot])
                &&& final(self).units@[slot] == (Unit { escaped: true, ..old(self).units@[slot] })
                &&& final(self).hero_turn == (HeroTurnState {
                    action_used: true,
                    movement_left: 0,
                    ..old(self).hero_turn
                })
                &&& logged_one_line(old(self).log@, final(self).log@)
                &&& final(self).log@.last()@ == old(self).units@[slot].name@
                    + " reached the stairway and escaped the dungeon."@
                &&& *final(self) == (Game {
                    units: final(self).units,
                    hero_turn: final(self).hero_turn,
                    log: final(self).log,
                    ..*old(self)
                })
            },
    {
        proof {
            lemma_wf_ids(*self);
        }
        if !matches!(
            self.objective,
            crate::quest::ObjectiveDef::EscapeIndependently
                | crate::quest::ObjectiveDef::DefeatAllOrEscapeIndependently
        ) {
            return false;
        }
        let index = match self.unit_index(hero_id) {
            Some(index) => index,
            None => return false,
        };
        let hero = &self.units[index];
        if !(hero.alive && !hero.escaped && game::contains_pos(&self.stairs, hero.pos)) {
            return false;
        }
        let mut message = hero.name.clone();
        self.unit_mark_escaped(index);
        self.spend_action_and_movement();
        message.append(" reached the stairway and escaped the dungeon.");
        self.push_log(message);
        true
    }

    fn release_quest_item(&mut self, item: usize)
        requires
            old(self).wf(),
            item < old(self).quest_items@.len(),
        ensures
            final(self).wf(),
            final(self).quest_items@ == old(self).quest_items@.update(item as int, final(self).quest_items@[item as int]),
            final(self).quest_items@[item as int] == (QuestItem {
                holder: None,
                ..old(self).quest_items@[item as int]
            }),
            *final(self) == (Game { quest_items: final(self).quest_items, ..*old(self) }),
    {
        reveal(Game::wf);
        let ghost before = *self;
        let mut taken = QuestItem {
            id: String::new(),
            prop_index: 0,
            sealed_gold: 0,
            holder: None,
            delivered: false,
        };
        self.quest_items.set_and_swap(item, &mut taken);
        assert(taken == before.quest_items@[item as int]);
        let released = QuestItem { holder: None, ..taken };
        self.quest_items.set(item, released);
        assert(self.quest_items@ =~= before.quest_items@.update(item as int, released));
    }

    fn place_dropped_prop(&mut self, index: usize, pos: Pos)
        requires
            old(self).wf(),
            index < old(self).props@.len(),
            spec_in_bounds(pos),
        ensures
            final(self).wf(),
            final(self).props@ == old(self).props@.update(
                index as int,
                dropped_prop(old(self).props@[index as int], pos),
            ),
            *final(self) == (Game { props: final(self).props, ..*old(self) }),
    {
        reveal(Game::wf);
        let prop = self.props[index];
        self.props.set(index, Prop { pos, visible: true, carried_by: None, ..prop });
        assert forall|i: int| 0 <= i < self.props@.len() implies game::prop_fits(
            #[trigger] self.props@[i],
        ) && spec_in_bounds(self.props@[i].pos) by {
            if i != index as int {
                assert(self.props@[i] == old(self).props@[i]);
            }
        }
    }

    /// A figure carrying a quest item puts it down on its square; the item's
    /// name is returned, or nothing when none was carried.
    pub(crate) fn drop_carried_quest_item_at(&mut self, unit_id: UnitId) -> (name: String)
        requires
            old(self).wf(),
            old(self).spec_unit(unit_id) matches Some(unit) ==> old(self).carries_in_place(unit),
        ensures
            final(self).wf(),
            match old(self).spec_unit(unit_id) {
                Some(unit) => match unit.carried_quest_item {
                    Some(item) => {
                        let slot = unit_slot(old(self).units@, unit_id);
                        let prop = old(self).quest_items@[item as int].prop_index as int;
                        &&& final(self).units@ == old(self).units@.update(
                            slot,
                            final(self).units@[slot],
                        )
                        &&& final(self).units@[slot] == (Unit {
                            carried_quest_item: None,
                            ..unit
                        })
                        &&& final(self).quest_items@ == old(self).quest_items@.update(
                            item as int,
                            final(self).quest_items@[item as int],
                        )
                        &&& final(self).quest_items@[item as int] == (QuestItem {
                            holder: None,
                            ..old(self).quest_items@[item as int]
                        })
                        &&& final(self).props@ == old(self).props@.update(
                            prop,
                            dropped_prop(old(self).props@[prop], unit.pos),
                        )
                        &&& name@ == old(self).quest_items@[item as int].id@
                        &&& *final(self) == (Game {
                            units: final(self).units,
                            quest_items: final(self).quest_items,
                            props: final(self).props,
                            ..*old(self)
                        })
                    },
                    None => *final(self) == *old(self) && name@ == Seq::<char>::empty(),
                },
                None => *final(self) == *old(self) && name@ == Seq::<char>::empty(),
            },
    {
        proof {
            lemma_wf_ids(*self);
        }
        let index = match self.unit_index(unit_id) {
            Some(index) => index,
            None => return String::new(),
        };
        let item = match self.units[index].carried_quest_item {
            Some(item) => item,
            None => return String::new(),
        };
        let pos = self.units[index].pos;
        proof {
            reveal(Game::wf);
            assert(spec_in_bounds(self.units@[index as int].pos));
        }
        let ghost start = *self;
        self.unit_put_down_item(index);
        self.release_quest_item(item);
        let name = self.quest_items[item].id.clone();
        let prop = self.quest_items[item].prop_index;
        self.place_dropped_prop(prop, pos);
        name
    }

    /// The figure at `index` falls, putting down what it carried.
    #[verifier::spinoff_prover]
    pub(crate) fn fall_and_drop(&mut self, index: usize)
        requires
            old(self).wf(),
            index < old(self).units@.len(),
            old(self).carries_in_place(old(self).units@[index as int]),
        ensures
            final(self).wf(),
            final(self).units@ == old(self).units@.update(index as int, final(self).units@[index as int]),
            final(self).units@[index as int] == fallen_figure(old(self).units@[index as int]),
            item_put_down(
                old(self).quest_items@,
                old(self).props@,
                final(self).quest_items@,
                final(self).props@,
                old(self).units@[index as int],
            ),
            *final(self) == (Game {
                units: final(self).units,
                quest_items: final(self).quest_items,
                props: final(self).props,
                ..*old(self)
            }),
    {
        let ghost start = *self;
        let hero_id = self.units[index].id;
        self.unit_fall(index);
        let ghost mid = *self;
        proof {
            lemma_wf_ids(mid);
            lemma_slot_of(mid.units@, hero_id, index as int);
        }
        self.drop_carried_quest_item_at(hero_id);
        proof {
            lemma_fallen(start.units@[index as int], self.units@[index as int]);
        }
    }

    /// The figure at `index` is sealed inside the rock for good, putting down
    /// what it carried.
    fn entomb_in_stone(&mut self, index: usize)
        requires
            old(self).wf(),
            index < old(self).units@.len(),
            old(self).carries_in_place(old(self).units@[index as int]),
        ensures
            final(self).wf(),
            final(self).units@ == old(self).units@.update(index as int, final(self).units@[index as int]),
            final(self).units@[index as int] == fallen_figure(old(self).units@[index as int]),
            item_put_down(
                old(self).quest_items@,
                old(self).props@,
                final(self).quest_items@,
                final(self).props@,
                old(self).units@[index as int],
            ),
            logged_one_line(old(self).log@, final(self).log@),
            *final(self) == (Game {
                units: final(self).units,
                quest_items: final(self).quest_items,
                props: final(self).props,
                log: final(self).log,
                ..*old(self)
            }),
    {
        let mut message = self.units[index].name.clone();
        self.fall_and_drop(index);
        message.append(" ended Pass Through Rock inside solid stone and is trapped forever.");
        self.push_log(message);
    }

    /// Ends Pass Through Rock and Veil of Mist for the figure at `index`.
    #[verifier::spinoff_prover]
    #[verifier::rlimit(40)]
    fn finish_spell_movement_at(&mut self, index: usize)
        requires
            old(self).wf(),
            index < old(self).units@.len(),
            old(self).carries_in_place(old(self).units@[index as int]),
        ensures
            final(self).wf(),
            spell_movement_finished(*old(self), *final(self), index as int),
            *final(self) == (Game {
                units: final(self).units,
                quest_items: final(self).quest_items,
                props: final(self).props,
                log: final(self).log,
                ..*old(self)
            }),
    {
        let ghost start = *self;
        let used_pass_through_rock = self.units[index].pass_through_rock;
        let used_veil_of_mist = self.units[index].veil_of_mist;
        let solid = match self.cell(self.units[index].pos) {
            Some(cell) => !cell.passable,
            None => true,
        };
        self.unit_set_movement_spells(index, false, false);
        let ghost ended = *self;
        proof {
            reveal(movement_spells_ended);
        }
        if used_pass_through_rock && solid {
            self.entomb_in_stone(index);
            proof {
                lemma_entombed_finished(start, ended, *self, index as int);
            }
        } else {
            if used_pass_through_rock || used_veil_of_mist {
                let mut message = self.units[index].name.clone();
                message.append("'s movement spell ended.");
                self.push_log(message);
            }
            proof {
                lemma_spells_ended_finished(start, ended, *self, index as int);
            }
        }
    }

    /// Ends Pass Through Rock and Veil of Mist for the hero: one who ends
    /// Pass Through Rock inside solid stone is lost there, putting down what
    /// it carried.
    fn finish_spell_movement(&mut self, hero_id: UnitId)
        requires
            old(self).wf(),
            old(self).spec_unit(hero_id) matches Some(hero) ==> old(self).carries_in_place(hero),
        ensures
            final(self).wf(),
            match old(self).spec_unit(hero_id) {
                None => *final(self) == *old(self),
                Some(hero) => spell_movement_finished(
                    *old(self),
                    *final(self),
                    unit_slot(old(self).units@, hero_id),
                ) && *final(self) == (Game {
                    units: final(self).units,
                    quest_items: final(self).quest_items,
                    props: final(self).props,
                    log: final(self).log,
                    ..*old(self)
                }),
            },
    {
        proof {
            lemma_wf_ids(*self);
        }
        let index = match self.unit_index(hero_id) {
            Some(index) => index,
            None => return,
        };
        proof {
            lemma_slot_of(self.units@, hero_id, index as int);
        }
        self.finish_spell_movement_at(index);
    }

    /// The figure at `index` sits out its turn: a turn as stone passes, or one
    /// lost to Tempest.
    fn sit_out_turn(&mut self, index: usize)
        requires
            old(self).wf(),
            index < old(self).units@.len(),
            sits_out(old(self).units@[index as int]),
        ensures
            final(self).wf(),
            final(self).units@ == old(self).units@.update(
                index as int,
                turn_sat_out(old(self).units@[index as int]),
            ),
            logged_one_line(old(self).log@, final(self).log@),
            *final(self) == (Game { units: final(self).units, log: final(self).log, ..*old(self) }),
    {
        let mut message = self.units[index].name.clone();
        let petrified = self.units[index].petrified_turns;
        if petrified > 0 {
            let remaining = petrified - 1;
            if remaining == 0 {
                message.append(" spends a fifth turn as stone, then returns to normal.");
            } else {
                message.append(" is stone and misses the turn (");
                let count = remaining.to_string();
                message.append(count.as_str());
                message.append(" remaining).");
            }
        } else {
            message.append(" is trapped by Tempest and misses the turn.");
        }
        self.unit_sit_out(index);
        self.push_log(message);
    }

    /// Calls the heroes in turn order from place `start`: those turned to
    /// stone or held by Tempest sit their turn out, and the first who can play
    /// is returned, after Courage has left it if no monster is in sight.
    #[verifier::spinoff_prover]
    #[verifier::rlimit(40)]
    fn next_hero_turn_index(&mut self, start: usize) -> (next: Option<usize>)
        requires
            old(self).wf(),
        ensures
            final(self).wf(),
            next_called(*old(self), start as int, next, final(self).units@),
            *final(self) == (Game { units: final(self).units, log: final(self).log, ..*old(self) }),
    {
        let ghost first = *self;
        proof {
            lemma_wf_ids(first);
        }
        let mut index = start;
        if index > self.hero_order.len() {
            index = self.hero_order.len();
        }
        while index < self.hero_order.len()
            invariant
                self.wf(),
                first.wf(),
                first == *old(self),
                start <= index || (start > first.hero_order@.len() && index == first.hero_order@.len()),
                index <= self.hero_order@.len(),
                *self == (Game { units: self.units, log: self.log, ..first }),
                self.units@ == after_sitting_out(
                    first.units@,
                    first.hero_order@,
                    start as int,
                    index as int,
                ),
                none_ready_between(first, start as int, index as int),
            decreases self.hero_order.len() - index,
        {
            proof {
                lemma_wf_ids(*self);
                lemma_wf_ids(first);
                lemma_sitting_out_alike(first.units@, first.hero_order@, start as int, index as int);
            }
            let hero_id = self.hero_order[index];
            let slot = match self.unit_index(hero_id) {
                Some(slot) => slot,
                None => {
                    proof {
                        assert forall|k: int| 0 <= k < first.units@.len() implies #[trigger] first.units@[k].id
                            != first.hero_order@[index as int] || !sits_out(first.units@[k]) by {
                            assert(self.units@[k].id == first.units@[k].id);
                        }
                        lemma_sitting_out_skip(first.units@, first.hero_order@, start as int, index as int);
                        assert(!has_unit_id(first.units@, hero_id)) by {
                            if has_unit_id(first.units@, hero_id) {
                                let k = choose|k: int| 0 <= k < first.units@.len() && #[trigger] first.units@[k].id == hero_id;
                                assert(self.units@[k].id == hero_id);
                            }
                        }
                        assert(none_ready_between(first, start as int, index + 1));
                    }
                    index = index + 1;
                    continue;
                },
            };
            proof {
                assert(self.units@[slot as int].id == first.units@[slot as int].id);
                lemma_sitting_out_call(first.units@, first.hero_order@, start as int, index as int, slot as int);
                lemma_slot_of(first.units@, hero_id, slot as int);
            }
            let alive = self.units[slot].alive;
            let escaped = self.units[slot].escaped;
            let petrified = self.units[slot].petrified_turns;
            let skip = self.units[slot].skip_turns;
            if !alive || escaped {
                proof {
                    assert(none_ready_between(first, start as int, index + 1));
                    assert(self.units@ =~= after_sitting_out(first.units@, first.hero_order@, start as int, index + 1));
                }
                index = index + 1;
                continue;
            }
            if petrified == 0 && skip == 0 {
                let ghost waited = *self;
                proof {
                    lemma_slot_of(self.units@, hero_id, slot as int);
                }
                self.break_courage_without_visible_monster(hero_id);
                proof {
                    assert forall|i: int| 0 <= i < first.units@.len() implies #[trigger] first.sees_monster(
                        waited.units@[slot as int].pos,
                        first.units@[i],
                    ) == waited.sees_monster(waited.units@[slot as int].pos, waited.units@[i]) by {
                        lemma_sees_monster_alike(first, waited, waited.units@[slot as int].pos, i);
                    }
                    if exists|i: int| 0 <= i < first.units@.len() && first.sees_monster(
                        waited.units@[slot as int].pos,
                        #[trigger] first.units@[i],
                    ) {
                        let i = choose|i: int| 0 <= i < first.units@.len() && first.sees_monster(
                            waited.units@[slot as int].pos,
                            #[trigger] first.units@[i],
                        );
                        assert(waited.sees_monster(waited.units@[slot as int].pos, waited.units@[i]));
                    }
                    if exists|i: int| 0 <= i < waited.units@.len() && waited.sees_monster(
                        waited.units@[slot as int].pos,
                        #[trigger] waited.units@[i],
                    ) {
                        let i = choose|i: int| 0 <= i < waited.units@.len() && waited.sees_monster(
                            waited.units@[slot as int].pos,
                            #[trigger] waited.units@[i],
                        );
                        assert(first.sees_monster(waited.units@[slot as int].pos, first.units@[i]));
                    }
                }
                return Some(index);
            }
            proof {
                assert(sits_out(first.units@[slot as int]));
            }
            self.sit_out_turn(slot);
            proof {
                assert(none_ready_between(first, start as int, index + 1));
            }
            index = index + 1;
        }
        None
    }

    /// Counts the hero with `id` among those who acted this round.
    pub(crate) fn note_hero_acted(&mut self, id: UnitId)
        requires
            old(self).wf(),
        ensures
            final(self).wf(),
            final(self).heroes_acted_this_round@ == acted_with(
                old(self).heroes_acted_this_round@,
                id,
            ),
            *final(self) == (Game {
                heroes_acted_this_round: final(self).heroes_acted_this_round,
                ..*old(self)
            }),
    {
        reveal(Game::wf);
        if !contains_unit_id(&self.heroes_acted_this_round, id) {
            self.heroes_acted_this_round.push(id);
        }
    }

    /// Wraps up the ending turn: the active hero's movement spells run out
    /// if it moved, and a hero who acted is counted.
    fn wrap_up_turn(&mut self)
        requires
            old(self).wf(),
            old(self).moved_this_turn() ==> old(self).active_hero_carries_in_place(),
            old(self).turn_position_valid(),
        ensures
            final(self).wf(),
            old(self).turn_wrapped_up(*final(self)),
    {
        let ghost start = *self;
        match self.active_hero_id() {
            Some(hero_id) => {
                if self.hero_turn.movement_roll.is_some() {
                    self.finish_spell_movement(hero_id);
                }
            },
            None => {},
        }
        match self.phase {
            GamePhase::HeroTurn { order_index } => {
                if self.hero_turn.action_used {
                    let id = self.hero_order[order_index];
                    self.note_hero_acted(id);
                }
            },
            _ => {},
        }
    }

    /// The escorted ally takes its movement turn.
    fn begin_ally_turn(&mut self, ally: UnitId, controller_order_index: usize)
        requires
            old(self).wf(),
        ensures
            final(self).wf(),
            final(self).phase == (GamePhase::AllyTurn { ally, controller_order_index }),
            is_fresh_turn(final(self).hero_turn),
            logged_one_line(old(self).log@, final(self).log@),
            *final(self) == (Game {
                phase: final(self).phase,
                hero_turn: final(self).hero_turn,
                log: final(self).log,
                ..*old(self)
            }),
    {
        self.set_phase(GamePhase::AllyTurn { ally, controller_order_index });
        self.reset_hero_turn();
        let mut message = match self.unit(ally) {
            Some(unit) => unit.name.clone(),
            None => String::from_str("Ally"),
        };
        message.append("'s escorted movement turn.");
        self.push_log(message);
    }

    /// The hero at place `order_index` of the turn order begins its turn.
    fn begin_hero_turn(&mut self, order_index: usize)
        requires
            old(self).wf(),
            order_index < old(self).hero_order@.len(),
        ensures
            final(self).wf(),
            final(self).phase == (GamePhase::HeroTurn { order_index }),
            is_fresh_turn(final(self).hero_turn),
            logged_one_line(old(self).log@, final(self).log@),
            *final(self) == (Game {
                phase: final(self).phase,
                hero_turn: final(self).hero_turn,
                log: final(self).log,
                ..*old(self)
            }),
    {
        self.set_phase(GamePhase::HeroTurn { order_index });
        self.reset_hero_turn();
        let mut message = match self.unit(self.hero_order[order_index]) {
            Some(hero) => hero.name.clone(),
            None => String::new(),
        };
        message.append("'s turn.");
        self.push_log(message);
    }

    /// The computer game master begins its turn with nothing under way.
    fn begin_zargon_turn(&mut self)
        requires
            old(self).wf(),
        ensures
            final(self).wf(),
            final(self).phase == GamePhase::ZargonTurn,
            is_fresh_turn(final(self).hero_turn),
            !final(self).zargon_turn_started,
            final(self).zargon_queue@.len() == 0,
            final(self).zargon_active is None,
            final(self).zargon_commanded_queue@.len() == 0,
            final(self).zargon_commanded_active is None,
            final(self).pending_chaos_spell_rolls@.len() == 0,
            logged_one_line(old(self).log@, final(self).log@),
            *final(self) == (Game {
                phase: final(self).phase,
                hero_turn: final(self).hero_turn,
                log: final(self).log,
                zargon_turn_started: final(self).zargon_turn_started,
                zargon_queue: final(self).zargon_queue,
                zargon_active: final(self).zargon_active,
                zargon_commanded_queue: final(self).zargon_commanded_queue,
                zargon_commanded_active: final(self).zargon_commanded_active,
                pending_chaos_spell_rolls: final(self).pending_chaos_spell_rolls,
                ..*old(self)
            }),
    {
        self.set_phase(GamePhase::ZargonTurn);
        self.reset_hero_turn();
        self.clear_zargon_state();
        self.push_log(String::from_str("The computer game master begins its turn."));
    }

    fn clear_zargon_state(&mut self)
        requires
            old(self).wf(),
        ensures
            final(self).wf(),
            !final(self).zargon_turn_started,
            final(self).zargon_queue@.len() == 0,
            final(self).zargon_active is None,
            final(self).zargon_commanded_queue@.len() == 0,
            final(self).zargon_commanded_active is None,
            final(self).pending_chaos_spell_rolls@.len() == 0,
            *final(self) == (Game {
                zargon_turn_started: final(self).zargon_turn_started,
                zargon_queue: final(self).zargon_queue,
                zargon_active: final(self).zargon_active,
                zargon_commanded_queue: final(self).zargon_commanded_queue,
                zargon_commanded_active: final(self).zargon_commanded_active,
                pending_chaos_spell_rolls: final(self).pending_chaos_spell_rolls,
                ..*old(self)
            }),
    {
        reveal(Game::wf);
        self.zargon_turn_started = false;
        self.zargon_queue.clear();
        self.zargon_active = None;
        self.zargon_commanded_queue.clear();
        self.zargon_commanded_active = None;
        self.pending_chaos_spell_rolls.clear();
    }

    /// Passes play on from the wrapped-up turn.
    #[verifier::spinoff_prover]
    #[verifier::rlimit(40)]
    fn hand_turn_on(&mut self)
        requires
            old(self).wf(),
            old(self).phase is HeroTurn || old(self).phase is AllyTurn,
            old(self).turn_position_valid(),
        ensures
            final(self).wf(),
            old(self).turn_handed_on(*final(self)),
    {
        let ghost start = *self;
        let order_count = self.hero_order.len();
        let order_index = match self.phase {
            GamePhase::HeroTurn { order_index } => {
                let controller = self.hero_order[order_index];
                match self.escorted_ally {
                    Some((ally, ally_controller)) => {
                        if controller == ally_controller {
                            let escorting = match self.unit(ally) {
                                Some(unit) => unit.alive && !game::contains_pos(&self.stairs, unit.pos),
                                None => false,
                            };
                            if escorting {
                                self.begin_ally_turn(ally, order_index);
                                return;
                            }
                        }
                    },
                    None => {},
                }
                order_index
            },
            GamePhase::AllyTurn { controller_order_index, .. } => controller_order_index,
            _ => 0,
        };
        proof {
            assert(!start.escort_takes_over());
            assert(order_index < usize::MAX) by {
                assert(order_count <= usize::MAX);
            }
        }
        self.check_terminal();
        if matches!(self.phase, GamePhase::Won | GamePhase::Retreated | GamePhase::Lost) {
            return;
        }
        proof {
            assert(*self == start);
        }
        match self.next_hero_turn_index(order_index + 1) {
            Some(next) => {
                self.begin_hero_turn(next);
            },
            None => {
                self.begin_zargon_turn();
            },
        }
    }

    /// Ends the active hero's turn, or the escorted ally's: the hero's
    /// movement spells run out, play passes to the escorted ally, the quest
    /// ends if it is decided, or the next hero who can play takes the turn;
    /// once no hero is left this round the game master plays.
    pub fn end_hero_turn(&mut self) -> (result: Result<(), RuleError>)
        requires
            old(self).wf(),
            old(self).turn_end_defined(),
        ensures
            final(self).wf(),
            match result {
                Err(e) => old(self).end_turn_refusal() == Some(e) && *final(self) == *old(self),
                Ok(()) => old(self).end_turn_refusal() is None && exists|wrapped: Game|
                    #[trigger] old(self).turn_wrapped_up(wrapped) && wrapped.turn_handed_on(
                        *final(self),
                    ),
            },
    {
        if self.pending_trap_roll.is_some() {
            return Err(RuleError::TrapRollPending);
        }
        if self.pending_hero_death.is_some() {
            return Err(RuleError::HeroDeathDecisionPending);
        }
        if self.pending_possession_pickup.is_some() {
            return Err(RuleError::PossessionPickupPending);
        }
        match self.active_hero_id() {
            Some(hero_id) => {
                if self.hero_turn.movement_roll.is_some() {
                    let pos = match self.unit(hero_id) {
                        Some(hero) => hero.pos,
                        None => return Err(RuleError::NotHeroTurn),
                    };
                    if self.occupied_by_alive(pos, Some(hero_id)).is_some()
                        && !self.hero_may_share_square(hero_id, pos) {
                        return Err(RuleError::MustFinishOccupiedMove);
                    }
                }
            },
            None => {},
        }
        if !matches!(self.phase, GamePhase::HeroTurn { .. } | GamePhase::AllyTurn { .. }) {
            return Err(RuleError::NotHeroTurn);
        }
        let ghost start = *self;
        self.wrap_up_turn();
        let ghost wrapped = *self;
        self.hand_turn_on();
        proof {
            assert(start.turn_wrapped_up(wrapped) && wrapped.turn_handed_on(*self));
        }
        Ok(())
    }

    /// A hero with Courage loses it once no monster is in sight.
    fn break_courage_without_visible_monster(&mut self, hero_id: UnitId)
        requires
            old(self).wf(),
        ensures
            final(self).wf(),
            match old(self).spec_unit(hero_id) {
                Some(hero) => if hero.courage && !(exists|i: int|
                    0 <= i < old(self).units@.len() && old(self).sees_monster(
                        hero.pos,
                        #[trigger] old(self).units@[i],
                    )) {
                    let slot = unit_slot(old(self).units@, hero_id);
                    &&& final(self).units@ == old(self).units@.update(slot, final(self).units@[slot])
                    &&& final(self).units@[slot] == (Unit { courage: false, ..hero })
                    &&& logged_one_line(old(self).log@, final(self).log@)
                    &&& final(self).log@.last()@ == "Courage left "@ + hero.name@
                        + " when no Monster remained in sight."@
                    &&& *final(self) == (Game {
                        units: final(self).units,
                        log: final(self).log,
                        ..*old(self)
                    })
                } else {
                    *final(self) == *old(self)
                },
                None => *final(self) == *old(self),
            },
    {
        proof {
            lemma_wf_ids(*self);
        }
        let index = match self.unit_index(hero_id) {
            Some(index) => index,
            None => return,
        };
        if !self.units[index].courage || self.unit_can_see_monster(hero_id) {
            return;
        }
        let mut message = String::from_str("Courage left ");
        message.append(self.units[index].name.as_str());
        message.append(" when no Monster remained in sight.");
        self.unit_set_courage(index, false);
        self.push_log(message);
    }
}

} // verus!
