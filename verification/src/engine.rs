//! The state of one quest in play and the rules that read or change it:
//! the board, sight, turn order, movement dice and the heroes' potions and
//! gold.
use std::collections::VecDeque;

use rand::{Rng, SeedableRng};
use rand_chacha::ChaCha8Rng;
use vstd::prelude::*;
use vstd::pervasive::VecAdditionalExecFns;

use crate::cards::{Artifact, ChaosSpell};
use crate::game;
use crate::game::{
    AttackPlan, Cell, CombatVisualEvent, Door, GamePhase, HeroTurnState, Inventory, MovementStepInfo, PendingFallingBlock,
    PendingHeroDeath, PendingPossessionPickup, PendingTeleportRoll, PendingTrapRoll, Prop,
    QuestEvent, QuestItem, RuleError, Trap, Unit, UnitId, contains_pos,
};
use crate::quest::ObjectiveDef;
use crate::unit_ops::{lemma_turn_sat_out_keeps, turn_sat_out};
use crate::model;
use crate::model::{
    BOARD_HEIGHT, BOARD_WIDTH, Direction, Faction, FigureKind, MonsterKind, Pos, PropKind, TrapKind,
};

verus! {

#[verifier::external_type_specification]
#[verifier::external_body]
pub struct ExChaCha8Rng(ChaCha8Rng);

/// Calls `ChaCha8Rng::seed_from_u64` (rand_core's `SeedableRng`), which
/// builds a generator from the seed alone. Nothing is claimed of its state.
#[verifier::external_body]
fn seeded_rng(seed: u64) -> ChaCha8Rng {
    ChaCha8Rng::seed_from_u64(seed)
}

/// Calls rand's `Rng::random_range` with the inclusive range `1..=6`; rand
/// returns a value inside the range and panics only on an empty range. Which
/// face comes up depends on the generator's state and is not claimed.
#[verifier::external_body]
fn roll_d6(rng: &mut ChaCha8Rng) -> (face: u8)
    ensures
        1 <= face <= 6,
{
    rng.random_range(1..=6)
}

/// Squares on the board.
pub const CELL_COUNT: usize = 494;

/// Most recent log lines kept for the status bar.
pub const LOG_CAPACITY: usize = 16;

pub open spec fn spec_in_bounds(pos: Pos) -> bool {
    pos.x < BOARD_WIDTH && pos.y < BOARD_HEIGHT
}

/// The board has a cell at the row-major index of `pos`: it is on the
/// board, or its index still falls within the board's cells.
pub open spec fn cell_readable(pos: Pos) -> bool {
    spec_in_bounds(pos) || 0 <= spec_cell_index(pos) < CELL_COUNT
}

/// Row-major index of a square.
pub open spec fn spec_cell_index(pos: Pos) -> int {
    pos.y * (BOARD_WIDTH as int) + pos.x
}

/// A borrowed optional value, read as the value itself.
pub open spec fn deref_opt<T>(value: Option<&T>) -> Option<T> {
    match value {
        Some(v) => Some(*v),
        None => None,
    }
}

/// No two figures share an id.
pub open spec fn unique_unit_ids(units: Seq<Unit>) -> bool {
    forall|i: int, j: int|
        0 <= i < units.len() && 0 <= j < units.len() && i != j ==> #[trigger] units[i].id
            != #[trigger] units[j].id
}

/// No id appears twice.
pub open spec fn distinct_ids(ids: Seq<UnitId>) -> bool {
    forall|i: int, j: int| 0 <= i < ids.len() && 0 <= j < ids.len() && i != j ==> #[trigger] ids[i] != #[trigger] ids[j]
}

pub open spec fn has_unit_id(units: Seq<Unit>, id: UnitId) -> bool {
    exists|i: int| 0 <= i < units.len() && #[trigger] units[i].id == id
}

/// The position of the figure with `id` (meaningful when it exists).
pub open spec fn unit_slot(units: Seq<Unit>, id: UnitId) -> int {
    choose|i: int| 0 <= i < units.len() && #[trigger] units[i].id == id
}

/// The figure with `id`, if any.
pub open spec fn spec_unit_of(units: Seq<Unit>, id: UnitId) -> Option<Unit> {
    if has_unit_id(units, id) {
        Some(units[unit_slot(units, id)])
    } else {
        None
    }
}

/// The square reached after `k` steps along the row and `m` along the
/// column from `observer` towards `target`.
pub open spec fn walk_pos(observer: Pos, target: Pos, k: int, m: int) -> Pos {
    Pos {
        x: (if target.x >= observer.x {
            observer.x + k
        } else {
            observer.x - k
        }) as u8,
        y: (if target.y >= observer.y {
            observer.y + m
        } else {
            observer.y - m
        }) as u8,
    }
}

/// Which edge a centre-to-centre line crosses next: 0 for a corner (both
/// axes), 1 for a column edge, 2 for a row edge. The line has crossed `k`
/// of `adx` column edges and `m` of `ady` row edges; the next column edge
/// lies at fraction (2k+1)/(2adx) of the line and the next row edge at
/// (2m+1)/(2ady).
pub open spec fn sight_step(adx: int, ady: int, k: int, m: int) -> int {
    if adx > 0 && ady > 0 && (2 * k + 1) * ady == (2 * m + 1) * adx {
        0
    } else if ady == 0 || (adx > 0 && (2 * k + 1) * ady < (2 * m + 1) * adx) {
        1
    } else {
        2
    }
}

/// Once every column edge is crossed the line only crosses row edges, and
/// the other way round.
proof fn lemma_sight_step_stays_in_range(adx: int, ady: int, k: int, m: int)
    requires
        0 <= k <= adx,
        0 <= m <= ady,
        !(k == adx && m == ady),
    ensures
        k == adx ==> sight_step(adx, ady, k, m) == 2,
        m == ady ==> sight_step(adx, ady, k, m) == 1,
{
    if k == adx && ady > 0 {
        assert((2 * k + 1) * ady > (2 * m + 1) * adx) by (nonlinear_arith)
            requires
                k == adx,
                0 <= m < ady,
                adx >= 0,
        ;
    }
    if m == ady && adx > 0 {
        assert((2 * m + 1) * adx > (2 * k + 1) * ady) by (nonlinear_arith)
            requires
                m == ady,
                0 <= k < adx,
                ady >= 0,
        ;
    }
}

/// The sum of the faces thrown.
pub open spec fn dice_total(dice: Seq<u8>) -> int
    decreases dice.len(),
{
    if dice.len() == 0 {
        0
    } else {
        dice_total(dice.drop_last()) + dice.last()
    }
}

/// Every face is a number a six-sided die shows.
pub open spec fn all_d6_faces(dice: Seq<u8>) -> bool {
    forall|i: int| 0 <= i < dice.len() ==> 1 <= #[trigger] dice[i] <= 6
}

proof fn lemma_dice_total_bound(dice: Seq<u8>)
    requires
        all_d6_faces(dice),
    ensures
        dice.len() <= dice_total(dice) <= 6 * dice.len(),
    decreases dice.len(),
{
    if dice.len() > 0 {
        assert(all_d6_faces(dice.drop_last()));
        lemma_dice_total_bound(dice.drop_last());
    }
}

/// The log after one more line: the oldest line drops out once the log is
/// full.
pub open spec fn log_after(log: Seq<String>, line: String) -> Seq<String> {
    if log.len() >= LOG_CAPACITY {
        log.drop_first().push(line)
    } else {
        log.push(line)
    }
}

/// `after` is `before` with one more line logged, whatever its text.
pub open spec fn logged_one_line(before: Seq<String>, after: Seq<String>) -> bool {
    exists|line: String| after == log_after(before, line)
}

/// Whether every face is a number a six-sided die shows.
pub(crate) fn all_faces_valid(dice: &[u8]) -> (valid: bool)
    ensures
        valid == all_d6_faces(dice@),
{
    let mut i: usize = 0;
    while i < dice.len()
        invariant
            i <= dice@.len(),
            forall|j: int| 0 <= j < i ==> 1 <= #[trigger] dice@[j] <= 6,
        decreases dice.len() - i,
    {
        if dice[i] < 1 || dice[i] > 6 {
            return false;
        }
        i = i + 1;
    }
    true
}

/// The total of up to four thrown dice.
fn dice_sum(dice: &[u8]) -> (total: u8)
    requires
        dice@.len() <= 4,
        all_d6_faces(dice@),
    ensures
        total == dice_total(dice@),
{
    let mut total: u8 = 0;
    let mut i: usize = 0;
    while i < dice.len()
        invariant
            dice@.len() <= 4,
            all_d6_faces(dice@),
            i <= dice@.len(),
            total == dice_total(dice@.take(i as int)),
            total <= 6 * i,
        decreases dice.len() - i,
    {
        assert(dice@.take(i + 1).drop_last() == dice@.take(i as int));
        assert(1 <= dice@[i as int] <= 6);
        total = total + dice[i];
        i = i + 1;
    }
    assert(dice@.take(dice@.len() as int) == dice@);
    total
}

/// The faces of `dice` written out, joined by " + ".
pub open spec fn faces_text(dice: Seq<u8>) -> Seq<char>
    decreases dice.len(),
{
    if dice.len() == 0 {
        Seq::empty()
    } else if dice.len() == 1 {
        crate::status::decimal_text(dice[0] as nat)
    } else {
        faces_text(dice.drop_last()) + " + "@ + crate::status::decimal_text(dice.last() as nat)
    }
}

/// The log line for a movement roll.
pub open spec fn movement_text(name: Seq<char>, dice: Seq<u8>, total: u8) -> Seq<char> {
    name + " rolled "@ + faces_text(dice) + " = "@ + crate::status::decimal_text(total as nat)
        + " movement."@
}

/// "<name> rolled <face> + <face> = <total> movement."
fn movement_message(name: String, dice: &[u8], total: u8) -> (message: String)
    ensures
        message@ == movement_text(name@, dice@, total),
{
    let mut message = name;
    message.append(" rolled ");
    let ghost head = message@;
    let mut f: usize = 0;
    while f < dice.len()
        invariant
            f <= dice@.len(),
            message@ == head + faces_text(dice@.take(f as int)),
        decreases dice.len() - f,
    {
        proof {
            assert(dice@.take(f + 1).drop_last() =~= dice@.take(f as int));
            assert(dice@.take(f + 1).last() == dice@[f as int]);
            if f == 0 {
                assert(dice@.take(0) =~= Seq::<u8>::empty());
            }
        }
        if f > 0 {
            message.append(" + ");
        }
        let face = crate::status::decimal_string(dice[f] as u64);
        message.append(face.as_str());
        proof {
            if f == 0 {
                assert(message@ =~= head + faces_text(dice@.take(1)));
            } else {
                assert(message@ =~= head + faces_text(dice@.take(f + 1)));
            }
        }
        f = f + 1;
    }
    assert(dice@.take(f as int) =~= dice@);
    message.append(" = ");
    let total_text = crate::status::decimal_string(total as u64);
    message.append(total_text.as_str());
    message.append(" movement.");
    assert(message@ =~= movement_text(name@, dice@, total));
    message
}

/// Changing one figure's condition, life or inventory, while it keeps its id
/// and square, keeps the game well formed.
pub(crate) proof fn lemma_wf_after_unit_change(before: Game, after: Game, slot: int)
    requires
        before.wf(),
        after == (Game { units: after.units, ..before }),
        0 <= slot < before.units@.len(),
        after.units@ == before.units@.update(slot, after.units@[slot]),
        after.units@[slot].id == before.units@[slot].id,
        after.units@[slot].pos == before.units@[slot].pos,
    ensures
        after.wf(),
{
    reveal(Game::wf);
    assert forall|i: int| 0 <= i < after.units@.len() implies #[trigger] after.units@[i].id
        == before.units@[i].id && after.units@[i].pos == before.units@[i].pos by {
        if i != slot {
            assert(after.units@[i] == before.units@[i]);
        }
    }
    assert(unique_unit_ids(after.units@));
}

/// With distinct ids, the figure found at `index` is the one its id names.
pub(crate) proof fn lemma_slot_of(units: Seq<Unit>, id: UnitId, index: int)
    requires
        unique_unit_ids(units),
        0 <= index < units.len(),
        units[index].id == id,
    ensures
        has_unit_id(units, id),
        unit_slot(units, id) == index,
        spec_unit_of(units, id) == Some(units[index]),
{
    assert(has_unit_id(units, id));
    let k = unit_slot(units, id);
    if k != index {
        assert(units[k].id != units[index].id);
    }
}

/// The figures of two games stand alike when each is alive, gone or not,
/// and placed the same; what else they are does not matter to sight.
pub open spec fn figures_stand_alike(a: Seq<Unit>, b: Seq<Unit>) -> bool {
    &&& a.len() == b.len()
    &&& forall|i: int|
        0 <= i < a.len() ==> #[trigger] a[i].alive == b[i].alive && a[i].escaped == b[i].escaped
            && a[i].pos == b[i].pos
}

/// Sight depends on the board, the doors and where living figures stand.
pub(crate) proof fn lemma_sight_from_alike(
    g1: Game,
    g2: Game,
    observer: Pos,
    target: Pos,
    k: int,
    m: int,
)
    requires
        g1.cells@ == g2.cells@,
        g1.doors@ == g2.doors@,
        figures_stand_alike(g1.units@, g2.units@),
    ensures
        g1.spec_sight_from(observer, target, k, m) == g2.spec_sight_from(observer, target, k, m),
    decreases (model::axis_gap(observer.x, target.x) + 1 - k) + (model::axis_gap(observer.y, target.y)
        + 1 - m),
{
    let adx = model::axis_gap(observer.x, target.x);
    let ady = model::axis_gap(observer.y, target.y);
    if k < 0 || m < 0 || k > adx || m > ady || (k == adx && m == ady) {
    } else {
        lemma_sight_step_stays_in_range(adx, ady, k, m);
        let kind = sight_step(adx, ady, k, m);
        let nk = if kind == 2 {
            k
        } else {
            k + 1
        };
        let nm = if kind == 1 {
            m
        } else {
            m + 1
        };
        let next = walk_pos(observer, target, nk, nm);
        assert(g1.spec_occupied(next, None) == g2.spec_occupied(next, None)) by {
            if g1.spec_occupied(next, None) {
                let i = choose|i: int|
                    0 <= i < g1.units@.len() && Game::occupies_alive(
                        #[trigger] g1.units@[i],
                        next,
                        None,
                    );
                assert(Game::occupies_alive(g2.units@[i], next, None));
            }
            if g2.spec_occupied(next, None) {
                let i = choose|i: int|
                    0 <= i < g2.units@.len() && Game::occupies_alive(
                        #[trigger] g2.units@[i],
                        next,
                        None,
                    );
                assert(g1.units@[i].alive == g2.units@[i].alive);
                assert(Game::occupies_alive(g1.units@[i], next, None));
            }
        }
        lemma_sight_from_alike(g1, g2, observer, target, nk, nm);
    }
}

/// Two figures look the same to an observer: alive or not, gone or not, where
/// they stand, what they are and whether they show themselves.
pub open spec fn seen_alike(a: Unit, b: Unit) -> bool {
    &&& a.alive == b.alive
    &&& a.escaped == b.escaped
    &&& a.pos == b.pos
    &&& a.figure == b.figure
    &&& a.physical_figure == b.physical_figure
    &&& a.faction == b.faction
    &&& a.dormant == b.dormant
    &&& a.hidden_until_activated == b.hidden_until_activated
}

/// On the same board, figures that look the same are seen the same way.
pub(crate) proof fn lemma_sees_monster_alike(g1: Game, g2: Game, observer: Pos, k: int)
    requires
        g1.cells@ == g2.cells@,
        g1.doors@ == g2.doors@,
        g1.units@.len() == g2.units@.len(),
        forall|i: int| 0 <= i < g1.units@.len() ==> seen_alike(#[trigger] g1.units@[i], g2.units@[i]),
        0 <= k < g1.units@.len(),
    ensures
        g1.sees_monster(observer, g1.units@[k]) == g2.sees_monster(observer, g2.units@[k]),
{
    assert(seen_alike(g1.units@[k], g2.units@[k]));
    assert(figures_stand_alike(g1.units@, g2.units@)) by {
        assert forall|i: int| 0 <= i < g1.units@.len() implies #[trigger] g1.units@[i].alive
            == g2.units@[i].alive && g1.units@[i].escaped == g2.units@[i].escaped
            && g1.units@[i].pos == g2.units@[i].pos by {
            assert(seen_alike(g1.units@[i], g2.units@[i]));
        }
    }
    lemma_sight_from_alike(g1, g2, observer, g1.units@[k].pos, 0, 0);
}

/// A well-formed game's figures and heroes have distinct ids.
pub(crate) proof fn lemma_wf_ids(game: Game)
    requires
        game.wf(),
    ensures
        unique_unit_ids(game.units@),
        distinct_ids(game.hero_order@),
{
    reveal(Game::wf);
}

/// A state of play.
pub struct Game {
    pub title: String,
    pub blurb: String,
    pub cells: Vec<Cell>,
    pub doors: Vec<Door>,
    pub units: Vec<Unit>,
    pub props: Vec<Prop>,
    pub quest_items: Vec<QuestItem>,
    pub traps: Vec<Trap>,
    pub blocked_markers: Vec<Pos>,
    pub hero_order: Vec<UnitId>,
    pub stairs: Vec<Pos>,
    pub objective: ObjectiveDef,
    pub phase: GamePhase,
    pub hero_turn: HeroTurnState,
    pub log: VecDeque<String>,
    pub wandering_monster: MonsterKind,
    pub escorted_ally: Option<(UnitId, UnitId)>,
    pub equipment_recovery_region: Option<i16>,
    pub pending_falling_block: Option<PendingFallingBlock>,
    pub pending_teleport_roll: Option<PendingTeleportRoll>,
    pub pending_hero_death: Option<PendingHeroDeath>,
    pub pending_possession_pickup: Option<PendingPossessionPickup>,
    pub monster_stolen_artifacts: Vec<Artifact>,
    pub discarded_chaos_spells: Vec<ChaosSpell>,
    pub pending_collapsing_ceiling_roll: Option<UnitId>,
    pub pending_trap_roll: Option<PendingTrapRoll>,
    pub pending_healing_potion_roll: Option<UnitId>,
    pub pending_hero_spell_roll: Option<game::HeroSpellRoll>,
    pub pending_forced_attack: Option<AttackPlan>,
    pub last_combat_visual: Option<CombatVisualEvent>,
    pub hero_start_positions: Vec<Pos>,
    pub teleport_destinations: Vec<(u8, Pos)>,
    pub mine_region: Option<i16>,
    pub mine_entrance: Option<Pos>,
    pub mine_gold_amount: u16,
    pub visual_sequence: u64,
    pub monster_bounties: Vec<(MonsterKind, u16)>,
    pub forbidden_treasure_regions: Vec<i16>,
    pub quest_events: Vec<QuestEvent>,
    pub heroes_acted_this_round: Vec<UnitId>,
    pub zargon_turn_started: bool,
    pub zargon_queue: VecDeque<UnitId>,
    pub zargon_active: Option<UnitId>,
    pub zargon_commanded_queue: VecDeque<UnitId>,
    pub zargon_commanded_active: Option<UnitId>,
    pub pending_chaos_spell_rolls: VecDeque<game::PendingChaosSpellRoll>,
    pub rng: ChaCha8Rng,
}

impl Game {
    /// The board has every square, figure ids are distinct, every figure,
    /// door and piece lies on the board, the teleport destinations lie on
    /// the board, no two with the same dice total, no monster kind has two
    /// bounties, and no hero or region is listed twice among those that
    /// have acted this round or are closed to treasure searches.
    #[verifier::opaque]
    pub open spec fn wf(self) -> bool {
        &&& self.cells@.len() == CELL_COUNT
        &&& unique_unit_ids(self.units@)
        &&& distinct_ids(self.hero_order@)
        &&& forall|i: int|
            0 <= i < self.units@.len() ==> spec_in_bounds(#[trigger] self.units@[i].pos)
        &&& forall|i: int|
            0 <= i < self.doors@.len() ==> spec_in_bounds(#[trigger] self.doors@[i].a)
                && spec_in_bounds(self.doors@[i].b)
        &&& forall|i: int|
            0 <= i < self.props@.len() ==> game::prop_fits(#[trigger] self.props@[i])
                && spec_in_bounds(self.props@[i].pos)
        &&& self.log@.len() <= LOG_CAPACITY
        &&& forall|i: int, j: int|
            0 <= i < j < self.teleport_destinations@.len() ==> (#[trigger] self.teleport_destinations@[i]).0
                != (#[trigger] self.teleport_destinations@[j]).0
        &&& forall|i: int|
            0 <= i < self.teleport_destinations@.len() ==> spec_in_bounds(
                (#[trigger] self.teleport_destinations@[i]).1,
            )
        &&& forall|i: int, j: int|
            0 <= i < j < self.monster_bounties@.len() ==> (#[trigger] self.monster_bounties@[i]).0
                != (#[trigger] self.monster_bounties@[j]).0
        &&& self.heroes_acted_this_round@.no_duplicates()
        &&& self.forbidden_treasure_regions@.no_duplicates()
    }

    pub open spec fn spec_cell(self, pos: Pos) -> Option<Cell> {
        if spec_in_bounds(pos) {
            Some(self.cells@[spec_cell_index(pos)])
        } else {
            None
        }
    }

    pub open spec fn spec_unit(self, id: UnitId) -> Option<Unit> {
        spec_unit_of(self.units@, id)
    }

    pub open spec fn spec_active_hero_id(self) -> Option<UnitId> {
        match self.phase {
            GamePhase::HeroTurn { order_index } => if order_index < self.hero_order@.len() {
                Some(self.hero_order@[order_index as int])
            } else {
                None
            },
            _ => None,
        }
    }

    pub open spec fn spec_active_hero(self) -> Option<Unit> {
        match self.spec_active_hero_id() {
            Some(id) => self.spec_unit(id),
            None => None,
        }
    }

    pub open spec fn spec_active_mover_id(self) -> Option<UnitId> {
        match self.phase {
            GamePhase::HeroTurn { .. } => self.spec_active_hero_id(),
            GamePhase::AllyTurn { ally, .. } => Some(ally),
            _ => None,
        }
    }

    /// The active hero may act: it is a hero turn and the hero is neither
    /// asleep, clouded nor petrified.
    pub open spec fn spec_active_awake_hero_id(self) -> Result<UnitId, RuleError> {
        match self.spec_active_hero_id() {
            None => Err(RuleError::NotHeroTurn),
            Some(id) => match self.spec_unit(id) {
                Some(hero) => if hero.sleeping || hero.clouded || hero.petrified_turns > 0 {
                    Err(RuleError::Incapacitated)
                } else {
                    Ok(id)
                },
                None => Ok(id),
            },
        }
    }

    /// A revealed-board test for a figure: heroes are always shown, other
    /// figures only on a revealed square.
    pub open spec fn spec_is_visible(self, unit: Unit) -> bool {
        &&& !unit.escaped
        &&& !unit.hidden_until_activated
        &&& (unit.alive || unit.physical_figure is Some)
        &&& (unit.figure is Hero || self.cells@[spec_cell_index(unit.pos)].revealed)
    }

    pub open spec fn spec_is_door_visible(self, door: Door) -> bool {
        (!door.secret || door.discovered) && (self.cells@[spec_cell_index(door.a)].revealed
            || self.cells@[spec_cell_index(door.b)].revealed)
    }

    /// A piece that stops movement on `pos`.
    pub open spec fn blocks_at(prop: Prop, pos: Pos) -> bool {
        &&& prop.visible
        &&& prop.carried_by is None
        &&& !(prop.kind == PropKind::Stairs || prop.kind == PropKind::StarOfWest)
        &&& game::spec_occupies(prop, pos)
    }

    pub open spec fn spec_is_furniture_square(self, pos: Pos) -> bool {
        exists|i: int| 0 <= i < self.props@.len() && Self::blocks_at(#[trigger] self.props@[i], pos)
    }

    pub open spec fn spec_door_between(self, a: Pos, b: Pos) -> Option<Door> {
        if exists|i: int| 0 <= i < self.doors@.len() && game::spec_connects(#[trigger] self.doors@[i], a, b) {
            Some(
                self.doors@[choose|i: int|
                    0 <= i < self.doors@.len() && game::spec_connects(#[trigger] self.doors@[i], a, b)
                        && forall|j: int| 0 <= j < i ==> !game::spec_connects(self.doors@[j], a, b)],
            )
        } else {
            None
        }
    }

    /// Two squares may be crossed between: both are on the board and open
    /// floor, and either a door joins them and stands open, or no door joins
    /// them and they lie in the same room or corridor.
    pub open spec fn spec_boundary_is_open(self, a: Pos, b: Pos) -> bool {
        &&& spec_in_bounds(a)
        &&& spec_in_bounds(b)
        &&& self.cells@[spec_cell_index(a)].passable
        &&& self.cells@[spec_cell_index(b)].passable
        &&& match self.spec_door_between(a, b) {
            Some(door) => door.open,
            None => self.cells@[spec_cell_index(a)].region == self.cells@[spec_cell_index(
                b,
            )].region,
        }
    }

    /// A living figure, other than `except`, stands on `pos`.
    pub open spec fn occupies_alive(unit: Unit, pos: Pos, except: Option<UnitId>) -> bool {
        unit.alive && !unit.escaped && unit.pos == pos && Some(unit.id) != except
    }

    pub open spec fn spec_is_sprung_pit(self, pos: Pos) -> bool {
        exists|i: int|
            0 <= i < self.traps@.len() && {
                let trap = #[trigger] self.traps@[i];
                trap.pos == pos && trap.kind == TrapKind::Pit && trap.sprung && !trap.disarmed
            }
    }

    /// A hero may share a square only on the stairway or in a sprung pit.
    pub open spec fn spec_hero_may_share_square(self, mover_id: UnitId, pos: Pos) -> bool {
        &&& match self.spec_unit(mover_id) {
            Some(mover) => mover.faction == Faction::Hero,
            None => false,
        }
        &&& (self.stairs@.contains(pos) || self.spec_is_sprung_pit(pos))
    }

    /// Some living figure other than `except` stands on `pos`.
    pub open spec fn spec_occupied(self, pos: Pos, except: Option<UnitId>) -> bool {
        exists|i: int|
            0 <= i < self.units@.len() && Self::occupies_alive(#[trigger] self.units@[i], pos, except)
    }

    /// One step of the sight line from `observer` towards `target`, taken
    /// after `k` steps along the row and `m` along the column, and the rest of
    /// the line from there. The line runs between square centres: it steps
    /// along whichever axis it crosses next, and diagonally when it passes
    /// exactly through a corner. Crossing a closed edge blocks sight, as does
    /// a living figure on any square short of the target.
    pub open spec fn spec_sight_from(self, observer: Pos, target: Pos, k: int, m: int) -> bool
        decreases (model::axis_gap(observer.x, target.x) + 1 - k) + (model::axis_gap(observer.y, target.y) + 1
            - m),
    {
        let adx = model::axis_gap(observer.x, target.x);
        let ady = model::axis_gap(observer.y, target.y);
        if k < 0 || m < 0 || k > adx || m > ady || (k == adx && m == ady) {
            true
        } else {
            let cursor = walk_pos(observer, target, k, m);
            let kind = sight_step(adx, ady, k, m);
            let nk = if kind == 2 {
                k
            } else {
                k + 1
            };
            let nm = if kind == 1 {
                m
            } else {
                m + 1
            };
            let next = walk_pos(observer, target, nk, nm);
            if kind != 0 && !self.spec_boundary_is_open(cursor, next) {
                false
            } else if next != target && self.spec_occupied(next, None) {
                false
            } else {
                self.spec_sight_from(observer, target, nk, nm)
            }
        }
    }

    pub open spec fn spec_can_see(self, observer: Pos, target: Pos) -> bool {
        observer == target || self.spec_sight_from(observer, target, 0, 0)
    }

    /// `i` is the first figure standing alive on `pos`, skipping `except`.
    pub open spec fn is_first_occupant(self, pos: Pos, except: Option<UnitId>, i: int) -> bool {
        &&& 0 <= i < self.units@.len()
        &&& Self::occupies_alive(self.units@[i], pos, except)
        &&& forall|j: int| 0 <= j < i ==> !Self::occupies_alive(#[trigger] self.units@[j], pos, except)
    }

    /// The id of the first living figure on `pos` other than `except`.
    pub open spec fn spec_first_occupant(self, pos: Pos, except: Option<UnitId>) -> Option<UnitId> {
        if exists|i: int| self.is_first_occupant(pos, except, i) {
            Some(self.units@[choose|i: int| self.is_first_occupant(pos, except, i)].id)
        } else {
            None
        }
    }

    pub open spec fn spec_known_trap_at(self, pos: Pos) -> bool {
        exists|i: int|
            0 <= i < self.traps@.len() && {
                let trap = #[trigger] self.traps@[i];
                trap.pos == pos && trap.discovered && !trap.disarmed
            }
    }

    /// Whether the figure `mover_id` may enter `to` from `from`, stop there, and
    /// carry on moving afterwards. A magical door takes the mover in and ends
    /// its move; heroes may pass through heroes (and Veil of Mist through
    /// monsters) but only stop where sharing is allowed; unrevealed squares and
    /// known traps stop further movement.
    pub open spec fn spec_step_info(self, mover_id: UnitId, from: Pos, to: Pos) -> MovementStepInfo {
        match self.spec_unit(mover_id) {
            None => MovementStepInfo { may_enter: false, may_end: false, may_continue: false },
            Some(mover) => {
                let magical_door = self.teleport_destinations@.len() > 0 && match self.spec_door_between(from, to) {
                    Some(door) => door.open,
                    None => false,
                };
                let physical_square = match self.spec_cell(to) {
                    Some(cell) => cell.passable,
                    None => false,
                };
                let furniture_blocks = self.spec_is_furniture_square(to);
                let crosses_open_boundary = mover.pass_through_rock || self.spec_boundary_is_open(
                    from,
                    to,
                );
                let terrain_allows = (mover.pass_through_rock || physical_square) && !furniture_blocks;
                let occupant = self.spec_first_occupant(to, Some(mover_id));
                let may_pass_occupant = match occupant {
                    Some(id) => match self.spec_unit(id) {
                        Some(unit) => (mover.faction == Faction::Hero && unit.faction == Faction::Hero)
                            || (mover.veil_of_mist && unit.faction == Faction::Monster),
                        None => false,
                    },
                    None => false,
                };
                let sharing = self.spec_hero_may_share_square(mover_id, to);
                let may_end = physical_square && !furniture_blocks && (occupant is None || sharing);
                let may_enter = magical_door || (terrain_allows && crosses_open_boundary && (occupant is None
                    || may_pass_occupant || sharing));
                let revealed = match self.spec_cell(to) {
                    Some(cell) => cell.revealed,
                    None => false,
                };
                MovementStepInfo {
                    may_enter,
                    may_end: magical_door || may_end,
                    may_continue: may_enter && !magical_door && revealed && !self.spec_known_trap_at(to),
                }
            },
        }
    }

    /// Movement dice for the active mover: one for an escorted ally or a hero
    /// carrying a quest item, two for a hero without equipment, otherwise the
    /// hero's own dice; Swift Wind doubles them.
    pub open spec fn spec_movement_dice_count(self) -> u8 {
        match self.phase {
            GamePhase::AllyTurn { .. } => 1,
            _ => match self.spec_active_hero() {
                None => 2,
                Some(hero) => {
                    let normal: u8 = if hero.carried_quest_item is Some {
                        1
                    } else if !hero.equipment_available {
                        2
                    } else {
                        game::spec_effective_movement_dice(hero)
                    };
                    if hero.swift_wind {
                        (normal * 2) as u8
                    } else {
                        normal
                    }
                },
            },
        }
    }

    /// The next-hop square in `direction`, when the mover may stop there or
    /// has more than one move left to pass through it.
    pub open spec fn spec_target_entry(self, mover_id: UnitId, origin: Pos, direction: Direction) -> Seq<
        (Pos, Direction),
    > {
        match model::spec_offset(origin, direction) {
            Some(pos) => {
                let info = self.spec_step_info(mover_id, origin, pos);
                if info.may_end || (self.hero_turn.movement_left > 1 && info.may_enter) {
                    seq![(pos, direction)]
                } else {
                    Seq::empty()
                }
            },
            None => Seq::empty(),
        }
    }

    /// The square in `direction` from a falling block, when it is one of the
    /// two escape squares.
    pub open spec fn spec_escape_entry(pending: PendingFallingBlock, direction: Direction) -> Seq<
        (Pos, Direction),
    > {
        match model::spec_offset(pending.trap, direction) {
            Some(pos) => if Some(pos) == pending.back || Some(pos) == pending.ahead {
                seq![(pos, direction)]
            } else {
                Seq::empty()
            },
            None => Seq::empty(),
        }
    }

    /// Every square the active mover may select for its next one-square hop,
    /// in North, East, South, West order.
    #[verifier::opaque]
    pub open spec fn spec_move_targets(self) -> Seq<(Pos, Direction)> {
        if self.pending_trap_roll is Some {
            Seq::empty()
        } else if let Some(pending) = self.pending_falling_block {
            Self::spec_escape_entry(pending, Direction::North) + Self::spec_escape_entry(
                pending,
                Direction::East,
            ) + Self::spec_escape_entry(pending, Direction::South) + Self::spec_escape_entry(
                pending,
                Direction::West,
            )
        } else if self.hero_turn.movement_roll is None || self.hero_turn.movement_left == 0 {
            Seq::empty()
        } else {
            match self.spec_active_mover_id() {
                None => Seq::empty(),
                Some(mover_id) => match self.spec_unit(mover_id) {
                    None => Seq::empty(),
                    Some(mover) => if mover.sleeping || mover.clouded || mover.petrified_turns > 0 {
                        Seq::empty()
                    } else {
                        self.spec_target_entry(mover_id, mover.pos, Direction::North)
                            + self.spec_target_entry(mover_id, mover.pos, Direction::East)
                            + self.spec_target_entry(mover_id, mover.pos, Direction::South)
                            + self.spec_target_entry(mover_id, mover.pos, Direction::West)
                    },
                },
            }
        }
    }

    /// What `apply_movement_roll` answers: the first refusal that applies, or
    /// the total thrown.
    pub open spec fn spec_movement_roll_outcome(self, dice: Seq<u8>) -> Result<u8, RuleError> {
        if !(self.phase is HeroTurn || self.phase is AllyTurn) {
            Err(RuleError::NotHeroTurn)
        } else if self.hero_turn.movement_roll is Some {
            Err(RuleError::AlreadyRolled)
        } else if self.spec_active_hero() matches Some(hero) && (hero.sleeping || hero.clouded) {
            Err(RuleError::Incapacitated)
        } else if dice.len() != self.spec_movement_dice_count() || !all_d6_faces(dice) {
            Err(RuleError::InvalidDice)
        } else {
            Ok(dice_total(dice) as u8)
        }
    }

    /// Sets up a quest from its laid-out board and figures: the first hero
    /// in `hero_order` begins, with a fresh turn and an opening log line.
    /// Refuses a layout that is not well formed.
    pub fn from_layout(
        title: String,
        blurb: String,
        cells: Vec<Cell>,
        doors: Vec<Door>,
        units: Vec<Unit>,
        props: Vec<Prop>,
        traps: Vec<Trap>,
        hero_order: Vec<UnitId>,
        stairs: Vec<Pos>,
        objective: ObjectiveDef,
        quest_events: Vec<QuestEvent>,
        wandering_monster: MonsterKind,
        seed: u64,
    ) -> (game: Option<Self>)
        ensures
            game is Some <==> ({
                &&& cells@.len() == CELL_COUNT
                &&& unique_unit_ids(units@)
                &&& distinct_ids(hero_order@)
                &&& forall|i: int| 0 <= i < units@.len() ==> spec_in_bounds(#[trigger] units@[i].pos)
                &&& forall|i: int|
                    0 <= i < doors@.len() ==> spec_in_bounds(#[trigger] doors@[i].a)
                        && spec_in_bounds(doors@[i].b)
                &&& forall|i: int|
                    0 <= i < props@.len() ==> game::prop_fits(#[trigger] props@[i]) && spec_in_bounds(
                        props@[i].pos,
                    )
            }),
            game matches Some(g) ==> {
                &&& g.wf()
                &&& g.title@ == title@
                &&& g.cells@ == cells@
                &&& g.doors@ == doors@
                &&& g.units@ == units@
                &&& g.props@ == props@
                &&& g.traps@ == traps@
                &&& g.hero_order@ == hero_order@
                &&& g.stairs@ == stairs@
                &&& g.objective == objective
                &&& g.quest_events@ == quest_events@
                &&& g.phase == (GamePhase::HeroTurn { order_index: 0 })
                &&& game::is_fresh_turn(g.hero_turn)
                &&& g.log@.len() == 1
                &&& g.pending_trap_roll is None
                &&& g.pending_falling_block is None
                &&& g.pending_teleport_roll is None
                &&& g.pending_hero_death is None
                &&& g.pending_possession_pickup is None
                &&& g.pending_collapsing_ceiling_roll is None
                &&& g.pending_healing_potion_roll is None
                &&& g.pending_forced_attack is None
                &&& g.teleport_destinations@.len() == 0
                &&& g.mine_region is None
                &&& g.monster_bounties@.len() == 0
                &&& g.forbidden_treasure_regions@.len() == 0
            },
    {
        reveal(Game::wf);
        if cells.len() != CELL_COUNT {
            return None;
        }
        let mut i: usize = 0;
        while i < units.len()
            invariant
                i <= units@.len(),
                forall|a: int, b: int|
                    0 <= a < i && 0 <= b < units@.len() && a != b ==> #[trigger] units@[a].id
                        != #[trigger] units@[b].id,
                forall|a: int| 0 <= a < i ==> spec_in_bounds(#[trigger] units@[a].pos),
            decreases units.len() - i,
        {
            if !Self::in_bounds(units[i].pos) {
                return None;
            }
            let mut j: usize = 0;
            while j < units.len()
                invariant
                    i < units@.len(),
                    j <= units@.len(),
                    forall|b: int| 0 <= b < j && b != i ==> units@[i as int].id != #[trigger] units@[b].id,
                decreases units.len() - j,
            {
                if j != i && units[j].id == units[i].id {
                    return None;
                }
                j = j + 1;
            }
            i = i + 1;
        }
        let mut h: usize = 0;
        while h < hero_order.len()
            invariant
                h <= hero_order@.len(),
                forall|a: int, b: int|
                    0 <= a < h && 0 <= b < hero_order@.len() && a != b ==> #[trigger] hero_order@[a]
                        != #[trigger] hero_order@[b],
            decreases hero_order.len() - h,
        {
            let mut k: usize = 0;
            while k < hero_order.len()
                invariant
                    h < hero_order@.len(),
                    k <= hero_order@.len(),
                    forall|b: int| 0 <= b < k && b != h ==> hero_order@[h as int] != #[trigger] hero_order@[b],
                decreases hero_order.len() - k,
            {
                if k != h && hero_order[k] == hero_order[h] {
                    return None;
                }
                k = k + 1;
            }
            h = h + 1;
        }
        let mut d: usize = 0;
        while d < doors.len()
            invariant
                d <= doors@.len(),
                forall|k: int|
                    0 <= k < d ==> spec_in_bounds(#[trigger] doors@[k].a) && spec_in_bounds(
                        doors@[k].b,
                    ),
            decreases doors.len() - d,
        {
            if !Self::in_bounds(doors[d].a) || !Self::in_bounds(doors[d].b) {
                return None;
            }
            let ghost old_d: int = d as int;
            assert(spec_in_bounds(doors@[old_d].a) && spec_in_bounds(doors@[old_d].b));
            d = d + 1;
            assert forall|k: int| 0 <= k < d implies spec_in_bounds(#[trigger] doors@[k].a)
                && spec_in_bounds(doors@[k].b) by {
                if k < old_d {
                } else {
                    assert(k == old_d);
                }
            }
        }
        let mut p: usize = 0;
        while p < props.len()
            invariant
                p <= props@.len(),
                forall|a: int|
                    0 <= a < p ==> game::prop_fits(#[trigger] props@[a]) && spec_in_bounds(props@[a].pos),
            decreases props.len() - p,
        {
            if !Self::in_bounds(props[p].pos) || props[p].pos.x > 252 || props[p].pos.y > 252 {
                return None;
            }
            p = p + 1;
        }
        let mut opening = String::from_str("The heroes begin ");
        opening.append(title.as_str());
        opening.append(".");
        let mut log: VecDeque<String> = VecDeque::new();
        log.push_back(opening);
        let game = Game {
            title,
            blurb,
            cells,
            doors,
            units,
            props,
            quest_items: Vec::new(),
            traps,
            blocked_markers: Vec::new(),
            hero_order,
            stairs,
            objective,
            phase: GamePhase::HeroTurn { order_index: 0 },
            hero_turn: HeroTurnState::default(),
            log,
            wandering_monster,
            escorted_ally: None,
            equipment_recovery_region: None,
            pending_falling_block: None,
            pending_teleport_roll: None,
            pending_hero_death: None,
            pending_possession_pickup: None,
            monster_stolen_artifacts: Vec::new(),
            discarded_chaos_spells: Vec::new(),
            pending_collapsing_ceiling_roll: None,
            pending_trap_roll: None,
            pending_healing_potion_roll: None,
            pending_hero_spell_roll: None,
            pending_forced_attack: None,
            last_combat_visual: None,
            hero_start_positions: Vec::new(),
            teleport_destinations: Vec::new(),
            mine_region: None,
            mine_entrance: None,
            mine_gold_amount: 0,
            visual_sequence: 0,
            monster_bounties: Vec::new(),
            forbidden_treasure_regions: Vec::new(),
            quest_events,
            heroes_acted_this_round: Vec::new(),
            zargon_turn_started: false,
            zargon_queue: VecDeque::new(),
            zargon_active: None,
            zargon_commanded_queue: VecDeque::new(),
            zargon_commanded_active: None,
            pending_chaos_spell_rolls: VecDeque::new(),
            rng: seeded_rng(seed),
        };
        Some(game)
    }

    pub fn in_bounds(pos: Pos) -> (inside: bool)
        ensures
            inside == spec_in_bounds(pos),
    {
        pos.x < BOARD_WIDTH && pos.y < BOARD_HEIGHT
    }

    pub fn cell_index(pos: Pos) -> (index: usize)
        ensures
            index == spec_cell_index(pos),
    {
        assert((pos.y as int) * 26 <= 255 * 26) by (nonlinear_arith)
            requires
                pos.y <= 255,
        ;
        (pos.y as usize) * (BOARD_WIDTH as usize) + (pos.x as usize)
    }

    fn pos_from_cell_index(index: usize) -> (pos: Pos)
        ensures
            pos == game::spec_pos_from_cell_index(index),
    {
        game::pos_from_cell_index(index)
    }

    pub fn cell(&self, pos: Pos) -> (cell: Option<&Cell>)
        requires
            self.wf(),
        ensures
            deref_opt(cell) == self.spec_cell(pos),
    {
        reveal(Game::wf);
        if Self::in_bounds(pos) {
            Some(&self.cells[Self::cell_index(pos)])
        } else {
            None
        }
    }

    /// Where the figure with `id` sits in `units`.
    pub(crate) fn unit_index(&self, id: UnitId) -> (index: Option<usize>)
        requires
            unique_unit_ids(self.units@),
        ensures
            match index {
                Some(i) => has_unit_id(self.units@, id) && i == unit_slot(self.units@, id) && i
                    < self.units@.len(),
                None => !has_unit_id(self.units@, id),
            },
    {
        let mut i: usize = 0;
        while i < self.units.len()
            invariant
                unique_unit_ids(self.units@),
                i <= self.units@.len(),
                forall|j: int| 0 <= j < i ==> #[trigger] self.units@[j].id != id,
            decreases self.units.len() - i,
        {
            if self.units[i].id == id {
                proof {
                    assert(has_unit_id(self.units@, id));
                    let k = unit_slot(self.units@, id);
                    assert(self.units@[k].id == id);
                    if k != i {
                        assert(self.units@[k].id != self.units@[i as int].id);
                    }
                }
                return Some(i);
            }
            i = i + 1;
        }
        None
    }

    pub fn unit(&self, id: UnitId) -> (unit: Option<&Unit>)
        requires
            self.wf(),
        ensures
            deref_opt(unit) == self.spec_unit(id),
    {
        reveal(Game::wf);
        match self.unit_index(id) {
            Some(i) => Some(&self.units[i]),
            None => None,
        }
    }

    pub fn active_hero_id(&self) -> (id: Option<UnitId>)
        ensures
            id == self.spec_active_hero_id(),
    {
        match self.phase {
            GamePhase::HeroTurn { order_index } => if order_index < self.hero_order.len() {
                Some(self.hero_order[order_index])
            } else {
                None
            },
            _ => None,
        }
    }

    pub fn active_hero(&self) -> (hero: Option<&Unit>)
        requires
            self.wf(),
        ensures
            deref_opt(hero) == self.spec_active_hero(),
    {
        reveal(Game::wf);
        match self.active_hero_id() {
            Some(id) => self.unit(id),
            None => None,
        }
    }

    pub(crate) fn active_awake_hero_id(&self) -> (id: Result<UnitId, RuleError>)
        requires
            self.wf(),
        ensures
            id == self.spec_active_awake_hero_id(),
    {
        reveal(Game::wf);
        let hero_id = match self.active_hero_id() {
            Some(id) => id,
            None => return Err(RuleError::NotHeroTurn),
        };
        match self.unit(hero_id) {
            Some(hero) => if hero.sleeping || hero.clouded || hero.petrified_turns > 0 {
                Err(RuleError::Incapacitated)
            } else {
                Ok(hero_id)
            },
            None => Ok(hero_id),
        }
    }

    pub fn active_mover_id(&self) -> (id: Option<UnitId>)
        ensures
            id == self.spec_active_mover_id(),
    {
        match self.phase {
            GamePhase::HeroTurn { .. } => self.active_hero_id(),
            GamePhase::AllyTurn { ally, .. } => Some(ally),
            _ => None,
        }
    }

    /// Whether a figure is shown on the board. Dead figures stay only while
    /// their physical piece is still placed.
    pub fn is_visible(&self, unit: &Unit) -> (shown: bool)
        requires
            self.wf(),
            !unit.escaped && !unit.hidden_until_activated && (unit.alive
                || unit.physical_figure is Some) && !(unit.figure is Hero) ==> cell_readable(unit.pos),
        ensures
            shown == self.spec_is_visible(*unit),
    {
        reveal(Game::wf);
        if unit.escaped || unit.hidden_until_activated || !(unit.alive || unit.physical_figure.is_some()) {
            return false;
        }
        if matches!(unit.figure, FigureKind::Hero(_)) {
            return true;
        }
        proof {
            crate::reach::lemma_cell_round_trip(0, unit.pos);
        }
        self.cells[Self::cell_index(unit.pos)].revealed
    }

    pub fn is_door_visible(&self, door: &Door) -> (shown: bool)
        requires
            self.wf(),
            !door.secret || door.discovered ==> cell_readable(door.a),
            (!door.secret || door.discovered) && !(0 <= spec_cell_index(door.a) < CELL_COUNT
                && self.cells@[spec_cell_index(door.a)].revealed) ==> cell_readable(door.b),
        ensures
            shown == self.spec_is_door_visible(*door),
    {
        reveal(Game::wf);
        if door.secret && !door.discovered {
            return false;
        }
        proof {
            crate::reach::lemma_cell_round_trip(0, door.a);
            crate::reach::lemma_cell_round_trip(0, door.b);
        }
        self.cells[Self::cell_index(door.a)].revealed || self.cells[Self::cell_index(door.b)].revealed
    }

    pub fn is_prop_visible(&self, prop: &Prop) -> (shown: bool)
        requires
            self.wf(),
            prop.visible ==> cell_readable(prop.pos),
        ensures
            shown == (prop.visible && self.cells@[spec_cell_index(prop.pos)].revealed),
    {
        reveal(Game::wf);
        if !prop.visible {
            return false;
        }
        proof {
            crate::reach::lemma_cell_round_trip(0, prop.pos);
        }
        self.cells[Self::cell_index(prop.pos)].revealed
    }

    /// The first piece of furniture that stops movement on `pos`.
    pub fn blocking_prop_at(&self, pos: Pos) -> (prop: Option<&Prop>)
        requires
            self.wf(),
        ensures
            match prop {
                Some(p) => exists|i: int|
                    0 <= i < self.props@.len() && self.props@[i] == *p && Self::blocks_at(*p, pos)
                        && forall|j: int| 0 <= j < i ==> !Self::blocks_at(#[trigger] self.props@[j], pos),
                None => !self.spec_is_furniture_square(pos),
            },
    {
        reveal(Game::wf);
        let mut i: usize = 0;
        while i < self.props.len()
            invariant
                self.wf(),
                i <= self.props@.len(),
                forall|j: int| 0 <= j < i ==> !Self::blocks_at(#[trigger] self.props@[j], pos),
            decreases self.props.len() - i,
        {
            reveal(Game::wf);
            proof {
                model::lemma_footprint_small(self.props@[i as int].kind, self.props@[i as int].rotation_quarters);
            }
            let prop = &self.props[i];
            if prop.visible && prop.carried_by.is_none() && prop.kind.blocks_movement()
                && prop.occupies_square(pos) {
                return Some(prop);
            }
            i = i + 1;
        }
        None
    }

    pub fn is_furniture_square(&self, pos: Pos) -> (furniture: bool)
        requires
            self.wf(),
        ensures
            furniture == self.spec_is_furniture_square(pos),
    {
        reveal(Game::wf);
        self.blocking_prop_at(pos).is_some()
    }

    /// A sprung pit or falling block leaves a marker on the board; a spear
    /// trap leaves none.
    pub fn is_trap_marker_visible(&self, trap: &Trap) -> (shown: bool)
        ensures
            shown == (trap.sprung && trap.kind != TrapKind::Spear),
    {
        trap.sprung && trap.kind != TrapKind::Spear
    }

    /// The first door joining `a` and `b`.
    pub fn has_door(&self, a: Pos, b: Pos) -> (door: Option<&Door>)
        ensures
            match door {
                Some(d) => self.spec_door_between(a, b) == Some(*d),
                None => self.spec_door_between(a, b) is None,
            },
    {
        let mut i: usize = 0;
        while i < self.doors.len()
            invariant
                i <= self.doors@.len(),
                forall|j: int| 0 <= j < i ==> !game::spec_connects(#[trigger] self.doors@[j], a, b),
            decreases self.doors.len() - i,
        {
            if self.doors[i].connects(a, b) {
                proof {
                    let k = choose|k: int|
                        0 <= k < self.doors@.len() && game::spec_connects(#[trigger] self.doors@[k], a, b)
                            && forall|j: int| 0 <= j < k ==> !game::spec_connects(self.doors@[j], a, b);
                    assert(0 <= i < self.doors@.len() && game::spec_connects(self.doors@[i as int], a, b)
                        && forall|j: int| 0 <= j < i ==> !game::spec_connects(self.doors@[j], a, b));
                    if k < i {
                        assert(!game::spec_connects(self.doors@[k], a, b));
                    }
                    if k > i {
                        assert(!game::spec_connects(self.doors@[i as int], a, b));
                    }
                }
                return Some(&self.doors[i]);
            }
            i = i + 1;
        }
        None
    }

    pub fn boundary_is_open(&self, a: Pos, b: Pos) -> (open: bool)
        requires
            self.wf(),
        ensures
            open == self.spec_boundary_is_open(a, b),
    {
        reveal(Game::wf);
        let a_cell = match self.cell(a) {
            Some(cell) => cell,
            None => return false,
        };
        let b_cell = match self.cell(b) {
            Some(cell) => cell,
            None => return false,
        };
        if !a_cell.passable || !b_cell.passable {
            return false;
        }
        match self.has_door(a, b) {
            Some(door) => door.open,
            None => a_cell.region == b_cell.region,
        }
    }

    /// The first living figure other than `except` on `pos`.
    pub(crate) fn occupied_by_alive(&self, pos: Pos, except: Option<UnitId>) -> (occupant: Option<UnitId>)
        ensures
            match occupant {
                Some(id) => exists|i: int|
                    0 <= i < self.units@.len() && self.units@[i].id == id && Self::occupies_alive(
                        self.units@[i],
                        pos,
                        except,
                    ) && forall|j: int|
                        0 <= j < i ==> !Self::occupies_alive(#[trigger] self.units@[j], pos, except),
                None => !self.spec_occupied(pos, except),
            },
            occupant is Some <==> self.spec_occupied(pos, except),
            occupant == self.spec_first_occupant(pos, except),
    {
        let mut i: usize = 0;
        while i < self.units.len()
            invariant
                i <= self.units@.len(),
                forall|j: int|
                    0 <= j < i ==> !Self::occupies_alive(#[trigger] self.units@[j], pos, except),
            decreases self.units.len() - i,
        {
            let unit = &self.units[i];
            if unit.alive && !unit.escaped && unit.pos == pos && Some(unit.id) != except {
                assert(Self::occupies_alive(self.units@[i as int], pos, except));
                proof {
                    assert(self.is_first_occupant(pos, except, i as int));
                    let k = choose|k: int| self.is_first_occupant(pos, except, k);
                    if k < i {
                        assert(!Self::occupies_alive(self.units@[k], pos, except));
                    }
                    if k > i {
                        assert(!Self::occupies_alive(self.units@[i as int], pos, except));
                    }
                }
                return Some(unit.id);
            }
            i = i + 1;
        }
        None
    }

    /// Open floor with no living figure (other than `except`) and no furniture.
    pub(crate) fn square_is_open_for_figure(&self, pos: Pos, except: Option<UnitId>) -> (open: bool)
        requires
            self.wf(),
        ensures
            open == ({
                &&& spec_in_bounds(pos)
                &&& self.cells@[spec_cell_index(pos)].passable
                &&& !self.spec_occupied(pos, except)
                &&& !self.spec_is_furniture_square(pos)
            }),
    {
        reveal(Game::wf);
        let passable = match self.cell(pos) {
            Some(cell) => cell.passable,
            None => false,
        };
        passable && self.occupied_by_alive(pos, except).is_none() && !self.is_furniture_square(pos)
    }

    pub(crate) fn is_sprung_pit(&self, pos: Pos) -> (pit: bool)
        ensures
            pit == self.spec_is_sprung_pit(pos),
    {
        let mut i: usize = 0;
        while i < self.traps.len()
            invariant
                i <= self.traps@.len(),
                forall|j: int|
                    0 <= j < i ==> {
                        let trap = #[trigger] self.traps@[j];
                        !(trap.pos == pos && trap.kind == TrapKind::Pit && trap.sprung
                            && !trap.disarmed)
                    },
            decreases self.traps.len() - i,
        {
            let trap = &self.traps[i];
            if trap.pos == pos && trap.kind == TrapKind::Pit && trap.sprung && !trap.disarmed {
                assert({
                    let t = self.traps@[i as int];
                    t.pos == pos && t.kind == TrapKind::Pit && t.sprung && !t.disarmed
                });
                return true;
            }
            i = i + 1;
        }
        false
    }

    /// A hero may share a square only on the stairway or in a sprung pit;
    /// monsters never share.
    pub(crate) fn hero_may_share_square(&self, mover_id: UnitId, pos: Pos) -> (may: bool)
        requires
            self.wf(),
        ensures
            may == self.spec_hero_may_share_square(mover_id, pos),
    {
        reveal(Game::wf);
        let is_hero = match self.unit(mover_id) {
            Some(mover) => mover.faction == Faction::Hero,
            None => false,
        };
        is_hero && (contains_pos(&self.stairs, pos) || self.is_sprung_pit(pos))
    }

    /// The centre-of-square sight rule: a crossed wall or closed door blocks
    /// sight, as does a living figure between the two squares; a line that
    /// only touches a grid corner passes diagonally without crossing either
    /// edge.
    pub fn can_see(&self, observer: Pos, target: Pos) -> (visible: bool)
        requires
            self.wf(),
        ensures
            visible == self.spec_can_see(observer, target),
    {
        reveal(Game::wf);
        if observer == target {
            return true;
        }
        let east = target.x >= observer.x;
        let south = target.y >= observer.y;
        let adx: u64 = if east {
            (target.x - observer.x) as u64
        } else {
            (observer.x - target.x) as u64
        };
        let ady: u64 = if south {
            (target.y - observer.y) as u64
        } else {
            (observer.y - target.y) as u64
        };
        let mut k: u64 = 0;
        let mut m: u64 = 0;
        let mut cursor = observer;
        while !(k == adx && m == ady)
            invariant
                self.wf(),
                observer != target,
                east == (target.x >= observer.x),
                south == (target.y >= observer.y),
                adx == model::axis_gap(observer.x, target.x),
                ady == model::axis_gap(observer.y, target.y),
                adx <= 255,
                ady <= 255,
                k <= adx,
                m <= ady,
                cursor == walk_pos(observer, target, k as int, m as int),
                self.spec_sight_from(observer, target, 0, 0) == self.spec_sight_from(
                    observer,
                    target,
                    k as int,
                    m as int,
                ),
            decreases (adx - k) + (ady - m),
        {
            proof {
                lemma_sight_step_stays_in_range(adx as int, ady as int, k as int, m as int);
            }
            assert((2 * k + 1) * ady <= 511 * 255 && (2 * m + 1) * adx <= 511 * 255)
                by (nonlinear_arith)
                requires
                    k <= adx <= 255,
                    m <= ady <= 255,
            ;
            let column_side: u64 = (2 * k + 1) * ady;
            let row_side: u64 = (2 * m + 1) * adx;
            let kind: u8 = if adx > 0 && ady > 0 && column_side == row_side {
                0
            } else if ady == 0 || (adx > 0 && column_side < row_side) {
                1
            } else {
                2
            };
            assert(kind == sight_step(adx as int, ady as int, k as int, m as int));
            let nk: u64 = if kind == 2 {
                k
            } else {
                k + 1
            };
            let nm: u64 = if kind == 1 {
                m
            } else {
                m + 1
            };
            let nx: u8 = if east {
                observer.x + (nk as u8)
            } else {
                observer.x - (nk as u8)
            };
            let ny: u8 = if south {
                observer.y + (nm as u8)
            } else {
                observer.y - (nm as u8)
            };
            let next = Pos { x: nx, y: ny };
            assert(next == walk_pos(observer, target, nk as int, nm as int));
            if kind != 0 && !self.boundary_is_open(cursor, next) {
                return false;
            }
            if next != target && self.occupied_by_alive(next, None).is_some() {
                return false;
            }
            k = nk;
            m = nm;
            cursor = next;
        }
        true
    }

    pub fn active_hero_can_see(&self, target: Pos) -> (visible: bool)
        requires
            self.wf(),
        ensures
            visible == match self.spec_active_hero() {
                Some(hero) => self.spec_can_see(hero.pos, target),
                None => false,
            },
    {
        reveal(Game::wf);
        match self.active_hero() {
            Some(hero) => self.can_see(hero.pos, target),
            None => false,
        }
    }

    /// A monster that can take part: alive, awake from dormancy, shown, and
    /// in sight of `observer`.
    pub open spec fn sees_monster(self, observer: Pos, unit: Unit) -> bool {
        &&& unit.alive
        &&& unit.faction == Faction::Monster
        &&& !unit.dormant
        &&& self.spec_is_visible(unit)
        &&& self.spec_can_see(observer, unit.pos)
    }

    pub(crate) fn unit_can_see_monster(&self, observer_id: UnitId) -> (sees: bool)
        requires
            self.wf(),
        ensures
            sees == match self.spec_unit(observer_id) {
                Some(observer) => exists|i: int|
                    0 <= i < self.units@.len() && self.sees_monster(
                        observer.pos,
                        #[trigger] self.units@[i],
                    ),
                None => false,
            },
    {
        reveal(Game::wf);
        let observer_pos = match self.unit(observer_id) {
            Some(observer) => observer.pos,
            None => return false,
        };
        let mut i: usize = 0;
        while i < self.units.len()
            invariant
                self.wf(),
                self.spec_unit(observer_id) matches Some(o) && o.pos == observer_pos,
                i <= self.units@.len(),
                forall|j: int|
                    0 <= j < i ==> !self.sees_monster(observer_pos, #[trigger] self.units@[j]),
            decreases self.units.len() - i,
        {
            reveal(Game::wf);
            let unit = &self.units[i];
            if unit.alive && unit.faction == Faction::Monster && !unit.dormant && self.is_visible(
                unit,
            ) && self.can_see(observer_pos, unit.pos) {
                assert(self.sees_monster(observer_pos, self.units@[i as int]));
                return true;
            }
            i = i + 1;
        }
        false
    }

    pub(crate) fn movement_step_info(&self, mover_id: UnitId, from: Pos, to: Pos) -> (info: MovementStepInfo)
        requires
            self.wf(),
        ensures
            info == self.spec_step_info(mover_id, from, to),
    {
        reveal(Game::wf);
        let mover = match self.unit(mover_id) {
            Some(mover) => mover,
            None => return MovementStepInfo { may_enter: false, may_end: false, may_continue: false },
        };
        let magical_door = self.teleport_destinations.len() > 0 && match self.has_door(from, to) {
            Some(door) => door.open,
            None => false,
        };
        let physical_square = match self.cell(to) {
            Some(cell) => cell.passable,
            None => false,
        };
        let furniture_blocks = self.is_furniture_square(to);
        let crosses_open_boundary = mover.pass_through_rock || self.boundary_is_open(from, to);
        let terrain_allows = (mover.pass_through_rock || physical_square) && !furniture_blocks;
        let occupant = self.occupied_by_alive(to, Some(mover_id));
        let may_pass_occupant = match occupant {
            Some(id) => match self.unit(id) {
                Some(unit) => (mover.faction == Faction::Hero && unit.faction == Faction::Hero) || (
                mover.veil_of_mist && unit.faction == Faction::Monster),
                None => false,
            },
            None => false,
        };
        let sharing = self.hero_may_share_square(mover_id, to);
        let may_end = physical_square && !furniture_blocks && (occupant.is_none() || sharing);
        let may_enter = magical_door || (terrain_allows && crosses_open_boundary && (occupant.is_none()
            || may_pass_occupant || sharing));
        let mut known_stopping_trap = false;
        let mut i: usize = 0;
        while i < self.traps.len()
            invariant
                i <= self.traps@.len(),
                known_stopping_trap == exists|j: int|
                    0 <= j < i && {
                        let trap = #[trigger] self.traps@[j];
                        trap.pos == to && trap.discovered && !trap.disarmed
                    },
            decreases self.traps.len() - i,
        {
            let trap = &self.traps[i];
            if trap.pos == to && trap.discovered && !trap.disarmed {
                known_stopping_trap = true;
            }
            i = i + 1;
        }
        let revealed = match self.cell(to) {
            Some(cell) => cell.revealed,
            None => false,
        };
        MovementStepInfo {
            may_enter,
            may_end: magical_door || may_end,
            may_continue: may_enter && !magical_door && revealed && !known_stopping_trap,
        }
    }

    pub fn active_movement_dice_count(&self) -> (count: u8)
        requires
            self.wf(),
        ensures
            count == self.spec_movement_dice_count(),
            1 <= count <= 4,
    {
        reveal(Game::wf);
        match self.phase {
            GamePhase::AllyTurn { .. } => 1,
            _ => match self.active_hero() {
                None => 2,
                Some(hero) => {
                    let normal: u8 = if hero.carried_quest_item.is_some() {
                        1
                    } else if !hero.equipment_available {
                        2
                    } else {
                        hero.effective_movement_dice()
                    };
                    if hero.swift_wind {
                        normal * 2
                    } else {
                        normal
                    }
                },
            },
        }
    }

    fn push_target(&self, targets: &mut Vec<(Pos, Direction)>, mover_id: UnitId, origin: Pos, direction: Direction)
        requires
            self.wf(),
        ensures
            final(targets)@ == old(targets)@ + self.spec_target_entry(mover_id, origin, direction),
    {
        reveal(Game::wf);
        if let Some(pos) = origin.offset(direction) {
            let info = self.movement_step_info(mover_id, origin, pos);
            if info.may_end || (self.hero_turn.movement_left > 1 && info.may_enter) {
                targets.push((pos, direction));
            }
        }
    }

    fn push_escape(pending: PendingFallingBlock, targets: &mut Vec<(Pos, Direction)>, direction: Direction)
        ensures
            final(targets)@ == old(targets)@ + Self::spec_escape_entry(pending, direction),
    {
        if let Some(pos) = pending.trap.offset(direction) {
            if Some(pos) == pending.back || Some(pos) == pending.ahead {
                targets.push((pos, direction));
            }
        }
    }

    /// The squares the active mover may select for its next one-square hop,
    /// so that keyboard movement, highlights and pointer input agree.
    pub fn active_move_targets(&self) -> (targets: Vec<(Pos, Direction)>)
        requires
            self.wf(),
        ensures
            targets@ == self.spec_move_targets(),
    {
        reveal(Game::wf);
        reveal(Game::spec_move_targets);
        let mut targets: Vec<(Pos, Direction)> = Vec::new();
        if self.pending_trap_roll.is_some() {
            return targets;
        }
        if let Some(pending) = self.pending_falling_block {
            Self::push_escape(pending, &mut targets, Direction::North);
            Self::push_escape(pending, &mut targets, Direction::East);
            Self::push_escape(pending, &mut targets, Direction::South);
            Self::push_escape(pending, &mut targets, Direction::West);
            return targets;
        }
        if self.hero_turn.movement_roll.is_none() || self.hero_turn.movement_left == 0 {
            return targets;
        }
        let mover_id = match self.active_mover_id() {
            Some(id) => id,
            None => return targets,
        };
        let mover = match self.unit(mover_id) {
            Some(mover) => mover,
            None => return targets,
        };
        if mover.sleeping || mover.clouded || mover.petrified_turns > 0 {
            return targets;
        }
        let origin = mover.pos;
        self.push_target(&mut targets, mover_id, origin, Direction::North);
        self.push_target(&mut targets, mover_id, origin, Direction::East);
        self.push_target(&mut targets, mover_id, origin, Direction::South);
        self.push_target(&mut targets, mover_id, origin, Direction::West);
        targets
    }

    /// The direction of the highlighted next hop onto `target`, if any.
    pub fn active_move_direction_to(&self, target: Pos) -> (direction: Option<Direction>)
        requires
            self.wf(),
        ensures
            match direction {
                Some(d) => exists|i: int|
                    0 <= i < self.spec_move_targets().len() && self.spec_move_targets()[i] == (target, d)
                        && forall|j: int| 0 <= j < i ==> (#[trigger] self.spec_move_targets()[j]).0 != target,
                None => forall|i: int|
                    0 <= i < self.spec_move_targets().len() ==> (#[trigger] self.spec_move_targets()[i]).0
                        != target,
            },
    {
        reveal(Game::wf);
        let targets = self.active_move_targets();
        let mut i: usize = 0;
        while i < targets.len()
            invariant
                targets@ == self.spec_move_targets(),
                i <= targets@.len(),
                forall|j: int| 0 <= j < i ==> (#[trigger] targets@[j]).0 != target,
            decreases targets.len() - i,
        {
            let (pos, direction) = targets[i];
            if pos == target {
                return Some(direction);
            }
            i = i + 1;
        }
        None
    }

    /// Adds a line to the game log, dropping the oldest once it is full.
    #[verifier::spinoff_prover]
    #[verifier::rlimit(30)]
    pub(crate) fn set_unit_gold(&mut self, index: usize, gold: u16)
        requires
            old(self).wf(),
            index < old(self).units@.len(),
        ensures
            final(self).wf(),
            final(self).units@ == old(self).units@.update(index as int, final(self).units@[index as int]),
            final(self).units@[index as int] == crate::outcome::with_gold(old(self).units@[index as int], gold),
            *final(self) == (Game { units: final(self).units, ..*old(self) }),
    {
        let ghost before = *self;
        let mut unit = Unit::vacant();
        self.units.set_and_swap(index, &mut unit);
        assert(unit == before.units@[index as int]);
        let changed = unit.set_gold(gold);
        self.units.set(index, changed);
        proof {
            assert(self.units@ =~= before.units@.update(index as int, changed));
            lemma_wf_after_unit_change(before, *self, index as int);
        }
    }

    #[verifier::spinoff_prover]
    #[verifier::rlimit(30)]
    pub(crate) fn unit_take_potion(&mut self, index: usize, kind: game::PotionKind)
        requires
            old(self).wf(),
            index < old(self).units@.len(),
        ensures
            final(self).wf(),
            final(self).units@ == old(self).units@.update(index as int, final(self).units@[index as int]),
            game::potion_taken(old(self).units@[index as int], final(self).units@[index as int], kind),
            *final(self) == (Game { units: final(self).units, ..*old(self) }),
    {
        let ghost before = *self;
        let mut unit = Unit::vacant();
        self.units.set_and_swap(index, &mut unit);
        self.units.set(index, unit.take_potion(kind));
        proof {
            assert(self.units@ =~= before.units@.update(index as int, self.units@[index as int]));
        }
        proof {
            assert(self.units@ =~= before.units@.update(index as int, self.units@[index as int]));
            lemma_wf_after_unit_change(before, *self, index as int);
        }
    }

    #[verifier::spinoff_prover]
    #[verifier::rlimit(30)]
    pub(crate) fn unit_receive_potion(&mut self, index: usize, kind: game::PotionKind, strength: u8)
        requires
            old(self).wf(),
            index < old(self).units@.len(),
        ensures
            final(self).wf(),
            final(self).units@ == old(self).units@.update(index as int, final(self).units@[index as int]),
            game::potion_received(
                old(self).units@[index as int],
                final(self).units@[index as int],
                kind,
                strength,
            ),
            *final(self) == (Game { units: final(self).units, ..*old(self) }),
    {
        let ghost before = *self;
        let mut unit = Unit::vacant();
        self.units.set_and_swap(index, &mut unit);
        self.units.set(index, unit.receive_potion(kind, strength));
        proof {
            assert(self.units@ =~= before.units@.update(index as int, self.units@[index as int]));
        }
        proof {
            assert(self.units@ =~= before.units@.update(index as int, self.units@[index as int]));
            lemma_wf_after_unit_change(before, *self, index as int);
        }
    }

    #[verifier::spinoff_prover]
    #[verifier::rlimit(30)]
    pub(crate) fn unit_drink_healing(&mut self, index: usize, restored: Option<u8>)
        requires
            old(self).wf(),
            index < old(self).units@.len(),
            old(self).units@[index as int].inventory.potion_of_healing > 0,
            restored matches Some(amount) ==> old(self).units@[index as int].body + amount <= i16::MAX,
        ensures
            final(self).wf(),
            final(self).units@ == old(self).units@.update(index as int, final(self).units@[index as int]),
            game::healing_drunk(old(self).units@[index as int], final(self).units@[index as int], restored),
            *final(self) == (Game { units: final(self).units, ..*old(self) }),
    {
        let ghost before = *self;
        let mut unit = Unit::vacant();
        self.units.set_and_swap(index, &mut unit);
        self.units.set(index, unit.drink_healing(restored));
        proof {
            assert(self.units@ =~= before.units@.update(index as int, self.units@[index as int]));
        }
        proof {
            assert(self.units@ =~= before.units@.update(index as int, self.units@[index as int]));
            lemma_wf_after_unit_change(before, *self, index as int);
        }
    }

    #[verifier::spinoff_prover]
    #[verifier::rlimit(30)]
    pub(crate) fn unit_mark_escaped(&mut self, index: usize)
        requires
            old(self).wf(),
            index < old(self).units@.len(),
        ensures
            final(self).wf(),
            final(self).units@ == old(self).units@.update(index as int, final(self).units@[index as int]),
            final(self).units@[index as int] == (Unit { escaped: true, ..old(self).units@[index as int] }),
            *final(self) == (Game { units: final(self).units, ..*old(self) }),
    {
        let ghost before = *self;
        let mut unit = Unit::vacant();
        self.units.set_and_swap(index, &mut unit);
        assert(unit == before.units@[index as int]);
        let changed = unit.mark_escaped();
        self.units.set(index, changed);
        proof {
            assert(self.units@ =~= before.units@.update(index as int, changed));
            lemma_wf_after_unit_change(before, *self, index as int);
        }
    }

    #[verifier::spinoff_prover]
    #[verifier::rlimit(30)]
    pub(crate) fn unit_give_up_possessions(&mut self, index: usize) -> (possessions: Inventory)
        requires
            old(self).wf(),
            index < old(self).units@.len(),
        ensures
            final(self).wf(),
            possessions == old(self).units@[index as int].inventory,
            final(self).units@ == old(self).units@.update(index as int, final(self).units@[index as int]),
            final(self).units@[index as int] == (Unit { inventory: final(self).units@[index as int].inventory, ..old(self).units@[index as int] }),
            game::is_empty_inventory(final(self).units@[index as int].inventory),
            *final(self) == (Game { units: final(self).units, ..*old(self) }),
    {
        let ghost before = *self;
        let mut unit = Unit::vacant();
        self.units.set_and_swap(index, &mut unit);
        assert(unit == before.units@[index as int]);
        let (changed, possessions) = unit.give_up_possessions();
        self.units.set(index, changed);
        proof {
            assert(self.units@ =~= before.units@.update(index as int, changed));
            lemma_wf_after_unit_change(before, *self, index as int);
        }
        possessions
    }

    #[verifier::spinoff_prover]
    #[verifier::rlimit(30)]
    pub(crate) fn unit_set_inventory(&mut self, index: usize, inventory: Inventory)
        requires
            old(self).wf(),
            index < old(self).units@.len(),
        ensures
            final(self).wf(),
            final(self).units@ == old(self).units@.update(index as int, final(self).units@[index as int]),
            final(self).units@[index as int] == (Unit { inventory, ..old(self).units@[index as int] }),
            *final(self) == (Game { units: final(self).units, ..*old(self) }),
    {
        let ghost before = *self;
        let mut unit = Unit::vacant();
        self.units.set_and_swap(index, &mut unit);
        assert(unit == before.units@[index as int]);
        let changed = unit.with_inventory(inventory);
        self.units.set(index, changed);
        proof {
            assert(self.units@ =~= before.units@.update(index as int, changed));
            lemma_wf_after_unit_change(before, *self, index as int);
        }
    }

    #[verifier::spinoff_prover]
    #[verifier::rlimit(30)]
    pub(crate) fn unit_set_life(&mut self, index: usize, body: i16, alive: bool)
        requires
            old(self).wf(),
            index < old(self).units@.len(),
        ensures
            final(self).wf(),
            final(self).units@ == old(self).units@.update(index as int, final(self).units@[index as int]),
            final(self).units@[index as int] == (Unit { body, alive, ..old(self).units@[index as int] }),
            *final(self) == (Game { units: final(self).units, ..*old(self) }),
    {
        let ghost before = *self;
        let mut unit = Unit::vacant();
        self.units.set_and_swap(index, &mut unit);
        assert(unit == before.units@[index as int]);
        let changed = unit.with_life(body, alive);
        self.units.set(index, changed);
        proof {
            assert(self.units@ =~= before.units@.update(index as int, changed));
            lemma_wf_after_unit_change(before, *self, index as int);
        }
    }

    #[verifier::spinoff_prover]
    #[verifier::rlimit(30)]
    pub(crate) fn unit_take_damage(&mut self, index: usize, damage: u8)
        requires
            old(self).wf(),
            index < old(self).units@.len(),
        ensures
            final(self).wf(),
            final(self).units@ == old(self).units@.update(index as int, final(self).units@[index as int]),
            final(self).units@[index as int] == (Unit {
                body: if old(self).units@[index as int].body - damage < 0 {
                    0
                } else {
                    (old(self).units@[index as int].body - damage) as i16
                },
                rock_skin: old(self).units@[index as int].rock_skin && damage == 0,
                ..old(self).units@[index as int]
            }),
            *final(self) == (Game { units: final(self).units, ..*old(self) }),
    {
        let ghost before = *self;
        let mut unit = Unit::vacant();
        self.units.set_and_swap(index, &mut unit);
        assert(unit == before.units@[index as int]);
        let changed = unit.take_damage(damage);
        self.units.set(index, changed);
        proof {
            assert(self.units@ =~= before.units@.update(index as int, changed));
            lemma_wf_after_unit_change(before, *self, index as int);
        }
    }

    #[verifier::spinoff_prover]
    #[verifier::rlimit(30)]
    pub(crate) fn unit_cast_saving_spell(&mut self, index: usize, card: usize, body: i16, alive: bool)
        requires
            old(self).wf(),
            index < old(self).units@.len(),
            card < old(self).units@[index as int].hero_spells@.len(),
        ensures
            final(self).wf(),
            final(self).units@ == old(self).units@.update(index as int, final(self).units@[index as int]),
            final(self).units@[index as int] == (Unit {
                hero_spells: final(self).units@[index as int].hero_spells,
                discarded_hero_spells: final(self).units@[index as int].discarded_hero_spells,
                body,
                alive,
                ..old(self).units@[index as int]
            }),
            final(self).units@[index as int].hero_spells@ == old(self).units@[index as int].hero_spells@.remove(card as int),
            final(self).units@[index as int].discarded_hero_spells@ == old(self).units@[index as int].discarded_hero_spells@.push(
                old(self).units@[index as int].hero_spells@[card as int],
            ),
            *final(self) == (Game { units: final(self).units, ..*old(self) }),
    {
        let ghost before = *self;
        let mut unit = Unit::vacant();
        self.units.set_and_swap(index, &mut unit);
        assert(unit == before.units@[index as int]);
        let changed = unit.cast_saving_spell(card, body, alive);
        self.units.set(index, changed);
        proof {
            assert(self.units@ =~= before.units@.update(index as int, changed));
            lemma_wf_after_unit_change(before, *self, index as int);
        }
    }

    #[verifier::spinoff_prover]
    #[verifier::rlimit(30)]
    pub(crate) fn unit_set_spell_ring(&mut self, index: usize, spell: Option<crate::cards::HeroSpell>, casts: u8)
        requires
            old(self).wf(),
            index < old(self).units@.len(),
        ensures
            final(self).wf(),
            final(self).units@ == old(self).units@.update(index as int, final(self).units@[index as int]),
            final(self).units@[index as int] == (Unit { spell_ring_spell: spell, spell_ring_casts_left: casts, ..old(self).units@[index as int] }),
            *final(self) == (Game { units: final(self).units, ..*old(self) }),
    {
        let ghost before = *self;
        let mut unit = Unit::vacant();
        self.units.set_and_swap(index, &mut unit);
        assert(unit == before.units@[index as int]);
        let changed = unit.with_spell_ring(spell, casts);
        self.units.set(index, changed);
        proof {
            assert(self.units@ =~= before.units@.update(index as int, changed));
            lemma_wf_after_unit_change(before, *self, index as int);
        }
    }

    #[verifier::spinoff_prover]
    #[verifier::rlimit(30)]
    pub(crate) fn unit_take_item(&mut self, index: usize, item: usize)
        requires
            old(self).wf(),
            index < old(self).units@.len(),
        ensures
            final(self).wf(),
            final(self).units@ == old(self).units@.update(index as int, final(self).units@[index as int]),
            final(self).units@[index as int] == (Unit { carried_quest_item: Some(item), ..old(self).units@[index as int] }),
            *final(self) == (Game { units: final(self).units, ..*old(self) }),
    {
        let ghost before = *self;
        let mut unit = Unit::vacant();
        self.units.set_and_swap(index, &mut unit);
        assert(unit == before.units@[index as int]);
        let changed = unit.take_item(item);
        self.units.set(index, changed);
        proof {
            assert(self.units@ =~= before.units@.update(index as int, changed));
            lemma_wf_after_unit_change(before, *self, index as int);
        }
    }

    #[verifier::spinoff_prover]
    #[verifier::rlimit(30)]
    pub(crate) fn unit_put_down_item(&mut self, index: usize)
        requires
            old(self).wf(),
            index < old(self).units@.len(),
        ensures
            final(self).wf(),
            final(self).units@ == old(self).units@.update(index as int, final(self).units@[index as int]),
            final(self).units@[index as int] == (Unit { carried_quest_item: None, ..old(self).units@[index as int] }),
            *final(self) == (Game { units: final(self).units, ..*old(self) }),
    {
        let ghost before = *self;
        let mut unit = Unit::vacant();
        self.units.set_and_swap(index, &mut unit);
        assert(unit == before.units@[index as int]);
        let changed = unit.put_down_item();
        self.units.set(index, changed);
        proof {
            assert(self.units@ =~= before.units@.update(index as int, changed));
            lemma_wf_after_unit_change(before, *self, index as int);
        }
    }

    #[verifier::spinoff_prover]
    #[verifier::rlimit(30)]
    pub(crate) fn unit_set_movement_spells(&mut self, index: usize, pass_through_rock: bool, veil_of_mist: bool)
        requires
            old(self).wf(),
            index < old(self).units@.len(),
        ensures
            final(self).wf(),
            final(self).units@ == old(self).units@.update(index as int, final(self).units@[index as int]),
            final(self).units@[index as int] == (Unit {
                pass_through_rock,
                veil_of_mist,
                ..old(self).units@[index as int]
            }),
            *final(self) == (Game { units: final(self).units, ..*old(self) }),
    {
        let ghost before = *self;
        let mut unit = Unit::vacant();
        self.units.set_and_swap(index, &mut unit);
        assert(unit == before.units@[index as int]);
        let changed = unit.with_movement_spells(pass_through_rock, veil_of_mist);
        self.units.set(index, changed);
        proof {
            assert(self.units@ =~= before.units@.update(index as int, changed));
            lemma_wf_after_unit_change(before, *self, index as int);
        }
    }

    #[verifier::spinoff_prover]
    #[verifier::rlimit(30)]
    pub(crate) fn unit_fall(&mut self, index: usize)
        requires
            old(self).wf(),
            index < old(self).units@.len(),
        ensures
            final(self).wf(),
            final(self).units@ == old(self).units@.update(index as int, final(self).units@[index as int]),
            final(self).units@[index as int] == (Unit { body: 0, alive: false, ..old(self).units@[index as int] }),
            *final(self) == (Game { units: final(self).units, ..*old(self) }),
    {
        let ghost before = *self;
        let mut unit = Unit::vacant();
        self.units.set_and_swap(index, &mut unit);
        assert(unit == before.units@[index as int]);
        let changed = unit.fall();
        self.units.set(index, changed);
        proof {
            assert(self.units@ =~= before.units@.update(index as int, changed));
            lemma_wf_after_unit_change(before, *self, index as int);
        }
    }

    #[verifier::spinoff_prover]
    #[verifier::rlimit(30)]
    pub(crate) fn unit_set_courage(&mut self, index: usize, courage: bool)
        requires
            old(self).wf(),
            index < old(self).units@.len(),
        ensures
            final(self).wf(),
            final(self).units@ == old(self).units@.update(index as int, final(self).units@[index as int]),
            final(self).units@[index as int] == (Unit { courage, ..old(self).units@[index as int] }),
            *final(self) == (Game { units: final(self).units, ..*old(self) }),
    {
        let ghost before = *self;
        let mut unit = Unit::vacant();
        self.units.set_and_swap(index, &mut unit);
        assert(unit == before.units@[index as int]);
        let changed = unit.with_courage(courage);
        self.units.set(index, changed);
        proof {
            assert(self.units@ =~= before.units@.update(index as int, changed));
            lemma_wf_after_unit_change(before, *self, index as int);
        }
    }

    #[verifier::spinoff_prover]
    #[verifier::rlimit(30)]
    pub(crate) fn unit_sit_out(&mut self, index: usize)
        requires
            old(self).wf(),
            index < old(self).units@.len(),
            old(self).units@[index as int].petrified_turns > 0
                || old(self).units@[index as int].skip_turns > 0,
        ensures
            final(self).wf(),
            final(self).units@ == old(self).units@.update(
                index as int,
                turn_sat_out(old(self).units@[index as int]),
            ),
            *final(self) == (Game { units: final(self).units, ..*old(self) }),
    {
        let ghost before = *self;
        let mut unit = Unit::vacant();
        self.units.set_and_swap(index, &mut unit);
        assert(unit == before.units@[index as int]);
        let changed = unit.sit_out();
        self.units.set(index, changed);
        proof {
            assert(self.units@ =~= before.units@.update(index as int, changed));
            lemma_turn_sat_out_keeps(before.units@[index as int]);
            lemma_wf_after_unit_change(before, *self, index as int);
        }
    }

    #[verifier::spinoff_prover]
    #[verifier::rlimit(30)]
    pub(crate) fn unit_heal(&mut self, index: usize, restored: u8)
        requires
            old(self).wf(),
            index < old(self).units@.len(),
            old(self).units@[index as int].body + restored <= i16::MAX,
        ensures
            final(self).wf(),
            final(self).units@ == old(self).units@.update(index as int, final(self).units@[index as int]),
            final(self).units@[index as int] == (Unit {
                    body: (old(self).units@[index as int].body + restored) as i16,
                    alive: old(self).units@[index as int].body + restored > 0,
                    ..old(self).units@[index as int]
                }),
            *final(self) == (Game { units: final(self).units, ..*old(self) }),
    {
        let ghost before = *self;
        let mut unit = Unit::vacant();
        self.units.set_and_swap(index, &mut unit);
        assert(unit == before.units@[index as int]);
        let changed = unit.heal(restored);
        self.units.set(index, changed);
        proof {
            assert(self.units@ =~= before.units@.update(index as int, changed));
            lemma_wf_after_unit_change(before, *self, index as int);
        }
    }

    #[verifier::spinoff_prover]
    #[verifier::rlimit(30)]
    pub(crate) fn unit_turn_to_stone(&mut self, index: usize)
        requires
            old(self).wf(),
            index < old(self).units@.len(),
            old(self).units@[index as int].inventory.petrification_potion > 0,
        ensures
            final(self).wf(),
            final(self).units@ == old(self).units@.update(index as int, final(self).units@[index as int]),
            final(self).units@[index as int] == (Unit {
                    inventory: game::Inventory {
                        petrification_potion: (old(self).units@[index as int].inventory.petrification_potion
                            - 1) as u8,
                        ..old(self).units@[index as int].inventory
                    },
                    petrified_turns: 5,
                    ..old(self).units@[index as int]
                }),
            *final(self) == (Game { units: final(self).units, ..*old(self) }),
    {
        let ghost before = *self;
        let mut unit = Unit::vacant();
        self.units.set_and_swap(index, &mut unit);
        assert(unit == before.units@[index as int]);
        let changed = unit.turn_to_stone();
        self.units.set(index, changed);
        proof {
            assert(self.units@ =~= before.units@.update(index as int, changed));
            lemma_wf_after_unit_change(before, *self, index as int);
        }
    }

    #[verifier::spinoff_prover]
    #[verifier::rlimit(30)]
    pub(crate) fn unit_drink_defense(&mut self, index: usize)
        requires
            old(self).wf(),
            index < old(self).units@.len(),
            old(self).units@[index as int].inventory.potion_of_defense > 0,
        ensures
            final(self).wf(),
            final(self).units@ == old(self).units@.update(index as int, final(self).units@[index as int]),
            final(self).units@[index as int] == (Unit {
                    inventory: game::Inventory {
                        potion_of_defense: (old(self).units@[index as int].inventory.potion_of_defense
                            - 1) as u8,
                        ..old(self).units@[index as int].inventory
                    },
                    potion_defense_bonus: if old(self).units@[index as int].potion_defense_bonus + 2
                        > u8::MAX {
                        u8::MAX
                    } else {
                        (old(self).units@[index as int].potion_defense_bonus + 2) as u8
                    },
                    ..old(self).units@[index as int]
                }),
            *final(self) == (Game { units: final(self).units, ..*old(self) }),
    {
        let ghost before = *self;
        let mut unit = Unit::vacant();
        self.units.set_and_swap(index, &mut unit);
        assert(unit == before.units@[index as int]);
        let changed = unit.drink_defense();
        self.units.set(index, changed);
        proof {
            assert(self.units@ =~= before.units@.update(index as int, changed));
            lemma_wf_after_unit_change(before, *self, index as int);
        }
    }

    #[verifier::spinoff_prover]
    #[verifier::rlimit(30)]
    pub(crate) fn unit_set_fools_gold(&mut self, index: usize, amount: u16)
        requires
            old(self).wf(),
            index < old(self).units@.len(),
        ensures
            final(self).wf(),
            final(self).units@ == old(self).units@.update(index as int, final(self).units@[index as int]),
            final(self).units@[index as int] == (Unit {
                    inventory: game::Inventory {
                        fools_gold: amount,
                        ..old(self).units@[index as int].inventory
                    },
                    ..old(self).units@[index as int]
                }),
            *final(self) == (Game { units: final(self).units, ..*old(self) }),
    {
        let ghost before = *self;
        let mut unit = Unit::vacant();
        self.units.set_and_swap(index, &mut unit);
        assert(unit == before.units@[index as int]);
        let changed = unit.set_fools_gold(amount);
        self.units.set(index, changed);
        proof {
            assert(self.units@ =~= before.units@.update(index as int, changed));
            lemma_wf_after_unit_change(before, *self, index as int);
        }
    }

    pub(crate) fn set_phase(&mut self, phase: GamePhase)
        requires
            old(self).wf(),
        ensures
            final(self).wf(),
            *final(self) == (Game { phase, ..*old(self) }),
    {
        reveal(Game::wf);
        self.phase = phase;
    }

    pub(crate) fn set_pending_hero_death(&mut self, pending: Option<PendingHeroDeath>)
        requires
            old(self).wf(),
        ensures
            final(self).wf(),
            *final(self) == (Game { pending_hero_death: pending, ..*old(self) }),
    {
        reveal(Game::wf);
        self.pending_hero_death = pending;
    }

    /// The turn's action is spent and no movement is left.
    pub(crate) fn spend_action_and_movement(&mut self)
        requires
            old(self).wf(),
        ensures
            final(self).wf(),
            final(self).hero_turn == (HeroTurnState {
                action_used: true,
                movement_left: 0,
                ..old(self).hero_turn
            }),
            *final(self) == (Game { hero_turn: final(self).hero_turn, ..*old(self) }),
    {
        reveal(Game::wf);
        self.hero_turn.action_used = true;
        self.hero_turn.movement_left = 0;
    }

    pub(crate) fn ready_heroic_brew(&mut self)
        requires
            old(self).wf(),
        ensures
            final(self).wf(),
            final(self).hero_turn == (HeroTurnState { heroic_brew_ready: true, ..old(self).hero_turn }),
            *final(self) == (Game { hero_turn: final(self).hero_turn, ..*old(self) }),
    {
        reveal(Game::wf);
        self.hero_turn.heroic_brew_ready = true;
    }

    pub(crate) fn add_strength_bonus(&mut self)
        requires
            old(self).wf(),
        ensures
            final(self).wf(),
            final(self).hero_turn == (HeroTurnState {
                potion_strength_bonus: if old(self).hero_turn.potion_strength_bonus + 2 > u8::MAX {
                    u8::MAX
                } else {
                    (old(self).hero_turn.potion_strength_bonus + 2) as u8
                },
                ..old(self).hero_turn
            }),
            *final(self) == (Game { hero_turn: final(self).hero_turn, ..*old(self) }),
    {
        reveal(Game::wf);
        self.hero_turn.potion_strength_bonus = self.hero_turn.potion_strength_bonus.saturating_add(2);
    }

    /// A fresh turn record: nothing rolled, moved or done.
    pub(crate) fn reset_hero_turn(&mut self)
        requires
            old(self).wf(),
        ensures
            final(self).wf(),
            game::is_fresh_turn(final(self).hero_turn),
            *final(self) == (Game { hero_turn: final(self).hero_turn, ..*old(self) }),
    {
        reveal(Game::wf);
        self.hero_turn = HeroTurnState::default();
    }

    /// The healing roll for `hero` is settled: no roll is awaited, and a
    /// pending death of that hero is averted.
    pub(crate) fn settle_healing_roll(&mut self, hero: UnitId)
        requires
            old(self).wf(),
        ensures
            final(self).wf(),
            *final(self) == (Game {
                pending_healing_potion_roll: None,
                pending_hero_death: if old(self).pending_hero_death matches Some(pending) && pending.hero
                    == hero {
                    None
                } else {
                    old(self).pending_hero_death
                },
                ..*old(self)
            }),
    {
        reveal(Game::wf);
        self.pending_healing_potion_roll = None;
        let clears = match self.pending_hero_death {
            Some(pending) => pending.hero == hero,
            None => false,
        };
        if clears {
            self.pending_hero_death = None;
        }
    }

    /// Throws one six-sided die with the game's generator.
    pub(crate) fn roll_die(&mut self) -> (face: u8)
        requires
            old(self).wf(),
        ensures
            final(self).wf(),
            1 <= face <= 6,
            *final(self) == (Game { rng: final(self).rng, ..*old(self) }),
    {
        reveal(Game::wf);
        roll_d6(&mut self.rng)
    }

    pub(crate) fn set_pending_healing_roll(&mut self, hero: Option<UnitId>)
        requires
            old(self).wf(),
        ensures
            final(self).wf(),
            *final(self) == (Game { pending_healing_potion_roll: hero, ..*old(self) }),
    {
        reveal(Game::wf);
        self.pending_healing_potion_roll = hero;
    }

    /// The hero waiting for the collapsing ceiling's dice, if any.
    pub fn pending_collapsing_ceiling_subject(&self) -> (subject: Option<UnitId>)
        ensures
            subject == self.pending_collapsing_ceiling_roll,
    {
        self.pending_collapsing_ceiling_roll
    }

    /// The figure waiting for a magical door's dice, if any.
    pub fn pending_teleport_subject(&self) -> (subject: Option<UnitId>)
        ensures
            subject == match self.pending_teleport_roll {
                Some(pending) => Some(pending.subject),
                None => None,
            },
    {
        match self.pending_teleport_roll {
            Some(pending) => Some(pending.subject),
            None => None,
        }
    }

    /// The trap waiting for its dice, if any.
    pub fn pending_trap_roll(&self) -> (pending: Option<PendingTrapRoll>)
        ensures
            pending == self.pending_trap_roll,
    {
        self.pending_trap_roll
    }

    pub fn push_log(&mut self, message: String)
        requires
            old(self).wf(),
        ensures
            final(self).wf(),
            final(self).log@ == log_after(old(self).log@, message),
            *final(self) == (Game { log: final(self).log, ..*old(self) }),
    {
        reveal(Game::wf);
        if self.log.len() >= LOG_CAPACITY {
            self.log.pop_front();
        }
        self.log.push_back(message);
    }

    pub fn notify(&mut self, message: String)
        requires
            old(self).wf(),
        ensures
            final(self).wf(),
            final(self).log@ == log_after(old(self).log@, message),
            *final(self) == (Game { log: final(self).log, ..*old(self) }),
    {
        reveal(Game::wf);
        self.push_log(message);
    }

    fn movement_roll_check(&self, dice: &[u8]) -> (outcome: Result<u8, RuleError>)
        requires
            self.wf(),
        ensures
            outcome == self.spec_movement_roll_outcome(dice@),
    {
        reveal(Game::wf);
        if !matches!(self.phase, GamePhase::HeroTurn { .. } | GamePhase::AllyTurn { .. }) {
            return Err(RuleError::NotHeroTurn);
        }
        if self.hero_turn.movement_roll.is_some() {
            return Err(RuleError::AlreadyRolled);
        }
        match self.active_hero() {
            Some(hero) => if hero.sleeping || hero.clouded {
                return Err(RuleError::Incapacitated);
            },
            None => {},
        }
        let count = self.active_movement_dice_count();
        if dice.len() != count as usize || !all_faces_valid(dice) {
            return Err(RuleError::InvalidDice);
        }
        Ok(dice_sum(dice))
    }

    #[verifier::spinoff_prover]
    #[verifier::rlimit(30)]
    fn clear_swift_wind(&mut self, index: usize)
        requires
            old(self).wf(),
            index < old(self).units@.len(),
        ensures
            final(self).units@ == old(self).units@.update(index as int, final(self).units@[index as int]),
            game::swift_wind_spent(old(self).units@[index as int], final(self).units@[index as int]),
            *final(self) == (Game { units: final(self).units, ..*old(self) }),
    {
        let ghost before = *self;
        let mut unit = Unit::vacant();
        self.units.set_and_swap(index, &mut unit);
        self.units.set(index, unit.spend_swift_wind());
        proof {
            assert(self.units@ =~= before.units@.update(index as int, self.units@[index as int]));
        }
    }

    fn set_movement(&mut self, total: u8)
        requires
            old(self).wf(),
        ensures
            final(self).wf(),
            final(self).hero_turn == (HeroTurnState {
                movement_roll: Some(total),
                movement_left: total,
                ..old(self).hero_turn
            }),
            *final(self) == (Game { hero_turn: final(self).hero_turn, ..*old(self) }),
            unique_unit_ids(final(self).units@),
    {
        reveal(Game::wf);
        self.hero_turn.movement_roll = Some(total);
        self.hero_turn.movement_left = total;
    }

    /// `after` is this game once `dice` have been thrown for the active
    /// mover with `outcome`: a refused throw changes nothing; an accepted one
    /// sets the move to the total, spends Swift Wind, and logs the throw.
    pub open spec fn movement_roll_applied(self, dice: Seq<u8>, outcome: Result<u8, RuleError>, after: Game) -> bool {
        &&& outcome == self.spec_movement_roll_outcome(dice)
        &&& outcome is Err ==> after == self
        &&& outcome matches Ok(total) ==> {
            &&& after.hero_turn == (HeroTurnState {
                movement_roll: Some(total),
                movement_left: total,
                ..self.hero_turn
            })
            &&& match self.spec_active_mover_id() {
                Some(id) => if has_unit_id(self.units@, id) {
                    let slot = unit_slot(self.units@, id);
                    &&& game::units_changed_at(self.units@, after.units@, slot)
                    &&& game::swift_wind_spent(self.units@[slot], after.units@[slot])
                } else {
                    after.units@ == self.units@
                },
                None => after.units@ == self.units@,
            }
            &&& logged_one_line(self.log@, after.log@)
            &&& after.log@.len() > 0
            &&& after.log@.last()@ == movement_text(self.spec_mover_name(), dice, total)
            &&& after == (Game { hero_turn: after.hero_turn, units: after.units, log: after.log, ..self })
        }
    }

    /// The name of the figure whose movement dice are thrown, or nothing
    /// when none is on the board.
    pub open spec fn spec_mover_name(self) -> Seq<char> {
        match self.spec_active_mover_id() {
            Some(id) => if has_unit_id(self.units@, id) {
                self.units@[unit_slot(self.units@, id)].name@
            } else {
                Seq::empty()
            },
            None => Seq::empty(),
        }
    }

    /// Applies the physical movement dice thrown for the active mover: the
    /// total becomes the turn's movement and Swift Wind is spent.
    #[verifier::rlimit(40)]
    pub fn apply_movement_roll(&mut self, dice: &[u8]) -> (outcome: Result<u8, RuleError>)
        requires
            old(self).wf(),
        ensures
            final(self).wf(),
            outcome == old(self).spec_movement_roll_outcome(dice@),
            outcome is Err ==> *final(self) == *old(self),
            outcome matches Ok(total) ==> {
                &&& final(self).hero_turn == (HeroTurnState {
                    movement_roll: Some(total),
                    movement_left: total,
                    ..old(self).hero_turn
                })
                &&& match old(self).spec_active_mover_id() {
                    Some(id) => if has_unit_id(old(self).units@, id) {
                        let slot = unit_slot(old(self).units@, id);
                        &&& game::units_changed_at(old(self).units@, final(self).units@, slot)
                        &&& game::swift_wind_spent(old(self).units@[slot], final(self).units@[slot])
                    } else {
                        final(self).units@ == old(self).units@
                    },
                    None => final(self).units@ == old(self).units@,
                }
                &&& logged_one_line(old(self).log@, final(self).log@)
                &&& final(self).log@.len() > 0
                &&& final(self).log@.last()@ == movement_text(
                    old(self).spec_mover_name(),
                    dice@,
                    total,
                )
                &&& *final(self) == (Game {
                    hero_turn: final(self).hero_turn,
                    units: final(self).units,
                    log: final(self).log,
                    ..*old(self)
                })
            },
    {
        let total = match self.movement_roll_check(dice) {
            Ok(total) => total,
            Err(error) => return Err(error),
        };
        self.set_movement(total);
        let mut hero_name = String::new();
        if let Some(mover) = self.active_mover_id() {
            if let Some(index) = self.unit_index(mover) {
                let ghost before = *self;
                self.clear_swift_wind(index);
                proof {
                    lemma_wf_after_unit_change(before, *self, index as int);
                }
                hero_name = self.units[index].name.clone();
            }
        }
        let message = movement_message(hero_name, dice, total);
        self.push_log(message);
        Ok(total)
    }

    /// Throws the active mover's movement dice with the game's generator and
    /// applies them.
    pub fn roll_movement_random(&mut self) -> (outcome: Result<u8, RuleError>)
        requires
            old(self).wf(),
        ensures
            final(self).wf(),
            exists|dice: Seq<u8>, rolled: Game|
                #![trigger rolled.movement_roll_applied(dice, outcome, *final(self))]
                dice.len() == old(self).spec_movement_dice_count() && all_d6_faces(dice) && rolled
                    == (Game { rng: rolled.rng, ..*old(self) }) && rolled.movement_roll_applied(
                    dice,
                    outcome,
                    *final(self),
                ),
    {
        let count = self.active_movement_dice_count();
        let mut dice: Vec<u8> = Vec::new();
        let mut i: u8 = 0;
        while i < count
            invariant
                self.wf(),
                *self == (Game { rng: self.rng, ..*old(self) }),
                count == old(self).spec_movement_dice_count(),
                i <= count,
                dice@.len() == i,
                all_d6_faces(dice@),
            decreases count - i,
        {
            reveal(Game::wf);
            let face = roll_d6(&mut self.rng);
            dice.push(face);
            i = i + 1;
        }
        let ghost rolled = *self;
        let outcome = self.apply_movement_roll(dice.as_slice());
        assert(rolled == (Game { rng: rolled.rng, ..*old(self) }));
        assert(rolled.movement_roll_applied(dice@, outcome, *self));
        outcome
    }
}

impl Game {
    /// Some living figure other than `except` standing on `pos` comes first
    /// among those standing there.
    proof fn lemma_some_first_occupant(self, pos: Pos, except: Option<UnitId>, m: int)
        requires
            0 <= m < self.units@.len(),
            Self::occupies_alive(self.units@[m], pos, except),
        ensures
            exists|i: int| self.is_first_occupant(pos, except, i),
        decreases m,
    {
        if exists|j: int| 0 <= j < m && Self::occupies_alive(#[trigger] self.units@[j], pos, except) {
            let j = choose|j: int| 0 <= j < m && Self::occupies_alive(#[trigger] self.units@[j], pos, except);
            self.lemma_some_first_occupant(pos, except, j);
        } else {
            assert(self.is_first_occupant(pos, except, m));
        }
    }

    /// A figure without Veil of Mist cannot step onto a square where living
    /// monsters, and only monsters, stand, unless it steps through a magical
    /// door or onto a square a hero may share.
    pub proof fn lemma_monsters_block_the_way(self, mover_id: UnitId, from: Pos, to: Pos, m: int)
        requires
            self.wf(),
            self.spec_unit(mover_id) is Some,
            !self.spec_unit(mover_id)->Some_0.veil_of_mist,
            0 <= m < self.units@.len(),
            Self::occupies_alive(self.units@[m], to, Some(mover_id)),
            forall|j: int|
                0 <= j < self.units@.len() && Self::occupies_alive(#[trigger] self.units@[j], to, Some(mover_id))
                    ==> self.units@[j].faction == Faction::Monster,
            match self.spec_door_between(from, to) {
                Some(door) => !door.open || self.teleport_destinations@.len() == 0,
                None => true,
            },
            !self.spec_hero_may_share_square(mover_id, to),
        ensures
            !self.spec_step_info(mover_id, from, to).may_enter,
    {
        lemma_wf_ids(self);
        self.lemma_some_first_occupant(to, Some(mover_id), m);
        let i = choose|i: int| self.is_first_occupant(to, Some(mover_id), i);
        let id = self.units@[i].id;
        lemma_slot_of(self.units@, id, i);
        assert(self.spec_first_occupant(to, Some(mover_id)) == Some(id));
        assert(self.spec_unit(id) == Some(self.units@[i]));
        assert(self.units@[i].faction == Faction::Monster);
    }

    /// Away from a magical door, a figure stops on a square where another
    /// living figure stands only when it is a hero and the square is the
    /// stairway or a sprung pit.
    pub proof fn lemma_stops_only_where_sharing(self, mover_id: UnitId, from: Pos, to: Pos, m: int)
        requires
            0 <= m < self.units@.len(),
            Self::occupies_alive(self.units@[m], to, Some(mover_id)),
            match self.spec_door_between(from, to) {
                Some(door) => !door.open || self.teleport_destinations@.len() == 0,
                None => true,
            },
            self.spec_step_info(mover_id, from, to).may_end,
        ensures
            self.spec_unit(mover_id) matches Some(mover) && mover.faction == Faction::Hero,
            self.stairs@.contains(to) || self.spec_is_sprung_pit(to),
    {
        self.lemma_some_first_occupant(to, Some(mover_id), m);
        let i = choose|i: int| self.is_first_occupant(to, Some(mover_id), i);
        assert(self.spec_first_occupant(to, Some(mover_id)) is Some);
    }

    /// Away from a magical door, a figure without Pass Through Rock enters
    /// only a floor square free of furniture, across an open edge; and any
    /// figure stops only on a floor square or at a magical door.
    pub proof fn lemma_steps_stay_on_floor(self, mover_id: UnitId, from: Pos, to: Pos)
        requires
            self.spec_unit(mover_id) is Some,
            match self.spec_door_between(from, to) {
                Some(door) => !door.open || self.teleport_destinations@.len() == 0,
                None => true,
            },
        ensures
            self.spec_step_info(mover_id, from, to).may_enter && !self.spec_unit(
                mover_id,
            )->Some_0.pass_through_rock ==> (self.spec_cell(to) matches Some(cell) && cell.passable)
                && !self.spec_is_furniture_square(to) && self.spec_boundary_is_open(from, to),
            self.spec_step_info(mover_id, from, to).may_end ==> (self.spec_cell(to) matches Some(cell)
                && cell.passable),
    {
    }
}

} // verus!
