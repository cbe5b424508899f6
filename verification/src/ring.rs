//! The Ring of Return: every hero its owner can see is carried back to its
//! starting square at the quest's entrance, and the Ring is spent.
use vstd::prelude::*;

use crate::cards::Artifact;
use crate::engine::{
    has_unit_id, lemma_slot_of, lemma_wf_after_unit_change, lemma_wf_ids, log_after, spec_in_bounds,
    unit_slot, Game,
};
use crate::game::{HeroTurnState, Prop, RuleError, Unit, UnitId};
use crate::model::Pos;
use crate::quest::ObjectiveDef;
use crate::status::{decimal_string, decimal_text};

verus! {

/// `artifacts` without any copy of `artifact`, the rest in order.
pub open spec fn without_artifact(artifacts: Seq<Artifact>, artifact: Artifact) -> Seq<Artifact>
    decreases artifacts.len(),
{
    if artifacts.len() == 0 {
        Seq::empty()
    } else {
        let rest = without_artifact(artifacts.drop_last(), artifact);
        if artifacts.last() == artifact {
            rest
        } else {
            rest.push(artifacts.last())
        }
    }
}

/// `after` is `unit` once it has given up every copy of `artifact`.
pub open spec fn artifact_spent(unit: Unit, artifact: Artifact, after: Unit) -> bool {
    &&& after == (Unit { inventory: after.inventory, ..unit })
    &&& after.inventory == (crate::game::Inventory {
        artifacts: after.inventory.artifacts,
        ..unit.inventory
    })
    &&& after.inventory.artifacts@ == without_artifact(unit.inventory.artifacts@, artifact)
}

/// The figure carried back to `dest`: out of any pit, and out of the
/// dungeon when `escapes`.
pub open spec fn carried_home(unit: Unit, dest: Pos, escapes: bool) -> Unit {
    Unit { pos: dest, in_pit: false, escaped: unit.escaped || escapes, ..unit }
}

/// The line the log gives for `n` heroes carried back.
pub open spec fn ring_text(n: nat) -> Seq<char> {
    "The Ring of Return carried "@ + decimal_text(n) + " visible Hero"@ + (if n == 1 {
        ""@
    } else {
        "es"@
    }) + " back to the Quest entrance."@
}

impl Unit {
    fn spending_artifact(self, artifact: Artifact) -> (unit: Unit)
        ensures
            artifact_spent(self, artifact, unit),
            unit.id == self.id,
            unit.pos == self.pos,
    {
        let mut inventory = self.inventory;
        let mut kept: Vec<Artifact> = Vec::new();
        let mut i: usize = 0;
        while i < inventory.artifacts.len()
            invariant
                i <= inventory.artifacts@.len(),
                inventory.artifacts@ == self.inventory.artifacts@,
                kept@ == without_artifact(inventory.artifacts@.take(i as int), artifact),
            decreases inventory.artifacts.len() - i,
        {
            assert(inventory.artifacts@.take(i + 1).drop_last() =~= inventory.artifacts@.take(
                i as int,
            ));
            if inventory.artifacts[i] != artifact {
                kept.push(inventory.artifacts[i]);
            }
            i = i + 1;
        }
        assert(inventory.artifacts@.take(i as int) =~= inventory.artifacts@);
        inventory.artifacts = kept;
        Unit { inventory, ..self }
    }
}

impl Game {
    /// Why the active hero cannot use the Ring of Return, if it cannot.
    pub open spec fn return_refusal(self) -> Option<RuleError> {
        match self.spec_active_awake_hero_id() {
            Err(e) => Some(e),
            Ok(id) => if self.spec_unit(id) matches Some(hero) && hero.equipment_available
                && hero.inventory.artifacts@.contains(Artifact::RingOfReturn) {
                None
            } else {
                Some(RuleError::NoRingOfReturn)
            },
        }
    }

    /// The first `n` heroes of the turn order that stand alive in the
    /// dungeon within sight of `from`, in order.
    pub open spec fn returners_upto(self, from: Pos, n: int) -> Seq<UnitId>
        decreases n,
    {
        if n <= 0 {
            Seq::empty()
        } else {
            let rest = self.returners_upto(from, n - 1);
            let id = self.hero_order@[n - 1];
            if self.spec_unit(id) matches Some(hero) && hero.alive && !hero.escaped
                && self.spec_can_see(from, hero.pos) {
                rest.push(id)
            } else {
                rest
            }
        }
    }

    /// The place of the hero `id` in the turn order.
    pub open spec fn order_slot(self, id: UnitId) -> int {
        choose|k: int| 0 <= k < self.hero_order@.len() && self.hero_order@[k] == id
    }

    /// The starting square of the hero `id`.
    pub open spec fn home_of(self, id: UnitId) -> Pos {
        self.hero_start_positions@[self.order_slot(id)]
    }

    /// `moved` is this game once the hero `id` stands on its starting
    /// square, out of any pit and, in a quest won by escaping, out of the
    /// dungeon when that square is a stairway square; what it carries comes
    /// with it.
    pub open spec fn carried_home_state(self, id: UnitId, moved: Game) -> bool {
        let dest = self.home_of(id);
        let escapes = (self.objective is EscapeIndependently
            || self.objective is DefeatAllOrEscapeIndependently) && self.stairs@.contains(dest);
        let slot = unit_slot(self.units@, id);
        let unit = self.units@[slot];
        &&& moved.units@ == self.units@.update(slot, carried_home(unit, dest, escapes))
        &&& moved.props@ == match unit.carried_quest_item {
            Some(item) => {
                let piece = self.quest_items@[item as int].prop_index as int;
                self.props@.update(piece, Prop { pos: dest, ..self.props@[piece] })
            },
            None => self.props@,
        }
        &&& moved == (Game { units: moved.units, props: moved.props, ..self })
    }
}

/// `after` is `mid` once the hero `id` has been carried home and what it
/// sees there shown.
pub open spec fn return_step(mid: Game, id: UnitId, after: Game) -> bool {
    exists|moved: Game|
        #[trigger] mid.carried_home_state(id, moved) && moved.area_revealed(mid.home_of(id), after)
}

/// `after` is `start` once the first `n` heroes of `ids` have been carried
/// home, in order.
pub open spec fn returns_done(start: Game, ids: Seq<UnitId>, n: int, after: Game) -> bool
    decreases n,
{
    if n <= 0 {
        after == start
    } else {
        exists|mid: Game|
            returns_done(start, ids, n - 1, mid) && #[trigger] return_step(mid, ids[n - 1], after)
    }
}

proof fn lemma_return_step(start: Game, ids: Seq<UnitId>, k: int, mid: Game, after: Game)
    requires
        0 <= k < ids.len(),
        returns_done(start, ids, k, mid),
        return_step(mid, ids[k], after),
    ensures
        returns_done(start, ids, k + 1, after),
{
    assert((k + 1) - 1 == k);
}

impl Game {
    /// `after` is this game once the active hero has used the Ring of
    /// Return, with `returned` the heroes it carried back: the Ring is
    /// spent, every hero it sees is carried home in turn order, its move
    /// ends, the log tells how many, and the quest is checked for its end.
    pub open spec fn ring_used(self, returned: Seq<UnitId>, after: Game) -> bool {
        let owner = self.spec_active_awake_hero_id()->Ok_0;
        let slot = unit_slot(self.units@, owner);
        &&& returned == self.returners_upto(self.units@[slot].pos, self.hero_order@.len() as int)
        &&& exists|spent: Game, carried: Game, told: Game|
            #![trigger returns_done(spent, returned, returned.len() as int, carried), told.settled_into(after)]
            spent.units@ == self.units@.update(slot, spent.units@[slot]) && artifact_spent(
                self.units@[slot],
                Artifact::RingOfReturn,
                spent.units@[slot],
            ) && spent == (Game { units: spent.units, ..self }) && returns_done(
                spent,
                returned,
                returned.len() as int,
                carried,
            ) && told.hero_turn == (HeroTurnState { movement_left: 0, ..carried.hero_turn })
                && told.log@.len() > 0 && told.log@ == log_after(carried.log@, told.log@.last())
                && told.log@.last()@ == ring_text(returned.len()) && told == (Game {
                hero_turn: told.hero_turn,
                log: told.log,
                ..carried
            }) && told.settled_into(after)
    }

    /// The figure at `index` gives up every copy of `artifact`.
    fn unit_spend_artifact(&mut self, index: usize, artifact: Artifact)
        requires
            old(self).wf(),
            index < old(self).units@.len(),
        ensures
            final(self).wf(),
            final(self).units@ == old(self).units@.update(index as int, final(self).units@[index as int]),
            artifact_spent(old(self).units@[index as int], artifact, final(self).units@[index as int]),
            *final(self) == (Game { units: final(self).units, ..*old(self) }),
    {
        let ghost before = *self;
        let mut unit = Unit::vacant();
        self.units.set_and_swap(index, &mut unit);
        assert(unit == before.units@[index as int]);
        let changed = unit.spending_artifact(artifact);
        self.units.set(index, changed);
        proof {
            assert(self.units@ =~= before.units@.update(index as int, changed));
            lemma_wf_after_unit_change(before, *self, index as int);
        }
    }

    /// The figure at `index` is carried to `dest`.
    pub(crate) fn unit_carry_home(&mut self, index: usize, dest: Pos, escapes: bool)
        requires
            old(self).wf(),
            index < old(self).units@.len(),
            spec_in_bounds(dest),
        ensures
            final(self).wf(),
            final(self).units@ == old(self).units@.update(
                index as int,
                carried_home(old(self).units@[index as int], dest, escapes),
            ),
            *final(self) == (Game { units: final(self).units, ..*old(self) }),
    {
        let ghost before = *self;
        let mut unit = Unit::vacant();
        self.units.set_and_swap(index, &mut unit);
        assert(unit == before.units@[index as int]);
        let escaped = unit.escaped || escapes;
        let changed = Unit { pos: dest, in_pit: false, escaped, ..unit };
        self.units.set(index, changed);
        proof {
            reveal(Game::wf);
            assert(self.units@ =~= before.units@.update(index as int, changed));
            assert forall|i: int| 0 <= i < self.units@.len() implies spec_in_bounds(
                #[trigger] self.units@[i].pos,
            ) && self.units@[i].id == before.units@[i].id by {}
            assert(crate::engine::unique_unit_ids(self.units@));
        }
    }

    /// The piece at `index` is moved to `dest`.
    pub(crate) fn move_piece(&mut self, index: usize, dest: Pos)
        requires
            old(self).wf(),
            index < old(self).props@.len(),
            spec_in_bounds(dest),
        ensures
            final(self).wf(),
            final(self).props@ == old(self).props@.update(
                index as int,
                Prop { pos: dest, ..old(self).props@[index as int] },
            ),
            *final(self) == (Game { props: final(self).props, ..*old(self) }),
    {
        reveal(Game::wf);
        let piece = self.props[index];
        self.props.set(index, Prop { pos: dest, ..piece });
        assert forall|i: int| 0 <= i < self.props@.len() implies crate::game::prop_fits(
            #[trigger] self.props@[i],
        ) && spec_in_bounds(self.props@[i].pos) by {
            if i != index as int {
                assert(self.props@[i] == old(self).props@[i]);
            }
        }
    }
}

impl Game {
    /// `after` keeps what carrying heroes home leaves alone: the turn order,
    /// starting squares, stairway, objective and quest items, as many board
    /// pieces, and each figure with its id and what it carries.
    pub open spec fn return_frame(self, after: Game) -> bool {
        &&& after.hero_order == self.hero_order
        &&& after.hero_start_positions == self.hero_start_positions
        &&& after.stairs == self.stairs
        &&& after.objective == self.objective
        &&& after.quest_items == self.quest_items
        &&& after.props@.len() == self.props@.len()
        &&& after.units@.len() == self.units@.len()
        &&& forall|i: int|
            #![trigger after.units@[i]]
            0 <= i < self.units@.len() ==> after.units@[i].id == self.units@[i].id
                && after.units@[i].carried_quest_item == self.units@[i].carried_quest_item
    }

    /// Whether `pos` is a stairway square.
    fn on_stairs(&self, pos: Pos) -> (found: bool)
        ensures
            found == self.stairs@.contains(pos),
    {
        let mut i: usize = 0;
        while i < self.stairs.len()
            invariant
                i <= self.stairs@.len(),
                forall|j: int| 0 <= j < i ==> self.stairs@[j] != pos,
            decreases self.stairs.len() - i,
        {
            if self.stairs[i] == pos {
                assert(self.stairs@[i as int] == pos);
                return true;
            }
            i = i + 1;
        }
        false
    }

    /// The hero `id` is carried to its starting square, with what it
    /// carries, and what it sees there is shown.
    #[verifier::spinoff_prover]
    #[verifier::rlimit(60)]
    fn carry_hero_home(&mut self, id: UnitId)
        requires
            old(self).wf(),
            has_unit_id(old(self).units@, id),
            old(self).hero_order@.contains(id),
            old(self).hero_start_positions@.len() >= old(self).hero_order@.len(),
            forall|k: int|
                0 <= k < old(self).hero_order@.len() ==> spec_in_bounds(
                    #[trigger] old(self).hero_start_positions@[k],
                ),
            forall|i: int|
                0 <= i < old(self).units@.len() ==> old(self).carries_in_place(
                    #[trigger] old(self).units@[i],
                ),
        ensures
            final(self).wf(),
            return_step(*old(self), id, *final(self)),
            old(self).return_frame(*final(self)),
    {
        proof {
            lemma_wf_ids(*self);
        }
        let mut k: usize = 0;
        while k < self.hero_order.len() && self.hero_order[k] != id
            invariant
                k <= self.hero_order@.len(),
                forall|j: int| 0 <= j < k ==> self.hero_order@[j] != id,
            decreases self.hero_order.len() - k,
        {
            k = k + 1;
        }
        if k >= self.hero_order.len() {
            proof {
                let j = choose|j: int| 0 <= j < self.hero_order@.len() && self.hero_order@[j] == id;
                assert(self.hero_order@[j] != id);
            }
            return;
        }
        proof {
            let j = self.order_slot(id);
            assert(0 <= k < self.hero_order@.len() && self.hero_order@[k as int] == id);
            if j != k {
                assert(self.hero_order@[j] != self.hero_order@[k as int]);
            }
            assert(self.home_of(id) == self.hero_start_positions@[k as int]);
        }
        let dest = self.hero_start_positions[k];
        let escapes = matches!(
            self.objective,
            ObjectiveDef::EscapeIndependently | ObjectiveDef::DefeatAllOrEscapeIndependently
        ) && self.on_stairs(dest);
        let index = match self.unit_index(id) {
            Some(index) => index,
            None => return,
        };
        proof {
            lemma_slot_of(self.units@, id, index as int);
        }
        let carried = self.units[index].carried_quest_item;
        self.unit_carry_home(index, dest, escapes);
        match carried {
            Some(item) => {
                assert(old(self).carries_in_place(old(self).units@[index as int]));
                let piece = self.quest_items[item].prop_index;
                self.move_piece(piece, dest);
            },
            None => {},
        }
        let ghost moved = *self;
        proof {
            assert(old(self).carried_home_state(id, moved));
        }
        self.reveal_from(dest);
        proof {
            assert(return_step(*old(self), id, *self));
        }
    }
}

/// With the same ids in the same places, a figure found before is found
/// after.
proof fn lemma_ids_kept(before: Seq<Unit>, after: Seq<Unit>, id: UnitId)
    requires
        has_unit_id(before, id),
        after.len() == before.len(),
        forall|i: int| #![trigger after[i]] 0 <= i < before.len() ==> after[i].id == before[i].id,
    ensures
        has_unit_id(after, id),
{
    let i = choose|i: int| 0 <= i < before.len() && before[i].id == id;
    assert(after[i].id == id);
}

impl Game {
    /// The active hero uses the Ring of Return: every hero it sees, itself
    /// included, is carried back to its starting square in turn order; the
    /// Ring is spent. Returns the heroes carried back.
    #[verifier::spinoff_prover]
    #[verifier::rlimit(80)]
    pub fn use_ring_of_return(&mut self) -> (returned: Result<Vec<UnitId>, RuleError>)
        requires
            old(self).wf(),
            old(self).spec_active_awake_hero_id() matches Ok(id) ==> old(self).spec_unit(id) is Some,
            old(self).hero_start_positions@.len() >= old(self).hero_order@.len(),
            forall|k: int|
                0 <= k < old(self).hero_order@.len() ==> spec_in_bounds(
                    #[trigger] old(self).hero_start_positions@[k],
                ),
            forall|i: int|
                0 <= i < old(self).units@.len() ==> old(self).carries_in_place(
                    #[trigger] old(self).units@[i],
                ),
        ensures
            final(self).wf(),
            match returned {
                Err(e) => old(self).return_refusal() == Some(e) && *final(self) == *old(self),
                Ok(heroes) => old(self).return_refusal() is None && old(self).ring_used(
                    heroes@,
                    *final(self),
                ),
            },
    {
        proof {
            lemma_wf_ids(*self);
        }
        let owner = match self.active_awake_hero_id() {
            Ok(id) => id,
            Err(e) => return Err(e),
        };
        let index = match self.unit_index(owner) {
            Some(index) => index,
            None => return Err(RuleError::NoRingOfReturn),
        };
        proof {
            lemma_slot_of(self.units@, owner, index as int);
        }
        if !self.units[index].equipment_available || !crate::strike::holds_artifact(
            &self.units[index].inventory.artifacts,
            Artifact::RingOfReturn,
        ) {
            return Err(RuleError::NoRingOfReturn);
        }
        let from = self.units[index].pos;
        let mut visible: Vec<UnitId> = Vec::new();
        let mut h: usize = 0;
        while h < self.hero_order.len()
            invariant
                *self == *old(self),
                self.wf(),
                crate::engine::unique_unit_ids(self.units@),
                h <= self.hero_order@.len(),
                visible@ == self.returners_upto(from, h as int),
                forall|r: int|
                    0 <= r < visible@.len() ==> has_unit_id(self.units@, #[trigger] visible@[r])
                        && self.hero_order@.contains(visible@[r]),
            decreases self.hero_order.len() - h,
        {
            let id = self.hero_order[h];
            match self.unit_index(id) {
                Some(j) => {
                    proof {
                        lemma_slot_of(self.units@, id, j as int);
                        assert(self.hero_order@[h as int] == id);
                    }
                    if self.units[j].alive && !self.units[j].escaped && self.can_see(
                        from,
                        self.units[j].pos,
                    ) {
                        visible.push(id);
                    }
                },
                None => {},
            }
            h = h + 1;
        }
        self.unit_spend_artifact(index, Artifact::RingOfReturn);
        let ghost spent = *self;
        let mut v: usize = 0;
        while v < visible.len()
            invariant
                self.wf(),
                spent.return_frame(*self),
                spent.units@.len() == old(self).units@.len(),
                forall|i: int| #![trigger spent.units@[i]] 0 <= i < spent.units@.len() ==> spent.units@[i].id
                    == old(self).units@[i].id && spent.units@[i].carried_quest_item
                    == old(self).units@[i].carried_quest_item,
                spent.hero_order == old(self).hero_order,
                spent.hero_start_positions == old(self).hero_start_positions,
                spent.quest_items == old(self).quest_items,
                spent.props == old(self).props,
                forall|r: int|
                    0 <= r < visible@.len() ==> has_unit_id(old(self).units@, #[trigger] visible@[r])
                        && old(self).hero_order@.contains(visible@[r]),
                old(self).hero_start_positions@.len() >= old(self).hero_order@.len(),
                forall|k: int|
                    0 <= k < old(self).hero_order@.len() ==> spec_in_bounds(
                        #[trigger] old(self).hero_start_positions@[k],
                    ),
                forall|i: int|
                    0 <= i < old(self).units@.len() ==> old(self).carries_in_place(
                        #[trigger] old(self).units@[i],
                    ),
                v <= visible@.len(),
                returns_done(spent, visible@, v as int, *self),
            decreases visible.len() - v,
        {
            let id = visible[v];
            proof {
                assert(has_unit_id(old(self).units@, visible@[v as int]));
                lemma_ids_kept(old(self).units@, self.units@, id);
                assert forall|i: int| 0 <= i < self.units@.len() implies self.carries_in_place(
                    #[trigger] self.units@[i],
                ) by {
                    assert(old(self).carries_in_place(old(self).units@[i]));
                    assert(self.units@[i].carried_quest_item == old(self).units@[i].carried_quest_item);
                }
            }
            let ghost mid = *self;
            self.carry_hero_home(id);
            proof {
                lemma_return_step(spent, visible@, v as int, mid, *self);
            }
            v = v + 1;
        }
        let ghost carried = *self;
        proof {
            reveal(Game::wf);
        }
        self.hero_turn.movement_left = 0;
        let count = visible.len();
        let mut line = String::from_str("The Ring of Return carried ");
        let number = decimal_string(count as u64);
        line.append(number.as_str());
        line.append(" visible Hero");
        if count != 1 {
            line.append("es");
        }
        line.append(" back to the Quest entrance.");
        proof {
            reveal_strlit("");
            assert(line@ =~= ring_text(visible@.len()));
            assert(self.wf());
        }
        self.push_log(line);
        let ghost told = *self;
        self.check_terminal();
        proof {
            assert(told.settled_into(*self));
            assert(returns_done(spent, visible@, visible@.len() as int, carried));
        }
        Ok(visible)
    }
}

} // verus!
