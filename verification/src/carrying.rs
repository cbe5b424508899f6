//! Quest items carried by the heroes: picking one up, putting it down,
//! handing it to a neighbouring hero, and returning it to the stairway.
use vstd::prelude::*;
use vstd::pervasive::VecAdditionalExecFns;

use crate::engine::{
    Game, has_unit_id, lemma_slot_of, lemma_wf_ids, logged_one_line, spec_in_bounds,
    unique_unit_ids, unit_slot,
};
use crate::game;
use crate::game::Prop;
use crate::game::{QuestItem, RuleError, Unit, UnitId};
use crate::turns::item_put_down;
use crate::model::{Pos, spec_adjacent};

verus! {

/// Byte strings in dictionary order: `a` comes strictly before `b`.
pub open spec fn bytes_before(a: Seq<u8>, b: Seq<u8>) -> bool
    decreases a.len(),
{
    if a.len() == 0 {
        b.len() > 0
    } else if b.len() == 0 {
        false
    } else if a[0] != b[0] {
        a[0] < b[0]
    } else {
        bytes_before(a.drop_first(), b.drop_first())
    }
}

/// The order in which names compare: their UTF-8 bytes in dictionary order.
pub open spec fn name_before(a: Seq<char>, b: Seq<char>) -> bool {
    bytes_before(vstd::utf8::encode_utf8(a), vstd::utf8::encode_utf8(b))
}

proof fn lemma_bytes_irreflexive(a: Seq<u8>)
    ensures
        !bytes_before(a, a),
    decreases a.len(),
{
    if a.len() > 0 {
        lemma_bytes_irreflexive(a.drop_first());
    }
}

proof fn lemma_bytes_transitive(a: Seq<u8>, b: Seq<u8>, c: Seq<u8>)
    requires
        bytes_before(a, b),
        bytes_before(b, c),
    ensures
        bytes_before(a, c),
    decreases a.len(),
{
    if a.len() > 0 && b.len() > 0 && c.len() > 0 && a[0] == b[0] && b[0] == c[0] {
        lemma_bytes_transitive(a.drop_first(), b.drop_first(), c.drop_first());
    }
}

proof fn lemma_bytes_total(a: Seq<u8>, b: Seq<u8>)
    requires
        a != b,
    ensures
        bytes_before(a, b) || bytes_before(b, a),
    decreases a.len(),
{
    if a.len() == 0 && b.len() == 0 {
        assert(a =~= b);
    }
    if a.len() > 0 && b.len() > 0 && a[0] == b[0] {
        if a.drop_first() =~= b.drop_first() {
            assert(a =~= seq![a[0]] + a.drop_first());
            assert(b =~= seq![b[0]] + b.drop_first());
        } else {
            lemma_bytes_total(a.drop_first(), b.drop_first());
        }
    }
}

/// Whether the name `a` comes before the name `b`.
fn name_is_before(a: &String, b: &String) -> (before: bool)
    ensures
        before == name_before(a@, b@),
{
    let x = a.as_str().as_bytes();
    let y = b.as_str().as_bytes();
    let ghost xs = x@;
    let ghost ys = y@;
    proof {
        assert(x@ == vstd::utf8::encode_utf8(a@));
        assert(y@ == vstd::utf8::encode_utf8(b@));
        assert(x@.skip(0) =~= x@);
        assert(y@.skip(0) =~= y@);
    }
    let mut i: usize = 0;
    while i < x.len() && i < y.len()
        invariant
            xs == x@,
            ys == y@,
            x@ == vstd::utf8::encode_utf8(a@),
            y@ == vstd::utf8::encode_utf8(b@),
            i <= x@.len(),
            i <= y@.len(),
            bytes_before(x@, y@) == bytes_before(x@.skip(i as int), y@.skip(i as int)),
        decreases x.len() - i,
    {
        if x[i] != y[i] {
            proof {
                assert(x@.skip(i as int)[0] == x@[i as int]);
                assert(y@.skip(i as int)[0] == y@[i as int]);
            }
            return x[i] < y[i];
        }
        proof {
            assert(x@.skip(i as int).drop_first() =~= x@.skip(i + 1));
            assert(y@.skip(i as int).drop_first() =~= y@.skip(i + 1));
        }
        i = i + 1;
    }
    proof {
        assert(x@.skip(i as int).len() == x@.len() - i);
        assert(y@.skip(i as int).len() == y@.len() - i);
    }
    i == x.len() && i < y.len()
}

/// A quest item lying free: no one holds it and it has not been returned.
pub open spec fn lies_free(item: QuestItem) -> bool {
    item.holder is None && !item.delivered
}

impl Game {
    /// Every quest item lying free has its piece on the board.
    pub open spec fn free_items_placed(self) -> bool {
        forall|i: int|
            0 <= i < self.quest_items@.len() && lies_free(#[trigger] self.quest_items@[i])
                ==> self.quest_items@[i].prop_index < self.props@.len()
    }

    /// Quest item `i` lies free within reach of a hero on `pos`: its piece
    /// shows on that square, or on a neighbouring one with an open way
    /// between.
    pub open spec fn item_within_reach(self, i: int, pos: Pos) -> bool {
        let item = self.quest_items@[i];
        let piece = self.props@[item.prop_index as int];
        &&& 0 <= i < self.quest_items@.len()
        &&& lies_free(item)
        &&& piece.visible
        &&& (piece.pos == pos || (spec_adjacent(pos, piece.pos) && self.spec_boundary_is_open(
            pos,
            piece.pos,
        )))
    }

    /// The quest item picked up from `pos`: of those within reach, the one
    /// whose name comes first, the earliest listed on a tie.
    pub open spec fn is_item_to_take(self, i: int, pos: Pos) -> bool {
        &&& self.item_within_reach(i, pos)
        &&& forall|j: int|
            #![trigger self.item_within_reach(j, pos)]
            self.item_within_reach(j, pos) ==> (j < i ==> name_before(
                self.quest_items@[i].id@,
                self.quest_items@[j].id@,
            )) && (j > i ==> !name_before(self.quest_items@[j].id@, self.quest_items@[i].id@))
    }

    /// Some quest item lies free within reach of `pos`.
    pub open spec fn item_reachable(self, pos: Pos) -> bool {
        exists|i: int| self.item_within_reach(i, pos)
    }

    /// Finds the quest item a hero on `pos` picks up, if any.
    fn item_to_take(&self, pos: Pos) -> (found: Option<usize>)
        requires
            self.wf(),
            self.free_items_placed(),
        ensures
            match found {
                Some(i) => self.is_item_to_take(i as int, pos),
                None => !self.item_reachable(pos),
            },
    {
        let mut best: Option<usize> = None;
        let mut i: usize = 0;
        while i < self.quest_items.len()
            invariant
                self.wf(),
                self.free_items_placed(),
                i <= self.quest_items@.len(),
                match best {
                    Some(b) => b < i && self.item_within_reach(b as int, pos) && forall|j: int|
                        #![trigger self.item_within_reach(j, pos)]
                        0 <= j < i && self.item_within_reach(j, pos) ==> (j < b ==> name_before(
                            self.quest_items@[b as int].id@,
                            self.quest_items@[j].id@,
                        )) && (j > b ==> !name_before(
                            self.quest_items@[j].id@,
                            self.quest_items@[b as int].id@,
                        )),
                    None => forall|j: int|
                        #![trigger self.item_within_reach(j, pos)]
                        0 <= j < i ==> !self.item_within_reach(j, pos),
                },
            decreases self.quest_items.len() - i,
        {
            let item = &self.quest_items[i];
            let reachable = if item.holder.is_none() && !item.delivered {
                let piece = self.props[item.prop_index];
                piece.visible && (piece.pos == pos || (pos.is_adjacent(piece.pos)
                    && self.boundary_is_open(pos, piece.pos)))
            } else {
                false
            };
            proof {
                assert(reachable == self.item_within_reach(i as int, pos));
            }
            if reachable {
                match best {
                    None => {
                        best = Some(i);
                    },
                    Some(b) => {
                        if name_is_before(&self.quest_items[i].id, &self.quest_items[b].id) {
                            proof {
                                let ni = vstd::utf8::encode_utf8(self.quest_items@[i as int].id@);
                                let nb = vstd::utf8::encode_utf8(self.quest_items@[b as int].id@);
                                assert forall|j: int|
                                    0 <= j < i && self.item_within_reach(
                                        j,
                                        pos,
                                    ) implies name_before(
                                    self.quest_items@[i as int].id@,
                                    self.quest_items@[j].id@,
                                ) by {
                                    let nj = vstd::utf8::encode_utf8(self.quest_items@[j].id@);
                                    if j < i {
                                        if j == b {
                                        } else if j < b {
                                            lemma_bytes_transitive(ni, nb, nj);
                                        } else {
                                            if nj != nb {
                                                lemma_bytes_total(nj, nb);
                                                lemma_bytes_transitive(ni, nb, nj);
                                            }
                                        }
                                    }
                                }
                            }
                            best = Some(i);
                        }
                    },
                }
            }
            i = i + 1;
        }
        proof {
            if best is None {
                assert forall|j: int| !self.item_within_reach(j, pos) by {
                    if self.item_within_reach(j, pos) {
                        assert(0 <= j < i);
                    }
                }
            }
        }
        best
    }
}

/// The figure holding `item`, or nothing.
#[verifier::opaque]
pub open spec fn holding(unit: Unit, item: Option<usize>) -> Unit {
    Unit { carried_quest_item: item, ..unit }
}

proof fn lemma_holding(unit: Unit, item: Option<usize>, after: Unit)
    requires
        after == (Unit { carried_quest_item: item, ..unit }),
    ensures
        after == holding(unit, item),
{
    reveal(holding);
}

/// Holding one thing after another is holding the last.
proof fn lemma_holding_twice(unit: Unit, first: Option<usize>, second: Option<usize>)
    ensures
        holding(holding(unit, first), second) == holding(unit, second),
        holding(unit, first).carried_quest_item == first,
        holding(unit, first).id == unit.id,
        holding(unit, first).pos == unit.pos,
{
    reveal(holding);
}

/// Holding what is already held changes nothing.
#[verifier::spinoff_prover]
#[verifier::rlimit(100)]
proof fn lemma_holding_same(unit: Unit)
    ensures
        holding(unit, unit.carried_quest_item) == unit,
{
    reveal(holding);
}

proof fn lemma_item_freed_again(item: QuestItem, held: QuestItem, after: QuestItem, holder: UnitId)
    requires
        item.holder is None,
        held == (QuestItem { holder: Some(holder), ..item }),
        after == (QuestItem { holder: None, ..held }),
    ensures
        after == item,
{
}

impl Game {
    /// Sets who holds quest item `item`.
    fn set_item_holder(&mut self, item: usize, holder: Option<UnitId>)
        requires
            old(self).wf(),
            item < old(self).quest_items@.len(),
        ensures
            final(self).wf(),
            final(self).quest_items@ == old(self).quest_items@.update(
                item as int,
                QuestItem { holder, ..old(self).quest_items@[item as int] },
            ),
            *final(self) == (Game { quest_items: final(self).quest_items, ..*old(self) }),
    {
        reveal(Game::wf);
        let ghost before = *self;
        let mut taken = QuestItem {
            id: String::new(),
            prop_index: 0,
            sealed_gold: 0,
            holder: None,
            delivered: false,
        };
        self.quest_items.set_and_swap(item, &mut taken);
        assert(taken == before.quest_items@[item as int]);
        self.quest_items.set(item, QuestItem { holder, ..taken });
        assert(self.quest_items@ =~= before.quest_items@.update(
            item as int,
            QuestItem { holder, ..before.quest_items@[item as int] },
        ));
    }

    /// Quest item `item` is back at the stairway: no one holds it any more.
    fn mark_item_returned(&mut self, item: usize)
        requires
            old(self).wf(),
            item < old(self).quest_items@.len(),
        ensures
            final(self).wf(),
            final(self).quest_items@ == old(self).quest_items@.update(
                item as int,
                QuestItem { holder: None, delivered: true, ..old(self).quest_items@[item as int] },
            ),
            *final(self) == (Game { quest_items: final(self).quest_items, ..*old(self) }),
    {
        reveal(Game::wf);
        let ghost before = *self;
        let mut taken = QuestItem {
            id: String::new(),
            prop_index: 0,
            sealed_gold: 0,
            holder: None,
            delivered: false,
        };
        self.quest_items.set_and_swap(item, &mut taken);
        assert(taken == before.quest_items@[item as int]);
        self.quest_items.set(item, QuestItem { holder: None, delivered: true, ..taken });
        assert(self.quest_items@ =~= before.quest_items@.update(
            item as int,
            QuestItem { holder: None, delivered: true, ..before.quest_items@[item as int] },
        ));
    }

    /// The piece at `index` is carried by `holder` on `pos`.
    fn carry_piece(&mut self, index: usize, pos: Pos, holder: UnitId)
        requires
            old(self).wf(),
            index < old(self).props@.len(),
            spec_in_bounds(pos),
        ensures
            final(self).wf(),
            final(self).props@ == old(self).props@.update(
                index as int,
                Prop { pos, carried_by: Some(holder), ..old(self).props@[index as int] },
            ),
            *final(self) == (Game { props: final(self).props, ..*old(self) }),
    {
        reveal(Game::wf);
        let piece = self.props[index];
        self.props.set(index, Prop { pos, carried_by: Some(holder), ..piece });
        assert forall|i: int| 0 <= i < self.props@.len() implies game::prop_fits(
            #[trigger] self.props@[i],
        ) && spec_in_bounds(self.props@[i].pos) by {
            if i != index as int {
                assert(self.props@[i] == old(self).props@[i]);
            }
        }
    }

    /// The piece at `index` leaves the board, held by no one.
    fn hide_piece(&mut self, index: usize)
        requires
            old(self).wf(),
            index < old(self).props@.len(),
        ensures
            final(self).wf(),
            final(self).props@ == old(self).props@.update(
                index as int,
                Prop { visible: false, carried_by: None, ..old(self).props@[index as int] },
            ),
            *final(self) == (Game { props: final(self).props, ..*old(self) }),
    {
        reveal(Game::wf);
        let piece = self.props[index];
        self.props.set(index, Prop { visible: false, carried_by: None, ..piece });
        assert forall|i: int| 0 <= i < self.props@.len() implies game::prop_fits(
            #[trigger] self.props@[i],
        ) && spec_in_bounds(self.props@[i].pos) by {
            if i != index as int {
                assert(self.props@[i] == old(self).props@[i]);
            }
        }
    }
}

impl Game {
    /// The figure with `unit_id` stands on the stairway carrying a quest item.
    pub open spec fn returns_item(self, unit_id: UnitId) -> bool {
        &&& self.spec_unit(unit_id) matches Some(unit)
        &&& self.stairs@.contains(unit.pos)
        &&& unit.carried_quest_item is Some
    }

    /// `after` is the game once the figure with `unit_id` returned the quest
    /// item it carried to the stairway, when it stands there carrying one:
    /// the item counts as returned and its piece leaves the board.
    pub open spec fn delivered_into(self, unit_id: UnitId, after: Game) -> bool {
        if self.returns_item(unit_id) {
            let slot = unit_slot(self.units@, unit_id);
            let unit = self.units@[slot];
            let k = unit.carried_quest_item->Some_0 as int;
            let piece = self.quest_items@[k].prop_index as int;
            &&& after.units@ == self.units@.update(slot, Unit { carried_quest_item: None, ..unit })
            &&& after.quest_items@ == self.quest_items@.update(
                k,
                QuestItem { holder: None, delivered: true, ..self.quest_items@[k] },
            )
            &&& after.props@ == self.props@.update(
                piece,
                Prop { visible: false, carried_by: None, ..self.props@[piece] },
            )
            &&& logged_one_line(self.log@, after.log@)
            &&& after == (Game {
                units: after.units,
                quest_items: after.quest_items,
                props: after.props,
                log: after.log,
                ..self
            })
        } else {
            after == self
        }
    }

    /// A figure standing on the stairway with a quest item returns it there.
    fn deliver_carried_quest_item(&mut self, unit_id: UnitId)
        requires
            old(self).wf(),
            old(self).spec_unit(unit_id) matches Some(unit) ==> old(self).carries_in_place(unit),
        ensures
            final(self).wf(),
            old(self).delivered_into(unit_id, *final(self)),
    {
        proof {
            lemma_wf_ids(*self);
        }
        let index = match self.unit_index(unit_id) {
            Some(index) => index,
            None => return,
        };
        proof {
            lemma_slot_of(self.units@, unit_id, index as int);
        }
        if !game::contains_pos(&self.stairs, self.units[index].pos) {
            return;
        }
        let item = match self.units[index].carried_quest_item {
            Some(item) => item,
            None => return,
        };
        let mut message = self.units[index].name.clone();
        self.unit_put_down_item(index);
        self.mark_item_returned(item);
        let name = self.quest_items[item].id.clone();
        let piece = self.quest_items[item].prop_index;
        self.hide_piece(piece);
        message.append(" returned ");
        message.append(name.as_str());
        message.append(" to the stairway.");
        self.push_log(message);
    }
}

impl Game {
    /// Why the active hero cannot pick up a quest item, if it cannot.
    pub open spec fn take_refusal(self) -> Option<RuleError> {
        match self.spec_active_awake_hero_id() {
            Err(e) => Some(e),
            Ok(id) => match self.spec_unit(id) {
                Some(hero) => if hero.carried_quest_item is Some {
                    Some(RuleError::AlreadyCarryingQuestItem)
                } else if !self.item_reachable(hero.pos) {
                    Some(RuleError::NoQuestItem)
                } else {
                    None
                },
                None => None,
            },
        }
    }

    /// `after` is the game once the hero with `hero_id` picked up quest item
    /// `k`: the hero holds it and carries its piece on its own square.
    pub open spec fn picked_up(self, k: int, hero_id: UnitId, after: Game) -> bool {
        let slot = unit_slot(self.units@, hero_id);
        let hero = self.units@[slot];
        let piece = self.quest_items@[k].prop_index as int;
        &&& after.units@ == self.units@.update(
            slot,
            holding(hero, Some(k as usize)),
        )
        &&& after.quest_items@ == self.quest_items@.update(
            k,
            QuestItem { holder: Some(hero_id), ..self.quest_items@[k] },
        )
        &&& after.props@ == self.props@.update(
            piece,
            Prop { pos: hero.pos, carried_by: Some(hero_id), ..self.props@[piece] },
        )
        &&& logged_one_line(self.log@, after.log@)
        &&& after.log@.last()@ == hero.name@ + " picked up "@ + self.quest_items@[k].id@ + "."@
        &&& after == (Game {
            units: after.units,
            quest_items: after.quest_items,
            props: after.props,
            log: after.log,
            ..self
        })
    }

    /// `after` is the game once the hero with `hero_id` picked up the quest
    /// item named `name`, the free one within reach whose name comes first,
    /// returned it if standing on the stairway, and the end of the quest was
    /// checked.
    pub open spec fn item_taken(self, hero_id: UnitId, name: Seq<char>, after: Game) -> bool {
        exists|k: int, picked: Game, returned: Game|
            #![trigger self.picked_up(k, hero_id, picked), picked.delivered_into(hero_id, returned)]
            self.is_item_to_take(k, self.spec_unit(hero_id)->Some_0.pos) && name
                == self.quest_items@[k].id@ && self.picked_up(k, hero_id, picked)
                && picked.delivered_into(hero_id, returned) && returned.settled_into(after)
    }

    /// The active hero picks up a quest item lying free on its square or
    /// beside it, the one whose name comes first; it is returned at once if
    /// the hero stands on the stairway, and the end of the quest is checked.
    /// Taking it is free: the sealed gold inside is not the hero's to spend.
    pub fn take_quest_item(&mut self) -> (result: Result<String, RuleError>)
        requires
            old(self).wf(),
            old(self).free_items_placed(),
            old(self).spec_active_awake_hero_id() matches Ok(id) ==> old(self).spec_unit(id) is Some,
        ensures
            final(self).wf(),
            match result {
                Err(e) => old(self).take_refusal() == Some(e) && *final(self) == *old(self),
                Ok(name) => old(self).take_refusal() is None && old(self).item_taken(
                    old(self).spec_active_awake_hero_id()->Ok_0,
                    name@,
                    *final(self),
                ),
            },
    {
        let hero_id = match self.active_awake_hero_id() {
            Ok(id) => id,
            Err(e) => return Err(e),
        };
        proof {
            lemma_wf_ids(*self);
        }
        let index = match self.unit_index(hero_id) {
            Some(index) => index,
            None => return Err(RuleError::NotHeroTurn),
        };
        proof {
            lemma_slot_of(self.units@, hero_id, index as int);
        }
        if self.units[index].carried_quest_item.is_some() {
            return Err(RuleError::AlreadyCarryingQuestItem);
        }
        let hero_pos = self.units[index].pos;
        let item = match self.item_to_take(hero_pos) {
            Some(item) => item,
            None => return Err(RuleError::NoQuestItem),
        };
        let ghost start = *self;
        proof {
            reveal(Game::wf);
            assert(spec_in_bounds(hero_pos));
        }
        let item_name = self.quest_items[item].id.clone();
        let piece = self.quest_items[item].prop_index;
        let mut message = self.units[index].name.clone();
        self.set_item_holder(item, Some(hero_id));
        self.carry_piece(piece, hero_pos, hero_id);
        self.unit_take_item(index, item);
        proof {
            lemma_holding(start.units@[index as int], Some(item), self.units@[index as int]);
        }
        message.append(" picked up ");
        message.append(item_name.as_str());
        message.append(".");
        self.push_log(message);
        let ghost picked = *self;
        proof {
            lemma_wf_ids(picked);
            lemma_slot_of(picked.units@, hero_id, index as int);
        }
        self.deliver_carried_quest_item(hero_id);
        let ghost returned = *self;
        self.check_terminal();
        proof {
            assert(start.is_item_to_take(item as int, hero_pos) && item_name@
                == start.quest_items@[item as int].id@ && start.picked_up(
                item as int,
                hero_id,
                picked,
            ) && picked.delivered_into(hero_id, returned) && returned.settled_into(*self));
            assert(start.item_taken(hero_id, item_name@, *self));
        }
        Ok(item_name)
    }

    /// Why the active hero cannot put down a quest item, if it cannot.
    pub open spec fn drop_refusal(self) -> Option<RuleError> {
        match self.spec_active_awake_hero_id() {
            Err(e) => Some(e),
            Ok(id) => match self.spec_unit(id) {
                Some(hero) => if hero.carried_quest_item is None {
                    Some(RuleError::NotCarryingQuestItem)
                } else {
                    None
                },
                None => None,
            },
        }
    }

    /// `after` is the game once the hero with `hero_id` put the quest item
    /// it carries down on its square.
    pub open spec fn item_dropped(self, hero_id: UnitId, after: Game) -> bool {
        let slot = unit_slot(self.units@, hero_id);
        let hero = self.units@[slot];
        &&& after.units@ == self.units@.update(slot, holding(hero, None))
        &&& item_put_down(self.quest_items@, self.props@, after.quest_items@, after.props@, hero)
        &&& logged_one_line(self.log@, after.log@)
        &&& after.log@.last()@ == hero.name@ + " put down "@ + self.quest_items@[
            hero.carried_quest_item->Some_0 as int].id@ + "."@
        &&& after == (Game {
            units: after.units,
            quest_items: after.quest_items,
            props: after.props,
            log: after.log,
            ..self
        })
    }

    /// Putting a quest item straight back down undoes picking it up: the
    /// item lies free again as it was, its piece shows on the hero's square,
    /// and the hero is as it was.
    #[verifier::spinoff_prover]
    #[verifier::rlimit(40)]
    pub proof fn lemma_drop_undoes_take(self, k: int, hero_id: UnitId, picked: Game, dropped: Game)
        requires
            self.wf(),
            has_unit_id(self.units@, hero_id),
            0 <= k < self.quest_items@.len(),
            k <= usize::MAX,
            self.quest_items@[k].prop_index < self.props@.len(),
            lies_free(self.quest_items@[k]),
            self.spec_unit(hero_id)->Some_0.carried_quest_item is None,
            self.picked_up(k, hero_id, picked),
            picked.item_dropped(hero_id, dropped),
        ensures
            dropped.units@ == self.units@,
            dropped.quest_items@ == self.quest_items@,
            dropped.props@ == self.props@.update(
                self.quest_items@[k].prop_index as int,
                crate::turns::dropped_prop(
                    self.props@[self.quest_items@[k].prop_index as int],
                    self.spec_unit(hero_id)->Some_0.pos,
                ),
            ),
    {
        lemma_wf_ids(self);
        let slot = unit_slot(self.units@, hero_id);
        lemma_slot_of(self.units@, hero_id, slot);
        lemma_holding_twice(self.units@[slot], Some(k as usize), None);
        assert(picked.units@[slot].id == hero_id);
        assert(unique_unit_ids(picked.units@)) by {
            assert forall|i: int, j: int|
                0 <= i < picked.units@.len() && 0 <= j < picked.units@.len() && i != j implies #[trigger] picked.units@[i].id
                != #[trigger] picked.units@[j].id by {
                assert(picked.units@[i].id == self.units@[i].id);
                assert(picked.units@[j].id == self.units@[j].id);
            }
        }
        lemma_slot_of(picked.units@, hero_id, slot);
        let hero = self.units@[slot];
        assert((k as usize) as int == k);
        lemma_holding_twice(hero, Some(k as usize), None);
        lemma_holding_same(hero);
        lemma_item_freed_again(self.quest_items@[k], picked.quest_items@[k], dropped.quest_items@[k], hero_id);
        assert(dropped.units@ =~= self.units@);
        assert(dropped.quest_items@ =~= self.quest_items@);
    }

    /// The active hero puts the quest item it carries down on its square;
    /// its name is returned.
    pub fn drop_quest_item(&mut self) -> (result: Result<String, RuleError>)
        requires
            old(self).wf(),
            old(self).spec_active_awake_hero_id() matches Ok(id) ==> (old(self).spec_unit(
                id,
            ) matches Some(hero) && old(self).carries_in_place(hero)),
        ensures
            final(self).wf(),
            match result {
                Err(e) => old(self).drop_refusal() == Some(e) && *final(self) == *old(self),
                Ok(name) => old(self).drop_refusal() is None && {
                    let id = old(self).spec_active_awake_hero_id()->Ok_0;
                    let hero = old(self).units@[unit_slot(old(self).units@, id)];
                    &&& name@ == old(self).quest_items@[hero.carried_quest_item->Some_0 as int].id@
                    &&& old(self).item_dropped(id, *final(self))
                },
            },
    {
        let hero_id = match self.active_awake_hero_id() {
            Ok(id) => id,
            Err(e) => return Err(e),
        };
        proof {
            lemma_wf_ids(*self);
        }
        let index = match self.unit_index(hero_id) {
            Some(index) => index,
            None => return Err(RuleError::NotHeroTurn),
        };
        proof {
            lemma_slot_of(self.units@, hero_id, index as int);
        }
        if self.units[index].carried_quest_item.is_none() {
            return Err(RuleError::NotCarryingQuestItem);
        }
        let ghost start = *self;
        let item_name = self.drop_carried_quest_item_at(hero_id);
        proof {
            lemma_holding(start.units@[index as int], None, self.units@[index as int]);
        }
        let mut message = self.units[index].name.clone();
        message.append(" put down ");
        message.append(item_name.as_str());
        message.append(".");
        self.push_log(message);
        Ok(item_name)
    }
}

impl Game {
    /// `unit` can receive a quest item from the hero `giver_id` on `pos`: a
    /// living hero still in the dungeon, other than the giver, empty-handed,
    /// beside `pos` with an open way between.
    pub open spec fn can_receive_item(self, giver_id: UnitId, pos: Pos, unit: Unit) -> bool {
        &&& unit.id != giver_id
        &&& unit.alive
        &&& !unit.escaped
        &&& unit.figure is Hero
        &&& unit.carried_quest_item is None
        &&& spec_adjacent(pos, unit.pos)
        &&& self.spec_boundary_is_open(pos, unit.pos)
    }

    /// The figure at `r` receives the item: of those who can, the one with
    /// the least id.
    pub open spec fn is_item_recipient(self, giver_id: UnitId, pos: Pos, r: int) -> bool {
        &&& 0 <= r < self.units@.len()
        &&& self.can_receive_item(giver_id, pos, self.units@[r])
        &&& forall|j: int|
            0 <= j < self.units@.len() && self.can_receive_item(giver_id, pos, #[trigger] self.units@[j])
                ==> self.units@[r].id <= self.units@[j].id
    }

    /// Finds who receives a quest item handed on by `giver_id` from `pos`.
    fn item_recipient(&self, giver_id: UnitId, pos: Pos) -> (found: Option<usize>)
        requires
            self.wf(),
        ensures
            match found {
                Some(r) => self.is_item_recipient(giver_id, pos, r as int),
                None => forall|j: int|
                    0 <= j < self.units@.len() ==> !self.can_receive_item(
                        giver_id,
                        pos,
                        #[trigger] self.units@[j],
                    ),
            },
    {
        let mut best: Option<usize> = None;
        let mut i: usize = 0;
        while i < self.units.len()
            invariant
                self.wf(),
                i <= self.units@.len(),
                match best {
                    Some(b) => b < i && self.can_receive_item(giver_id, pos, self.units@[b as int])
                        && forall|j: int|
                        0 <= j < i && self.can_receive_item(giver_id, pos, #[trigger] self.units@[j])
                            ==> self.units@[b as int].id <= self.units@[j].id,
                    None => forall|j: int|
                        0 <= j < i ==> !self.can_receive_item(
                            giver_id,
                            pos,
                            #[trigger] self.units@[j],
                        ),
                },
            decreases self.units.len() - i,
        {
            let unit = &self.units[i];
            let receives = unit.id != giver_id && unit.alive && !unit.escaped && matches!(
                unit.figure,
                crate::model::FigureKind::Hero(_)
            ) && unit.carried_quest_item.is_none() && pos.is_adjacent(unit.pos)
                && self.boundary_is_open(pos, unit.pos);
            if receives {
                match best {
                    None => {
                        best = Some(i);
                    },
                    Some(b) => {
                        if unit.id < self.units[b].id {
                            best = Some(i);
                        }
                    },
                }
            }
            i = i + 1;
        }
        best
    }

    /// Why the active hero cannot hand on its quest item, if it cannot.
    pub open spec fn transfer_refusal(self) -> Option<RuleError> {
        match self.spec_active_awake_hero_id() {
            Err(e) => Some(e),
            Ok(id) => match self.spec_unit(id) {
                Some(hero) => if hero.carried_quest_item is None {
                    Some(RuleError::NotCarryingQuestItem)
                } else if !(exists|j: int|
                    0 <= j < self.units@.len() && self.can_receive_item(
                        id,
                        hero.pos,
                        #[trigger] self.units@[j],
                    )) {
                    Some(RuleError::NoQuestItemRecipient)
                } else {
                    None
                },
                None => None,
            },
        }
    }

    /// `after` is the game once the hero with `giver_id` handed the quest
    /// item it carries to the figure at `r`, who now carries its piece.
    pub open spec fn handed_over(self, giver_id: UnitId, r: int, after: Game) -> bool {
        let g = unit_slot(self.units@, giver_id);
        let giver = self.units@[g];
        let k = giver.carried_quest_item->Some_0;
        let receiver = self.units@[r];
        let piece = self.quest_items@[k as int].prop_index as int;
        &&& after.units@ == self.units@.update(g, Unit { carried_quest_item: None, ..giver }).update(
            r,
            Unit { carried_quest_item: Some(k), ..receiver },
        )
        &&& after.quest_items@ == self.quest_items@.update(
            k as int,
            QuestItem { holder: Some(receiver.id), ..self.quest_items@[k as int] },
        )
        &&& after.props@ == self.props@.update(
            piece,
            Prop { pos: receiver.pos, carried_by: Some(receiver.id), ..self.props@[piece] },
        )
        &&& logged_one_line(self.log@, after.log@)
        &&& after.log@.last()@ == giver.name@ + " passed "@ + self.quest_items@[k as int].id@ + " to "@
            + receiver.name@ + "."@
        &&& after == (Game {
            units: after.units,
            quest_items: after.quest_items,
            props: after.props,
            log: after.log,
            ..self
        })
    }

    /// `after` is the game once the hero with `giver_id` handed its quest item
    /// to `receiver`, the empty-handed neighbour with the least id, who
    /// returned it if standing on the stairway, and the end of the quest was
    /// checked.
    pub open spec fn item_passed_on(self, giver_id: UnitId, receiver: UnitId, after: Game) -> bool {
        exists|r: int, handed: Game, returned: Game|
            #![trigger self.handed_over(giver_id, r, handed), handed.delivered_into(receiver, returned)]
            self.is_item_recipient(giver_id, self.spec_unit(giver_id)->Some_0.pos, r) && receiver
                == self.units@[r].id && self.handed_over(giver_id, r, handed)
                && handed.delivered_into(receiver, returned) && returned.settled_into(after)
    }

    /// The active hero hands the quest item it carries to a neighbouring
    /// empty-handed hero, the one with the least id; the receiver returns it
    /// at once if it stands on the stairway, and the end of the quest is
    /// checked. The receiver's id is returned.
    #[verifier::spinoff_prover]
    #[verifier::rlimit(40)]
    pub fn transfer_quest_item_to_adjacent_hero(&mut self) -> (result: Result<UnitId, RuleError>)
        requires
            old(self).wf(),
            old(self).spec_active_awake_hero_id() matches Ok(id) ==> (old(self).spec_unit(
                id,
            ) matches Some(hero) && old(self).carries_in_place(hero)),
        ensures
            final(self).wf(),
            match result {
                Err(e) => old(self).transfer_refusal() == Some(e) && *final(self) == *old(self),
                Ok(receiver) => old(self).transfer_refusal() is None && old(self).item_passed_on(
                    old(self).spec_active_awake_hero_id()->Ok_0,
                    receiver,
                    *final(self),
                ),
            },
    {
        let hero_id = match self.active_awake_hero_id() {
            Ok(id) => id,
            Err(e) => return Err(e),
        };
        proof {
            lemma_wf_ids(*self);
        }
        let index = match self.unit_index(hero_id) {
            Some(index) => index,
            None => return Err(RuleError::NotHeroTurn),
        };
        proof {
            lemma_slot_of(self.units@, hero_id, index as int);
        }
        let item = match self.units[index].carried_quest_item {
            Some(item) => item,
            None => return Err(RuleError::NotCarryingQuestItem),
        };
        let hero_pos = self.units[index].pos;
        let r = match self.item_recipient(hero_id, hero_pos) {
            Some(r) => r,
            None => return Err(RuleError::NoQuestItemRecipient),
        };
        let ghost start = *self;
        proof {
            reveal(Game::wf);
            assert(spec_in_bounds(self.units@[r as int].pos));
            assert(r != index);
            assert(self.can_receive_item(hero_id, hero_pos, self.units@[r as int]));
            assert(self.spec_unit(hero_id) == Some(self.units@[index as int]));
            assert(self.transfer_refusal() is None);
        }
        let receiver_id = self.units[r].id;
        let receiver_pos = self.units[r].pos;
        let piece = self.quest_items[item].prop_index;
        self.unit_put_down_item(index);
        self.unit_take_item(r, item);
        self.set_item_holder(item, Some(receiver_id));
        self.carry_piece(piece, receiver_pos, receiver_id);
        let mut message = self.units[index].name.clone();
        message.append(" passed ");
        message.append(self.quest_items[item].id.as_str());
        message.append(" to ");
        message.append(self.units[r].name.as_str());
        message.append(".");
        self.push_log(message);
        let ghost handed = *self;
        proof {
            lemma_wf_ids(handed);
            lemma_slot_of(handed.units@, receiver_id, r as int);
        }
        self.deliver_carried_quest_item(receiver_id);
        let ghost returned = *self;
        self.check_terminal();
        proof {
            assert(start.is_item_recipient(hero_id, hero_pos, r as int) && receiver_id
                == start.units@[r as int].id && start.handed_over(hero_id, r as int, handed)
                && handed.delivered_into(receiver_id, returned) && returned.settled_into(*self));
            assert(start.item_passed_on(hero_id, receiver_id, *self));
        }
        Ok(receiver_id)
    }
}

} // verus!
