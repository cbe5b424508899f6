//! How a quest ends: the hero tallies, the objectives, and the gold and
//! titles handed out when the heroes win.
use vstd::prelude::*;
use vstd::pervasive::VecAdditionalExecFns;

use crate::engine::{
    Game, distinct_ids, has_unit_id, lemma_wf_after_unit_change, lemma_wf_ids, logged_one_line,
    unique_unit_ids,
};
use crate::cards::Artifact;
use crate::game::{GamePhase, QuestEvent, QuestItem, Unit, UnitId, contains_artifact, contains_pos};
use crate::model::Faction;
use crate::quest::ObjectiveDef;

verus! {

/// Which heroes a tally counts.
#[derive(Clone, Copy, Debug, PartialEq, Eq, Structural)]
pub enum HeroTally {
    /// Alive, whether or not they escaped.
    Living,
    /// Alive and still in the dungeon.
    Standing,
    /// Escaped from the dungeon.
    Escaped,
}

pub open spec fn tallied(unit: Unit, tally: HeroTally) -> bool {
    match tally {
        HeroTally::Living => unit.alive,
        HeroTally::Standing => unit.alive && !unit.escaped,
        HeroTally::Escaped => unit.escaped,
    }
}

/// `a + b`, held at the largest gold amount.
pub open spec fn sat_gold(a: int, b: int) -> u16 {
    if a + b > u16::MAX {
        u16::MAX
    } else {
        (a + b) as u16
    }
}

/// The figure with a new gold total.
pub open spec fn with_gold(unit: Unit, gold: u16) -> Unit {
    Unit { inventory: crate::game::Inventory { gold, ..unit.inventory }, ..unit }
}

/// The figure with its fool's gold thrown away.
pub open spec fn without_fools_gold(unit: Unit) -> Unit {
    Unit { inventory: crate::game::Inventory { fools_gold: 0, ..unit.inventory }, ..unit }
}

/// The figure with the title of Champion.
pub open spec fn crowned(unit: Unit) -> Unit {
    Unit { champion: true, ..unit }
}

/// What the hero at `rank` among `n` living heroes receives of `amount`:
/// an equal share, and one coin more for each of the first `amount % n`.
pub open spec fn split_share(amount: u16, n: nat, rank: int) -> int {
    (amount as int) / (n as int) + if rank < (amount as int) % (n as int) {
        1int
    } else {
        0int
    }
}

/// The figures after `change` has been made to each figure that passes
/// `guard` and whose id is among the first `done` of `order`.
#[verifier::opaque]
pub open spec fn change_listed(
    units: Seq<Unit>,
    order: Seq<UnitId>,
    done: nat,
    change: spec_fn(Unit) -> Unit,
    guard: spec_fn(Unit) -> bool,
) -> Seq<Unit> {
    Seq::new(
        units.len(),
        |i: int|
            if order.take(done as int).contains(units[i].id) && guard(units[i]) {
                change(units[i])
            } else {
                units[i]
            },
    )
}

/// The figures after the first `done` of the `living` heroes have taken
/// their share of `amount`.
pub open spec fn split_units(units: Seq<Unit>, living: Seq<UnitId>, amount: u16, done: nat) -> Seq<
    Unit,
> {
    change_listed(
        units,
        living,
        done,
        |unit: Unit|
            with_gold(
                unit,
                sat_gold(
                    unit.inventory.gold as int,
                    split_share(amount, living.len(), living.index_of(unit.id)),
                ),
            ),
        |unit: Unit| true,
    )
}

/// The figures after each living hero among the first `done` of `order`
/// has received `gold`.
pub open spec fn rewarded_units(units: Seq<Unit>, order: Seq<UnitId>, gold: u16, done: nat) -> Seq<
    Unit,
> {
    change_listed(
        units,
        order,
        done,
        |unit: Unit| with_gold(unit, sat_gold(unit.inventory.gold as int, gold as int)),
        |unit: Unit| unit.alive,
    )
}

/// The figures after each living hero among the first `done` of `order`
/// has become a Champion.
pub open spec fn crowned_units(units: Seq<Unit>, order: Seq<UnitId>, done: nat) -> Seq<Unit> {
    change_listed(units, order, done, |unit: Unit| crowned(unit), |unit: Unit| unit.alive)
}

/// The figures after the heroes among the first `done` of `order` have
/// thrown away their fool's gold.
pub open spec fn unfooled_units(units: Seq<Unit>, order: Seq<UnitId>, done: nat) -> Seq<Unit> {
    change_listed(units, order, done, |unit: Unit| without_fools_gold(unit), |unit: Unit| true)
}

/// One more listed id: the figure carrying it, if any, is changed when it
/// passes the guard; every other figure is as before.
proof fn lemma_change_next(
    start: Seq<Unit>,
    order: Seq<UnitId>,
    k: int,
    change: spec_fn(Unit) -> Unit,
    guard: spec_fn(Unit) -> bool,
    before: Seq<Unit>,
    after: Seq<Unit>,
    slot: Option<int>,
)
    requires
        0 <= k < order.len(),
        distinct_ids(order),
        unique_unit_ids(start),
        forall|u: Unit| #[trigger] change(u).id == u.id,
        before == change_listed(start, order, k as nat, change, guard),
        match slot {
            Some(i) => {
                &&& 0 <= i < before.len()
                &&& before[i].id == order[k]
                &&& after == if guard(before[i]) {
                    before.update(i, change(before[i]))
                } else {
                    before
                }
            },
            None => {
                &&& forall|j: int| 0 <= j < before.len() ==> #[trigger] before[j].id != order[k]
                &&& after == before
            },
        },
    ensures
        after == change_listed(start, order, (k + 1) as nat, change, guard),
{
    reveal(change_listed);
    lemma_distinct_not_before(order, k);
    assert forall|x: UnitId| #[trigger] order.take(k + 1).contains(x) <==> (order.take(k).contains(x)
        || x == order[k]) by {
        lemma_take_next(order, k, x);
    }
    assert forall|j: int| 0 <= j < before.len() implies #[trigger] before[j].id == start[j].id by {
        if order.take(k).contains(start[j].id) && guard(start[j]) {
            assert(change(start[j]).id == start[j].id);
        }
    }
    assert(after =~= change_listed(start, order, (k + 1) as nat, change, guard));
}

pub open spec fn is_terminal_phase(phase: GamePhase) -> bool {
    phase == GamePhase::Won || phase == GamePhase::Retreated || phase == GamePhase::Lost
}

/// Every monster, dormant or not, is dead.
pub open spec fn all_monsters_dead(units: Seq<Unit>) -> bool {
    forall|i: int|
        0 <= i < units.len() && #[trigger] units[i].faction == Faction::Monster ==> !units[i].alive
}

/// Every monster is dead or still dormant.
pub open spec fn all_monsters_cleared(units: Seq<Unit>) -> bool {
    forall|i: int|
        0 <= i < units.len() && #[trigger] units[i].faction == Faction::Monster ==> !units[i].alive
            || units[i].dormant
}

/// The first of the first `n` figures with the name (and, if asked, a hero).
pub open spec fn first_named(units: Seq<Unit>, name: Seq<char>, hero_only: bool, n: nat) -> Option<
    int,
>
    decreases n,
{
    if n == 0 {
        None
    } else {
        match first_named(units, name, hero_only, (n - 1) as nat) {
            Some(i) => Some(i),
            None => if units[n - 1].name@ == name && (!hero_only || units[n - 1].faction
                == Faction::Hero) {
                Some(n - 1)
            } else {
                None
            },
        }
    }
}

/// The first of the first `n` quest notes with the id.
pub open spec fn first_event(events: Seq<QuestEvent>, id: Seq<char>, n: nat) -> Option<int>
    decreases n,
{
    if n == 0 {
        None
    } else {
        match first_event(events, id, (n - 1) as nat) {
            Some(i) => Some(i),
            None => if events[n - 1].id@ == id {
                Some(n - 1)
            } else {
                None
            },
        }
    }
}

/// How many of the first `n` quest items have been delivered.
pub open spec fn delivered_upto(items: Seq<QuestItem>, n: nat) -> nat
    decreases n,
{
    if n == 0 {
        0
    } else {
        delivered_upto(items, (n - 1) as nat) + if items[n - 1].delivered {
            1nat
        } else {
            0nat
        }
    }
}

pub open spec fn is_escape_objective(objective: ObjectiveDef) -> bool {
    objective is EscapeIndependently || objective is DefeatAllOrEscapeIndependently
}

/// Whether the surviving heroes must also stand on the stairway to win.
pub open spec fn heroes_must_return(objective: ObjectiveDef) -> bool {
    !(objective is DefeatNamed || objective is RescueNamedAndReturn || objective is DefeatAll)
}

/// Once found, the first match stays the first over a longer prefix.
proof fn lemma_first_named_stays(units: Seq<Unit>, name: Seq<char>, hero_only: bool, n: nat, m: nat)
    requires
        n <= m,
        first_named(units, name, hero_only, n) is Some,
    ensures
        first_named(units, name, hero_only, m) == first_named(units, name, hero_only, n),
    decreases m - n,
{
    if n < m {
        lemma_first_named_stays(units, name, hero_only, n, (m - 1) as nat);
    }
}

proof fn lemma_first_event_stays(events: Seq<QuestEvent>, id: Seq<char>, n: nat, m: nat)
    requires
        n <= m,
        first_event(events, id, n) is Some,
    ensures
        first_event(events, id, m) == first_event(events, id, n),
    decreases m - n,
{
    if n < m {
        lemma_first_event_stays(events, id, n, (m - 1) as nat);
    }
}

proof fn lemma_take_next(s: Seq<UnitId>, k: int, x: UnitId)
    requires
        0 <= k < s.len(),
    ensures
        s.take(k + 1).contains(x) <==> (s.take(k).contains(x) || s[k] == x),
{
    assert(s.take(k + 1) =~= s.take(k).push(s[k]));
    if s.take(k).contains(x) {
        let t = s.take(k);
        let j = choose|j: int| 0 <= j < t.len() && #[trigger] t[j] == x;
        assert(s.take(k + 1)[j] == x);
    }
    if s[k] == x {
        assert(s.take(k + 1)[k] == x);
    }
    if s.take(k + 1).contains(x) {
        let t = s.take(k + 1);
        let j = choose|j: int| 0 <= j < t.len() && #[trigger] t[j] == x;
        if j < k {
            assert(s.take(k)[j] == x);
        }
    }
}

proof fn lemma_distinct_not_before(s: Seq<UnitId>, k: int)
    requires
        0 <= k < s.len(),
        distinct_ids(s),
    ensures
        !s.take(k).contains(s[k]),
{
    if s.take(k).contains(s[k]) {
        let t = s.take(k);
        let j = choose|j: int| 0 <= j < t.len() && #[trigger] t[j] == s[k];
        assert(s[j] == s[k]);
    }
}

proof fn lemma_unfooled_none(start: Seq<Unit>, order: Seq<UnitId>)
    ensures
        unfooled_units(start, order, 0) == start,
{
    reveal(change_listed);
    assert(unfooled_units(start, order, 0) =~= start);
}

proof fn lemma_unfooled_next(
    start: Seq<Unit>,
    order: Seq<UnitId>,
    k: int,
    before: Seq<Unit>,
    after: Seq<Unit>,
    slot: Option<int>,
)
    requires
        0 <= k < order.len(),
        distinct_ids(order),
        unique_unit_ids(start),
        before == unfooled_units(start, order, k as nat),
        match slot {
            Some(i) => {
                &&& 0 <= i < before.len()
                &&& before[i].id == order[k]
                &&& after == before.update(i, without_fools_gold(before[i]))
            },
            None => {
                &&& forall|j: int| 0 <= j < before.len() ==> #[trigger] before[j].id != order[k]
                &&& after == before
            },
        },
    ensures
        after == unfooled_units(start, order, (k + 1) as nat),
{
    lemma_change_next(
        start,
        order,
        k,
        |unit: Unit| without_fools_gold(unit),
        |unit: Unit| true,
        before,
        after,
        slot,
    );
}

proof fn lemma_split_next(
    start: Seq<Unit>,
    living: Seq<UnitId>,
    amount: u16,
    k: int,
    before: Seq<Unit>,
    after: Seq<Unit>,
    slot: int,
)
    requires
        0 <= k < living.len(),
        distinct_ids(living),
        unique_unit_ids(start),
        before == split_units(start, living, amount, k as nat),
        0 <= slot < before.len(),
        before[slot].id == living[k],
        after == before.update(
            slot,
            with_gold(
                before[slot],
                sat_gold(
                    before[slot].inventory.gold as int,
                    split_share(amount, living.len(), living.index_of(before[slot].id)),
                ),
            ),
        ),
    ensures
        after == split_units(start, living, amount, (k + 1) as nat),
{
    let change = |unit: Unit|
        with_gold(
            unit,
            sat_gold(
                unit.inventory.gold as int,
                split_share(amount, living.len(), living.index_of(unit.id)),
            ),
        );
    let guard = |unit: Unit| true;
    assert(after == before.update(slot, change(before[slot])));
    lemma_change_next(start, living, k, change, guard, before, after, Some(slot));
}

proof fn lemma_rewarded_next(
    start: Seq<Unit>,
    order: Seq<UnitId>,
    gold: u16,
    k: int,
    before: Seq<Unit>,
    after: Seq<Unit>,
    slot: Option<int>,
)
    requires
        0 <= k < order.len(),
        distinct_ids(order),
        unique_unit_ids(start),
        before == rewarded_units(start, order, gold, k as nat),
        match slot {
            Some(i) => {
                &&& 0 <= i < before.len()
                &&& before[i].id == order[k]
                &&& after == if before[i].alive {
                    before.update(
                        i,
                        with_gold(before[i], sat_gold(before[i].inventory.gold as int, gold as int)),
                    )
                } else {
                    before
                }
            },
            None => {
                &&& forall|j: int| 0 <= j < before.len() ==> #[trigger] before[j].id != order[k]
                &&& after == before
            },
        },
    ensures
        after == rewarded_units(start, order, gold, (k + 1) as nat),
{
    let change = |unit: Unit| with_gold(unit, sat_gold(unit.inventory.gold as int, gold as int));
    let guard = |unit: Unit| unit.alive;
    lemma_change_next(start, order, k, change, guard, before, after, slot);
}

proof fn lemma_crowned_next(
    start: Seq<Unit>,
    order: Seq<UnitId>,
    k: int,
    before: Seq<Unit>,
    after: Seq<Unit>,
    slot: Option<int>,
)
    requires
        0 <= k < order.len(),
        distinct_ids(order),
        unique_unit_ids(start),
        before == crowned_units(start, order, k as nat),
        match slot {
            Some(i) => {
                &&& 0 <= i < before.len()
                &&& before[i].id == order[k]
                &&& after == if before[i].alive {
                    before.update(i, crowned(before[i]))
                } else {
                    before
                }
            },
            None => {
                &&& forall|j: int| 0 <= j < before.len() ==> #[trigger] before[j].id != order[k]
                &&& after == before
            },
        },
    ensures
        after == crowned_units(start, order, (k + 1) as nat),
{
    lemma_change_next(
        start,
        order,
        k,
        |unit: Unit| crowned(unit),
        |unit: Unit| unit.alive,
        before,
        after,
        slot,
    );
}

/// Changes that keep ids keep every figure's id in place.
proof fn lemma_change_keeps_ids(
    start: Seq<Unit>,
    order: Seq<UnitId>,
    done: nat,
    change: spec_fn(Unit) -> Unit,
    guard: spec_fn(Unit) -> bool,
)
    requires
        forall|u: Unit| #[trigger] change(u).id == u.id,
    ensures
        change_listed(start, order, done, change, guard).len() == start.len(),
        forall|j: int|
            0 <= j < start.len() ==> #[trigger] change_listed(start, order, done, change, guard)[j].id
                == start[j].id,
{
    reveal(change_listed);
    assert forall|j: int| 0 <= j < start.len() implies #[trigger] change_listed(
        start,
        order,
        done,
        change,
        guard,
    )[j].id == start[j].id by {
        assert(change(start[j]).id == start[j].id);
    }
}

proof fn lemma_split_keeps_ids(start: Seq<Unit>, living: Seq<UnitId>, amount: u16, done: nat)
    ensures
        split_units(start, living, amount, done).len() == start.len(),
        forall|j: int|
            0 <= j < start.len() ==> #[trigger] split_units(start, living, amount, done)[j].id
                == start[j].id,
{
    lemma_change_keeps_ids(
        start,
        living,
        done,
        |unit: Unit|
            with_gold(
                unit,
                sat_gold(
                    unit.inventory.gold as int,
                    split_share(amount, living.len(), living.index_of(unit.id)),
                ),
            ),
        |unit: Unit| true,
    );
}

/// A figure present at the start is still present after the shares.
proof fn lemma_split_keeps_unit(start: Seq<Unit>, living: Seq<UnitId>, amount: u16, done: nat, id: UnitId)
    requires
        has_unit_id(start, id),
    ensures
        has_unit_id(split_units(start, living, amount, done), id),
{
    lemma_split_keeps_ids(start, living, amount, done);
    let j = choose|j: int| 0 <= j < start.len() && #[trigger] start[j].id == id;
    assert(split_units(start, living, amount, done)[j].id == id);
}

/// No change has been made yet.
proof fn lemma_change_none(
    start: Seq<Unit>,
    order: Seq<UnitId>,
    change: spec_fn(Unit) -> Unit,
    guard: spec_fn(Unit) -> bool,
)
    ensures
        change_listed(start, order, 0, change, guard) == start,
{
    reveal(change_listed);
    assert(change_listed(start, order, 0, change, guard) =~= start);
}

/// A share never exceeds the amount shared.
proof fn lemma_share_fits(amount: u16, n: nat, rank: int)
    requires
        n > 0,
        rank >= 0,
    ensures
        split_share(amount, n, rank) <= amount,
{
    let q = (amount as int) / (n as int);
    let r = (amount as int) % (n as int);
    assert(amount as int == (n as int) * q + r && 0 <= r < n as int && q >= 0) by (nonlinear_arith)
        requires
            n > 0,
            q == (amount as int) / (n as int),
            r == (amount as int) % (n as int),
    ;
    assert((n as int) * q >= q) by (nonlinear_arith)
        requires
            n > 0,
            q >= 0,
    ;
}

impl Game {
    /// The heroes among the first `n` in turn order that the tally counts.
    pub open spec fn tally_upto(self, tally: HeroTally, n: nat) -> nat
        decreases n,
    {
        if n == 0 {
            0
        } else {
            self.tally_upto(tally, (n - 1) as nat) + match self.spec_unit(self.hero_order@[n - 1]) {
                Some(unit) => if tallied(unit, tally) {
                    1nat
                } else {
                    0nat
                },
                None => 0nat,
            }
        }
    }

    pub open spec fn spec_tally(self, tally: HeroTally) -> nat {
        self.tally_upto(tally, self.hero_order@.len())
    }

    /// The ids of the living heroes among the first `n` in turn order.
    pub open spec fn living_ids_upto(self, n: nat) -> Seq<UnitId>
        decreases n,
    {
        if n == 0 {
            Seq::empty()
        } else {
            let prev = self.living_ids_upto((n - 1) as nat);
            let id = self.hero_order@[n - 1];
            if self.spec_unit(id) matches Some(unit) && unit.alive {
                prev.push(id)
            } else {
                prev
            }
        }
    }

    pub open spec fn living_ids(self) -> Seq<UnitId> {
        self.living_ids_upto(self.hero_order@.len())
    }

    fn count_heroes(&self, tally: HeroTally) -> (count: usize)
        requires
            self.wf(),
        ensures
            count == self.spec_tally(tally),
    {
        let mut count: usize = 0;
        let mut i: usize = 0;
        while i < self.hero_order.len()
            invariant
                self.wf(),
                i <= self.hero_order@.len(),
                count == self.tally_upto(tally, i as nat),
                count <= i,
            decreases self.hero_order.len() - i,
        {
            let counted = match self.unit(self.hero_order[i]) {
                Some(unit) => match tally {
                    HeroTally::Living => unit.alive,
                    HeroTally::Standing => unit.alive && !unit.escaped,
                    HeroTally::Escaped => unit.escaped,
                },
                None => false,
            };
            if counted {
                count = count + 1;
            }
            i = i + 1;
        }
        count
    }

    /// Heroes still alive, escaped or not.
    pub fn living_hero_count(&self) -> (count: usize)
        requires
            self.wf(),
        ensures
            count == self.spec_tally(HeroTally::Living),
    {
        self.count_heroes(HeroTally::Living)
    }

    /// Heroes alive and still in the dungeon.
    pub fn active_hero_count(&self) -> (count: usize)
        requires
            self.wf(),
        ensures
            count == self.spec_tally(HeroTally::Standing),
    {
        self.count_heroes(HeroTally::Standing)
    }

    /// Heroes who have escaped the dungeon.
    pub fn escaped_hero_count(&self) -> (count: usize)
        requires
            self.wf(),
        ensures
            count == self.spec_tally(HeroTally::Escaped),
    {
        self.count_heroes(HeroTally::Escaped)
    }

    fn living_hero_ids(&self) -> (ids: Vec<UnitId>)
        requires
            self.wf(),
        ensures
            ids@ == self.living_ids(),
    {
        let mut ids: Vec<UnitId> = Vec::new();
        let mut i: usize = 0;
        while i < self.hero_order.len()
            invariant
                self.wf(),
                i <= self.hero_order@.len(),
                ids@ == self.living_ids_upto(i as nat),
            decreases self.hero_order.len() - i,
        {
            let id = self.hero_order[i];
            let living = match self.unit(id) {
                Some(unit) => unit.alive,
                None => false,
            };
            if living {
                ids.push(id);
            }
            i = i + 1;
        }
        ids
    }

    #[verifier::spinoff_prover]
    #[verifier::rlimit(30)]
    fn clear_unit_fools_gold(&mut self, index: usize)
        requires
            old(self).wf(),
            index < old(self).units@.len(),
        ensures
            final(self).wf(),
            final(self).units@ == old(self).units@.update(index as int, final(self).units@[index as int]),
            final(self).units@[index as int] == without_fools_gold(old(self).units@[index as int]),
            *final(self) == (Game { units: final(self).units, ..*old(self) }),
    {
        let ghost before = *self;
        let mut unit = Unit::vacant();
        self.units.set_and_swap(index, &mut unit);
        assert(unit == before.units@[index as int]);
        let changed = unit.set_fools_gold(0);
        self.units.set(index, changed);
        proof {
            assert(self.units@ =~= before.units@.update(index as int, changed));
            lemma_wf_after_unit_change(before, *self, index as int);
        }
    }

    #[verifier::spinoff_prover]
    #[verifier::rlimit(30)]
    fn crown_unit(&mut self, index: usize)
        requires
            old(self).wf(),
            index < old(self).units@.len(),
        ensures
            final(self).wf(),
            final(self).units@ == old(self).units@.update(index as int, final(self).units@[index as int]),
            final(self).units@[index as int] == crowned(old(self).units@[index as int]),
            *final(self) == (Game { units: final(self).units, ..*old(self) }),
    {
        let ghost before = *self;
        let mut unit = Unit::vacant();
        self.units.set_and_swap(index, &mut unit);
        assert(unit == before.units@[index as int]);
        let changed = unit.crown_champion();
        self.units.set(index, changed);
        proof {
            assert(self.units@ =~= before.units@.update(index as int, changed));
            lemma_wf_after_unit_change(before, *self, index as int);
        }
    }

    /// The living ids are distinct, each taken from the turn order, and
    /// each names a living figure.
    proof fn lemma_living_ids(self, n: nat)
        requires
            self.wf(),
            n <= self.hero_order@.len(),
        ensures
            distinct_ids(self.living_ids_upto(n)),
            forall|r: int|
                0 <= r < self.living_ids_upto(n).len() ==> self.hero_order@.take(n as int).contains(
                    #[trigger] self.living_ids_upto(n)[r],
                ),
            forall|r: int|
                0 <= r < self.living_ids_upto(n).len() ==> (self.spec_unit(
                    #[trigger] self.living_ids_upto(n)[r],
                ) matches Some(unit) && unit.alive),
        decreases n,
    {
        if n > 0 {
            self.lemma_living_ids((n - 1) as nat);
            lemma_wf_ids(self);
            let k = (n - 1) as int;
            lemma_distinct_not_before(self.hero_order@, k);
            let prev = self.living_ids_upto((n - 1) as nat);
            assert forall|x: UnitId| #[trigger] self.hero_order@.take(k + 1).contains(x) <==> (
            self.hero_order@.take(k).contains(x) || x == self.hero_order@[k]) by {
                lemma_take_next(self.hero_order@, k, x);
            }
            assert forall|r: int| 0 <= r < prev.len() implies #[trigger] prev[r] != self.hero_order@[k] by {
                assert(self.hero_order@.take(k).contains(prev[r]));
            }
            assert(self.hero_order@.take(k + 1)[k] == self.hero_order@[k]);
            let cur = self.living_ids_upto(n);
            assert forall|r: int| 0 <= r < cur.len() implies self.hero_order@.take(n as int).contains(
                #[trigger] cur[r],
            ) by {
                if r < prev.len() {
                    assert(cur[r] == prev[r]);
                    assert(self.hero_order@.take(k).contains(prev[r]));
                } else {
                    assert(cur[r] == self.hero_order@[k]);
                }
            }
        }
    }

    /// Shares `amount` gold among the living heroes in turn order: each
    /// receives an equal share, the first `amount % n` of them one coin
    /// more, each total held at the largest amount.
    pub fn split_gold_among_living_heroes(&mut self, amount: u16)
        requires
            old(self).wf(),
        ensures
            final(self).wf(),
            final(self).units@ == split_units(
                old(self).units@,
                old(self).living_ids(),
                amount,
                old(self).living_ids().len(),
            ),
            *final(self) == (Game { units: final(self).units, ..*old(self) }),
    {
        let ghost start = *self;
        let living = self.living_hero_ids();
        proof {
            self.lemma_living_ids(self.hero_order@.len());
            lemma_wf_ids(start);
            lemma_change_none(
                start.units@,
                living@,
                |unit: Unit|
                    with_gold(
                        unit,
                        sat_gold(
                            unit.inventory.gold as int,
                            split_share(amount, living@.len(), living@.index_of(unit.id)),
                        ),
                    ),
                |unit: Unit| true,
            );
        }
        if living.len() == 0 {
            return;
        }
        proof {
            assert forall|r: int| 0 <= r < living@.len() implies has_unit_id(
                start.units@,
                #[trigger] living@[r],
            ) by {
                assert(start.spec_unit(living@[r]) is Some);
            }
        }
        let n = living.len();
        let share: usize = (amount as usize) / n;
        let remainder: usize = (amount as usize) % n;
        let mut k: usize = 0;
        while k < n
            invariant
                self.wf(),
                start.wf(),
                n == living@.len(),
                n > 0,
                share == (amount as int) / (n as int),
                remainder == (amount as int) % (n as int),
                living@ == start.living_ids(),
                distinct_ids(living@),
                forall|r: int| 0 <= r < living@.len() ==> has_unit_id(start.units@, #[trigger] living@[r]),
                k <= n,
                *self == (Game { units: self.units, ..start }),
                self.units@ == split_units(start.units@, living@, amount, k as nat),
            decreases n - k,
        {
            let ghost before = *self;
            proof {
                lemma_wf_ids(start);
                lemma_wf_ids(*self);
                lemma_share_fits(amount, n as nat, k as int);
                let c = living@.index_of(living@[k as int]);
                assert(living@[c] == living@[k as int]);
            }
            let bonus: usize = if k < remainder {
                1
            } else {
                0
            };
            let id = living[k];
            match self.unit_index(id) {
                Some(index) => {
                    let gold = self.units[index].inventory.gold.saturating_add((share + bonus) as u16);
                    self.set_unit_gold(index, gold);
                    proof {
                        lemma_split_next(
                            start.units@,
                            living@,
                            amount,
                            k as int,
                            before.units@,
                            self.units@,
                            index as int,
                        );
                    }
                },
                None => {
                    proof {
                        lemma_split_keeps_unit(start.units@, living@, amount, k as nat, id);
                    }
                },
            }
            k = k + 1;
        }
    }

    /// Each living hero in turn order receives `gold` more, held at the
    /// largest amount.
    fn reward_each_living_hero(&mut self, gold: u16)
        requires
            old(self).wf(),
        ensures
            final(self).wf(),
            final(self).units@ == rewarded_units(
                old(self).units@,
                old(self).hero_order@,
                gold,
                old(self).hero_order@.len(),
            ),
            *final(self) == (Game { units: final(self).units, ..*old(self) }),
    {
        let ghost start = *self;
        proof {
            lemma_change_none(
                start.units@,
                start.hero_order@,
                |unit: Unit| with_gold(unit, sat_gold(unit.inventory.gold as int, gold as int)),
                |unit: Unit| unit.alive,
            );
        }
        let mut k: usize = 0;
        while k < self.hero_order.len()
            invariant
                self.wf(),
                start.wf(),
                k <= self.hero_order@.len(),
                *self == (Game { units: self.units, ..start }),
                self.units@ == rewarded_units(start.units@, start.hero_order@, gold, k as nat),
            decreases self.hero_order.len() - k,
        {
            let id = self.hero_order[k];
            let ghost before = *self;
            proof {
                lemma_wf_ids(start);
                lemma_wf_ids(*self);
            }
            match self.unit_index(id) {
                Some(index) => {
                    if self.units[index].alive {
                        let total = self.units[index].inventory.gold.saturating_add(gold);
                        self.set_unit_gold(index, total);
                    }
                    proof {
                        lemma_rewarded_next(
                            start.units@,
                            start.hero_order@,
                            gold,
                            k as int,
                            before.units@,
                            self.units@,
                            Some(index as int),
                        );
                    }
                },
                None => {
                    proof {
                        lemma_rewarded_next(
                            start.units@,
                            start.hero_order@,
                            gold,
                            k as int,
                            before.units@,
                            self.units@,
                            None,
                        );
                    }
                },
            }
            k = k + 1;
        }
    }

    /// Each living hero in turn order becomes a Champion.
    fn crown_living_heroes(&mut self)
        requires
            old(self).wf(),
        ensures
            final(self).wf(),
            final(self).units@ == crowned_units(
                old(self).units@,
                old(self).hero_order@,
                old(self).hero_order@.len(),
            ),
            *final(self) == (Game { units: final(self).units, ..*old(self) }),
    {
        let ghost start = *self;
        proof {
            lemma_change_none(
                start.units@,
                start.hero_order@,
                |unit: Unit| crowned(unit),
                |unit: Unit| unit.alive,
            );
        }
        let mut k: usize = 0;
        while k < self.hero_order.len()
            invariant
                self.wf(),
                start.wf(),
                k <= self.hero_order@.len(),
                *self == (Game { units: self.units, ..start }),
                self.units@ == crowned_units(start.units@, start.hero_order@, k as nat),
            decreases self.hero_order.len() - k,
        {
            let id = self.hero_order[k];
            let ghost before = *self;
            proof {
                lemma_wf_ids(start);
                lemma_wf_ids(*self);
            }
            match self.unit_index(id) {
                Some(index) => {
                    if self.units[index].alive {
                        self.crown_unit(index);
                    }
                    proof {
                        lemma_crowned_next(
                            start.units@,
                            start.hero_order@,
                            k as int,
                            before.units@,
                            self.units@,
                            Some(index as int),
                        );
                    }
                },
                None => {
                    proof {
                        lemma_crowned_next(
                            start.units@,
                            start.hero_order@,
                            k as int,
                            before.units@,
                            self.units@,
                            None,
                        );
                    }
                },
            }
            k = k + 1;
        }
    }

    /// Every living hero in turn order stands on the stairway.
    pub open spec fn spec_all_living_on_stairs(self) -> bool {
        forall|k: int|
            0 <= k < self.hero_order@.len() ==> match self.spec_unit(#[trigger] self.hero_order@[k]) {
                Some(hero) => !hero.alive || self.stairs@.contains(hero.pos),
                None => true,
            }
    }

    /// A living hero in turn order carries the artifact.
    pub open spec fn spec_artifact_held(self, artifact: Artifact) -> bool {
        exists|k: int|
            0 <= k < self.hero_order@.len() && (self.spec_unit(#[trigger] self.hero_order@[k]) matches Some(
                hero,
            ) && hero.alive && hero.inventory.artifacts@.contains(artifact))
    }

    /// Whether the quest's goal, apart from returning to the stairway, is met.
    pub open spec fn spec_objective_done(self) -> bool {
        match self.objective {
            ObjectiveDef::DefeatNamed { name, .. } => first_named(
                self.units@,
                name@,
                false,
                self.units@.len(),
            ) matches Some(i) && !self.units@[i].alive,
            ObjectiveDef::DefeatNamedAndReturn { name, .. } => first_named(
                self.units@,
                name@,
                false,
                self.units@.len(),
            ) matches Some(i) && !self.units@[i].alive,
            ObjectiveDef::DefeatAllAndReturn => all_monsters_cleared(self.units@),
            ObjectiveDef::DefeatAll => all_monsters_cleared(self.units@),
            ObjectiveDef::ReachStairs => true,
            ObjectiveDef::RescueNamedAndReturn { name, .. } => first_named(
                self.units@,
                name@,
                true,
                self.units@.len(),
            ) matches Some(i) && self.units@[i].alive && self.stairs@.contains(self.units@[i].pos),
            ObjectiveDef::ReturnQuestItems { count, .. } => delivered_upto(
                self.quest_items@,
                self.quest_items@.len(),
            ) >= count,
            ObjectiveDef::FindArtifactAndReturn { artifact } => self.spec_artifact_held(artifact),
            ObjectiveDef::ResolveEventAndReturn { event, .. } => first_event(
                self.quest_events@,
                event@,
                self.quest_events@.len(),
            ) matches Some(i) && self.quest_events@[i].resolved,
            ObjectiveDef::EscapeIndependently => false,
            ObjectiveDef::DefeatAllOrEscapeIndependently => false,
        }
    }

    fn all_monsters_dead(&self) -> (dead: bool)
        ensures
            dead == all_monsters_dead(self.units@),
    {
        let mut i: usize = 0;
        while i < self.units.len()
            invariant
                i <= self.units@.len(),
                forall|j: int|
                    0 <= j < i && #[trigger] self.units@[j].faction == Faction::Monster
                        ==> !self.units@[j].alive,
            decreases self.units.len() - i,
        {
            if self.units[i].faction == Faction::Monster && self.units[i].alive {
                return false;
            }
            i = i + 1;
        }
        true
    }

    fn all_monsters_cleared(&self) -> (cleared: bool)
        ensures
            cleared == all_monsters_cleared(self.units@),
    {
        let mut i: usize = 0;
        while i < self.units.len()
            invariant
                i <= self.units@.len(),
                forall|j: int|
                    0 <= j < i && #[trigger] self.units@[j].faction == Faction::Monster
                        ==> !self.units@[j].alive || self.units@[j].dormant,
            decreases self.units.len() - i,
        {
            if self.units[i].faction == Faction::Monster && self.units[i].alive
                && !self.units[i].dormant {
                return false;
            }
            i = i + 1;
        }
        true
    }

    pub(crate) fn all_living_on_stairs(&self) -> (on_stairs: bool)
        requires
            self.wf(),
        ensures
            on_stairs == self.spec_all_living_on_stairs(),
    {
        let mut k: usize = 0;
        while k < self.hero_order.len()
            invariant
                self.wf(),
                k <= self.hero_order@.len(),
                forall|j: int|
                    0 <= j < k ==> match self.spec_unit(#[trigger] self.hero_order@[j]) {
                        Some(hero) => !hero.alive || self.stairs@.contains(hero.pos),
                        None => true,
                    },
            decreases self.hero_order.len() - k,
        {
            match self.unit(self.hero_order[k]) {
                Some(hero) => {
                    if hero.alive && !contains_pos(&self.stairs, hero.pos) {
                        return false;
                    }
                },
                None => {},
            }
            k = k + 1;
        }
        true
    }

    fn artifact_held(&self, artifact: Artifact) -> (held: bool)
        requires
            self.wf(),
        ensures
            held == self.spec_artifact_held(artifact),
    {
        let mut k: usize = 0;
        while k < self.hero_order.len()
            invariant
                self.wf(),
                k <= self.hero_order@.len(),
                forall|j: int|
                    0 <= j < k ==> !(self.spec_unit(#[trigger] self.hero_order@[j]) matches Some(
                        hero,
                    ) && hero.alive && hero.inventory.artifacts@.contains(artifact)),
            decreases self.hero_order.len() - k,
        {
            match self.unit(self.hero_order[k]) {
                Some(hero) => {
                    if hero.alive && contains_artifact(&hero.inventory.artifacts, artifact) {
                        return true;
                    }
                },
                None => {},
            }
            k = k + 1;
        }
        false
    }

    pub(crate) fn find_named(&self, name: &String, hero_only: bool) -> (found: Option<usize>)
        ensures
            match found {
                Some(i) => first_named(self.units@, name@, hero_only, self.units@.len()) == Some(
                    i as int,
                ),
                None => first_named(self.units@, name@, hero_only, self.units@.len()) is None,
            },
            found matches Some(i) ==> i < self.units@.len(),
    {
        let mut i: usize = 0;
        while i < self.units.len()
            invariant
                i <= self.units@.len(),
                first_named(self.units@, name@, hero_only, i as nat) is None,
            decreases self.units.len() - i,
        {
            if self.units[i].name == *name && (!hero_only || self.units[i].faction
                == Faction::Hero) {
                assert(first_named(self.units@, name@, hero_only, (i + 1) as nat) == Some(i as int));
                proof {
                    lemma_first_named_stays(self.units@, name@, hero_only, (i + 1) as nat, self.units@.len());
                }
                return Some(i);
            }
            i = i + 1;
        }
        None
    }

    fn find_event(&self, id: &String) -> (found: Option<usize>)
        ensures
            match found {
                Some(i) => first_event(self.quest_events@, id@, self.quest_events@.len()) == Some(
                    i as int,
                ),
                None => first_event(self.quest_events@, id@, self.quest_events@.len()) is None,
            },
            found matches Some(i) ==> i < self.quest_events@.len(),
    {
        let mut i: usize = 0;
        while i < self.quest_events.len()
            invariant
                i <= self.quest_events@.len(),
                first_event(self.quest_events@, id@, i as nat) is None,
            decreases self.quest_events.len() - i,
        {
            if self.quest_events[i].id == *id {
                assert(first_event(self.quest_events@, id@, (i + 1) as nat) == Some(i as int));
                proof {
                    lemma_first_event_stays(
                        self.quest_events@,
                        id@,
                        (i + 1) as nat,
                        self.quest_events@.len(),
                    );
                }
                return Some(i);
            }
            i = i + 1;
        }
        None
    }

    fn delivered_quest_items(&self) -> (count: usize)
        ensures
            count == delivered_upto(self.quest_items@, self.quest_items@.len()),
    {
        let mut count: usize = 0;
        let mut i: usize = 0;
        while i < self.quest_items.len()
            invariant
                i <= self.quest_items@.len(),
                count == delivered_upto(self.quest_items@, i as nat),
                count <= i,
            decreases self.quest_items.len() - i,
        {
            if self.quest_items[i].delivered {
                count = count + 1;
            }
            i = i + 1;
        }
        count
    }

    fn objective_done(&self) -> (done: bool)
        requires
            self.wf(),
        ensures
            done == self.spec_objective_done(),
    {
        match &self.objective {
            ObjectiveDef::DefeatNamed { name, .. } | ObjectiveDef::DefeatNamedAndReturn {
                name,
                ..
            } => match self.find_named(name, false) {
                Some(i) => !self.units[i].alive,
                None => false,
            },
            ObjectiveDef::DefeatAllAndReturn | ObjectiveDef::DefeatAll => self.all_monsters_cleared(),
            ObjectiveDef::ReachStairs => true,
            ObjectiveDef::RescueNamedAndReturn { name, .. } => match self.find_named(name, true) {
                Some(i) => self.units[i].alive && contains_pos(&self.stairs, self.units[i].pos),
                None => false,
            },
            ObjectiveDef::ReturnQuestItems { count, .. } => self.delivered_quest_items()
                >= *count as usize,
            ObjectiveDef::FindArtifactAndReturn { artifact } => self.artifact_held(*artifact),
            ObjectiveDef::ResolveEventAndReturn { event, .. } => match self.find_event(event) {
                Some(i) => self.quest_events[i].resolved,
                None => false,
            },
            ObjectiveDef::EscapeIndependently | ObjectiveDef::DefeatAllOrEscapeIndependently => false,
        }
    }

    /// The phase once the end of the quest has been checked: the heroes win
    /// an escape quest when every monster is dead (where that counts) or
    /// when none remains in the dungeon and one escaped, and lose it when
    /// none escaped; otherwise they lose with no hero alive, and win once
    /// the goal is met and, where the quest asks it, every living hero is
    /// on the stairway.
    pub open spec fn spec_settled_phase(self) -> GamePhase {
        if is_terminal_phase(self.phase) || self.pending_hero_death is Some {
            self.phase
        } else if is_escape_objective(self.objective) {
            if self.objective is DefeatAllOrEscapeIndependently && all_monsters_dead(self.units@) {
                GamePhase::Won
            } else if self.spec_tally(HeroTally::Standing) == 0 {
                if self.spec_tally(HeroTally::Escaped) > 0 {
                    GamePhase::Won
                } else {
                    GamePhase::Lost
                }
            } else {
                self.phase
            }
        } else if self.spec_tally(HeroTally::Living) == 0 {
            GamePhase::Lost
        } else if self.spec_objective_done() && (!heroes_must_return(self.objective)
            || self.spec_all_living_on_stairs()) {
            GamePhase::Won
        } else {
            self.phase
        }
    }

    /// The figures once the end of the quest has been checked: fool's gold
    /// vanishes when a defeat-all escape quest is won, and a won quest pays
    /// its rescue reward, its reward to each returning hero, or its
    /// Champion titles.
    pub open spec fn spec_settled_units(self) -> Seq<Unit> {
        let order = self.hero_order@;
        if is_terminal_phase(self.phase) || self.pending_hero_death is Some {
            self.units@
        } else if is_escape_objective(self.objective) {
            if self.objective is DefeatAllOrEscapeIndependently && (all_monsters_dead(self.units@)
                || (self.spec_tally(HeroTally::Standing) == 0 && self.spec_tally(HeroTally::Escaped)
                > 0)) {
                unfooled_units(self.units@, order, order.len())
            } else {
                self.units@
            }
        } else if self.spec_settled_phase() == GamePhase::Won {
            match self.objective {
                ObjectiveDef::RescueNamedAndReturn { reward_gold, .. } => split_units(
                    self.units@,
                    self.living_ids(),
                    reward_gold,
                    self.living_ids().len(),
                ),
                ObjectiveDef::ReturnQuestItems { reward_gold, .. } => split_units(
                    self.units@,
                    self.living_ids(),
                    reward_gold,
                    self.living_ids().len(),
                ),
                ObjectiveDef::DefeatNamedAndReturn { reward_gold_per_hero, .. } => if reward_gold_per_hero
                    > 0 {
                    rewarded_units(self.units@, order, reward_gold_per_hero, order.len())
                } else {
                    self.units@
                },
                ObjectiveDef::ResolveEventAndReturn { reward_gold_per_hero, .. } => if reward_gold_per_hero
                    > 0 {
                    rewarded_units(self.units@, order, reward_gold_per_hero, order.len())
                } else {
                    self.units@
                },
                ObjectiveDef::DefeatNamed { award_champion_title, .. } => if award_champion_title {
                    crowned_units(self.units@, order, order.len())
                } else {
                    self.units@
                },
                _ => self.units@,
            }
        } else {
            self.units@
        }
    }

    /// `after` is the game once the end of the quest has been checked: the
    /// phase and figures settle, and a quest that ends logs how it ended.
    pub open spec fn settled_into(self, after: Game) -> bool {
        &&& after.phase == self.spec_settled_phase()
        &&& after.units@ == self.spec_settled_units()
        &&& after.phase == self.phase ==> after == self
        &&& after.phase != self.phase ==> after.log@.len() > 0 && after.log@.last()@
            == self.spec_settle_message()
        &&& after == (Game { phase: after.phase, units: after.units, log: after.log, ..self })
    }

    /// Checking a second time whether the quest has ended changes nothing:
    /// a quest found over stays over, and one found still running was left
    /// as it was.
    pub proof fn lemma_settling_is_idempotent(self, once: Game, twice: Game)
        requires
            self.settled_into(once),
            once.settled_into(twice),
        ensures
            twice == once,
    {
    }

    /// The last line logged when the quest ends.
    pub open spec fn spec_settle_message(self) -> Seq<char> {
        if is_escape_objective(self.objective) {
            if self.objective is DefeatAllOrEscapeIndependently && all_monsters_dead(self.units@) {
                "Every monster trapped in the castle has been defeated."@
            } else if self.spec_tally(HeroTally::Escaped) > 0 {
                "Every surviving Hero escaped independently."@
            } else {
                "No Hero escaped the dungeon."@
            }
        } else if self.spec_tally(HeroTally::Living) == 0 {
            "No hero remains standing."@
        } else {
            match self.objective {
                ObjectiveDef::DefeatNamed { .. } => "The Witch Lord has vanished in foul black smoke; the campaign is won."@,
                ObjectiveDef::DefeatAll => "Every awakened monster in the Bastion of Chaos has been defeated."@,
                _ => "The surviving heroes return safely to the stairway."@,
            }
        }
    }

    pub(crate) fn log_text(&mut self, text: &str)
        requires
            old(self).wf(),
        ensures
            final(self).wf(),
            final(self).log@.len() > 0,
            final(self).log@.last()@ == text@,
            logged_one_line(old(self).log@, final(self).log@),
            *final(self) == (Game { log: final(self).log, ..*old(self) }),
    {
        let line = String::from_str(text);
        self.push_log(line);
    }

    fn log_amount(&mut self, before: &str, amount: u16, after: &str)
        requires
            old(self).wf(),
        ensures
            final(self).wf(),
            logged_one_line(old(self).log@, final(self).log@),
            *final(self) == (Game { log: final(self).log, ..*old(self) }),
    {
        let mut line = String::from_str(before);
        let number = amount.to_string();
        line.append(number.as_str());
        line.append(after);
        self.push_log(line);
    }

    /// Ends the quest when it is won or lost, paying out the quest's rewards.
    pub fn check_terminal(&mut self)
        requires
            old(self).wf(),
        ensures
            final(self).wf(),
            final(self).phase == old(self).spec_settled_phase(),
            final(self).units@ == old(self).spec_settled_units(),
            final(self).phase == old(self).phase ==> *final(self) == *old(self),
            final(self).phase != old(self).phase ==> final(self).log@.len() > 0
                && final(self).log@.last()@ == old(self).spec_settle_message(),
            *final(self) == (Game {
                phase: final(self).phase,
                units: final(self).units,
                log: final(self).log,
                ..*old(self)
            }),
    {
        if matches!(self.phase, GamePhase::Won | GamePhase::Retreated | GamePhase::Lost) {
            return;
        }
        if self.pending_hero_death.is_some() {
            return;
        }
        if matches!(
            self.objective,
            ObjectiveDef::EscapeIndependently | ObjectiveDef::DefeatAllOrEscapeIndependently
        ) {
            let defeat_all = matches!(self.objective, ObjectiveDef::DefeatAllOrEscapeIndependently);
            if defeat_all && self.all_monsters_dead() {
                self.discard_fools_gold_at_quest_end();
                self.set_phase(GamePhase::Won);
                self.log_text("Every monster trapped in the castle has been defeated.");
                return;
            }
            if self.active_hero_count() == 0 {
                if self.escaped_hero_count() > 0 {
                    if defeat_all {
                        self.discard_fools_gold_at_quest_end();
                    }
                    self.set_phase(GamePhase::Won);
                    self.log_text("Every surviving Hero escaped independently.");
                } else {
                    self.set_phase(GamePhase::Lost);
                    self.log_text("No Hero escaped the dungeon.");
                }
            }
            return;
        }
        if self.living_hero_count() == 0 {
            self.set_phase(GamePhase::Lost);
            self.log_text("No hero remains standing.");
            return;
        }
        let all_living_on_stairs = self.all_living_on_stairs();
        let objective_done = self.objective_done();
        let heroes_must_return = !matches!(
            self.objective,
            ObjectiveDef::DefeatNamed { .. } | ObjectiveDef::RescueNamedAndReturn { .. }
                | ObjectiveDef::DefeatAll
        );
        if objective_done && (!heroes_must_return || all_living_on_stairs) {
            let ghost start = *self;
            assert(start.spec_settled_phase() == GamePhase::Won);
            let rescue_reward: Option<u16> = match &self.objective {
                ObjectiveDef::RescueNamedAndReturn { reward_gold, .. }
                | ObjectiveDef::ReturnQuestItems { reward_gold, .. } => Some(*reward_gold),
                _ => None,
            };
            if let Some(reward_gold) = rescue_reward {
                if self.living_hero_count() > 0 {
                    self.split_gold_among_living_heroes(reward_gold);
                    assert(self.units@ == start.spec_settled_units());
                    self.log_amount(
                        "Prince Magnus awarded the surviving Heroes ",
                        reward_gold,
                        " gold coins.",
                    );
                }
            }
            let reward_gold_per_hero: u16 = match &self.objective {
                ObjectiveDef::DefeatNamedAndReturn { reward_gold_per_hero, .. }
                | ObjectiveDef::ResolveEventAndReturn { reward_gold_per_hero, .. } => *reward_gold_per_hero,
                _ => 0,
            };
            if reward_gold_per_hero > 0 {
                assert(self.units@ == start.units@);
                self.reward_each_living_hero(reward_gold_per_hero);
                assert(self.units@ == start.spec_settled_units());
                self.log_amount(
                    "Each Hero returning safely receives ",
                    reward_gold_per_hero,
                    " gold coins.",
                );
            }
            if matches!(self.objective, ObjectiveDef::DefeatNamed { award_champion_title: true, .. }) {
                assert(self.units@ == start.units@);
                self.crown_living_heroes();
                assert(self.units@ == start.spec_settled_units());
                self.log_text("The Emperor awards every surviving Hero the title of Champion.");
            }
            assert(self.units@ == start.spec_settled_units());
            self.set_phase(GamePhase::Won);
            match &self.objective {
                ObjectiveDef::DefeatNamed { .. } => self.log_text(
                    "The Witch Lord has vanished in foul black smoke; the campaign is won.",
                ),
                ObjectiveDef::DefeatAll => self.log_text(
                    "Every awakened monster in the Bastion of Chaos has been defeated.",
                ),
                _ => self.log_text("The surviving heroes return safely to the stairway."),
            }
        }
    }

    /// At the end of the quest every hero's fool's gold vanishes.
    fn discard_fools_gold_at_quest_end(&mut self)
        requires
            old(self).wf(),
        ensures
            final(self).wf(),
            final(self).units@ == unfooled_units(
                old(self).units@,
                old(self).hero_order@,
                old(self).hero_order@.len(),
            ),
            final(self).log@ == old(self).log@ || logged_one_line(old(self).log@, final(self).log@),
            *final(self) == (Game { units: final(self).units, log: final(self).log, ..*old(self) }),
    {
        let ghost start = *self;
        proof {
            lemma_unfooled_none(start.units@, start.hero_order@);
        }
        let mut discarded: u64 = 0;
        let mut k: usize = 0;
        while k < self.hero_order.len()
            invariant
                self.wf(),
                start.wf(),
                k <= self.hero_order@.len(),
                *self == (Game { units: self.units, ..start }),
                self.units@ == unfooled_units(start.units@, start.hero_order@, k as nat),
            decreases self.hero_order.len() - k,
        {
            let id = self.hero_order[k];
            let ghost before = *self;
            proof {
                lemma_wf_ids(start);
                lemma_wf_ids(*self);
            }
            match self.unit_index(id) {
                Some(index) => {
                    discarded = discarded.saturating_add(self.units[index].inventory.fools_gold as u64);
                    self.clear_unit_fools_gold(index);
                    proof {
                        lemma_unfooled_next(
                            start.units@,
                            start.hero_order@,
                            k as int,
                            before.units@,
                            self.units@,
                            Some(index as int),
                        );
                    }
                },
                None => {
                    proof {
                        lemma_unfooled_next(
                            start.units@,
                            start.hero_order@,
                            k as int,
                            before.units@,
                            self.units@,
                            None,
                        );
                    }
                },
            }
            k = k + 1;
        }
        if discarded > 0 {
            let mut message = String::from_str("Ollar's mine treasure was fool's gold: all ");
            let amount = discarded.to_string();
            message.append(amount.as_str());
            message.append(" carried coins vanish, while other treasure remains real.");
            self.push_log(message);
        }
    }
}

/// Whether a quest item has been brought back.
pub open spec fn item_delivered() -> spec_fn(QuestItem) -> bool {
    |item: QuestItem| item.delivered
}

/// The count of delivered items among the first `n` is the number of
/// delivered items in that prefix.
proof fn lemma_delivered_count(items: Seq<QuestItem>, n: nat)
    requires
        n <= items.len(),
    ensures
        delivered_upto(items, n) == items.take(n as int).filter(item_delivered()).len(),
    decreases n,
{
    reveal(Seq::filter);
    if n > 0 {
        lemma_delivered_count(items, (n - 1) as nat);
        assert(items.take(n as int).drop_last() =~= items.take(n - 1));
        assert(items.take(n as int).last() == items[n - 1]);
    }
}

impl Game {
    /// A quest to bring back quest items is won only once at least as many
    /// of its items have been delivered as it asks for.
    pub proof fn lemma_items_quest_needs_deliveries(self)
        requires
            self.objective is ReturnQuestItems,
            !is_terminal_phase(self.phase),
            self.spec_settled_phase() == GamePhase::Won,
        ensures
            self.objective matches ObjectiveDef::ReturnQuestItems { count, .. }
                && self.quest_items@.filter(item_delivered()).len() >= count,
    {
        lemma_delivered_count(self.quest_items@, self.quest_items@.len());
        assert(self.quest_items@.take(self.quest_items@.len() as int) =~= self.quest_items@);
    }

    /// Outside the escape quests, a quest is won only while some hero
    /// lives, and, where the quest asks the heroes to return, with every
    /// living hero in the turn order on the stairway.
    pub proof fn lemma_won_needs_survivors_home(self)
        requires
            !is_escape_objective(self.objective),
            !is_terminal_phase(self.phase),
            self.spec_settled_phase() == GamePhase::Won,
        ensures
            self.spec_tally(HeroTally::Living) > 0,
            heroes_must_return(self.objective) ==> forall|k: int|
                0 <= k < self.hero_order@.len() ==> match self.spec_unit(#[trigger] self.hero_order@[k]) {
                    Some(hero) => !hero.alive || self.stairs@.contains(hero.pos),
                    None => true,
                },
    {
    }

    /// A quest to defeat every monster is won only when no monster still
    /// stands awake on the board.
    pub proof fn lemma_defeat_all_needs_no_monster_left(self)
        requires
            self.objective is DefeatAll || self.objective is DefeatAllAndReturn,
            !is_terminal_phase(self.phase),
            self.spec_settled_phase() == GamePhase::Won,
        ensures
            forall|i: int|
                0 <= i < self.units@.len() && #[trigger] self.units@[i].faction == Faction::Monster
                    ==> !self.units@[i].alive || self.units@[i].dormant,
    {
    }
}

} // verus!
