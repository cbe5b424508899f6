//! The boxed miniatures: which physical piece and sculpt stands for each
//! monster on the board, reusing the pieces of defeated monsters and, when a
//! kind runs short, another piece of the same colour.
use vstd::prelude::*;

use crate::engine::{has_unit_id, lemma_slot_of, lemma_wf_ids, spec_cell_index, unit_slot, Game};
use crate::game::{
    model_slot_class, model_slots, original_us_monster_figure_count, same_color_monster_figures,
    spec_figure_count, spec_model_slots, spec_same_color, Unit, UnitId,
};
use crate::model::{FigureKind, MonsterKind};
use crate::quest::MonsterModelVariant;
use crate::strike::{reshape_fits, reshaped, Reshape};

verus! {

/// `after` holds the same figures as `before`, in the same order, each on
/// its square with what it carries.
pub open spec fn same_places(before: Seq<Unit>, after: Seq<Unit>) -> bool {
    &&& after.len() == before.len()
    &&& forall|i: int|
        #![trigger after[i]]
        0 <= i < before.len() ==> after[i].id == before[i].id && after[i].pos == before[i].pos
            && after[i].carried_quest_item == before[i].carried_quest_item
}

impl Game {
    /// `after` keeps this game's fixtures: the board pieces, quest items,
    /// turn order, starting squares, stairway and objective, and each figure
    /// in its place.
    pub open spec fn fixtures_kept(self, after: Game) -> bool {
        &&& after.props == self.props
        &&& after.quest_items == self.quest_items
        &&& after.hero_order == self.hero_order
        &&& after.hero_start_positions == self.hero_start_positions
        &&& after.stairs == self.stairs
        &&& after.objective == self.objective
        &&& same_places(self.units@, after.units@)
    }
}

/// How many of `units` satisfy `counted`.
pub open spec fn count_units(units: Seq<Unit>, counted: spec_fn(Unit) -> bool) -> nat
    decreases units.len(),
{
    if units.len() == 0 {
        0
    } else {
        count_units(units.drop_last(), counted) + if counted(units.last()) {
            1nat
        } else {
            0nat
        }
    }
}

proof fn lemma_count_step(units: Seq<Unit>, i: int, counted: spec_fn(Unit) -> bool)
    requires
        0 <= i < units.len(),
    ensures
        count_units(units.take(i + 1), counted) == count_units(units.take(i), counted) + if counted(
            units[i],
        ) {
            1nat
        } else {
            0nat
        },
        count_units(units.take(i), counted) <= i,
    decreases i,
{
    assert(units.take(i + 1).drop_last() =~= units.take(i));
    if i > 0 {
        lemma_count_step(units, i - 1, counted);
    } else {
        assert(units.take(0) =~= Seq::<Unit>::empty());
    }
}

/// The monster stands revealed on the board without a piece of its own yet.
pub open spec fn needs_placement(game: Game, unit: Unit) -> bool {
    &&& unit.alive
    &&& !unit.escaped
    &&& !unit.hidden_until_activated
    &&& unit.physical_figure is None
    &&& unit.figure is Monster
    &&& game.cells@[spec_cell_index(unit.pos)].revealed
}

/// A living figure that holds a `kind` piece.
pub open spec fn holds_piece(kind: MonsterKind) -> spec_fn(Unit) -> bool {
    |unit: Unit| unit.alive && unit.physical_figure == Some(FigureKind::Monster(kind))
}

/// The boxed piece a sculpt is made from.
pub open spec fn class_spec(v: MonsterModelVariant) -> MonsterModelVariant {
    if v == MonsterModelVariant::OrcStaff {
        MonsterModelVariant::OrcSword
    } else {
        v
    }
}

/// How many of `slots` are of the sculpt class `class`.
pub open spec fn count_class(slots: Seq<MonsterModelVariant>, class: MonsterModelVariant) -> nat
    decreases slots.len(),
{
    if slots.len() == 0 {
        0
    } else {
        count_class(slots.drop_last(), class) + if class_spec(slots.last()) == class {
            1nat
        } else {
            0nat
        }
    }
}

/// The sculpt class of an optional sculpt.
pub open spec fn slot_class(variant: Option<MonsterModelVariant>) -> Option<MonsterModelVariant> {
    match variant {
        Some(v) => Some(
            if v == MonsterModelVariant::OrcStaff {
                MonsterModelVariant::OrcSword
            } else {
                v
            },
        ),
        None => None,
    }
}

/// A living figure that holds a `kind` piece of the sculpt class `class`.
pub open spec fn holds_sculpt(kind: MonsterKind, class: MonsterModelVariant) -> spec_fn(Unit) -> bool {
    |unit: Unit|
        unit.alive && unit.physical_figure == Some(FigureKind::Monster(kind)) && slot_class(
            unit.model_variant,
        ) == Some(class)
}

/// A living `kind` monster other than `exclude`, still without a piece,
/// whose quest asks for the sculpt class `class`.
pub open spec fn awaits_sculpt(kind: MonsterKind, class: MonsterModelVariant, exclude: UnitId) -> spec_fn(
    Unit,
) -> bool {
    |unit: Unit|
        unit.id != exclude && unit.alive && unit.physical_figure is None && unit.figure
            == FigureKind::Monster(kind) && slot_class(unit.model_variant) == Some(class)
}

/// The first sculpt, from the `i`-th slot of the box on, whose class has a
/// piece neither held by a living figure nor promised to another monster.
pub open spec fn first_open(units: Seq<Unit>, kind: MonsterKind, target: UnitId, i: int) -> Option<
    Option<MonsterModelVariant>,
>
    decreases spec_model_slots(kind).len() - i,
{
    let slots = spec_model_slots(kind);
    if i < 0 || i >= slots.len() {
        None
    } else {
        let c = class_spec(slots[i]);
        if count_units(units, holds_sculpt(kind, c)) + count_units(units, awaits_sculpt(kind, c, target))
            < count_class(slots, c) {
            Some(Some(slots[i]))
        } else {
            first_open(units, kind, target, i + 1)
        }
    }
}

/// The sculpt a new `kind` piece for `target` shows: the preferred one while
/// its class has a piece free, else the first sculpt whose class is neither
/// taken nor promised; `None` when every sculpt is spoken for, and
/// `Some(None)` for a kind with a single sculpt.
pub open spec fn spec_available_variant(
    units: Seq<Unit>,
    kind: MonsterKind,
    preferred: Option<MonsterModelVariant>,
    target: UnitId,
) -> Option<Option<MonsterModelVariant>> {
    let slots = spec_model_slots(kind);
    if slots.len() == 0 {
        Some(None)
    } else if preferred matches Some(p) && count_units(units, holds_sculpt(kind, class_spec(p)))
        < count_class(slots, class_spec(p)) {
        Some(preferred)
    } else {
        first_open(units, kind, target, 0)
    }
}

fn class_of(variant: Option<MonsterModelVariant>) -> (class: Option<MonsterModelVariant>)
    ensures
        class == slot_class(variant),
{
    match variant {
        Some(v) => Some(model_slot_class(v)),
        None => None,
    }
}

/// How many sculpts of the class `class` the box holds among `slots`.
fn class_capacity(slots: &Vec<MonsterModelVariant>, class: MonsterModelVariant) -> (capacity: usize)
    ensures
        capacity == count_class(slots@, class),
        capacity <= slots@.len(),
{
    let mut capacity: usize = 0;
    let mut i: usize = 0;
    while i < slots.len()
        invariant
            i <= slots@.len(),
            capacity == count_class(slots@.take(i as int), class),
            capacity <= i,
        decreases slots.len() - i,
    {
        assert(slots@.take(i + 1).drop_last() =~= slots@.take(i as int));
        if model_slot_class(slots[i]) == class {
            capacity = capacity + 1;
        }
        i = i + 1;
    }
    assert(slots@.take(i as int) =~= slots@);
    capacity
}

impl Game {
    /// Whether the monster `unit` stands revealed without a piece of its own.
    fn unit_needs_physical_placement(&self, unit: &Unit) -> (needs: bool)
        requires
            self.wf(),
            crate::engine::spec_in_bounds(unit.pos),
        ensures
            needs == needs_placement(*self, *unit),
    {
        proof {
            reveal(Game::wf);
        }
        unit.alive && !unit.escaped && !unit.hidden_until_activated && unit.physical_figure.is_none()
            && matches!(unit.figure, FigureKind::Monster(_))
            && self.cells[Self::cell_index(unit.pos)].revealed
    }

    /// How many living figures hold a `kind` piece.
    fn assigned_physical_count(&self, kind: MonsterKind) -> (count: usize)
        ensures
            count == count_units(self.units@, holds_piece(kind)),
    {
        let mut count: usize = 0;
        let mut i: usize = 0;
        while i < self.units.len()
            invariant
                i <= self.units@.len(),
                count == count_units(self.units@.take(i as int), holds_piece(kind)),
            decreases self.units.len() - i,
        {
            proof {
                lemma_count_step(self.units@, i as int, holds_piece(kind));
            }
            if self.units[i].alive && self.units[i].physical_figure == Some(FigureKind::Monster(kind)) {
                count = count + 1;
            }
            i = i + 1;
        }
        assert(self.units@.take(i as int) =~= self.units@);
        count
    }

    /// How many living figures hold a `kind` piece of the sculpt class
    /// `class`.
    fn assigned_model_class_count(&self, kind: MonsterKind, class: MonsterModelVariant) -> (count:
        usize)
        ensures
            count == count_units(self.units@, holds_sculpt(kind, class)),
    {
        let mut count: usize = 0;
        let mut i: usize = 0;
        while i < self.units.len()
            invariant
                i <= self.units@.len(),
                count == count_units(self.units@.take(i as int), holds_sculpt(kind, class)),
            decreases self.units.len() - i,
        {
            proof {
                lemma_count_step(self.units@, i as int, holds_sculpt(kind, class));
            }
            if self.units[i].alive && self.units[i].physical_figure == Some(FigureKind::Monster(kind))
                && class_of(self.units[i].model_variant) == Some(class) {
                count = count + 1;
            }
            i = i + 1;
        }
        assert(self.units@.take(i as int) =~= self.units@);
        count
    }

    /// How many other `kind` monsters still wait for a piece of the sculpt
    /// class `class`.
    fn reserved_model_class_count(&self, kind: MonsterKind, class: MonsterModelVariant, exclude: UnitId)
        -> (count: usize)
        ensures
            count == count_units(self.units@, awaits_sculpt(kind, class, exclude)),
    {
        let mut count: usize = 0;
        let mut i: usize = 0;
        while i < self.units.len()
            invariant
                i <= self.units@.len(),
                count == count_units(self.units@.take(i as int), awaits_sculpt(kind, class, exclude)),
            decreases self.units.len() - i,
        {
            proof {
                lemma_count_step(self.units@, i as int, awaits_sculpt(kind, class, exclude));
            }
            if self.units[i].id != exclude && self.units[i].alive && self.units[i].physical_figure.is_none()
                && self.units[i].figure == FigureKind::Monster(kind) && class_of(
                self.units[i].model_variant,
            ) == Some(class) {
                count = count + 1;
            }
            i = i + 1;
        }
        assert(self.units@.take(i as int) =~= self.units@);
        count
    }

    /// The sculpt a new `kind` piece would show: the preferred one while its
    /// class has a free piece, else the first sculpt whose class is neither
    /// taken nor promised; `None` when every sculpt is spoken for, and
    /// `Some(None)` for a kind with a single sculpt.
    fn available_model_variant(
        &self,
        kind: MonsterKind,
        preferred: Option<MonsterModelVariant>,
        target: UnitId,
    ) -> (variant: Option<Option<MonsterModelVariant>>)
        ensures
            variant == spec_available_variant(self.units@, kind, preferred, target),
    {
        let slots = model_slots(kind);
        if slots.len() == 0 {
            return Some(None);
        }
        if let Some(preferred) = preferred {
            let class = model_slot_class(preferred);
            let capacity = class_capacity(&slots, class);
            if self.assigned_model_class_count(kind, class) < capacity {
                return Some(Some(preferred));
            }
        }
        let mut i: usize = 0;
        while i < slots.len()
            invariant
                slots@ == spec_model_slots(kind),
                slots@.len() > 0,
                i <= slots@.len(),
                spec_available_variant(self.units@, kind, preferred, target) == first_open(
                    self.units@,
                    kind,
                    target,
                    i as int,
                ),
            decreases slots.len() - i,
        {
            let variant = slots[i];
            let class = model_slot_class(variant);
            let capacity = class_capacity(&slots, class);
            let assigned = self.assigned_model_class_count(kind, class);
            let reserved = self.reserved_model_class_count(kind, class, target);
            if assigned < capacity && reserved < capacity - assigned {
                assert(slots@[i as int] == variant);
                return Some(Some(variant));
            }
            i = i + 1;
        }
        None
    }
}

/// Which defeated figure's piece may be taken up again.
pub enum Reuse {
    /// A `kind` piece of the sculpt class `class`.
    Sculpt { kind: MonsterKind, class: MonsterModelVariant },
    /// Any `kind` piece.
    Kind { kind: MonsterKind },
    /// A piece of any kind of the colour of `of`.
    Colour { of: MonsterKind },
}

/// The defeated `unit` left a piece that `rule` lets a new monster take.
pub open spec fn reusable(unit: Unit, rule: Reuse) -> bool {
    &&& !unit.alive
    &&& unit.physical_figure matches Some(FigureKind::Monster(held))
    &&& match rule {
        Reuse::Sculpt { kind, class } => held == kind && slot_class(unit.model_variant) == Some(
            class,
        ),
        Reuse::Kind { kind } => held == kind,
        Reuse::Colour { of } => spec_same_color(of).contains(held),
    }
}

/// `i` is the first of `units` whose piece `rule` lets a new monster take.
pub open spec fn first_at(units: Seq<Unit>, rule: Reuse, i: int) -> bool {
    &&& 0 <= i < units.len()
    &&& reusable(units[i], rule)
    &&& forall|j: int| 0 <= j < i ==> !reusable(#[trigger] units[j], rule)
}

/// The first of `units` whose piece `rule` lets a new monster take, if any.
pub open spec fn first_reusable_slot(units: Seq<Unit>, rule: Reuse) -> Option<int> {
    if exists|i: int| first_at(units, rule, i) {
        Some(choose|i: int| first_at(units, rule, i))
    } else {
        None
    }
}

proof fn lemma_first_at_unique(units: Seq<Unit>, rule: Reuse, i: int, k: int)
    requires
        first_at(units, rule, i),
        first_at(units, rule, k),
    ensures
        i == k,
{
    if k < i {
        assert(!reusable(units[k], rule));
    } else if i < k {
        assert(!reusable(units[i], rule));
    }
}

fn piece_matches(unit: &Unit, rule: &Reuse) -> (fits: bool)
    ensures
        fits == reusable(*unit, *rule),
{
    if unit.alive {
        return false;
    }
    match unit.physical_figure {
        Some(FigureKind::Monster(held)) => match rule {
            Reuse::Sculpt { kind, class } => held == *kind && class_of(unit.model_variant) == Some(
                *class,
            ),
            Reuse::Kind { kind } => held == *kind,
            Reuse::Colour { of } => {
                let kinds = same_color_monster_figures(*of);
                proof {
                    assert(spec_same_color(*of).len() == 3);
                    assert(spec_same_color(*of).contains(held) <==> (held == kinds@[0] || held
                        == kinds@[1] || held == kinds@[2]));
                }
                held == kinds[0] || held == kinds[1] || held == kinds[2]
            },
        },
        _ => false,
    }
}

/// The piece keeps the sculpt the monster asks for: both are of one class.
pub open spec fn keeps_sculpt(
    preferred: Option<MonsterModelVariant>,
    held: Option<MonsterModelVariant>,
) -> bool {
    preferred matches Some(w) && slot_class(held) == Some(class_spec(w))
}

/// The kinds of `colour`, among its first `c`, other than `requested`, in
/// order.
pub open spec fn other_kinds(colour: Seq<MonsterKind>, requested: MonsterKind, c: int) -> Seq<
    MonsterKind,
>
    decreases c,
{
    if c <= 0 {
        Seq::empty()
    } else {
        other_kinds(colour, requested, c - 1) + if colour[c - 1] != requested {
            seq![colour[c - 1]]
        } else {
            Seq::empty()
        }
    }
}

/// The kind and sculpt of the first piece still in the box, among the kinds
/// of `candidates` from the `k`-th on, that a new monster may take.
pub open spec fn boxed_choice(
    units: Seq<Unit>,
    candidates: Seq<MonsterKind>,
    requested: MonsterKind,
    preferred: Option<MonsterModelVariant>,
    target: UnitId,
    k: int,
) -> Option<(MonsterKind, Option<MonsterModelVariant>)>
    decreases candidates.len() - k,
{
    if k < 0 || k >= candidates.len() {
        None
    } else {
        let kind = candidates[k];
        let wanted = if kind == requested {
            preferred
        } else {
            None
        };
        if count_units(units, holds_piece(kind)) >= spec_figure_count(kind) {
            boxed_choice(units, candidates, requested, preferred, target, k + 1)
        } else {
            match spec_available_variant(units, kind, wanted, target) {
                Some(variant) => Some((kind, variant)),
                None => boxed_choice(units, candidates, requested, preferred, target, k + 1),
            }
        }
    }
}

/// The defeated figure whose piece a new `requested` monster takes up: one
/// of the sculpt it asks for, else one of its kind, else one of its colour.
pub open spec fn source_for(
    units: Seq<Unit>,
    requested: MonsterKind,
    preferred: Option<MonsterModelVariant>,
) -> Option<int> {
    let by_sculpt = match preferred {
        Some(w) => first_reusable_slot(units, Reuse::Sculpt { kind: requested, class: class_spec(w) }),
        None => None,
    };
    if by_sculpt is Some {
        by_sculpt
    } else {
        let by_kind = first_reusable_slot(units, Reuse::Kind { kind: requested });
        if by_kind is Some {
            by_kind
        } else {
            first_reusable_slot(units, Reuse::Colour { of: requested })
        }
    }
}

impl Game {
    /// `after` is this game once the monster at `t` has taken up the piece
    /// of the defeated figure at `s`, which gives it up.
    pub open spec fn piece_taken_up(
        self,
        t: int,
        s: int,
        requested: MonsterKind,
        preferred: Option<MonsterModelVariant>,
        after: Game,
        placed: bool,
    ) -> bool {
        let source = self.units@[s];
        match source.physical_figure {
            Some(FigureKind::Monster(kind)) => {
                let emptied = self.units@.update(
                    s,
                    Unit { physical_figure: None, model_variant: None, ..source },
                );
                let variant = if kind == requested && keeps_sculpt(preferred, source.model_variant) {
                    preferred
                } else {
                    source.model_variant
                };
                &&& placed
                &&& after.units@ == emptied.update(
                    t,
                    Unit {
                        physical_figure: Some(FigureKind::Monster(kind)),
                        model_variant: variant,
                        ..emptied[t]
                    },
                )
                &&& after == (Game { units: after.units, ..self })
            },
            _ => !placed && after == self,
        }
    }

    /// `after` is this game once the monster at `t` has taken a piece still
    /// in the box, of its own kind first, else of `colour` in order.
    pub open spec fn boxed_piece_placed(
        self,
        t: int,
        target: UnitId,
        requested: MonsterKind,
        preferred: Option<MonsterModelVariant>,
        colour: Seq<MonsterKind>,
        after: Game,
        placed: bool,
    ) -> bool {
        let candidates = seq![requested] + other_kinds(colour, requested, 3);
        match boxed_choice(self.units@, candidates, requested, preferred, target, 0) {
            Some((kind, variant)) => {
                &&& placed
                &&& after.units@ == self.units@.update(
                    t,
                    Unit {
                        physical_figure: Some(FigureKind::Monster(kind)),
                        model_variant: variant,
                        ..self.units@[t]
                    },
                )
                &&& after == (Game { units: after.units, ..self })
            },
            None => !placed && after == self,
        }
    }

    /// `after` is this game once the figure `target` has been given a
    /// piece; `placed` tells whether it has one.
    pub open spec fn piece_allocated(self, target: UnitId, after: Game, placed: bool) -> bool {
        if !has_unit_id(self.units@, target) {
            !placed && after == self
        } else {
            let t = unit_slot(self.units@, target);
            let unit = self.units@[t];
            if unit.physical_figure is Some {
                placed && after == self
            } else {
                match unit.figure {
                    FigureKind::Hero(_) => !placed && after == self,
                    FigureKind::Monster(requested) => match source_for(
                        self.units@,
                        requested,
                        unit.model_variant,
                    ) {
                        Some(s) => self.piece_taken_up(
                            t,
                            s,
                            requested,
                            unit.model_variant,
                            after,
                            placed,
                        ),
                        None => self.boxed_piece_placed(
                            t,
                            target,
                            requested,
                            unit.model_variant,
                            spec_same_color(requested),
                            after,
                            placed,
                        ),
                    },
                }
            }
        }
    }
}

impl Game {
    /// The first defeated figure whose piece `rule` lets a new monster take.
    fn first_reusable(&self, rule: &Reuse) -> (found: Option<usize>)
        ensures
            found matches Some(i) ==> i < self.units@.len() && !self.units@[i as int].alive
                && self.units@[i as int].physical_figure matches Some(FigureKind::Monster(_)),
            match found {
                Some(i) => first_reusable_slot(self.units@, *rule) == Some(i as int),
                None => first_reusable_slot(self.units@, *rule) is None,
            },
    {
        let mut i: usize = 0;
        while i < self.units.len()
            invariant
                i <= self.units@.len(),
                forall|j: int| 0 <= j < i ==> !reusable(#[trigger] self.units@[j], *rule),
            decreases self.units.len() - i,
        {
            if piece_matches(&self.units[i], rule) {
                proof {
                    assert(first_at(self.units@, *rule, i as int));
                    let k = choose|k: int| first_at(self.units@, *rule, k);
                    lemma_first_at_unique(self.units@, *rule, i as int, k);
                }
                return Some(i);
            }
            i = i + 1;
        }
        proof {
            assert forall|k: int| !first_at(self.units@, *rule, k) by {
                if 0 <= k < self.units@.len() {
                    assert(!reusable(self.units@[k], *rule));
                }
            }
        }
        None
    }

    /// Gives the monster `target` a piece of the box: first a defeated
    /// figure's piece of the same sculpt, kind or colour, else a piece still
    /// in the box, of its own kind or of its colour; returns whether it has
    /// one.
    #[verifier::spinoff_prover]
    #[verifier::rlimit(60)]
    fn allocate_physical_piece(&mut self, target: UnitId) -> (placed: bool)
        requires
            old(self).wf(),
        ensures
            final(self).wf(),
            old(self).piece_allocated(target, *final(self), placed),
            same_places(old(self).units@, final(self).units@),
            *final(self) == (Game { units: final(self).units, ..*old(self) }),
    {
        proof {
            lemma_wf_ids(*self);
        }
        let target_index = match self.unit_index(target) {
            Some(index) => index,
            None => return false,
        };
        proof {
            lemma_slot_of(self.units@, target, target_index as int);
        }
        if self.units[target_index].physical_figure.is_some() {
            return true;
        }
        let requested = match self.units[target_index].figure {
            FigureKind::Monster(kind) => kind,
            FigureKind::Hero(_) => return false,
        };
        let preferred = self.units[target_index].model_variant;
        let same_color = same_color_monster_figures(requested);
        let mut source: Option<usize> = None;
        if let Some(wanted) = preferred {
            source = self.first_reusable(&Reuse::Sculpt { kind: requested, class: model_slot_class(wanted) });
        }
        if source.is_none() {
            source = self.first_reusable(&Reuse::Kind { kind: requested });
        }
        if source.is_none() {
            source = self.first_reusable(&Reuse::Colour { of: requested });
        }
        match source {
            Some(source_index) => self.take_up_piece(target_index, source_index, requested, preferred),
            None => self.place_boxed_piece(target_index, target, requested, preferred, same_color),
        }
    }

    /// The monster at `target_index` takes up the piece of the defeated
    /// figure at `source_index`, keeping the sculpt it asks for when that
    /// piece shows it.
    #[verifier::spinoff_prover]
    #[verifier::rlimit(40)]
    fn take_up_piece(
        &mut self,
        target_index: usize,
        source_index: usize,
        requested: MonsterKind,
        preferred: Option<MonsterModelVariant>,
    ) -> (placed: bool)
        requires
            old(self).wf(),
            target_index < old(self).units@.len(),
            source_index < old(self).units@.len(),
        ensures
            final(self).wf(),
            old(self).piece_taken_up(
                target_index as int,
                source_index as int,
                requested,
                preferred,
                *final(self),
                placed,
            ),
            same_places(old(self).units@, final(self).units@),
            *final(self) == (Game { units: final(self).units, ..*old(self) }),
    {
        let physical_kind = match self.units[source_index].physical_figure {
            Some(FigureKind::Monster(kind)) => kind,
            _ => return false,
        };
        let source_variant = self.units[source_index].model_variant;
        self.unit_reshape(source_index, Reshape::Placed { figure: None, variant: None });
        let keeps_preferred = match preferred {
            Some(wanted) => class_of(source_variant) == Some(model_slot_class(wanted)),
            None => false,
        };
        let variant = if physical_kind == requested && keeps_preferred {
            preferred
        } else {
            source_variant
        };
        self.unit_reshape(
            target_index,
            Reshape::Placed { figure: Some(FigureKind::Monster(physical_kind)), variant },
        );
        true
    }

    /// The monster at `target_index` takes a piece still in the box: of its
    /// own kind if any is left, else of another kind of its colour, with a
    /// sculpt that is free.
    #[verifier::spinoff_prover]
    #[verifier::rlimit(40)]
    fn place_boxed_piece(
        &mut self,
        target_index: usize,
        target: UnitId,
        requested: MonsterKind,
        preferred: Option<MonsterModelVariant>,
        same_color: [MonsterKind; 3],
    ) -> (placed: bool)
        requires
            old(self).wf(),
            target_index < old(self).units@.len(),
        ensures
            final(self).wf(),
            old(self).boxed_piece_placed(
                target_index as int,
                target,
                requested,
                preferred,
                same_color@,
                *final(self),
                placed,
            ),
            same_places(old(self).units@, final(self).units@),
            *final(self) == (Game { units: final(self).units, ..*old(self) }),
    {
        let mut candidates: Vec<MonsterKind> = Vec::new();
        candidates.push(requested);
        let mut c: usize = 0;
        while c < 3
            invariant
                c <= 3,
                candidates@ == seq![requested] + other_kinds(same_color@, requested, c as int),
            decreases 3 - c,
        {
            if same_color[c] != requested {
                candidates.push(same_color[c]);
            }
            c = c + 1;
        }
        let ghost units = self.units@;
        let mut k: usize = 0;
        while k < candidates.len()
            invariant
                *self == *old(self),
                self.wf(),
                units == self.units@,
                target_index < self.units@.len(),
                k <= candidates@.len(),
                candidates@ == seq![requested] + other_kinds(same_color@, requested, 3),
                boxed_choice(units, candidates@, requested, preferred, target, 0) == boxed_choice(
                    units,
                    candidates@,
                    requested,
                    preferred,
                    target,
                    k as int,
                ),
            decreases candidates.len() - k,
        {
            let physical_kind = candidates[k];
            if self.assigned_physical_count(physical_kind) < original_us_monster_figure_count(
                physical_kind,
            ) {
                let requested_variant = if physical_kind == requested {
                    preferred
                } else {
                    None
                };
                match self.available_model_variant(physical_kind, requested_variant, target) {
                    Some(variant) => {
                        assert(boxed_choice(units, candidates@, requested, preferred, target, k as int)
                            == Some((physical_kind, variant)));
                        self.unit_reshape(
                            target_index,
                            Reshape::Placed {
                                figure: Some(FigureKind::Monster(physical_kind)),
                                variant,
                            },
                        );
                        return true;
                    },
                    None => {},
                }
            }
            k = k + 1;
        }
        false
    }

    /// Gives each monster now in view without a piece its piece, those that
    /// ask for a particular sculpt first, each group in order of id.
    #[verifier::spinoff_prover]
    #[verifier::rlimit(40)]
    pub fn allocate_pending_visible_figures(&mut self)
        requires
            old(self).wf(),
        ensures
            final(self).wf(),
            allocations_done(
                *old(self),
                pending_order(*old(self), old(self).units@, true) + pending_order(
                    *old(self),
                    old(self).units@,
                    false,
                ),
                *final(self),
            ),
            same_places(old(self).units@, final(self).units@),
            *final(self) == (Game { units: final(self).units, ..*old(self) }),
    {
        proof {
            reveal(Game::wf);
        }
        let mut particular: Vec<UnitId> = Vec::new();
        let mut generic: Vec<UnitId> = Vec::new();
        let mut i: usize = 0;
        while i < self.units.len()
            invariant
                self.wf(),
                *self == *old(self),
                i <= self.units@.len(),
                particular@ == pending_order(*self, self.units@.take(i as int), true),
                generic@ == pending_order(*self, self.units@.take(i as int), false),
            decreases self.units.len() - i,
        {
            proof {
                reveal(Game::wf);
                assert(crate::engine::spec_in_bounds(self.units@[i as int].pos));
                assert(self.units@.take(i + 1).drop_last() =~= self.units@.take(i as int));
                assert(self.units@.take(i + 1).last() == self.units@[i as int]);
            }
            if self.unit_needs_physical_placement(&self.units[i]) {
                if self.units[i].model_variant.is_none() {
                    insert_in_order(&mut generic, self.units[i].id);
                } else {
                    insert_in_order(&mut particular, self.units[i].id);
                }
            }
            i = i + 1;
        }
        proof {
            assert(self.units@.take(i as int) =~= self.units@);
        }
        let ghost start = *self;
        let ghost first = particular@;
        let ghost second = generic@;
        let mut p: usize = 0;
        while p < particular.len()
            invariant
                self.wf(),
                start.wf(),
                particular@ == first,
                same_places(start.units@, self.units@),
                *self == (Game { units: self.units, ..start }),
                p <= particular@.len(),
                allocations_done(start, first.take(p as int), *self),
            decreases particular.len() - p,
        {
            let ghost mid = *self;
            let placed = self.allocate_physical_piece(particular[p]);
            proof {
                lemma_one_more(start, first.take(p as int), first[p as int], mid, *self, placed);
                assert(first.take(p as int).push(first[p as int]) =~= first.take(p + 1));
            }
            p = p + 1;
        }
        proof {
            assert(first.take(p as int) =~= first + second.take(0));
        }
        let mut g: usize = 0;
        while g < generic.len()
            invariant
                self.wf(),
                start.wf(),
                generic@ == second,
                same_places(start.units@, self.units@),
                *self == (Game { units: self.units, ..start }),
                g <= generic@.len(),
                allocations_done(start, first + second.take(g as int), *self),
            decreases generic.len() - g,
        {
            let ghost mid = *self;
            let placed = self.allocate_physical_piece(generic[g]);
            proof {
                lemma_one_more(start, first + second.take(g as int), second[g as int], mid, *self, placed);
                assert((first + second.take(g as int)).push(second[g as int]) =~= first + second.take(
                    g + 1,
                ));
            }
            g = g + 1;
        }
        proof {
            assert(first + second.take(g as int) =~= first + second);
        }
    }
}

/// `at` is where `id` goes among the ordered `ids`: after every id no larger,
/// before the first larger one.
pub open spec fn is_insert_pos(ids: Seq<UnitId>, id: UnitId, at: int) -> bool {
    &&& 0 <= at <= ids.len()
    &&& forall|j: int| 0 <= j < at ==> #[trigger] ids[j] <= id
    &&& at < ids.len() ==> ids[at] > id
}

/// `ids` with `id` put before the first larger id.
pub open spec fn in_order(ids: Seq<UnitId>, id: UnitId) -> Seq<UnitId> {
    ids.insert(choose|at: int| is_insert_pos(ids, id, at), id)
}

/// The ids of the monsters among `units` that stand in view without a piece,
/// those asking for a particular sculpt (or, with `particular` false, the
/// others), each put in its place by id.
pub open spec fn pending_order(game: Game, units: Seq<Unit>, particular: bool) -> Seq<UnitId>
    decreases units.len(),
{
    if units.len() == 0 {
        Seq::empty()
    } else {
        let rest = pending_order(game, units.drop_last(), particular);
        let unit = units.last();
        if needs_placement(game, unit) && (unit.model_variant is Some) == particular {
            in_order(rest, unit.id)
        } else {
            rest
        }
    }
}

/// `after` is `start` once each figure of `ids`, in order, has been given
/// its piece.
pub open spec fn allocations_done(start: Game, ids: Seq<UnitId>, after: Game) -> bool
    decreases ids.len(),
{
    if ids.len() == 0 {
        after == start
    } else {
        exists|mid: Game, placed: bool|
            #[trigger] mid.piece_allocated(ids.last(), after, placed) && allocations_done(
                start,
                ids.drop_last(),
                mid,
            )
    }
}

proof fn lemma_one_more(start: Game, ids: Seq<UnitId>, id: UnitId, mid: Game, after: Game, placed: bool)
    requires
        allocations_done(start, ids, mid),
        mid.piece_allocated(id, after, placed),
    ensures
        allocations_done(start, ids.push(id), after),
{
    assert(ids.push(id).drop_last() =~= ids);
    assert(ids.push(id).last() == id);
}

proof fn lemma_insert_pos_unique(ids: Seq<UnitId>, id: UnitId, a: int, b: int)
    requires
        is_insert_pos(ids, id, a),
        is_insert_pos(ids, id, b),
    ensures
        a == b,
{
    if a < b {
        assert(ids[a] <= id);
    } else if b < a {
        assert(ids[b] <= id);
    }
}

/// Puts `id` into `ids` before the first larger id.
fn insert_in_order(ids: &mut Vec<UnitId>, id: UnitId)
    ensures
        final(ids)@ == in_order(old(ids)@, id),
        final(ids)@.len() == old(ids)@.len() + 1,
{
    let mut at: usize = 0;
    while at < ids.len() && ids[at] <= id
        invariant
            at <= ids@.len(),
            ids@ == old(ids)@,
            forall|j: int| 0 <= j < at ==> #[trigger] ids@[j] <= id,
        decreases ids.len() - at,
    {
        at = at + 1;
    }
    proof {
        assert(is_insert_pos(ids@, id, at as int));
        let k = choose|k: int| is_insert_pos(ids@, id, k);
        lemma_insert_pos_unique(ids@, id, at as int, k);
    }
    ids.insert(at, id);
}

} // verus!
