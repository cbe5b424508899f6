//! Hero attacks: which weapons and cards a hero may strike with, which
//! monsters each of them reaches, and the dice every attack rolls.
use vstd::prelude::*;

use crate::cards::Artifact;
use crate::engine::Game;
use crate::equipment;
use crate::equipment::Weapon;
use crate::game;
use crate::game::{AttackPlan, AttackSource, HeroTurnState, RuleError, Unit, contains_artifact};
use crate::model;
use crate::model::{Faction, FigureKind, HeroKind, MonsterKind};

verus! {

/// `a + b`, held at 255.
pub open spec fn sat_add(a: int, b: int) -> u8 {
    if a + b > u8::MAX {
        u8::MAX
    } else {
        (a + b) as u8
    }
}

pub open spec fn is_undead(figure: FigureKind) -> bool {
    figure == FigureKind::Monster(MonsterKind::Skeleton) || figure == FigureKind::Monster(
        MonsterKind::Zombie,
    ) || figure == FigureKind::Monster(MonsterKind::Mummy)
}

/// The dice a source rolls before courage, potions and pits: the Spirit
/// Blade rolls four against the undead and three otherwise.
pub open spec fn spec_base_attack_dice(attacker: Unit, defender: Unit, source: AttackSource) -> u8 {
    match source {
        AttackSource::Natural => attacker.stats.attack,
        AttackSource::Unarmed => 1,
        AttackSource::Weapon(weapon) => equipment::spec_attack_dice(weapon),
        AttackSource::ThrownDagger => equipment::spec_attack_dice(Weapon::Dagger),
        AttackSource::OrcsBane => 2,
        AttackSource::WizardsStaff => 2,
        AttackSource::SpiritBlade => if is_undead(defender.figure) {
            4
        } else {
            3
        },
    }
}

pub open spec fn hero_kind_of(figure: FigureKind) -> Option<HeroKind> {
    match figure {
        FigureKind::Hero(hero) => Some(hero),
        FigureKind::Monster(_) => None,
    }
}

/// The sources offered by the first `n` weapons carried, in carrying order:
/// each weapon the hero may use once, and a Dagger may also be thrown.
pub open spec fn weapon_sources(weapons: Seq<Weapon>, hero: Option<HeroKind>, n: nat) -> Seq<
    AttackSource,
>
    decreases n,
{
    if n == 0 || n > weapons.len() {
        Seq::empty()
    } else {
        let prev = weapon_sources(weapons, hero, (n - 1) as nat);
        let weapon = weapons[n - 1];
        if hero matches Some(kind) && !equipment::spec_allowed_by(weapon, kind) {
            prev
        } else {
            let with_weapon = if prev.contains(AttackSource::Weapon(weapon)) {
                prev
            } else {
                prev.push(AttackSource::Weapon(weapon))
            };
            if weapon == Weapon::Dagger {
                with_weapon.push(AttackSource::ThrownDagger)
            } else {
                with_weapon
            }
        }
    }
}

/// The sources a hero may attack with before a follow-up restriction:
/// bare hands when the hero's equipment is unavailable or the hero is
/// fearful, otherwise the usable weapons followed by Orc's Bane and the
/// Spirit Blade (not for the Wizard) and the Wizard's Staff (Wizard only).
pub open spec fn spec_armed_sources(attacker: Unit) -> Seq<AttackSource> {
    if !attacker.equipment_available || attacker.fearful {
        seq![AttackSource::Unarmed]
    } else {
        let weapons = attacker.inventory.weapons@;
        let carried = weapon_sources(weapons, hero_kind_of(attacker.figure), weapons.len());
        let wizard = game::is_wizard(attacker);
        let artifacts = attacker.inventory.artifacts@;
        let with_bane = if !wizard && artifacts.contains(Artifact::OrcsBane) {
            carried.push(AttackSource::OrcsBane)
        } else {
            carried
        };
        let with_blade = if !wizard && artifacts.contains(Artifact::SpiritBlade) {
            with_bane.push(AttackSource::SpiritBlade)
        } else {
            with_bane
        };
        if wizard && artifacts.contains(Artifact::WizardsStaff) {
            with_blade.push(AttackSource::WizardsStaff)
        } else {
            with_blade
        }
    }
}

/// The first `n` entries of `sources` that are Orc's Bane.
pub open spec fn orcs_bane_only(sources: Seq<AttackSource>, n: nat) -> Seq<AttackSource>
    decreases n,
{
    if n == 0 || n > sources.len() {
        Seq::empty()
    } else {
        let prev = orcs_bane_only(sources, (n - 1) as nat);
        if sources[n - 1] == AttackSource::OrcsBane {
            prev.push(AttackSource::OrcsBane)
        } else {
            prev
        }
    }
}

/// The sources offered this turn: after Orc's Bane has earned a second
/// attack, only Orc's Bane remains.
pub open spec fn spec_attack_sources(turn: HeroTurnState, attacker: Unit) -> Seq<AttackSource> {
    let armed = spec_armed_sources(attacker);
    if turn.orcs_bane_follow_up {
        orcs_bane_only(armed, armed.len())
    } else {
        armed
    }
}

fn contains_source(sources: &Vec<AttackSource>, source: AttackSource) -> (found: bool)
    ensures
        found == sources@.contains(source),
{
    let mut i: usize = 0;
    while i < sources.len()
        invariant
            i <= sources.len(),
            forall|j: int| 0 <= j < i ==> sources@[j] != source,
        decreases sources.len() - i,
    {
        if sources[i] == source {
            assert(sources@[i as int] == source);
            return true;
        }
        i = i + 1;
    }
    false
}

/// Every figure's defense dice fit in a byte.
pub open spec fn defense_fits(units: Seq<Unit>) -> bool {
    forall|i: int| 0 <= i < units.len() ==> game::spec_armed_defense(#[trigger] units[i]) <= u8::MAX
}

/// Lexicographic order on four-part ranking keys.
pub open spec fn key_lt(a: (int, int, int, int), b: (int, int, int, int)) -> bool {
    ||| a.0 < b.0
    ||| (a.0 == b.0 && a.1 < b.1)
    ||| (a.0 == b.0 && a.1 == b.1 && a.2 < b.2)
    ||| (a.0 == b.0 && a.1 == b.1 && a.2 == b.2 && a.3 < b.3)
}

impl Game {
    /// A plain attack reaches an orthogonal neighbour across an open edge in
    /// sight, or a diagonal neighbour in sight for a figure that may strike
    /// diagonally.
    pub open spec fn spec_attack_reaches(self, attacker: Unit, defender: Unit) -> bool {
        if model::spec_adjacent(attacker.pos, defender.pos) {
            self.spec_boundary_is_open(attacker.pos, defender.pos) && self.spec_can_see(
                attacker.pos,
                defender.pos,
            )
        } else {
            game::spec_permits_diagonal(attacker) && model::axis_gap(attacker.pos.x, defender.pos.x)
                == 1 && model::axis_gap(attacker.pos.y, defender.pos.y) == 1 && self.spec_can_see(
                attacker.pos,
                defender.pos,
            )
        }
    }

    /// The reach of each source: hand weapons and the artifact blades strike
    /// an orthogonal neighbour, the Staff, Longsword and Wizard's Staff also a
    /// diagonal one, and the Crossbow and a thrown Dagger only a figure in
    /// sight that is not a neighbour.
    pub open spec fn spec_attack_source_reaches(
        self,
        attacker: Unit,
        defender: Unit,
        source: AttackSource,
    ) -> bool {
        let dx = model::axis_gap(attacker.pos.x, defender.pos.x);
        let dy = model::axis_gap(attacker.pos.y, defender.pos.y);
        let sight = self.spec_can_see(attacker.pos, defender.pos);
        let orthogonal = model::spec_adjacent(attacker.pos, defender.pos)
            && self.spec_boundary_is_open(attacker.pos, defender.pos) && sight;
        let diagonal = dx == 1 && dy == 1 && sight;
        match source {
            AttackSource::Natural => self.spec_attack_reaches(attacker, defender),
            AttackSource::Weapon(Weapon::Staff) => orthogonal || diagonal,
            AttackSource::Weapon(Weapon::Longsword) => orthogonal || diagonal,
            AttackSource::WizardsStaff => orthogonal || diagonal,
            AttackSource::Weapon(Weapon::Crossbow) => (dx > 1 || dy > 1) && sight,
            AttackSource::ThrownDagger => (dx > 1 || dy > 1) && sight,
            _ => orthogonal,
        }
    }

    /// The plan for one attack: courage adds two dice and a Potion of
    /// Strength its bonus (held at 255), a pit costs a die on either side.
    pub open spec fn spec_attack_plan(
        self,
        attacker: Unit,
        defender: Unit,
        source: AttackSource,
    ) -> AttackPlan {
        let courage: int = if attacker.courage {
            2
        } else {
            0
        };
        let boosted = sat_add(
            sat_add(spec_base_attack_dice(attacker, defender, source) as int, courage) as int,
            self.hero_turn.potion_strength_bonus as int,
        );
        AttackPlan {
            attacker: attacker.id,
            defender: defender.id,
            source,
            attack_dice: game::spec_pit_adjusted(boosted, attacker.in_pit),
            defend_dice: game::spec_pit_adjusted(
                game::spec_effective_defense_dice(defender) as u8,
                defender.in_pit,
            ),
        }
    }

    /// A monster the active hero may attack: alive, awake, shown, and an Orc
    /// when Orc's Bane has earned the follow-up.
    pub open spec fn is_attack_target(self, defender: Unit) -> bool {
        &&& defender.alive
        &&& defender.faction == Faction::Monster
        &&& !defender.dormant
        &&& self.spec_is_visible(defender)
        &&& (!self.hero_turn.orcs_bane_follow_up || defender.figure == FigureKind::Monster(
            MonsterKind::Orc,
        ))
    }

    /// The plans against one defender with the first `n` sources.
    pub open spec fn options_against(
        self,
        attacker: Unit,
        defender: Unit,
        sources: Seq<AttackSource>,
        n: nat,
    ) -> Seq<AttackPlan>
        decreases n,
    {
        if n == 0 || n > sources.len() {
            Seq::empty()
        } else {
            let prev = self.options_against(attacker, defender, sources, (n - 1) as nat);
            if self.spec_attack_source_reaches(attacker, defender, sources[n - 1]) {
                prev.push(self.spec_attack_plan(attacker, defender, sources[n - 1]))
            } else {
                prev
            }
        }
    }

    /// The plans against the first `n` figures, in board order.
    pub open spec fn options_upto(self, attacker: Unit, sources: Seq<AttackSource>, n: nat) -> Seq<
        AttackPlan,
    >
        decreases n,
    {
        if n == 0 || n > self.units@.len() {
            Seq::empty()
        } else {
            let prev = self.options_upto(attacker, sources, (n - 1) as nat);
            let defender = self.units@[n - 1];
            if self.is_attack_target(defender) {
                prev + self.options_against(attacker, defender, sources, sources.len())
            } else {
                prev
            }
        }
    }

    pub open spec fn spec_attack_options(self) -> Result<Seq<AttackPlan>, RuleError> {
        if self.hero_turn.action_used && !self.hero_turn.orcs_bane_follow_up
            && !self.hero_turn.heroic_brew_follow_up {
            Err(RuleError::AlreadyActed)
        } else {
            match self.spec_active_hero() {
                None => Err(RuleError::NotHeroTurn),
                Some(attacker) => if attacker.sleeping || attacker.clouded {
                    Err(RuleError::Incapacitated)
                } else if attacker.inventory.fools_gold > 0 {
                    Err(RuleError::CarryingFoolsGold)
                } else {
                    let sources = spec_attack_sources(self.hero_turn, attacker);
                    let options = self.options_upto(attacker, sources, self.units@.len());
                    if options.len() == 0 {
                        Err(RuleError::NoTarget)
                    } else {
                        Ok(options)
                    }
                },
            }
        }
    }

    pub fn attack_reaches(&self, attacker: &Unit, defender: &Unit) -> (reaches: bool)
        requires
            self.wf(),
        ensures
            reaches == self.spec_attack_reaches(*attacker, *defender),
    {
        if attacker.pos.is_adjacent(defender.pos) {
            self.boundary_is_open(attacker.pos, defender.pos) && self.can_see(
                attacker.pos,
                defender.pos,
            )
        } else {
            let dx: u8 = if attacker.pos.x >= defender.pos.x {
                attacker.pos.x - defender.pos.x
            } else {
                defender.pos.x - attacker.pos.x
            };
            let dy: u8 = if attacker.pos.y >= defender.pos.y {
                attacker.pos.y - defender.pos.y
            } else {
                defender.pos.y - attacker.pos.y
            };
            attacker.permits_diagonal_attack() && dx == 1 && dy == 1 && self.can_see(
                attacker.pos,
                defender.pos,
            )
        }
    }

    pub fn attack_source_reaches(&self, attacker: &Unit, defender: &Unit, source: AttackSource) -> (reaches:
        bool)
        requires
            self.wf(),
        ensures
            reaches == self.spec_attack_source_reaches(*attacker, *defender, source),
    {
        if source == AttackSource::Natural {
            return self.attack_reaches(attacker, defender);
        }
        let dx: u8 = if attacker.pos.x >= defender.pos.x {
            attacker.pos.x - defender.pos.x
        } else {
            defender.pos.x - attacker.pos.x
        };
        let dy: u8 = if attacker.pos.y >= defender.pos.y {
            attacker.pos.y - defender.pos.y
        } else {
            defender.pos.y - attacker.pos.y
        };
        let sight = self.can_see(attacker.pos, defender.pos);
        let orthogonal = attacker.pos.is_adjacent(defender.pos) && self.boundary_is_open(
            attacker.pos,
            defender.pos,
        ) && sight;
        let diagonal = dx == 1 && dy == 1 && sight;
        match source {
            AttackSource::Weapon(Weapon::Staff)
            | AttackSource::Weapon(Weapon::Longsword)
            | AttackSource::WizardsStaff => orthogonal || diagonal,
            AttackSource::Weapon(Weapon::Crossbow) | AttackSource::ThrownDagger => (dx > 1 || dy
                > 1) && sight,
            _ => orthogonal,
        }
    }

    fn attack_sources(&self, attacker: &Unit) -> (sources: Vec<AttackSource>)
        ensures
            sources@ == spec_attack_sources(self.hero_turn, *attacker),
    {
        let mut sources: Vec<AttackSource> = Vec::new();
        if !attacker.equipment_available || attacker.fearful {
            sources.push(AttackSource::Unarmed);
        } else {
            let hero_kind: Option<HeroKind> = match attacker.figure {
                FigureKind::Hero(hero) => Some(hero),
                FigureKind::Monster(_) => None,
            };
            let weapons = &attacker.inventory.weapons;
            let mut i: usize = 0;
            while i < weapons.len()
                invariant
                    i <= weapons@.len(),
                    hero_kind == hero_kind_of(attacker.figure),
                    *weapons == attacker.inventory.weapons,
                    sources@ == weapon_sources(weapons@, hero_kind, i as nat),
                decreases weapons.len() - i,
            {
                let weapon = weapons[i];
                let usable = match hero_kind {
                    Some(hero) => weapon.allowed_by(hero),
                    None => true,
                };
                if usable {
                    let source = AttackSource::Weapon(weapon);
                    if !contains_source(&sources, source) {
                        sources.push(source);
                    }
                    if weapon == Weapon::Dagger {
                        sources.push(AttackSource::ThrownDagger);
                    }
                }
                i = i + 1;
            }
            let wizard = attacker.figure == FigureKind::Hero(HeroKind::Wizard);
            if !wizard && contains_artifact(&attacker.inventory.artifacts, Artifact::OrcsBane) {
                sources.push(AttackSource::OrcsBane);
            }
            if !wizard && contains_artifact(&attacker.inventory.artifacts, Artifact::SpiritBlade) {
                sources.push(AttackSource::SpiritBlade);
            }
            if wizard && contains_artifact(&attacker.inventory.artifacts, Artifact::WizardsStaff) {
                sources.push(AttackSource::WizardsStaff);
            }
        }
        if self.hero_turn.orcs_bane_follow_up {
            let armed = sources;
            let mut kept: Vec<AttackSource> = Vec::new();
            let mut j: usize = 0;
            while j < armed.len()
                invariant
                    j <= armed@.len(),
                    kept@ == orcs_bane_only(armed@, j as nat),
                decreases armed.len() - j,
            {
                if armed[j] == AttackSource::OrcsBane {
                    kept.push(AttackSource::OrcsBane);
                }
                j = j + 1;
            }
            sources = kept;
        }
        sources
    }

    fn attack_plan(&self, attacker: &Unit, defender: &Unit, source: AttackSource) -> (plan: AttackPlan)
        requires
            game::spec_armed_defense(*defender) <= u8::MAX,
        ensures
            plan == self.spec_attack_plan(*attacker, *defender, source),
    {
        let base: u8 = match source {
            AttackSource::Natural => attacker.stats.attack,
            AttackSource::Unarmed => 1,
            AttackSource::Weapon(weapon) => weapon.attack_dice(),
            AttackSource::ThrownDagger => Weapon::Dagger.attack_dice(),
            AttackSource::OrcsBane => 2,
            AttackSource::WizardsStaff => 2,
            AttackSource::SpiritBlade => if defender.figure == FigureKind::Monster(MonsterKind::Skeleton)
                || defender.figure == FigureKind::Monster(MonsterKind::Zombie) || defender.figure
                == FigureKind::Monster(MonsterKind::Mummy) {
                4
            } else {
                3
            },
        };
        let courage: u8 = if attacker.courage {
            2
        } else {
            0
        };
        let boosted = base.saturating_add(courage).saturating_add(
            self.hero_turn.potion_strength_bonus,
        );
        AttackPlan {
            attacker: attacker.id,
            defender: defender.id,
            source,
            attack_dice: game::pit_adjusted_dice(boosted, attacker.in_pit),
            defend_dice: game::pit_adjusted_dice(defender.effective_defense_dice(), defender.in_pit),
        }
    }

    /// Every attack the active hero may make now: each visible, awake
    /// monster in board order, with each source that reaches it.
    pub fn active_attack_options(&self) -> (options: Result<Vec<AttackPlan>, RuleError>)
        requires
            self.wf(),
            defense_fits(self.units@),
        ensures
            match options {
                Ok(plans) => self.spec_attack_options() == Ok::<Seq<AttackPlan>, RuleError>(plans@),
                Err(error) => self.spec_attack_options() == Err::<Seq<AttackPlan>, RuleError>(error),
            },
    {
        reveal(Game::wf);
        if self.hero_turn.action_used && !self.hero_turn.orcs_bane_follow_up
            && !self.hero_turn.heroic_brew_follow_up {
            return Err(RuleError::AlreadyActed);
        }
        let attacker = match self.active_hero() {
            Some(hero) => hero,
            None => return Err(RuleError::NotHeroTurn),
        };
        if attacker.sleeping || attacker.clouded {
            return Err(RuleError::Incapacitated);
        }
        if attacker.inventory.fools_gold > 0 {
            return Err(RuleError::CarryingFoolsGold);
        }
        let sources = self.attack_sources(attacker);
        let mut options: Vec<AttackPlan> = Vec::new();
        let mut i: usize = 0;
        while i < self.units.len()
            invariant
                self.wf(),
                defense_fits(self.units@),
                i <= self.units@.len(),
                options@ == self.options_upto(*attacker, sources@, i as nat),
            decreases self.units.len() - i,
        {
            reveal(Game::wf);
            let defender = &self.units[i];
            if defender.alive && defender.faction == Faction::Monster && !defender.dormant
                && self.is_visible(defender) && (!self.hero_turn.orcs_bane_follow_up
                || defender.figure == FigureKind::Monster(MonsterKind::Orc)) {
                let ghost before = options@;
                let mut j: usize = 0;
                while j < sources.len()
                    invariant
                        self.wf(),
                        j <= sources@.len(),
                        *defender == self.units@[i as int],
                        game::spec_armed_defense(*defender) <= u8::MAX,
                        options@ == before + self.options_against(
                            *attacker,
                            *defender,
                            sources@,
                            j as nat,
                        ),
                    decreases sources.len() - j,
                {
                    let source = sources[j];
                    let ghost mid = self.options_against(*attacker, *defender, sources@, j as nat);
                    if self.attack_source_reaches(attacker, defender, source) {
                        let plan = self.attack_plan(attacker, defender, source);
                        options.push(plan);
                        assert(options@ == before + mid.push(plan));
                    }
                    j = j + 1;
                }
            }
            i = i + 1;
        }
        if options.len() == 0 {
            Err(RuleError::NoTarget)
        } else {
            Ok(options)
        }
    }

    /// Body points of the figure, or the largest body value when it is gone.
    pub open spec fn defender_body(self, id: game::UnitId) -> int {
        match self.spec_unit(id) {
            Some(unit) => unit.body as int,
            None => i16::MAX as int,
        }
    }

    /// How the automatic attack ranks a plan: Orc's Bane first, then more
    /// attack dice, then the defender with fewer body points, then the lower
    /// figure id.
    pub open spec fn plan_key(self, plan: AttackPlan) -> (int, int, int, int) {
        (
            if plan.source == AttackSource::OrcsBane {
                1
            } else {
                0
            },
            plan.attack_dice as int,
            -self.defender_body(plan.defender),
            -(plan.defender as int),
        )
    }

    /// `plans[k]` ranks highest, and no later plan ranks as high.
    pub open spec fn is_last_best(self, plans: Seq<AttackPlan>, k: int) -> bool {
        &&& 0 <= k < plans.len()
        &&& forall|j: int|
            0 <= j < plans.len() ==> !key_lt(self.plan_key(plans[k]), self.plan_key(#[trigger] plans[j]))
        &&& forall|j: int|
            k < j < plans.len() ==> key_lt(self.plan_key(#[trigger] plans[j]), self.plan_key(plans[k]))
    }

    fn defender_body_of(&self, id: game::UnitId) -> (body: i16)
        requires
            self.wf(),
        ensures
            body == self.defender_body(id),
    {
        match self.unit(id) {
            Some(unit) => unit.body,
            None => i16::MAX,
        }
    }

    fn plan_ranks_below(&self, a: &AttackPlan, b: &AttackPlan) -> (below: bool)
        requires
            self.wf(),
        ensures
            below == key_lt(self.plan_key(*a), self.plan_key(*b)),
    {
        let a_bane: u8 = if a.source == AttackSource::OrcsBane {
            1
        } else {
            0
        };
        let b_bane: u8 = if b.source == AttackSource::OrcsBane {
            1
        } else {
            0
        };
        if a_bane != b_bane {
            return a_bane < b_bane;
        }
        if a.attack_dice != b.attack_dice {
            return a.attack_dice < b.attack_dice;
        }
        let a_body = self.defender_body_of(a.defender);
        let b_body = self.defender_body_of(b.defender);
        if a_body != b_body {
            return a_body > b_body;
        }
        a.defender > b.defender
    }

    /// The attack the automatic player makes: the highest-ranked option,
    /// the last one when several rank equally.
    pub fn active_attack_plan(&self) -> (plan: Result<AttackPlan, RuleError>)
        requires
            self.wf(),
            defense_fits(self.units@),
        ensures
            match plan {
                Ok(best) => self.spec_attack_options() matches Ok(options) && exists|k: int|
                    #[trigger] self.is_last_best(options, k) && best == options[k],
                Err(error) => self.spec_attack_options() == Err::<Seq<AttackPlan>, RuleError>(error),
            },
    {
        let options = match self.active_attack_options() {
            Ok(options) => options,
            Err(error) => return Err(error),
        };
        let mut best: usize = 0;
        let mut i: usize = 1;
        while i < options.len()
            invariant
                self.wf(),
                1 <= i <= options@.len(),
                best < i,
                forall|j: int|
                    0 <= j < i ==> !key_lt(
                        self.plan_key(options@[best as int]),
                        self.plan_key(#[trigger] options@[j]),
                    ),
                forall|j: int|
                    best < j < i ==> key_lt(
                        self.plan_key(#[trigger] options@[j]),
                        self.plan_key(options@[best as int]),
                    ),
            decreases options.len() - i,
        {
            if !self.plan_ranks_below(&options[i], &options[best]) {
                best = i;
            }
            i = i + 1;
        }
        assert(self.is_last_best(options@, best as int));
        let chosen = options[best];
        assert(self.spec_attack_options() == Ok::<Seq<AttackPlan>, RuleError>(options@));
        assert(self.is_last_best(options@, best as int) && chosen == options@[best as int]);
        assert(self.spec_attack_options() matches Ok(opts) && exists|k: int|
                    #[trigger] self.is_last_best(opts, k) && chosen == opts[k]) by {
            assert(self.is_last_best(self.spec_attack_options()->Ok_0, best as int));
        }
        Ok(chosen)
    }
}

impl Game {
    /// The plan with the defender's dice counted again as it now stands: its
    /// defence dice, one fewer (but never none) while it is in a pit.
    pub fn refresh_attack_defense_dice(&self, plan: AttackPlan) -> (refreshed: Result<AttackPlan, RuleError>)
        requires
            self.wf(),
            self.spec_unit(plan.defender) matches Some(defender) ==> game::spec_armed_defense(defender)
                <= u8::MAX,
        ensures
            refreshed == match self.spec_unit(plan.defender) {
                None => Err(RuleError::StaleAttack),
                Some(defender) => Ok(
                    AttackPlan {
                        defend_dice: game::spec_pit_adjusted(
                            game::spec_effective_defense_dice(defender) as u8,
                            defender.in_pit,
                        ),
                        ..plan
                    },
                ),
            },
    {
        let defender = match self.unit(plan.defender) {
            Some(defender) => defender,
            None => return Err(RuleError::StaleAttack),
        };
        let dice = game::pit_adjusted_dice(defender.effective_defense_dice(), defender.in_pit);
        Ok(AttackPlan { defend_dice: dice, ..plan })
    }

    /// Hands out the attack the game master forces next, if any, leaving none.
    pub fn take_pending_forced_attack(&mut self) -> (plan: Option<AttackPlan>)
        requires
            old(self).wf(),
        ensures
            final(self).wf(),
            plan == old(self).pending_forced_attack,
            *final(self) == (Game { pending_forced_attack: None, ..*old(self) }),
    {
        reveal(Game::wf);
        let plan = self.pending_forced_attack;
        self.pending_forced_attack = None;
        plan
    }
}


/// A Crossbow bolt or a thrown Dagger.
pub open spec fn is_ranged(source: AttackSource) -> bool {
    source == AttackSource::Weapon(Weapon::Crossbow) || source == AttackSource::ThrownDagger
}

impl Game {
    /// Every attack reaches only a figure the attacker can see, and a
    /// Crossbow or thrown Dagger only a figure that is not beside it.
    pub proof fn lemma_attacks_need_sight(self, attacker: Unit, defender: Unit, source: AttackSource)
        requires
            self.spec_attack_source_reaches(attacker, defender, source),
        ensures
            self.spec_can_see(attacker.pos, defender.pos),
            is_ranged(source) ==> model::axis_gap(attacker.pos.x, defender.pos.x) > 1
                || model::axis_gap(attacker.pos.y, defender.pos.y) > 1,
            !is_ranged(source) ==> model::axis_gap(attacker.pos.x, defender.pos.x) <= 1
                && model::axis_gap(attacker.pos.y, defender.pos.y) <= 1,
            model::spec_adjacent(attacker.pos, defender.pos) ==> self.spec_boundary_is_open(
                attacker.pos,
                defender.pos,
            ),
            model::axis_gap(attacker.pos.x, defender.pos.x) == 1 && model::axis_gap(
                attacker.pos.y,
                defender.pos.y,
            ) == 1 ==> source == AttackSource::Weapon(Weapon::Staff) || source == AttackSource::Weapon(
                Weapon::Longsword,
            ) || source == AttackSource::WizardsStaff || (source == AttackSource::Natural
                && game::spec_permits_diagonal(attacker)),
    {
    }

    /// Each plan against `defender` is the attacker's, names `defender`, and
    /// uses a source that reaches it.
    proof fn lemma_plans_against_reach(
        self,
        attacker: Unit,
        defender: Unit,
        sources: Seq<AttackSource>,
        n: nat,
        k: int,
    )
        requires
            0 <= k < self.options_against(attacker, defender, sources, n).len(),
        ensures
            ({
                let plan = self.options_against(attacker, defender, sources, n)[k];
                &&& plan.attacker == attacker.id
                &&& plan.defender == defender.id
                &&& self.spec_attack_source_reaches(attacker, defender, plan.source)
            }),
        decreases n,
    {
        let prev = self.options_against(attacker, defender, sources, (n - 1) as nat);
        if k < prev.len() {
            self.lemma_plans_against_reach(attacker, defender, sources, (n - 1) as nat, k);
        }
    }

    /// Each plan among the first `n` figures' is the attacker's and names a
    /// figure among them that may be attacked and that its source reaches.
    proof fn lemma_plans_upto_reach(self, attacker: Unit, sources: Seq<AttackSource>, n: nat, k: int)
        requires
            0 <= k < self.options_upto(attacker, sources, n).len(),
        ensures
            ({
                let plan = self.options_upto(attacker, sources, n)[k];
                &&& plan.attacker == attacker.id
                &&& exists|j: int|
                    0 <= j < n && j < self.units@.len() && #[trigger] self.units@[j].id == plan.defender
                        && self.is_attack_target(self.units@[j]) && self.spec_attack_source_reaches(
                        attacker,
                        self.units@[j],
                        plan.source,
                    )
            }),
        decreases n,
    {
        let prev = self.options_upto(attacker, sources, (n - 1) as nat);
        let plan = self.options_upto(attacker, sources, n)[k];
        if k < prev.len() {
            self.lemma_plans_upto_reach(attacker, sources, (n - 1) as nat, k);
            assert(prev[k] == plan);
        } else {
            let defender = self.units@[n - 1];
            let against = self.options_against(attacker, defender, sources, sources.len());
            assert(plan == against[k - prev.len()]);
            self.lemma_plans_against_reach(attacker, defender, sources, sources.len(), k - prev.len());
            assert(self.units@[n - 1].id == plan.defender);
        }
    }

    /// Every attack offered to the active hero is its own, against a monster
    /// it may attack and can see, and a Crossbow or thrown Dagger attack is
    /// against one that is not beside it.
    pub proof fn lemma_offered_attacks_are_in_sight(self, k: int)
        requires
            self.spec_attack_options() is Ok,
            0 <= k < self.spec_attack_options()->Ok_0.len(),
        ensures
            ({
                let hero = self.spec_active_hero()->Some_0;
                let plan = self.spec_attack_options()->Ok_0[k];
                &&& self.spec_active_hero() is Some
                &&& plan.attacker == hero.id
                &&& exists|j: int|
                    0 <= j < self.units@.len() && #[trigger] self.units@[j].id == plan.defender
                        && self.is_attack_target(self.units@[j]) && self.spec_can_see(
                        hero.pos,
                        self.units@[j].pos,
                    ) && (is_ranged(plan.source) ==> model::axis_gap(hero.pos.x, self.units@[j].pos.x)
                        > 1 || model::axis_gap(hero.pos.y, self.units@[j].pos.y) > 1)
            }),
    {
        let hero = self.spec_active_hero()->Some_0;
        let sources = spec_attack_sources(self.hero_turn, hero);
        let plan = self.spec_attack_options()->Ok_0[k];
        self.lemma_plans_upto_reach(hero, sources, self.units@.len(), k);
        let j = choose|j: int|
            0 <= j < self.units@.len() && #[trigger] self.units@[j].id == plan.defender
                && self.is_attack_target(self.units@[j]) && self.spec_attack_source_reaches(
                hero,
                self.units@[j],
                plan.source,
            );
        self.lemma_attacks_need_sight(hero, self.units@[j], plan.source);
    }
}

} // verus!
