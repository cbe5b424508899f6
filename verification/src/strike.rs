//! Resolving one attack: the dice thrown, the damage dealt, what the attacker
//! keeps in hand afterwards, and what a defeat sets going.
use vstd::prelude::*;

use crate::cards::Artifact;
use crate::engine::{
    has_unit_id, lemma_slot_of, lemma_wf_after_unit_change, lemma_wf_ids, log_after, spec_unit_of,
    unit_slot, Game,
};
use crate::equipment::Weapon;
use crate::game::{
    AttackPlan, AttackSource, CombatOutcome, CombatVisualEvent, GamePhase, HeroTurnState, RuleError,
    Unit, UnitId,
};
use crate::death::next_sequence;
use crate::model::{CombatFace, Faction, FigureKind, HeroKind, MonsterKind};
use crate::status::{decimal_string, decimal_text};
use crate::combat::defense_fits;
use crate::quest::MonsterModelVariant;

verus! {

/// One change to a figure's record that keeps its id and its square.
pub enum Reshape {
    /// Loses `damage` Body Points; any damage breaks Rock Skin, and a
    /// Potion of Defense is spent by the defence.
    Struck { damage: u8 },
    /// Holds `weapon` ready.
    Equip { weapon: Option<Weapon> },
    /// Takes a physical piece and sculpt on the board.
    Placed { figure: Option<FigureKind>, variant: Option<MonsterModelVariant> },
    /// Wakes and shows itself.
    Activated,
    /// Gains `artifact`, unless it already holds it.
    Granted { artifact: Artifact },
    /// Gains `amount` gold, the purse saturating.
    Paid { amount: u16 },
    /// Its Courage is spent.
    Disheartened,
    /// Wakes from a hero's Sleep, free of the caster's hold.
    Woken,
    /// Stays asleep.
    Slumbering,
    /// Throws a Dagger, which is lost; a thrown Dagger that was held ready
    /// gives way to the first weapon left.
    DaggerThrown,
}

/// `after` is `weapons` less their first Dagger, if they hold one.
pub open spec fn dagger_thrown(weapons: Seq<Weapon>, after: Seq<Weapon>) -> bool {
    if weapons.contains(Weapon::Dagger) {
        exists|i: int|
            0 <= i < weapons.len() && #[trigger] weapons[i] == Weapon::Dagger && (forall|j: int|
                0 <= j < i ==> weapons[j] != Weapon::Dagger) && after == weapons.remove(i)
    } else {
        after == weapons
    }
}

/// `after` is the record of `unit` after `change`.
pub open spec fn reshaped(unit: Unit, change: Reshape, after: Unit) -> bool {
    match change {
        Reshape::Struck { damage } => after == (Unit {
            body: (unit.body - damage) as i16,
            rock_skin: unit.rock_skin && damage == 0,
            potion_defense_bonus: 0,
            ..unit
        }),
        Reshape::Equip { weapon } => after == (Unit {
            inventory: after.inventory,
            ..unit
        }) && after.inventory == (crate::game::Inventory {
            equipped_weapon: weapon,
            ..unit.inventory
        }),
        Reshape::Placed { figure, variant } => after == (Unit {
            physical_figure: figure,
            model_variant: variant,
            ..unit
        }),
        Reshape::Activated => after == (Unit {
            dormant: false,
            hidden_until_activated: false,
            ..unit
        }),
        Reshape::Granted { artifact } => if unit.inventory.artifacts@.contains(artifact) {
            after == unit
        } else {
            &&& after == (Unit { inventory: after.inventory, ..unit })
            &&& after.inventory == (crate::game::Inventory {
                artifacts: after.inventory.artifacts,
                ..unit.inventory
            })
            &&& after.inventory.artifacts@ == unit.inventory.artifacts@.push(artifact)
        },
        Reshape::Paid { amount } => after == (Unit { inventory: after.inventory, ..unit })
            && after.inventory == (crate::game::Inventory {
            gold: if unit.inventory.gold + amount > u16::MAX {
                u16::MAX
            } else {
                (unit.inventory.gold + amount) as u16
            },
            ..unit.inventory
        }),
        Reshape::Disheartened => after == (Unit { courage: false, ..unit }),
        Reshape::Woken => after == (Unit { sleeping: false, hero_sleep_caster: None, ..unit }),
        Reshape::Slumbering => after == (Unit { sleeping: true, ..unit }),
        Reshape::DaggerThrown => {
            &&& after == (Unit { inventory: after.inventory, ..unit })
            &&& after.inventory == (crate::game::Inventory {
                weapons: after.inventory.weapons,
                equipped_weapon: after.inventory.equipped_weapon,
                ..unit.inventory
            })
            &&& dagger_thrown(unit.inventory.weapons@, after.inventory.weapons@)
            &&& after.inventory.equipped_weapon == if unit.inventory.equipped_weapon == Some(
                Weapon::Dagger,
            ) {
                if after.inventory.weapons@.len() > 0 {
                    Some(after.inventory.weapons@[0])
                } else {
                    None
                }
            } else {
                unit.inventory.equipped_weapon
            }
        },
    }
}

/// `change` can be made to `unit` without leaving the range of its fields.
pub open spec fn reshape_fits(unit: Unit, change: Reshape) -> bool {
    match change {
        Reshape::Struck { damage } => unit.body - damage >= i16::MIN,
        _ => true,
    }
}

impl Unit {
    /// The record after `change`.
    #[verifier::spinoff_prover]
    #[verifier::rlimit(40)]
    pub(crate) fn reshape(self, change: Reshape) -> (unit: Unit)
        requires
            reshape_fits(self, change),
        ensures
            reshaped(self, change, unit),
            unit.id == self.id,
            unit.pos == self.pos,
    {
        match change {
            Reshape::Struck { damage } => {
                let body: i16 = self.body - damage as i16;
                let rock_skin = self.rock_skin && damage == 0;
                Unit { body, rock_skin, potion_defense_bonus: 0, ..self }
            },
            Reshape::Equip { weapon } => self.equipping(weapon),
            Reshape::Placed { figure, variant } => Unit {
                physical_figure: figure,
                model_variant: variant,
                ..self
            },
            Reshape::Activated => Unit { dormant: false, hidden_until_activated: false, ..self },
            Reshape::Granted { artifact } => self.granted(artifact),
            Reshape::Paid { amount } => self.paid(amount),
            Reshape::Disheartened => Unit { courage: false, ..self },
            Reshape::Woken => Unit { sleeping: false, hero_sleep_caster: None, ..self },
            Reshape::Slumbering => Unit { sleeping: true, ..self },
            Reshape::DaggerThrown => self.throwing_dagger(),
        }
    }

    fn throwing_dagger(self) -> (unit: Unit)
        ensures
            reshaped(self, Reshape::DaggerThrown, unit),
    {
        let mut inventory = self.inventory;
        let ghost weapons = inventory.weapons@;
        let mut found: Option<usize> = None;
        let mut i: usize = 0;
        while i < inventory.weapons.len()
            invariant
                inventory.weapons@ == weapons,
                0 <= i <= weapons.len(),
                found matches Some(k) ==> k < weapons.len() && weapons[k as int] == Weapon::Dagger
                    && forall|j: int| 0 <= j < k ==> weapons[j] != Weapon::Dagger,
                found is None ==> forall|j: int| 0 <= j < i ==> weapons[j] != Weapon::Dagger,
            decreases weapons.len() - i,
        {
            if found.is_none() && inventory.weapons[i] == Weapon::Dagger {
                found = Some(i);
            }
            i = i + 1;
        }
        match found {
            Some(k) => {
                inventory.weapons.remove(k);
                proof {
                    assert(weapons[k as int] == Weapon::Dagger);
                    assert(weapons.contains(Weapon::Dagger));
                }
            },
            None => {
                proof {
                    assert(!weapons.contains(Weapon::Dagger));
                }
            },
        }
        if inventory.equipped_weapon == Some(Weapon::Dagger) {
            inventory.equipped_weapon = if inventory.weapons.len() > 0 {
                Some(inventory.weapons[0])
            } else {
                None
            };
        }
        Unit { inventory, ..self }
    }

    fn equipping(self, weapon: Option<Weapon>) -> (unit: Unit)
        ensures
            reshaped(self, Reshape::Equip { weapon }, unit),
    {
        let mut inventory = self.inventory;
        inventory.equipped_weapon = weapon;
        Unit { inventory, ..self }
    }

    fn granted(self, artifact: Artifact) -> (unit: Unit)
        ensures
            reshaped(self, Reshape::Granted { artifact }, unit),
    {
        if holds_artifact(&self.inventory.artifacts, artifact) {
            return self;
        }
        let mut inventory = self.inventory;
        inventory.artifacts.push(artifact);
        Unit { inventory, ..self }
    }

    fn paid(self, amount: u16) -> (unit: Unit)
        ensures
            reshaped(self, Reshape::Paid { amount }, unit),
    {
        let mut inventory = self.inventory;
        inventory.gold = inventory.gold.saturating_add(amount);
        Unit { inventory, ..self }
    }
}

/// Whether `artifacts` holds `artifact`.
pub(crate) fn holds_artifact(artifacts: &Vec<Artifact>, artifact: Artifact) -> (held: bool)
    ensures
        held == artifacts@.contains(artifact),
{
    let mut i: usize = 0;
    while i < artifacts.len()
        invariant
            0 <= i <= artifacts.len(),
            forall|j: int| 0 <= j < i ==> artifacts@[j] != artifact,
        decreases artifacts.len() - i,
    {
        if artifacts[i] == artifact {
            return true;
        }
        i = i + 1;
    }
    false
}

impl Game {
    /// Makes `change` to the figure at `index`.
    #[verifier::spinoff_prover]
    #[verifier::rlimit(30)]
    pub(crate) fn unit_reshape(&mut self, index: usize, change: Reshape)
        requires
            old(self).wf(),
            index < old(self).units@.len(),
            reshape_fits(old(self).units@[index as int], change),
        ensures
            final(self).wf(),
            final(self).units@ == old(self).units@.update(index as int, final(self).units@[index as int]),
            reshaped(old(self).units@[index as int], change, final(self).units@[index as int]),
            *final(self) == (Game { units: final(self).units, ..*old(self) }),
    {
        let ghost before = *self;
        let mut unit = Unit::vacant();
        self.units.set_and_swap(index, &mut unit);
        assert(unit == before.units@[index as int]);
        let changed = unit.reshape(change);
        self.units.set(index, changed);
        proof {
            assert(self.units@ =~= before.units@.update(index as int, changed));
            lemma_wf_after_unit_change(before, *self, index as int);
        }
    }
}

/// What attacking with `source` does to the attacker's weapons, if anything.
pub open spec fn committed_change(source: AttackSource) -> Option<Reshape> {
    match source {
        AttackSource::Weapon(weapon) => Some(Reshape::Equip { weapon: Some(weapon) }),
        AttackSource::ThrownDagger => Some(Reshape::DaggerThrown),
        AttackSource::OrcsBane => Some(Reshape::Equip { weapon: Some(Weapon::Shortsword) }),
        AttackSource::SpiritBlade => Some(Reshape::Equip { weapon: Some(Weapon::Broadsword) }),
        AttackSource::WizardsStaff => Some(Reshape::Equip { weapon: Some(Weapon::Staff) }),
        AttackSource::Natural | AttackSource::Unarmed => None,
    }
}

impl Game {
    /// `after` is this game once the hero `hero_id` has attacked with
    /// `source`: the weapon used is the one held ready, and a thrown Dagger
    /// is lost, which the log tells.
    pub open spec fn source_committed(self, hero_id: UnitId, source: AttackSource, after: Game) -> bool {
        match committed_change(source) {
            Some(change) if has_unit_id(self.units@, hero_id) => {
                let slot = unit_slot(self.units@, hero_id);
                &&& after.units@ == self.units@.update(slot, after.units@[slot])
                &&& reshaped(self.units@[slot], change, after.units@[slot])
                &&& if source == AttackSource::ThrownDagger {
                    &&& after == (Game { units: after.units, log: after.log, ..self })
                    &&& after.log@.len() > 0
                    &&& after.log@ == log_after(self.log@, after.log@.last())
                    &&& after.log@.last()@ == self.units@[slot].name@
                        + "'s thrown Dagger is lost."@
                } else {
                    after == (Game { units: after.units, ..self })
                }
            },
            _ => after == self,
        }
    }

    /// The hero `hero_id` has attacked with `source`: it now holds that
    /// weapon ready, and a thrown Dagger is gone.
    #[verifier::spinoff_prover]
    #[verifier::rlimit(40)]
    fn commit_hero_attack_source(&mut self, hero_id: UnitId, source: AttackSource)
        requires
            old(self).wf(),
        ensures
            final(self).wf(),
            old(self).source_committed(hero_id, source, *final(self)),
    {
        proof {
            lemma_wf_ids(*self);
        }
        let index = match self.unit_index(hero_id) {
            Some(index) => index,
            None => return,
        };
        proof {
            lemma_slot_of(self.units@, hero_id, index as int);
        }
        let change = match source {
            AttackSource::Weapon(weapon) => Reshape::Equip { weapon: Some(weapon) },
            AttackSource::ThrownDagger => Reshape::DaggerThrown,
            AttackSource::OrcsBane => Reshape::Equip { weapon: Some(Weapon::Shortsword) },
            AttackSource::SpiritBlade => Reshape::Equip { weapon: Some(Weapon::Broadsword) },
            AttackSource::WizardsStaff => Reshape::Equip { weapon: Some(Weapon::Staff) },
            AttackSource::Natural | AttackSource::Unarmed => return,
        };
        let mut message = self.units[index].name.clone();
        self.unit_reshape(index, change);
        if source == AttackSource::ThrownDagger {
            message.append("'s thrown Dagger is lost.");
            self.push_log(message);
        }
    }
}

/// How many of `faces` show `face`.
pub open spec fn face_count(faces: Seq<CombatFace>, face: CombatFace) -> nat
    decreases faces.len(),
{
    if faces.len() == 0 {
        0
    } else {
        face_count(faces.drop_last(), face) + if faces.last() == face {
            1nat
        } else {
            0nat
        }
    }
}

/// The shield that blocks a blow for the defender's side.
pub open spec fn blocking_face(faction: Faction) -> CombatFace {
    match faction {
        Faction::Hero => CombatFace::WhiteShield,
        Faction::Monster => CombatFace::BlackShield,
    }
}

/// The Body Points a blow takes: skulls beyond the blocks, and none against
/// a figure that cannot be harmed now, or that only the Spirit Blade can
/// harm when another weapon strikes.
pub open spec fn attack_damage(
    attacker: Unit,
    defender: Unit,
    source: AttackSource,
    skulls: nat,
    blocks: nat,
) -> nat {
    let spirit_blade = defender.immune_except_spirit_blade && attacker.faction == Faction::Hero
        && source == AttackSource::SpiritBlade;
    if defender.invulnerable_until_acts || defender.petrified_turns > 0 || (
    defender.immune_except_spirit_blade && !spirit_blade) {
        0
    } else if skulls > blocks {
        (skulls - blocks) as nat
    } else {
        0
    }
}

/// `rewarded` is `followed` once the blow has been logged and a defeat
/// followed up.
pub open spec fn blow_logged_and_followed(
    followed: Game,
    attacker: Seq<char>,
    defender: Seq<char>,
    outcome: CombatOutcome,
    killer: UnitId,
    figure: FigureKind,
    rewarded: Game,
) -> bool {
    exists|told: Game|
        #[trigger] told.defeat_followed(killer, figure, defender, outcome.defender_died, rewarded)
            && told.log@.len() > 0 && told.log@ == log_after(followed.log@, told.log@.last())
            && told.log@.last()@ == blow_text(
            attacker,
            defender,
            outcome.skulls,
            outcome.blocks,
            outcome.damage,
            outcome.defender_died,
        ) && told == (Game { log: told.log, ..followed })
}

/// The log line for a blow.
pub open spec fn blow_text(
    attacker: Seq<char>,
    defender: Seq<char>,
    skulls: u8,
    blocks: u8,
    damage: u8,
    died: bool,
) -> Seq<char> {
    attacker + " attacked "@ + defender + ": "@ + decimal_text(skulls as nat) + " skulls, "@
        + decimal_text(blocks as nat) + " blocks, "@ + decimal_text(damage as nat) + " damage"@ + (
    if died {
        " — defeated"@
    } else {
        ""@
    }) + "."@
}

impl Game {
    /// Why `plan` cannot be carried out with this many dice, if it cannot:
    /// the dice must match the plan, both figures must still stand on the
    /// board within reach, and a hero strikes only in its own turn, before
    /// its action or as the follow-up an artifact or a potion grants, unless
    /// commanded in the game master's turn.
    pub open spec fn attack_refusal(self, plan: AttackPlan, attack_len: int, defend_len: int) -> Option<
        RuleError,
    > {
        if attack_len != plan.attack_dice || defend_len != plan.defend_dice {
            Some(RuleError::InvalidDice)
        } else {
            match (self.spec_unit(plan.attacker), self.spec_unit(plan.defender)) {
                (Some(a), Some(d)) => if !a.alive || !d.alive || a.escaped || d.escaped
                    || !self.spec_attack_source_reaches(a, d, plan.source) {
                    Some(RuleError::StaleAttack)
                } else if a.faction == Faction::Hero && !(self.phase == GamePhase::ZargonTurn
                    && a.commanded) && (self.spec_active_hero_id() != Some(plan.attacker) || (
                self.hero_turn.action_used && !self.hero_turn.orcs_bane_follow_up
                    && !self.hero_turn.heroic_brew_follow_up)) {
                    Some(RuleError::StaleAttack)
                } else {
                    None
                },
                _ => Some(RuleError::StaleAttack),
            }
        }
    }

    /// `struck` is this game once the figure `id` has lost `damage` Body
    /// Points to a blow.
    pub open spec fn struck_by(self, id: UnitId, damage: u8, struck: Game) -> bool {
        let slot = unit_slot(self.units@, id);
        &&& has_unit_id(self.units@, id)
        &&& struck.units@ == self.units@.update(slot, struck.units@[slot])
        &&& reshaped(self.units@[slot], Reshape::Struck { damage }, struck.units@[slot])
        &&& struck == (Game { units: struck.units, ..self })
    }

    /// `fallen` is this game once the blow of `outcome` has landed on the
    /// defender of `plan` and its fall, if any, has been settled.
    pub open spec fn blow_struck(self, plan: AttackPlan, outcome: CombatOutcome, fallen: Game) -> bool {
        exists|struck: Game|
            #[trigger] self.struck_by(plan.defender, outcome.damage, struck)
                && struck.zero_body_resolved(plan.defender, fallen, outcome.defender_died)
    }

    /// `committed` is this game once an attacker of `faction` has used the
    /// source of `plan`.
    pub open spec fn source_stage(self, plan: AttackPlan, faction: Faction, committed: Game) -> bool {
        if faction == Faction::Hero {
            self.source_committed(plan.attacker, plan.source, committed)
        } else {
            committed == self
        }
    }

    /// This game with the blow of `plan` and `outcome` shown on the board.
    pub open spec fn blow_shown(self, plan: AttackPlan, outcome: CombatOutcome) -> Game {
        Game {
            visual_sequence: next_sequence(self.visual_sequence),
            last_combat_visual: Some(
                CombatVisualEvent {
                    sequence: next_sequence(self.visual_sequence),
                    attacker: plan.attacker,
                    defender: plan.defender,
                    damage: outcome.damage,
                    defender_died: outcome.defender_died,
                },
            ),
            ..self
        }
    }

    /// `after` is this game once a hero attacker `id` has spent its Courage.
    pub open spec fn courage_stage(self, id: UnitId, faction: Faction, after: Game) -> bool {
        if faction == Faction::Hero && has_unit_id(self.units@, id) {
            let slot = unit_slot(self.units@, id);
            &&& after.units@ == self.units@.update(slot, after.units@[slot])
            &&& reshaped(self.units@[slot], Reshape::Disheartened, after.units@[slot])
            &&& after == (Game { units: after.units, ..self })
        } else {
            after == self
        }
    }

    /// `after` is this game once the active hero's turn has taken note of
    /// the attack of `plan` on a `defender` figure: the action is used, the
    /// strength potion spent, a started move ends, and Orc's Bane against an
    /// Orc or a ready Heroic Brew grants one follow-up attack, which the log
    /// tells; a follow-up grants none.
    pub open spec fn turn_followed(self, plan: AttackPlan, defender: FigureKind, after: Game) -> bool {
        if self.spec_active_hero_id() == Some(plan.attacker) {
            let t = self.hero_turn;
            let was_follow_up = t.orcs_bane_follow_up || t.heroic_brew_follow_up;
            let earns_orcs_bane = !was_follow_up && defender == FigureKind::Monster(MonsterKind::Orc)
                && plan.source == AttackSource::OrcsBane && (self.spec_unit(plan.attacker) matches Some(
                hero,
            ) && hero.equipment_available && hero.figure != FigureKind::Hero(HeroKind::Wizard)
                && hero.inventory.artifacts@.contains(Artifact::OrcsBane));
            let earns_brew = !was_follow_up && t.heroic_brew_ready;
            &&& after.hero_turn == (HeroTurnState {
                action_used: true,
                orcs_bane_follow_up: earns_orcs_bane,
                heroic_brew_follow_up: earns_brew && !earns_orcs_bane,
                heroic_brew_ready: false,
                potion_strength_bonus: 0,
                movement_left: if t.moved_steps > 0 {
                    0
                } else {
                    t.movement_left
                },
                ..t
            })
            &&& after == (Game { hero_turn: after.hero_turn, log: after.log, ..self })
            &&& if earns_orcs_bane || earns_brew {
                &&& after.log@.len() > 0
                &&& after.log@ == log_after(self.log@, after.log@.last())
                &&& after.log@.last()@ == if earns_orcs_bane {
                    "Orc's Bane permits one immediate second attack against an adjacent Orc."@
                } else {
                    "Heroic Brew permits one immediate second attack with any legal weapon."@
                }
            } else {
                after.log == self.log
            }
        } else {
            after == self
        }
    }

    /// `after` is this fallen-out game once the blow has been followed up:
    /// the hero attacker holds the weapon used and spends its Courage, the
    /// blow is shown, and the active hero's turn moves on.
    pub open spec fn blow_followed(
        self,
        plan: AttackPlan,
        outcome: CombatOutcome,
        attacker: Faction,
        defender: FigureKind,
        after: Game,
    ) -> bool {
        exists|committed: Game, cheered: Game|
            #![trigger self.source_stage(plan, attacker, committed), cheered.turn_followed(plan, defender, after)]
            self.source_stage(plan, attacker, committed) && committed.blow_shown(
                plan,
                outcome,
            ).courage_stage(plan.attacker, attacker, cheered) && cheered.turn_followed(
                plan,
                defender,
                after,
            )
    }

    /// `after` is this game once a defeat of a `figure` named `name` at the
    /// hand of `killer`, if the blow felled it, has paid its bounty and set
    /// off its quest notes.
    pub open spec fn defeat_followed(
        self,
        killer: UnitId,
        figure: FigureKind,
        name: Seq<char>,
        died: bool,
        after: Game,
    ) -> bool {
        if died {
            exists|paid: Game|
                #[trigger] self.bounty_paid(killer, figure, paid) && paid.defeat_events_resolved(
                    name,
                    Some(killer),
                    after,
                )
        } else {
            after == self
        }
    }

    /// `after` is this game once `plan` has been carried out with these
    /// dice: the skulls beyond the defender's shields wound it, the blow is
    /// followed up and logged, a defeat pays its bounty and sets off its
    /// quest notes, and the quest is checked for its end.
    pub open spec fn attack_resolved(
        self,
        plan: AttackPlan,
        attack_faces: Seq<CombatFace>,
        defend_faces: Seq<CombatFace>,
        outcome: CombatOutcome,
        after: Game,
    ) -> bool {
        let a = self.spec_unit(plan.attacker)->0;
        let d = self.spec_unit(plan.defender)->0;
        &&& outcome.skulls == face_count(attack_faces, CombatFace::Skull)
        &&& outcome.blocks == face_count(defend_faces, blocking_face(d.faction))
        &&& outcome.damage == attack_damage(a, d, plan.source, outcome.skulls as nat, outcome.blocks as nat)
        &&& exists|fallen: Game, followed: Game, rewarded: Game|
            #![trigger self.blow_struck(plan, outcome, fallen), fallen.blow_followed(plan, outcome, a.faction, d.figure, followed), rewarded.settled_into(after)]
            self.blow_struck(plan, outcome, fallen) && fallen.blow_followed(
                plan,
                outcome,
                a.faction,
                d.figure,
                followed,
            ) && blow_logged_and_followed(
                followed,
                a.name@,
                d.name@,
                outcome,
                plan.attacker,
                d.figure,
                rewarded,
            )
                && rewarded.settled_into(after)
    }
}

/// How many of `faces` show `face`.
fn count_faces(faces: &[CombatFace], face: CombatFace) -> (count: u8)
    requires
        faces@.len() <= 255,
    ensures
        count == face_count(faces@, face),
        count <= faces@.len(),
{
    let mut count: u8 = 0;
    let mut i: usize = 0;
    while i < faces.len()
        invariant
            faces@.len() <= 255,
            i <= faces@.len(),
            count == face_count(faces@.take(i as int), face),
            count <= i,
        decreases faces.len() - i,
    {
        assert(faces@.take(i + 1).drop_last() =~= faces@.take(i as int));
        if faces[i] == face {
            count = count + 1;
        }
        i = i + 1;
    }
    assert(faces@.take(i as int) =~= faces@);
    count
}

impl Game {
    /// The figure `id` loses `damage` Body Points to a blow, and a fall is
    /// settled; returns whether its part in the quest ended.
    #[verifier::spinoff_prover]
    #[verifier::rlimit(40)]
    fn strike_down(&mut self, id: UnitId, damage: u8) -> (died: bool)
        requires
            old(self).wf(),
            has_unit_id(old(self).units@, id),
            reshape_fits(old(self).units@[unit_slot(old(self).units@, id)], Reshape::Struck { damage }),
            old(self).carries_in_place(old(self).units@[unit_slot(old(self).units@, id)]),
        ensures
            final(self).wf(),
            exists|struck: Game|
                #[trigger] old(self).struck_by(id, damage, struck) && struck.zero_body_resolved(
                    id,
                    *final(self),
                    died,
                ),
    {
        proof {
            lemma_wf_ids(*self);
        }
        let index = match self.unit_index(id) {
            Some(index) => index,
            None => return false,
        };
        self.unit_reshape(index, Reshape::Struck { damage });
        let ghost struck = *self;
        proof {
            lemma_wf_ids(struck);
            lemma_slot_of(struck.units@, id, index as int);
        }
        let died = self.resolve_zero_body(id);
        proof {
            assert(old(self).struck_by(id, damage, struck));
        }
        died
    }

    /// The active hero's turn takes note of the attack of `plan` on a
    /// `defender` figure.
    #[verifier::spinoff_prover]
    #[verifier::rlimit(40)]
    fn follow_turn(&mut self, plan: AttackPlan, defender: FigureKind)
        requires
            old(self).wf(),
        ensures
            final(self).wf(),
            old(self).turn_followed(plan, defender, *final(self)),
    {
        proof {
            lemma_wf_ids(*self);
        }
        if self.active_hero_id() != Some(plan.attacker) {
            return;
        }
        let was_follow_up = self.hero_turn.orcs_bane_follow_up || self.hero_turn.heroic_brew_follow_up;
        let armed = match self.unit_index(plan.attacker) {
            Some(index) => {
                proof {
                    lemma_slot_of(self.units@, plan.attacker, index as int);
                }
                self.units[index].equipment_available && self.units[index].figure
                    != FigureKind::Hero(HeroKind::Wizard) && holds_artifact(
                    &self.units[index].inventory.artifacts,
                    Artifact::OrcsBane,
                )
            },
            None => false,
        };
        let earns_orcs_bane = !was_follow_up && defender == FigureKind::Monster(MonsterKind::Orc)
            && plan.source == AttackSource::OrcsBane && armed;
        let earns_brew = !was_follow_up && self.hero_turn.heroic_brew_ready;
        self.hero_turn.action_used = true;
        self.hero_turn.orcs_bane_follow_up = earns_orcs_bane;
        self.hero_turn.heroic_brew_follow_up = earns_brew && !earns_orcs_bane;
        self.hero_turn.heroic_brew_ready = false;
        self.hero_turn.potion_strength_bonus = 0;
        if self.hero_turn.moved_steps > 0 {
            self.hero_turn.movement_left = 0;
        }
        proof {
            reveal(Game::wf);
        }
        if earns_orcs_bane {
            self.push_log(
                String::from_str(
                    "Orc's Bane permits one immediate second attack against an adjacent Orc.",
                ),
            );
        } else if earns_brew {
            self.push_log(
                String::from_str(
                    "Heroic Brew permits one immediate second attack with any legal weapon.",
                ),
            );
        }
    }

    /// The blow of `plan` is followed up: a hero attacker holds the weapon
    /// used and spends its Courage, the blow is shown, and the active hero's
    /// turn moves on.
    #[verifier::spinoff_prover]
    #[verifier::rlimit(40)]
    fn follow_blow(
        &mut self,
        plan: AttackPlan,
        outcome: CombatOutcome,
        attacker: Faction,
        defender: FigureKind,
    )
        requires
            old(self).wf(),
        ensures
            final(self).wf(),
            old(self).blow_followed(plan, outcome, attacker, defender, *final(self)),
    {
        if attacker == Faction::Hero {
            self.commit_hero_attack_source(plan.attacker, plan.source);
        }
        let ghost committed = *self;
        proof {
            reveal(Game::wf);
        }
        self.visual_sequence = self.visual_sequence.wrapping_add(1);
        self.last_combat_visual = Some(
            CombatVisualEvent {
                sequence: self.visual_sequence,
                attacker: plan.attacker,
                defender: plan.defender,
                damage: outcome.damage,
                defender_died: outcome.defender_died,
            },
        );
        proof {
            reveal(Game::wf);
            assert(*self == committed.blow_shown(plan, outcome));
            assert(self.wf());
            lemma_wf_ids(*self);
        }
        if attacker == Faction::Hero {
            match self.unit_index(plan.attacker) {
                Some(index) => {
                    proof {
                        lemma_slot_of(self.units@, plan.attacker, index as int);
                    }
                    self.unit_reshape(index, Reshape::Disheartened);
                },
                None => {},
            }
        }
        let ghost cheered = *self;
        self.follow_turn(plan, defender);
        proof {
            assert(old(self).source_stage(plan, attacker, committed));
            assert(committed.blow_shown(plan, outcome).courage_stage(plan.attacker, attacker, cheered));
        }
    }
}

impl Game {
    /// A defeat at the hand of `killer`, if the blow felled a `figure`
    /// named `name`, pays its bounty and sets off its quest notes.
    #[verifier::spinoff_prover]
    fn follow_defeat(&mut self, killer: UnitId, figure: FigureKind, name: &String, died: bool)
        requires
            old(self).wf(),
        ensures
            final(self).wf(),
            old(self).defeat_followed(killer, figure, name@, died, *final(self)),
    {
        if died {
            self.award_monster_bounty(killer, figure);
            let ghost paid = *self;
            self.resolve_defeat_events(name, Some(killer));
            proof {
                assert(old(self).bounty_paid(killer, figure, paid));
            }
        }
    }

    /// Carries out `plan` with the combat dice thrown: each skull beyond the
    /// defender's shields costs it a Body Point, the blow is followed up and
    /// logged, a defeat pays its bounty and sets off its quest notes, and the
    /// quest is checked for its end.
    #[verifier::spinoff_prover]
    #[verifier::rlimit(80)]
    pub fn resolve_attack(
        &mut self,
        plan: AttackPlan,
        attack_faces: &[CombatFace],
        defend_faces: &[CombatFace],
    ) -> (outcome: Result<CombatOutcome, RuleError>)
        requires
            old(self).wf(),
            old(self).spec_unit(plan.defender) matches Some(d) ==> old(self).carries_in_place(d)
                && d.body - plan.attack_dice >= i16::MIN,
        ensures
            final(self).wf(),
            match outcome {
                Ok(o) => old(self).attack_refusal(
                    plan,
                    attack_faces@.len() as int,
                    defend_faces@.len() as int,
                ) is None && old(self).attack_resolved(
                    plan,
                    attack_faces@,
                    defend_faces@,
                    o,
                    *final(self),
                ),
                Err(e) => old(self).attack_refusal(
                    plan,
                    attack_faces@.len() as int,
                    defend_faces@.len() as int,
                ) == Some(e) && *final(self) == *old(self),
            },
    {
        proof {
            lemma_wf_ids(*self);
        }
        if attack_faces.len() != plan.attack_dice as usize || defend_faces.len()
            != plan.defend_dice as usize {
            return Err(RuleError::InvalidDice);
        }
        let ai = match self.unit_index(plan.attacker) {
            Some(index) => index,
            None => return Err(RuleError::StaleAttack),
        };
        let di = match self.unit_index(plan.defender) {
            Some(index) => index,
            None => return Err(RuleError::StaleAttack),
        };
        proof {
            lemma_slot_of(self.units@, plan.attacker, ai as int);
            lemma_slot_of(self.units@, plan.defender, di as int);
        }
        if !self.units[ai].alive || !self.units[di].alive || self.units[ai].escaped
            || self.units[di].escaped || !self.attack_source_reaches(
            &self.units[ai],
            &self.units[di],
            plan.source,
        ) {
            return Err(RuleError::StaleAttack);
        }
        let commanded_on_zargon_turn = self.phase == GamePhase::ZargonTurn && self.units[ai].commanded;
        if self.units[ai].faction == Faction::Hero && !commanded_on_zargon_turn && (
        self.active_hero_id() != Some(plan.attacker) || (self.hero_turn.action_used
            && !self.hero_turn.orcs_bane_follow_up && !self.hero_turn.heroic_brew_follow_up)) {
            return Err(RuleError::StaleAttack);
        }
        let defender_faction = self.units[di].faction;
        let skulls = count_faces(attack_faces, CombatFace::Skull);
        let shield = match defender_faction {
            Faction::Hero => CombatFace::WhiteShield,
            Faction::Monster => CombatFace::BlackShield,
        };
        let blocks = count_faces(defend_faces, shield);
        let uses_spirit_blade = self.units[di].immune_except_spirit_blade && self.units[ai].faction
            == Faction::Hero && plan.source == AttackSource::SpiritBlade;
        let damage: u8 = if self.units[di].invulnerable_until_acts || self.units[di].petrified_turns > 0
            || (self.units[di].immune_except_spirit_blade && !uses_spirit_blade) {
            0
        } else if skulls > blocks {
            skulls - blocks
        } else {
            0
        };
        let attacker_name = self.units[ai].name.clone();
        let attacker_faction = self.units[ai].faction;
        let defender_name = self.units[di].name.clone();
        let defender_figure = self.units[di].figure;
        let died = self.strike_down(plan.defender, damage);
        let outcome = CombatOutcome { skulls, blocks, damage, defender_died: died };
        let ghost fallen = *self;
        self.follow_blow(plan, outcome, attacker_faction, defender_figure);
        let ghost followed = *self;
        let mut line = attacker_name;
        line.append(" attacked ");
        line.append(defender_name.as_str());
        line.append(": ");
        let text = decimal_string(skulls as u64);
        line.append(text.as_str());
        line.append(" skulls, ");
        let text = decimal_string(blocks as u64);
        line.append(text.as_str());
        line.append(" blocks, ");
        let text = decimal_string(damage as u64);
        line.append(text.as_str());
        line.append(" damage");
        if died {
            line.append(" — defeated");
        }
        line.append(".");
        let ghost line_text = line@;
        self.push_log(line);
        let ghost told = *self;
        self.follow_defeat(plan.attacker, defender_figure, &defender_name, died);
        let ghost rewarded = *self;
        self.check_terminal();
        proof {
            reveal_strlit("");
            assert(old(self).blow_struck(plan, outcome, fallen));
            assert(line_text =~= blow_text(
                old(self).units@[ai as int].name@,
                old(self).units@[di as int].name@,
                skulls,
                blocks,
                damage,
                died,
            ));
            assert(blow_logged_and_followed(
                followed,
                old(self).units@[ai as int].name@,
                old(self).units@[di as int].name@,
                outcome,
                plan.attacker,
                defender_figure,
                rewarded,
            ));
            assert(rewarded.settled_into(*self));
        }
        Ok(outcome)
    }
}

impl Game {
    /// The attack the automatic player picks, when the active hero has one.
    pub open spec fn picked_attack(self, plan: AttackPlan) -> bool {
        self.spec_attack_options() matches Ok(options) && exists|k: int|
            #[trigger] self.is_last_best(options, k) && plan == options[k]
    }

    /// Throws `count` combat dice with the game's generator.
    fn random_combat_faces(&mut self, count: u8) -> (faces: Vec<CombatFace>)
        requires
            old(self).wf(),
        ensures
            final(self).wf(),
            faces@.len() == count,
            *final(self) == (Game { rng: final(self).rng, ..*old(self) }),
    {
        let mut faces: Vec<CombatFace> = Vec::new();
        let mut i: u8 = 0;
        while i < count
            invariant
                self.wf(),
                i <= count,
                faces@.len() == i,
                *self == (Game { rng: self.rng, ..*old(self) }),
            decreases count - i,
        {
            let n = self.roll_die();
            let face = if n <= 3 {
                CombatFace::Skull
            } else if n <= 5 {
                CombatFace::WhiteShield
            } else {
                CombatFace::BlackShield
            };
            faces.push(face);
            i = i + 1;
        }
        faces
    }

    /// The automatic player's attack for the active hero, with combat dice
    /// thrown by the game's generator: the plan it picks is carried out with
    /// whatever faces come up.
    #[verifier::spinoff_prover]
    #[verifier::rlimit(40)]
    pub fn attack_active_random(&mut self) -> (outcome: Result<CombatOutcome, RuleError>)
        requires
            old(self).wf(),
            defense_fits(old(self).units@),
            forall|i: int|
                0 <= i < old(self).units@.len() ==> old(self).carries_in_place(
                    #[trigger] old(self).units@[i],
                ) && old(self).units@[i].body >= i16::MIN + 255,
        ensures
            final(self).wf(),
            match outcome {
                Ok(o) => exists|plan: AttackPlan, rolled: Game, attack: Seq<CombatFace>, defend: Seq<CombatFace>|
                    #![trigger old(self).picked_attack(plan), rolled.attack_resolved(plan, attack, defend, o, *final(self))]
                    old(self).picked_attack(plan) && rolled == (Game { rng: rolled.rng, ..*old(self) })
                        && attack.len() == plan.attack_dice && defend.len() == plan.defend_dice
                        && rolled.attack_refusal(plan, attack.len() as int, defend.len() as int) is None
                        && rolled.attack_resolved(plan, attack, defend, o, *final(self)),
                Err(e) => old(self).spec_attack_options() == Err::<Seq<AttackPlan>, RuleError>(e)
                    && *final(self) == *old(self) || exists|plan: AttackPlan|
                    #[trigger] old(self).picked_attack(plan) && *final(self) == (Game {
                        rng: final(self).rng,
                        ..*old(self)
                    }) && final(self).attack_refusal(
                        plan,
                        plan.attack_dice as int,
                        plan.defend_dice as int,
                    ) == Some(e),
            },
    {
        let plan = match self.active_attack_plan() {
            Ok(plan) => plan,
            Err(error) => return Err(error),
        };
        proof {
            assert(old(self).picked_attack(plan));
            lemma_wf_ids(*self);
        }
        let attack = self.random_combat_faces(plan.attack_dice);
        let defend = self.random_combat_faces(plan.defend_dice);
        let ghost rolled = *self;
        proof {
            if has_unit_id(self.units@, plan.defender) {
                let slot = unit_slot(self.units@, plan.defender);
                assert(old(self).units@[slot] == self.units@[slot]);
            }
        }
        let outcome = self.resolve_attack(plan, &attack, &defend);
        proof {
            match outcome {
                Ok(o) => {
                    assert(rolled.attack_resolved(plan, attack@, defend@, o, *self));
                },
                Err(e) => {},
            }
        }
        outcome
    }
}

impl Game {
    /// A blow the rules accept is struck at a figure the attacker can see;
    /// a Crossbow bolt or thrown Dagger at one that is not beside it.
    pub proof fn lemma_accepted_attack_in_sight(self, plan: AttackPlan, attack_len: int, defend_len: int)
        requires
            self.attack_refusal(plan, attack_len, defend_len) is None,
        ensures
            self.spec_unit(plan.attacker) is Some,
            self.spec_unit(plan.defender) is Some,
            ({
                let a = self.spec_unit(plan.attacker)->Some_0;
                let d = self.spec_unit(plan.defender)->Some_0;
                &&& self.spec_can_see(a.pos, d.pos)
                &&& crate::combat::is_ranged(plan.source) ==> crate::model::axis_gap(a.pos.x, d.pos.x) > 1
                    || crate::model::axis_gap(a.pos.y, d.pos.y) > 1
            }),
    {
        let a = self.spec_unit(plan.attacker)->Some_0;
        let d = self.spec_unit(plan.defender)->Some_0;
        self.lemma_attacks_need_sight(a, d, plan.source);
    }
}

} // verus!
