//! What a defeat sets going: the Emperor's bounty on the kind of monster
//! slain, and the quest notes that wait for a named foe to fall.
use vstd::prelude::*;

use crate::cards::Artifact;
use crate::engine::{has_unit_id, lemma_slot_of, lemma_wf_ids, log_after, unit_slot, Game};
use crate::game::{spec_connects, Door, QuestEvent, QuestTrigger, Unit, UnitId};
use crate::model::{spec_monster_name, Faction, FigureKind, HeroKind, MonsterKind, Pos};
use crate::outcome::{first_named, split_units};
use crate::pieces::{allocations_done, pending_order};
use crate::quest::QuestEffectDef;
use crate::status::{decimal_string, decimal_text};
use crate::strike::{reshaped, Reshape};

verus! {

/// The gold the Emperor pays for a `kind` monster, by the first listing of
/// that kind.
pub open spec fn bounty_for(bounties: Seq<(MonsterKind, u16)>, kind: MonsterKind) -> Option<u16>
    decreases bounties.len(),
{
    if bounties.len() == 0 {
        None
    } else if bounties[0].0 == kind {
        Some(bounties[0].1)
    } else {
        bounty_for(bounties.drop_first(), kind)
    }
}

/// `i` is the first living figure that is a `kind` hero.
pub open spec fn first_hero_at(units: Seq<Unit>, kind: HeroKind, i: int) -> bool {
    &&& 0 <= i < units.len()
    &&& units[i].alive && units[i].figure == FigureKind::Hero(kind)
    &&& forall|j: int|
        0 <= j < i ==> !(#[trigger] units[j].alive && units[j].figure == FigureKind::Hero(kind))
}

/// `i` is the first secret door joining `a` and `b`.
pub open spec fn first_secret_door_at(doors: Seq<Door>, a: Pos, b: Pos, i: int) -> bool {
    &&& 0 <= i < doors.len()
    &&& doors[i].secret && spec_connects(doors[i], a, b)
    &&& forall|j: int| 0 <= j < i ==> !(#[trigger] doors[j].secret && spec_connects(doors[j], a, b))
}

impl Game {
    /// `after` is this game once the figure `killer` has slain a `defeated`
    /// figure: a living hero is paid the bounty on that kind of monster,
    /// which the log tells.
    pub open spec fn bounty_paid(self, killer: UnitId, defeated: FigureKind, after: Game) -> bool {
        match defeated {
            FigureKind::Monster(kind) => match bounty_for(self.monster_bounties@, kind) {
                Some(gold) => if has_unit_id(self.units@, killer) && self.units@[unit_slot(
                    self.units@,
                    killer,
                )].alive && self.units@[unit_slot(self.units@, killer)].faction == Faction::Hero {
                    let slot = unit_slot(self.units@, killer);
                    &&& after.units@ == self.units@.update(slot, after.units@[slot])
                    &&& reshaped(self.units@[slot], Reshape::Paid { amount: gold }, after.units@[slot])
                    &&& after == (Game { units: after.units, log: after.log, ..self })
                    &&& after.log@.len() > 0
                    &&& after.log@ == log_after(self.log@, after.log@.last())
                    &&& after.log@.last()@ == self.units@[slot].name@ + " earned the Emperor's "@
                        + decimal_text(gold as nat) + "-gold bounty for defeating a "@
                        + spec_monster_name(kind) + "."@
                } else {
                    after == self
                },
                None => after == self,
            },
            FigureKind::Hero(_) => after == self,
        }
    }

    /// The Emperor's bounty on a `kind` monster, if one is offered.
    fn bounty_on(&self, kind: MonsterKind) -> (gold: Option<u16>)
        ensures
            gold == bounty_for(self.monster_bounties@, kind),
    {
        let mut i: usize = 0;
        assert(self.monster_bounties@.subrange(0, self.monster_bounties@.len() as int)
            =~= self.monster_bounties@);
        while i < self.monster_bounties.len()
            invariant
                i <= self.monster_bounties@.len(),
                bounty_for(self.monster_bounties@, kind) == bounty_for(
                    self.monster_bounties@.subrange(i as int, self.monster_bounties@.len() as int),
                    kind,
                ),
            decreases self.monster_bounties.len() - i,
        {
            let ghost rest = self.monster_bounties@.subrange(
                i as int,
                self.monster_bounties@.len() as int,
            );
            assert(rest.drop_first() =~= self.monster_bounties@.subrange(
                i + 1,
                self.monster_bounties@.len() as int,
            ));
            assert(rest[0] == self.monster_bounties@[i as int]);
            if self.monster_bounties[i].0 == kind {
                return Some(self.monster_bounties[i].1);
            }
            i = i + 1;
        }
        None
    }

    /// The figure `killer` has slain a `defeated` figure: a living hero
    /// earns the bounty on that kind of monster.
    #[verifier::spinoff_prover]
    #[verifier::rlimit(40)]
    pub(crate) fn award_monster_bounty(&mut self, killer: UnitId, defeated: FigureKind)
        requires
            old(self).wf(),
        ensures
            final(self).wf(),
            old(self).bounty_paid(killer, defeated, *final(self)),
    {
        proof {
            lemma_wf_ids(*self);
        }
        let kind = match defeated {
            FigureKind::Monster(kind) => kind,
            FigureKind::Hero(_) => return,
        };
        let gold = match self.bounty_on(kind) {
            Some(gold) => gold,
            None => return,
        };
        let index = match self.unit_index(killer) {
            Some(index) => index,
            None => return,
        };
        proof {
            lemma_slot_of(self.units@, killer, index as int);
        }
        if !self.units[index].alive || self.units[index].faction != Faction::Hero {
            return;
        }
        let mut message = self.units[index].name.clone();
        self.unit_reshape(index, Reshape::Paid { amount: gold });
        message.append(" earned the Emperor's ");
        let amount = decimal_string(gold as u64);
        message.append(amount.as_str());
        message.append("-gold bounty for defeating a ");
        message.append(kind.name());
        message.append(".");
        self.push_log(message);
    }

    /// `after` is this game once `artifact` has gone to the figure
    /// `unit_id`, if that is a living hero that lacks it.
    pub open spec fn artifact_granted_to_unit(self, unit_id: UnitId, artifact: Artifact, after: Game) -> bool {
        if has_unit_id(self.units@, unit_id) && self.units@[unit_slot(self.units@, unit_id)].alive
            && self.units@[unit_slot(self.units@, unit_id)].faction == Faction::Hero {
            let slot = unit_slot(self.units@, unit_id);
            &&& after.units@ == self.units@.update(slot, after.units@[slot])
            &&& reshaped(self.units@[slot], Reshape::Granted { artifact }, after.units@[slot])
            &&& after == (Game { units: after.units, ..self })
        } else {
            after == self
        }
    }

    /// Gives `artifact` to the figure `unit_id`, if it is a living hero that
    /// lacks it.
    pub(crate) fn grant_artifact_to_unit(&mut self, unit_id: UnitId, artifact: Artifact)
        requires
            old(self).wf(),
        ensures
            final(self).wf(),
            old(self).artifact_granted_to_unit(unit_id, artifact, *final(self)),
    {
        proof {
            lemma_wf_ids(*self);
        }
        let index = match self.unit_index(unit_id) {
            Some(index) => index,
            None => return,
        };
        proof {
            lemma_slot_of(self.units@, unit_id, index as int);
        }
        if !self.units[index].alive || self.units[index].faction != Faction::Hero {
            return;
        }
        self.unit_reshape(index, Reshape::Granted { artifact });
    }

    /// `after` is this game once `artifact` has gone to the first living
    /// `kind` hero, if there is one and it lacks it.
    pub open spec fn artifact_granted_to_hero(self, kind: HeroKind, artifact: Artifact, after: Game) -> bool {
        if exists|i: int| first_hero_at(self.units@, kind, i) {
            let slot = choose|i: int| first_hero_at(self.units@, kind, i);
            &&& after.units@ == self.units@.update(slot, after.units@[slot])
            &&& reshaped(self.units@[slot], Reshape::Granted { artifact }, after.units@[slot])
            &&& after == (Game { units: after.units, ..self })
        } else {
            after == self
        }
    }

    /// Gives `artifact` to the first living `kind` hero, if it lacks it.
    fn grant_artifact_to_hero(&mut self, kind: HeroKind, artifact: Artifact)
        requires
            old(self).wf(),
        ensures
            final(self).wf(),
            old(self).artifact_granted_to_hero(kind, artifact, *final(self)),
            old(self).fixtures_kept(*final(self)),
    {
        let mut i: usize = 0;
        while i < self.units.len()
            invariant
                i <= self.units@.len(),
                *self == *old(self),
                self.wf(),
                old(self).fixtures_kept(*self),
                forall|j: int|
                    0 <= j < i ==> !(#[trigger] self.units@[j].alive && self.units@[j].figure
                        == FigureKind::Hero(kind)),
            decreases self.units.len() - i,
        {
            if self.units[i].alive && self.units[i].figure == FigureKind::Hero(kind) {
                proof {
                    assert(first_hero_at(self.units@, kind, i as int));
                    let k = choose|k: int| first_hero_at(self.units@, kind, k);
                    if k < i {
                        assert(!(self.units@[k].alive && self.units@[k].figure == FigureKind::Hero(kind)));
                    } else if i < k {
                        assert(!(self.units@[i as int].alive && self.units@[i as int].figure
                            == FigureKind::Hero(kind)));
                    }
                }
                self.unit_reshape(i, Reshape::Granted { artifact });
                return;
            }
            i = i + 1;
        }
        proof {
            assert forall|k: int| !first_hero_at(self.units@, kind, k) by {
                if 0 <= k < self.units@.len() {
                    assert(!(self.units@[k].alive && self.units@[k].figure == FigureKind::Hero(kind)));
                }
            }
        }
    }

    /// `after` is this game once the first secret door joining `a` and `b`
    /// has been found.
    pub open spec fn secret_door_revealed(self, a: Pos, b: Pos, after: Game) -> bool {
        if exists|i: int| first_secret_door_at(self.doors@, a, b, i) {
            let slot = choose|i: int| first_secret_door_at(self.doors@, a, b, i);
            &&& after.doors@ == self.doors@.update(slot, Door { discovered: true, ..self.doors@[slot] })
            &&& after == (Game { doors: after.doors, ..self })
        } else {
            after == self
        }
    }

    /// The first secret door joining `a` and `b` is found.
    fn reveal_specific_secret_door(&mut self, a: Pos, b: Pos)
        requires
            old(self).wf(),
        ensures
            final(self).wf(),
            old(self).secret_door_revealed(a, b, *final(self)),
            old(self).fixtures_kept(*final(self)),
    {
        let mut i: usize = 0;
        while i < self.doors.len()
            invariant
                i <= self.doors@.len(),
                *self == *old(self),
                self.wf(),
                forall|j: int|
                    0 <= j < i ==> !(#[trigger] self.doors@[j].secret && spec_connects(
                        self.doors@[j],
                        a,
                        b,
                    )),
            decreases self.doors.len() - i,
        {
            if self.doors[i].secret && self.doors[i].connects(a, b) {
                proof {
                    assert(first_secret_door_at(self.doors@, a, b, i as int));
                    let k = choose|k: int| first_secret_door_at(self.doors@, a, b, k);
                    if k < i {
                        assert(!(self.doors@[k].secret && spec_connects(self.doors@[k], a, b)));
                    } else if i < k {
                        assert(!(self.doors@[i as int].secret && spec_connects(
                            self.doors@[i as int],
                            a,
                            b,
                        )));
                    }
                }
                let door = Door { discovered: true, ..self.doors[i] };
                self.doors.set(i, door);
                proof {
                    reveal(Game::wf);
                    assert(self.doors@ =~= old(self).doors@.update(i as int, door));
                    assert forall|k: int| 0 <= k < self.doors@.len() implies crate::engine::spec_in_bounds(
                        #[trigger] self.doors@[k].a,
                    ) && crate::engine::spec_in_bounds(self.doors@[k].b) by {
                        assert(self.doors@[k].a == old(self).doors@[k].a);
                        assert(self.doors@[k].b == old(self).doors@[k].b);
                    }
                }
                return;
            }
            i = i + 1;
        }
        proof {
            assert forall|k: int| !first_secret_door_at(self.doors@, a, b, k) by {
                if 0 <= k < self.doors@.len() {
                    assert(!(self.doors@[k].secret && spec_connects(self.doors@[k], a, b)));
                }
            }
        }
    }

    /// `after` is this game once the first figure named `name` has woken and
    /// shown itself, and each monster then in view has its piece.
    pub open spec fn named_activated(self, name: Seq<char>, after: Game) -> bool {
        exists|woken: Game|
            #[trigger] allocations_done(
                woken,
                pending_order(woken, woken.units@, true) + pending_order(
                    woken,
                    woken.units@,
                    false,
                ),
                after,
            ) && match first_named(self.units@, name, false, self.units@.len()) {
                Some(slot) => {
                    &&& woken.units@ == self.units@.update(slot, woken.units@[slot])
                    &&& reshaped(self.units@[slot], Reshape::Activated, woken.units@[slot])
                    &&& woken == (Game { units: woken.units, ..self })
                },
                None => woken == self,
            }
    }

    /// The first figure named `name` wakes and shows itself, and each
    /// monster then in view is given its piece.
    fn activate_named_unit(&mut self, name: &String)
        requires
            old(self).wf(),
        ensures
            final(self).wf(),
            old(self).named_activated(name@, *final(self)),
            old(self).fixtures_kept(*final(self)),
    {
        match self.find_named(name, false) {
            Some(index) => self.unit_reshape(index, Reshape::Activated),
            None => {},
        }
        let ghost woken = *self;
        self.allocate_pending_visible_figures();
        proof {
            assert(allocations_done(
                woken,
                pending_order(woken, woken.units@, true) + pending_order(
                    woken,
                    woken.units@,
                    false,
                ),
                *self,
            ));
        }
    }
}

/// The quest note waits for the figure named `name` to fall.
pub open spec fn defeat_note_fires(event: QuestEvent, name: Seq<char>) -> bool {
    &&& !event.resolved
    &&& event.trigger matches QuestTrigger::DefeatNamed { name: n } && n@ == name
}

/// `marked` is `events` with each note that the fall of `name` sets off
/// marked as fired.
pub open spec fn notes_marked(events: Seq<QuestEvent>, name: Seq<char>, marked: Seq<QuestEvent>) -> bool {
    &&& marked.len() == events.len()
    &&& forall|i: int|
        0 <= i < events.len() ==> #[trigger] marked[i] == if defeat_note_fires(events[i], name) {
            QuestEvent { resolved: true, ..events[i] }
        } else {
            events[i]
        }
}

/// Sharing out gold leaves each figure in its place.
proof fn lemma_split_keeps_places(units: Seq<Unit>, living: Seq<UnitId>, amount: u16, n: nat)
    ensures
        crate::pieces::same_places(units, split_units(units, living, amount, n)),
{
    reveal(crate::outcome::change_listed);
    let after = split_units(units, living, amount, n);
    assert forall|i: int| 0 <= i < units.len() implies #[trigger] after[i].id == units[i].id
        && after[i].pos == units[i].pos && after[i].carried_quest_item == units[i].carried_quest_item by {
    }
}

/// Marks a game reached part-way through a bundle of effects.
pub open spec fn midway(game: Game) -> bool {
    true
}

impl Game {
    /// `after` is this game once `effect` has been worked on the board.
    pub open spec fn effect_applied(self, effect: QuestEffectDef, after: Game) -> bool
        decreases effect, crate::game::bundle_len(effect) + 1,
    {
        match effect {
            QuestEffectDef::ActivateNamed { name } => self.named_activated(name@, after),
            QuestEffectDef::RevealSecretDoor { a, b } => self.secret_door_revealed(a, b, after),
            QuestEffectDef::SplitGold { amount } => {
                &&& after.units@ == split_units(
                    self.units@,
                    self.living_ids(),
                    amount,
                    self.living_ids().len(),
                )
                &&& after == (Game { units: after.units, ..self })
            },
            QuestEffectDef::ArtifactToHero { hero, artifact } => self.artifact_granted_to_hero(
                hero,
                artifact,
                after,
            ),
            QuestEffectDef::Bundle { effects } => self.bundle_applied(
                effect,
                effects.len() as int,
                after,
            ),
            _ => after == self,
        }
    }

    /// `after` is this game once the first `n` effects of the bundle
    /// `effect` have been worked in order.
    pub open spec fn bundle_applied(self, effect: QuestEffectDef, n: int, after: Game) -> bool
        decreases effect, n,
    {
        match effect {
            QuestEffectDef::Bundle { effects } => if n <= 0 {
                after == self
            } else if n > effects.len() {
                false
            } else {
                proof {
                    assert(decreases_to!(effect => effects));
                    assert(decreases_to!(effects => effects[n - 1]));
                }
                exists|mid: Game|
                    #[trigger] midway(mid) && self.bundle_applied(effect, n - 1, mid)
                        && mid.effect_applied(effects[n - 1], after)
            },
            _ => false,
        }
    }

    /// Works `effect` on the board.
    pub(crate) fn apply_world_effect(&mut self, effect: &QuestEffectDef)
        requires
            old(self).wf(),
        ensures
            final(self).wf(),
            old(self).effect_applied(*effect, *final(self)),
            old(self).fixtures_kept(*final(self)),
        decreases *effect,
    {
        match effect {
            QuestEffectDef::ActivateNamed { name } => self.activate_named_unit(name),
            QuestEffectDef::RevealSecretDoor { a, b } => self.reveal_specific_secret_door(*a, *b),
            QuestEffectDef::SplitGold { amount } => {
                self.split_gold_among_living_heroes(*amount);
                proof {
                    lemma_split_keeps_places(
                        old(self).units@,
                        old(self).living_ids(),
                        *amount,
                        old(self).living_ids().len(),
                    );
                }
            },
            QuestEffectDef::ArtifactToHero { hero, artifact } => self.grant_artifact_to_hero(
                *hero,
                *artifact,
            ),
            QuestEffectDef::Bundle { effects } => {
                let ghost start = *self;
                let mut i: usize = 0;
                while i < effects.len()
                    invariant
                        self.wf(),
                        *effect is Bundle,
                        *effects == (*effect)->effects,
                        0 <= i <= effects.len(),
                        start.bundle_applied(*effect, i as int, *self),
                        old(self).fixtures_kept(*self),
                    decreases effects.len() - i,
                {
                    proof {
                        let ghost whole: QuestEffectDef = *effect;
                        assert(decreases_to!(whole => whole->effects));
                        assert(decreases_to!(whole->effects => whole->effects[i as int]));
                    }
                    let ghost mid = *self;
                    self.apply_world_effect(&effects[i]);
                    proof {
                        assert(start.bundle_applied(*effect, i as int, mid) && mid.effect_applied(
                            effects@[i as int],
                            *self,
                        ));
                        lemma_bundle_step(start, *effect, i as int, mid, *self);
                    }
                    i = i + 1;
                }
            },
            _ => {},
        }
    }

    /// `after` is this game once the effect of a note fired by a defeat at
    /// the hand of `killer` has been worked: a reward for the killer goes to
    /// that hero.
    pub open spec fn note_effect_worked(self, effect: QuestEffectDef, killer: Option<UnitId>, after: Game) -> bool {
        match effect {
            QuestEffectDef::ArtifactToKiller { artifact } => match killer {
                Some(k) => self.artifact_granted_to_unit(k, artifact, after),
                None => after == self,
            },
            _ => self.effect_applied(effect, after),
        }
    }

    /// `after` is this game once the quest note `event` has fired after a
    /// defeat at the hand of `killer`: its effect is worked, then its
    /// message logged.
    pub open spec fn note_fired(self, event: QuestEvent, killer: Option<UnitId>, after: Game) -> bool {
        exists|acted: Game|
            #[trigger] self.note_effect_worked(event.effect, killer, acted) && match event.message {
                Some(m) => after.log@ == log_after(acted.log@, m) && after == (Game {
                    log: after.log,
                    ..acted
                }),
                None => after == acted,
            }
    }
}

/// `after` is `start` once each of the first `n` of `events` that the fall
/// of `name` sets off has fired, in order.
pub open spec fn defeat_notes_done(
    start: Game,
    events: Seq<QuestEvent>,
    name: Seq<char>,
    killer: Option<UnitId>,
    n: int,
    after: Game,
) -> bool
    decreases n,
{
    if n <= 0 {
        after == start
    } else {
        exists|mid: Game|
            defeat_notes_done(start, events, name, killer, n - 1, mid) && #[trigger] note_step(
                mid,
                events[n - 1],
                name,
                killer,
                after,
            )
    }
}

/// `after` is `mid` once `event` has fired, if the fall of `name` sets it
/// off, else `mid` itself.
pub open spec fn note_step(
    mid: Game,
    event: QuestEvent,
    name: Seq<char>,
    killer: Option<UnitId>,
    after: Game,
) -> bool {
    if defeat_note_fires(event, name) {
        mid.note_fired(event, killer, after)
    } else {
        after == mid
    }
}

impl Game {
    /// `after` is this game once the figure named `name` has fallen at the
    /// hand of `killer`: every quest note waiting for that fires, in order,
    /// and is marked as fired. No effect reads the notes themselves.
    pub open spec fn defeat_events_resolved(self, name: Seq<char>, killer: Option<UnitId>, after: Game) -> bool {
        exists|cleared: Game, done: Game|
            #![trigger defeat_notes_done(cleared, self.quest_events@, name, killer, self.quest_events@.len() as int, done)]
            cleared == (Game { quest_events: cleared.quest_events, ..self })
                && cleared.quest_events@.len() == 0 && defeat_notes_done(
                cleared,
                self.quest_events@,
                name,
                killer,
                self.quest_events@.len() as int,
                done,
            ) && after == (Game { quest_events: after.quest_events, ..done }) && notes_marked(
                self.quest_events@,
                name,
                after.quest_events@,
            )
    }

    /// The figure named `name` has fallen at the hand of `killer`: each
    /// quest note waiting for that fires and is marked as fired.
    #[verifier::spinoff_prover]
    #[verifier::rlimit(60)]
    pub(crate) fn resolve_defeat_events(&mut self, name: &String, killer: Option<UnitId>)
        requires
            old(self).wf(),
        ensures
            final(self).wf(),
            old(self).defeat_events_resolved(name@, killer, *final(self)),
    {
        let mut events: Vec<QuestEvent> = Vec::new();
        std::mem::swap(&mut events, &mut self.quest_events);
        let ghost original = events@;
        let ghost cleared = *self;
        proof {
            reveal(Game::wf);
        }
        let mut i: usize = 0;
        while i < events.len()
            invariant
                self.wf(),
                events@.len() == original.len(),
                0 <= i <= original.len(),
                cleared.quest_events@.len() == 0,
                forall|j: int|
                    0 <= j < i ==> #[trigger] events@[j] == if defeat_note_fires(original[j], name@) {
                        QuestEvent { resolved: true, ..original[j] }
                    } else {
                        original[j]
                    },
                forall|j: int| i <= j < original.len() ==> #[trigger] events@[j] == original[j],
                defeat_notes_done(cleared, original, name@, killer, i as int, *self),
            decreases events.len() - i,
        {
            let ghost mid = *self;
            let fires = !events[i].resolved && match &events[i].trigger {
                QuestTrigger::DefeatNamed { name: n } => *n == *name,
                _ => false,
            };
            if fires {
                let mut event = QuestEvent {
                    id: String::new(),
                    trigger: QuestTrigger::RevealRoom { region: 0 },
                    effect: QuestEffectDef::Empty,
                    message: None,
                    resolved: false,
                };
                events.set_and_swap(i, &mut event);
                assert(event == original[i as int]);
                match &event.effect {
                    QuestEffectDef::ArtifactToKiller { artifact } => match killer {
                        Some(k) => self.grant_artifact_to_unit(k, *artifact),
                        None => {},
                    },
                    other => self.apply_world_effect(other),
                }
                let ghost acted = *self;
                match &event.message {
                    Some(m) => self.push_log(m.clone()),
                    None => {},
                }
                proof {
                    assert(mid.note_effect_worked(event.effect, killer, acted));
                    assert(mid.note_fired(event, killer, *self));
                }
                event.resolved = true;
                events.set(i, event);
            }
            proof {
                assert(defeat_notes_done(cleared, original, name@, killer, i as int, mid));
                lemma_notes_step(cleared, original, name@, killer, i as int, mid, *self);
            }
            i = i + 1;
        }
        let ghost done = *self;
        std::mem::swap(&mut events, &mut self.quest_events);
        proof {
            reveal(Game::wf);
            assert(notes_marked(original, name@, self.quest_events@));
            assert(defeat_notes_done(cleared, original, name@, killer, original.len() as int, done));
        }
    }
}

proof fn lemma_bundle_step(start: Game, effect: QuestEffectDef, k: int, mid: Game, after: Game)
    requires
        effect is Bundle,
        0 <= k < effect->effects.len(),
        start.bundle_applied(effect, k, mid),
        mid.effect_applied(effect->effects@[k], after),
    ensures
        start.bundle_applied(effect, k + 1, after),
{
    assert(midway(mid));
}

proof fn lemma_notes_step(
    start: Game,
    events: Seq<QuestEvent>,
    name: Seq<char>,
    killer: Option<UnitId>,
    k: int,
    mid: Game,
    after: Game,
)
    requires
        0 <= k,
        k < events.len(),
        defeat_notes_done(start, events, name, killer, k, mid),
        note_step(mid, events[k], name, killer, after),
    ensures
        defeat_notes_done(start, events, name, killer, k + 1, after),
{
    assert((k + 1) - 1 == k);
}

impl Game {
    /// A quest note fires once: after a defeat has set off its notes, none
    /// of them waits for that defeat any more, and no note is lost.
    pub proof fn lemma_defeat_notes_fire_once(self, name: Seq<char>, killer: Option<UnitId>, after: Game)
        requires
            self.defeat_events_resolved(name, killer, after),
        ensures
            after.quest_events@.len() == self.quest_events@.len(),
            forall|i: int|
                0 <= i < after.quest_events@.len() ==> !defeat_note_fires(
                    #[trigger] after.quest_events@[i],
                    name,
                ),
    {
        assert forall|i: int| 0 <= i < after.quest_events@.len() implies !defeat_note_fires(
            #[trigger] after.quest_events@[i],
            name,
        ) by {
            assert(after.quest_events@[i] == if defeat_note_fires(self.quest_events@[i], name) {
                QuestEvent { resolved: true, ..self.quest_events@[i] }
            } else {
                self.quest_events@[i]
            });
        }
    }
}

} // verus!
