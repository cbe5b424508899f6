//! Teleporting through a magical door: two red dice name the destination,
//! and a figure standing there is struck and must teleport in turn.
use vstd::prelude::*;

use crate::engine::{
    Game, all_d6_faces, all_faces_valid, has_unit_id, lemma_slot_of, lemma_wf_ids, log_after,
    logged_one_line, spec_in_bounds, unit_slot,
};
use crate::game::{CombatVisualEvent, PendingTeleportRoll, Prop, RuleError, UnitId};
use crate::model::{Faction, Pos};
use crate::ring::carried_home;
use crate::status::{decimal_string, decimal_text};

verus! {

impl Game {
    /// The square the teleport destinations give for a dice total, if any.
    pub open spec fn teleport_to(self, total: int) -> Option<Pos> {
        if exists|i: int| 0 <= i < self.teleport_destinations@.len()
            && #[trigger] self.teleport_destinations@[i].0 == total {
            Some(
                self.teleport_destinations@[choose|i: int|
                    0 <= i < self.teleport_destinations@.len()
                        && #[trigger] self.teleport_destinations@[i].0 == total].1,
            )
        } else {
            None
        }
    }

    /// Why the thrown `dice` cannot settle the pending teleport, if they
    /// cannot: not two dice of one to six; no teleport pending; no
    /// destination for the total; or the figure to move is gone.
    pub open spec fn teleport_refusal(self, dice: Seq<u8>) -> Option<RuleError> {
        if dice.len() != 2 || !all_d6_faces(dice) {
            Some(RuleError::InvalidDice)
        } else {
            match self.pending_teleport_roll {
                None => Some(RuleError::StaleTeleport),
                Some(pending) => if self.teleport_to(dice[0] + dice[1]) is None {
                    Some(RuleError::StaleTeleport)
                } else {
                    match self.spec_unit(pending.subject) {
                        Some(unit) => if unit.alive && !unit.escaped {
                            None
                        } else {
                            Some(RuleError::StaleTeleport)
                        },
                        None => Some(RuleError::StaleTeleport),
                    }
                },
            }
        }
    }

    /// `moved` is this game once the pending teleport's figure stands on
    /// `dest`, out of any pit, with what it carries, and nothing is pending.
    pub open spec fn teleport_moved(self, dest: Pos, moved: Game) -> bool {
        let subject = self.pending_teleport_roll->Some_0.subject;
        let slot = unit_slot(self.units@, subject);
        let unit = self.units@[slot];
        &&& moved.units@ == self.units@.update(slot, carried_home(unit, dest, false))
        &&& moved.props@ == match unit.carried_quest_item {
            Some(item) => {
                let piece = self.quest_items@[item as int].prop_index as int;
                self.props@.update(piece, Prop { pos: dest, ..self.props@[piece] })
            },
            None => self.props@,
        }
        &&& moved == (Game {
            units: moved.units,
            props: moved.props,
            pending_teleport_roll: None,
            ..self
        })
    }

    /// `after` is this game (the figure `struck` just hit for one Body
    /// Point by `subject` landing on `dest`) once the blow is shown and, if
    /// the figure still stands, it must teleport away from `dest`; one line
    /// is logged.
    pub open spec fn landing_struck(
        self,
        subject: UnitId,
        struck: UnitId,
        dest: Pos,
        name: Seq<char>,
        after: Game,
    ) -> bool {
        let alive = self.spec_unit(struck) matches Some(unit) && unit.alive;
        let sequence = if self.visual_sequence == u64::MAX {
            0
        } else {
            (self.visual_sequence + 1) as u64
        };
        &&& after == (Game {
            visual_sequence: sequence,
            last_combat_visual: Some(
                CombatVisualEvent {
                    sequence,
                    attacker: subject,
                    defender: struck,
                    damage: 1,
                    defender_died: !alive,
                },
            ),
            pending_teleport_roll: if alive {
                Some(PendingTeleportRoll { subject: struck, forbidden_destination: Some(dest) })
            } else {
                self.pending_teleport_roll
            },
            log: after.log,
            ..self
        })
        &&& logged_one_line(self.log@, after.log@)
        &&& after.log@.last()@ == name + if alive {
            " loses 1 Body Point and must roll two red dice to be displaced."@
        } else {
            " loses 1 Body Point and is destroyed by the collision."@
        }
    }

    /// The name of the figure with `id`, or `fallback` when it is gone.
    pub open spec fn name_or(self, id: UnitId, fallback: Seq<char>) -> Seq<char> {
        match self.spec_unit(id) {
            Some(unit) => unit.name@,
            None => fallback,
        }
    }

    /// The line a teleport's figure logs: its name, the dice total, and
    /// then `tail`.
    pub open spec fn teleport_line(self, total: int, tail: Seq<char>) -> Seq<char> {
        let subject = self.pending_teleport_roll->Some_0.subject;
        self.units@[unit_slot(self.units@, subject)].name@ + " rolled "@ + decimal_text(total as nat)
            + tail
    }

    /// `after` is this game once the teleport to `dest` is carried out:
    /// the figure is moved, a hero sees what lies around it, the landing is
    /// logged, a figure landed on loses a Body Point and must teleport in
    /// turn, and the quest is checked for its end.
    pub open spec fn teleport_done(self, total: int, dest: Pos, after: Game) -> bool {
        exists|moved: Game, shown: Game, told: Game, struck: Game|
            #[trigger] self.teleport_stages(total, dest, moved, shown, told, struck, after)
    }

    /// The stages of a teleport to `dest`: `moved` once the figure is moved,
    /// `shown` once a hero has seen around it, `told` once the landing is
    /// logged, `struck` once a figure landed on has been hit, and `after`
    /// once the quest is checked for its end.
    pub open spec fn teleport_stages(
        self,
        total: int,
        dest: Pos,
        moved: Game,
        shown: Game,
        told: Game,
        struck: Game,
        after: Game,
    ) -> bool {
        let subject = self.pending_teleport_roll->Some_0.subject;
        let landed = self.spec_first_occupant(dest, Some(subject));
        let hero = self.units@[unit_slot(self.units@, subject)].faction == Faction::Hero;
        &&& self.teleport_moved(dest, moved)
        &&& if hero {
            moved.area_revealed(dest, shown)
        } else {
            shown == moved
        }
        &&& told == (Game { log: told.log, ..shown })
        &&& logged_one_line(shown.log@, told.log@)
        &&& told.log@.last()@ == self.teleport_line(
            total,
            " and teleported to "@ + decimal_text((dest.x + 1) as nat) + ", "@ + decimal_text(
                (dest.y + 1) as nat,
            ) + "."@,
        )
        &&& match landed {
            None => struck == told,
            Some(id) => exists|hit: Game|
                #[trigger] told.damage_dealt(id, 1, hit) && hit.landing_struck(
                    subject,
                    id,
                    dest,
                    told.name_or(id, "The landed-on figure"@),
                    struck,
                ),
        }
        &&& struck.settled_into(after)
    }

    /// `after` is this game once `dice` settle the pending teleport: a roll
    /// naming the square just left is rolled again, with one line logged;
    /// any other moves the figure there.
    pub open spec fn teleport_settled(self, dice: Seq<u8>, dest: Pos, after: Game) -> bool {
        let pending = self.pending_teleport_roll->Some_0;
        &&& Some(dest) == self.teleport_to(dice[0] + dice[1])
        &&& if pending.forbidden_destination == Some(dest) {
            &&& after == (Game { log: after.log, ..self })
            &&& logged_one_line(self.log@, after.log@)
            &&& after.log@.last()@ == self.teleport_line(
                dice[0] + dice[1],
                ", the occupied square just left; roll again."@,
            )
        } else {
            self.teleport_done(dice[0] + dice[1], dest, after)
        }
    }
}

impl Game {
    /// The square the teleport destinations give for `total`, if any.
    fn teleport_destination(&self, total: u8) -> (dest: Option<Pos>)
        requires
            self.wf(),
        ensures
            dest == self.teleport_to(total as int),
    {
        proof {
            reveal(Game::wf);
        }
        let mut i: usize = 0;
        while i < self.teleport_destinations.len()
            invariant
                self.wf(),
                i <= self.teleport_destinations@.len(),
                forall|j: int| 0 <= j < i ==> #[trigger] self.teleport_destinations@[j].0 != total,
            decreases self.teleport_destinations.len() - i,
        {
            let (t, pos) = self.teleport_destinations[i];
            if t == total {
                proof {
                    reveal(Game::wf);
                    assert(self.teleport_destinations@[i as int].0 == total);
                    let k = choose|k: int|
                        0 <= k < self.teleport_destinations@.len()
                            && #[trigger] self.teleport_destinations@[k].0 == total;
                    if k != i as int {
                        if k < i {
                            assert(self.teleport_destinations@[k].0 != self.teleport_destinations@[i as int].0);
                        } else {
                            assert(self.teleport_destinations@[i as int].0 != self.teleport_destinations@[k].0);
                        }
                    }
                }
                return Some(pos);
            }
            i = i + 1;
        }
        None
    }

    /// The pending teleport is settled by two red dice: the total names the
    /// destination; a roll naming the square just left must be rolled
    /// again; otherwise the figure moves there, and a living figure landed
    /// on loses one Body Point and must teleport in turn.
    #[verifier::spinoff_prover]
    #[verifier::rlimit(100)]
    pub fn resolve_teleport_roll(&mut self, dice: &[u8]) -> (result: Result<Pos, RuleError>)
        requires
            old(self).wf(),
            forall|i: int|
                0 <= i < old(self).units@.len() ==> old(self).carries_in_place(#[trigger] old(self).units@[i]),
        ensures
            final(self).wf(),
            match result {
                Err(e) => old(self).teleport_refusal(dice@) == Some(e) && *final(self) == *old(self),
                Ok(dest) => old(self).teleport_refusal(dice@) is None && old(self).teleport_settled(
                    dice@,
                    dest,
                    *final(self),
                ),
            },
    {
        if dice.len() != 2 || !all_faces_valid(dice) {
            return Err(RuleError::InvalidDice);
        }
        let pending = match self.pending_teleport_roll {
            Some(pending) => pending,
            None => return Err(RuleError::StaleTeleport),
        };
        let total = dice[0] + dice[1];
        let dest = match self.teleport_destination(total) {
            Some(dest) => dest,
            None => return Err(RuleError::StaleTeleport),
        };
        proof {
            lemma_wf_ids(*self);
        }
        let slot = match self.unit_index(pending.subject) {
            Some(slot) => slot,
            None => return Err(RuleError::StaleTeleport),
        };
        proof {
            lemma_slot_of(self.units@, pending.subject, slot as int);
        }
        if !self.units[slot].alive || self.units[slot].escaped {
            return Err(RuleError::StaleTeleport);
        }
        let subject_name = self.units[slot].name.clone();
        let mut line = subject_name;
        line.append(" rolled ");
        line.append(decimal_string(total as u64).as_str());
        let ghost head = line@;
        proof {
            assert(head == self.units@[slot as int].name@ + " rolled "@ + decimal_text(total as nat));
        }
        if pending.forbidden_destination == Some(dest) {
            line.append(", the occupied square just left; roll again.");
            let ghost said = line;
            let ghost before = *self;
            self.push_log(line);
            proof {
                assert(self.log@ == log_after(before.log@, said));
            }
            return Ok(dest);
        }
        proof {
            reveal(Game::wf);
            let k = choose|k: int|
                0 <= k < self.teleport_destinations@.len() && #[trigger] self.teleport_destinations@[k].0
                    == total;
            assert(spec_in_bounds(self.teleport_destinations@[k].1));
        }
        let landed_on = self.occupied_by_alive(dest, Some(pending.subject));
        let ghost start = *self;
        self.teleport_move(slot, dest);
        let ghost moved = *self;
        if self.units[slot].faction == Faction::Hero {
            self.reveal_from(dest);
        }
        let ghost shown = *self;
        line.append(" and teleported to ");
        line.append(decimal_string(dest.x as u64 + 1).as_str());
        line.append(", ");
        line.append(decimal_string(dest.y as u64 + 1).as_str());
        line.append(".");
        let ghost told_line = line;
        proof {
            assert(told_line@ == start.teleport_line(
                total as int,
                " and teleported to "@ + decimal_text((dest.x + 1) as nat) + ", "@ + decimal_text(
                    (dest.y + 1) as nat,
                ) + "."@,
            ));
        }
        self.push_log(line);
        let ghost told = *self;
        proof {
            assert(start.teleport_moved(dest, moved));
            assert(told.log@.last() == told_line);
        }
        match landed_on {
            Some(struck) => {
                proof {
                    lemma_landed_carries(start, moved, shown, told, dest, pending.subject, struck);
                }
                self.strike_on_landing(pending.subject, struck, dest);
            },
            None => {},
        }
        let ghost struck_state = *self;
        self.check_terminal();
        proof {
            assert(struck_state.settled_into(*self));
            assert(told.log@ == log_after(shown.log@, told_line));
            assert(logged_one_line(shown.log@, told.log@));
            assert(start.teleport_stages(total as int, dest, moved, shown, told, struck_state, *self));
        }
        Ok(dest)
    }

    /// Moves the pending teleport's figure, at `slot`, to `dest` with what
    /// it carries; nothing is pending any more.
    #[verifier::spinoff_prover]
    #[verifier::rlimit(40)]
    fn teleport_move(&mut self, slot: usize, dest: Pos)
        requires
            old(self).wf(),
            old(self).pending_teleport_roll is Some,
            slot < old(self).units@.len(),
            slot == unit_slot(old(self).units@, old(self).pending_teleport_roll->Some_0.subject),
            old(self).carries_in_place(old(self).units@[slot as int]),
            spec_in_bounds(dest),
        ensures
            final(self).wf(),
            old(self).teleport_moved(dest, *final(self)),
    {
        proof {
            reveal(Game::wf);
        }
        self.pending_teleport_roll = None;
        let carried = self.units[slot].carried_quest_item;
        self.unit_carry_home(slot, dest, false);
        match carried {
            Some(item) => {
                let piece = self.quest_items[item].prop_index;
                self.move_piece(piece, dest);
            },
            None => {},
        }
    }

    /// The figure `struck`, landed on by `subject` at `dest`, loses one Body
    /// Point; the blow is shown and, if it still stands, it must teleport.
    #[verifier::spinoff_prover]
    #[verifier::rlimit(60)]
    fn strike_on_landing(&mut self, subject: UnitId, struck: UnitId, dest: Pos)
        requires
            old(self).wf(),
            old(self).spec_unit(struck) matches Some(unit) ==> old(self).carries_in_place(unit),
        ensures
            final(self).wf(),
            exists|hit: Game| #[trigger] old(self).damage_dealt(struck, 1, hit) && hit.landing_struck(
                subject,
                struck,
                dest,
                old(self).name_or(struck, "The landed-on figure"@),
                *final(self),
            ),
    {
        proof {
            lemma_wf_ids(*self);
        }
        let line = self.name_or_fallback(struck, "The landed-on figure");
        self.damage_without_defense(struck, 1);
        self.show_landing(subject, struck, dest, line);
    }

    /// The blow of a landing on `struck` is shown and logged, naming it
    /// `name`; a figure still standing must teleport away from `dest`.
    #[verifier::spinoff_prover]
    #[verifier::rlimit(60)]
    fn show_landing(&mut self, subject: UnitId, struck: UnitId, dest: Pos, name: String)
        requires
            old(self).wf(),
        ensures
            final(self).wf(),
            old(self).landing_struck(subject, struck, dest, name@, *final(self)),
    {
        proof {
            lemma_wf_ids(*self);
        }
        let alive = match self.unit_index(struck) {
            Some(index) => self.units[index].alive,
            None => false,
        };
        proof {
            reveal(Game::wf);
            if alive {
                let index = unit_slot(self.units@, struck);
                lemma_slot_of(self.units@, struck, index);
            }
        }
        self.visual_sequence = self.visual_sequence.wrapping_add(1);
        self.last_combat_visual = Some(
            CombatVisualEvent {
                sequence: self.visual_sequence,
                attacker: subject,
                defender: struck,
                damage: 1,
                defender_died: !alive,
            },
        );
        let mut line = name;
        if alive {
            self.pending_teleport_roll = Some(
                PendingTeleportRoll { subject: struck, forbidden_destination: Some(dest) },
            );
            line.append(" loses 1 Body Point and must roll two red dice to be displaced.");
        } else {
            line.append(" loses 1 Body Point and is destroyed by the collision.");
        }
        let ghost said = line;
        let ghost before = *self;
        self.push_log(line);
        proof {
            assert(self.log@ == log_after(before.log@, said));
        }
    }
}

/// The figure landed on still carries its quest item in place once the
/// teleported figure has moved, been shown its surroundings and logged.
proof fn lemma_landed_carries(
    start: Game,
    moved: Game,
    shown: Game,
    told: Game,
    dest: Pos,
    subject: UnitId,
    struck: UnitId,
)
    requires
        start.wf(),
        forall|i: int| 0 <= i < start.units@.len() ==> start.carries_in_place(#[trigger] start.units@[i]),
        start.pending_teleport_roll matches Some(p) && p.subject == subject,
        has_unit_id(start.units@, subject),
        start.teleport_moved(dest, moved),
        shown == moved || moved.fixtures_kept(shown),
        told == (Game { log: told.log, ..shown }),
    ensures
        told.spec_unit(struck) matches Some(unit) ==> told.carries_in_place(unit),
{
    if has_unit_id(told.units@, struck) {
        let i = unit_slot(told.units@, struck);
        assert(told.units@[i] == shown.units@[i]);
        assert(shown.units@[i].carried_quest_item == moved.units@[i].carried_quest_item);
        assert(moved.units@[i].carried_quest_item == start.units@[i].carried_quest_item);
        assert(start.carries_in_place(start.units@[i]));
    }
}

impl Game {
    /// The name of the figure with `id`, or `fallback` when it is gone.
    fn name_or_fallback(&self, id: UnitId, fallback: &str) -> (name: String)
        requires
            self.wf(),
        ensures
            name@ == self.name_or(id, fallback@),
    {
        proof {
            lemma_wf_ids(*self);
        }
        match self.unit_index(id) {
            Some(index) => {
                proof {
                    lemma_slot_of(self.units@, id, index as int);
                }
                self.units[index].name.clone()
            },
            None => String::from_str(fallback),
        }
    }
}

} // verus!
