//! Opening doors and lighting up what lies beyond: the room or the corridor
//! squares now in sight, the quest notes a room or a door sets off, and the
//! alarm some rooms raise.
use vstd::prelude::*;

use crate::engine::{log_after, spec_cell_index, spec_in_bounds, Game, CELL_COUNT};
use crate::game::{pos_from_cell_index, spec_pos_from_cell_index, Cell, Door, QuestEvent, QuestTrigger, RuleError, UnitId};
use crate::model::Pos;
use crate::outcome::first_named;
use crate::pieces::{allocations_done, pending_order};
use crate::quest::QuestEffectDef;

verus! {

/// The doors once an alarm has flung every one of them open.
pub open spec fn doors_flung_open(doors: Seq<Door>) -> Seq<Door> {
    Seq::new(doors.len(), |i: int| Door { open: true, discovered: true, ..doors[i] })
}

/// The board once every passable square is shown.
pub open spec fn floor_shown(cells: Seq<Cell>) -> Seq<Cell> {
    Seq::new(
        cells.len(),
        |i: int|
            if cells[i].passable {
                Cell { revealed: true, ..cells[i] }
            } else {
                cells[i]
            },
    )
}

/// The board once every square of the room `region` is shown.
pub open spec fn room_shown(cells: Seq<Cell>, region: i16) -> Seq<Cell> {
    Seq::new(
        cells.len(),
        |i: int|
            if cells[i].region == region {
                Cell { revealed: true, ..cells[i] }
            } else {
                cells[i]
            },
    )
}

/// The quest note waits for the room `region` to be seen.
pub open spec fn room_note_fires(event: QuestEvent, region: i16) -> bool {
    &&& !event.resolved
    &&& event.trigger matches QuestTrigger::RevealRoom { region: r } && r == region
}

/// The quest note waits for the door between `a` and `b` to open.
pub open spec fn door_note_fires(event: QuestEvent, a: Pos, b: Pos) -> bool {
    &&& !event.resolved
    &&& event.trigger matches QuestTrigger::OpenDoor { a: ea, b: eb } && ((ea == a && eb == b) || (
    ea == b && eb == a))
}

/// `marked` is `events` with each note that `fires` picks marked as fired.
pub open spec fn marked_where(
    events: Seq<QuestEvent>,
    fires: spec_fn(QuestEvent) -> bool,
    marked: Seq<QuestEvent>,
) -> bool {
    &&& marked.len() == events.len()
    &&& forall|i: int|
        0 <= i < events.len() ==> #[trigger] marked[i] == if fires(events[i]) {
            QuestEvent { resolved: true, ..events[i] }
        } else {
            events[i]
        }
}

/// The line a room note logs: its own message, else word that it was seen.
pub open spec fn room_note_text(event: QuestEvent) -> Seq<char> {
    match event.message {
        Some(m) => m@,
        None => "Quest event "@ + event.id@ + " was revealed."@,
    }
}

impl Game {
    /// `after` is this game once the room `region` has raised the alarm:
    /// the named ally, if a hero, goes with the active hero, the room may
    /// forbid further treasure, every door is flung open and every passable
    /// square shown.
    pub open spec fn alarm_raised(self, ally: Seq<char>, region: i16, forbid: bool, after: Game) -> bool {
        &&& after.escorted_ally == match first_named(self.units@, ally, true, self.units@.len()) {
            Some(i) => match self.spec_active_hero_id() {
                Some(controller) => Some((self.units@[i].id, controller)),
                None => self.escorted_ally,
            },
            None => self.escorted_ally,
        }
        &&& after.forbidden_treasure_regions@ == if forbid
            && !self.forbidden_treasure_regions@.contains(region) {
            self.forbidden_treasure_regions@.push(region)
        } else {
            self.forbidden_treasure_regions@
        }
        &&& after.doors@ == doors_flung_open(self.doors@)
        &&& after.cells@ == floor_shown(self.cells@)
        &&& after == (Game {
            escorted_ally: after.escorted_ally,
            forbidden_treasure_regions: after.forbidden_treasure_regions,
            doors: after.doors,
            cells: after.cells,
            ..self
        })
    }

    /// The room `region` raises the alarm.
    #[verifier::spinoff_prover]
    #[verifier::rlimit(40)]
    fn trigger_alarm(&mut self, ally: &String, region: i16, forbid: bool)
        requires
            old(self).wf(),
        ensures
            final(self).wf(),
            old(self).alarm_raised(ally@, region, forbid, *final(self)),
            old(self).fixtures_kept(*final(self)),
    {
        proof {
            reveal(Game::wf);
        }
        match self.find_named(ally, true) {
            Some(index) => match self.active_hero_id() {
                Some(controller) => {
                    self.escorted_ally = Some((self.units[index].id, controller));
                },
                None => {},
            },
            None => {},
        }
        let ghost escorted = *self;
        if forbid {
            let mut known = false;
            let mut r: usize = 0;
            while r < self.forbidden_treasure_regions.len()
                invariant
                    r <= self.forbidden_treasure_regions@.len(),
                    known <==> exists|j: int|
                        0 <= j < r && #[trigger] self.forbidden_treasure_regions@[j] == region,
                decreases self.forbidden_treasure_regions.len() - r,
            {
                if self.forbidden_treasure_regions[r] == region {
                    known = true;
                }
                r = r + 1;
            }
            if !known {
                self.forbidden_treasure_regions.push(region);
            }
        }
        let ghost doors = self.doors@;
        let ghost before_doors = *self;
        let mut d: usize = 0;
        while d < self.doors.len()
            invariant
                *self == (Game { doors: self.doors, ..before_doors }),
                before_doors.doors@ == doors,
                self.doors@.len() == doors.len(),
                d <= doors.len(),
                forall|j: int|
                    0 <= j < d ==> #[trigger] self.doors@[j] == (Door {
                        open: true,
                        discovered: true,
                        ..doors[j]
                    }),
                forall|j: int| d <= j < doors.len() ==> #[trigger] self.doors@[j] == doors[j],
            decreases self.doors.len() - d,
        {
            let door = Door { open: true, discovered: true, ..self.doors[d] };
            self.doors.set(d, door);
            d = d + 1;
        }
        assert(self.doors@ =~= doors_flung_open(doors));
        let ghost cells = self.cells@;
        let ghost before_cells = *self;
        let mut c: usize = 0;
        while c < self.cells.len()
            invariant
                *self == (Game { cells: self.cells, ..before_cells }),
                before_cells.cells@ == cells,
                self.cells@.len() == cells.len(),
                c <= cells.len(),
                forall|j: int|
                    0 <= j < c ==> #[trigger] self.cells@[j] == if cells[j].passable {
                        Cell { revealed: true, ..cells[j] }
                    } else {
                        cells[j]
                    },
                forall|j: int| c <= j < cells.len() ==> #[trigger] self.cells@[j] == cells[j],
            decreases self.cells.len() - c,
        {
            if self.cells[c].passable {
                let cell = Cell { revealed: true, ..self.cells[c] };
                self.cells.set(c, cell);
            }
            c = c + 1;
        }
        assert(self.cells@ =~= floor_shown(cells));
        proof {
            reveal(Game::wf);
            assert forall|k: int| 0 <= k < self.doors@.len() implies spec_in_bounds(
                #[trigger] self.doors@[k].a,
            ) && spec_in_bounds(self.doors@[k].b) by {
                assert(self.doors@[k].a == old(self).doors@[k].a);
            }
            assert(self.wf());
        }
    }
}

impl Game {
    /// `after` is this game once the effect of a note of the room `region`
    /// has been worked: an alarm is raised, any other effect worked on the
    /// board.
    pub open spec fn room_effect_worked(self, effect: QuestEffectDef, region: i16, after: Game) -> bool {
        match effect {
            QuestEffectDef::Alarm { ally, forbid_treasure } => self.alarm_raised(
                ally@,
                region,
                forbid_treasure,
                after,
            ),
            _ => self.effect_applied(effect, after),
        }
    }

    /// `after` is this game once the note `event` of the room `region` has
    /// fired: its effect is worked, then its line logged.
    pub open spec fn room_note_fired(self, event: QuestEvent, region: i16, after: Game) -> bool {
        exists|acted: Game|
            #[trigger] self.room_effect_worked(event.effect, region, acted) && after.log@.len() > 0
                && after.log@ == log_after(acted.log@, after.log@.last()) && after.log@.last()@
                == room_note_text(event) && after == (Game { log: after.log, ..acted })
    }

    /// `after` is this game once the note `event` of a door has fired: its
    /// effect is worked, then its message, if any, logged.
    pub open spec fn door_note_fired(self, event: QuestEvent, after: Game) -> bool {
        exists|acted: Game|
            #[trigger] self.effect_applied(event.effect, acted) && match event.message {
                Some(m) => after.log@ == log_after(acted.log@, m) && after == (Game {
                    log: after.log,
                    ..acted
                }),
                None => after == acted,
            }
    }
}

/// `after` is `mid` once `event` has fired, if the room `region` sets it
/// off, else `mid` itself.
pub open spec fn room_step(mid: Game, event: QuestEvent, region: i16, after: Game) -> bool {
    if room_note_fires(event, region) {
        mid.room_note_fired(event, region, after)
    } else {
        after == mid
    }
}

/// `after` is `mid` once `event` has fired, if the door between `a` and `b`
/// sets it off, else `mid` itself.
pub open spec fn door_step(mid: Game, event: QuestEvent, a: Pos, b: Pos, after: Game) -> bool {
    if door_note_fires(event, a, b) {
        mid.door_note_fired(event, after)
    } else {
        after == mid
    }
}

/// `after` is `start` once each of the first `n` of `events` that the room
/// `region` sets off has fired, in order.
pub open spec fn room_notes_done(start: Game, events: Seq<QuestEvent>, region: i16, n: int, after: Game) -> bool
    decreases n,
{
    if n <= 0 {
        after == start
    } else {
        exists|mid: Game|
            room_notes_done(start, events, region, n - 1, mid) && #[trigger] room_step(
                mid,
                events[n - 1],
                region,
                after,
            )
    }
}

/// `after` is `start` once each of the first `n` of `events` that the door
/// between `a` and `b` sets off has fired, in order.
pub open spec fn door_notes_done(start: Game, events: Seq<QuestEvent>, a: Pos, b: Pos, n: int, after: Game) -> bool
    decreases n,
{
    if n <= 0 {
        after == start
    } else {
        exists|mid: Game|
            door_notes_done(start, events, a, b, n - 1, mid) && #[trigger] door_step(
                mid,
                events[n - 1],
                a,
                b,
                after,
            )
    }
}

proof fn lemma_room_step(start: Game, events: Seq<QuestEvent>, region: i16, k: int, mid: Game, after: Game)
    requires
        0 <= k < events.len(),
        room_notes_done(start, events, region, k, mid),
        room_step(mid, events[k], region, after),
    ensures
        room_notes_done(start, events, region, k + 1, after),
{
    assert((k + 1) - 1 == k);
}

proof fn lemma_door_step(start: Game, events: Seq<QuestEvent>, a: Pos, b: Pos, k: int, mid: Game, after: Game)
    requires
        0 <= k < events.len(),
        door_notes_done(start, events, a, b, k, mid),
        door_step(mid, events[k], a, b, after),
    ensures
        door_notes_done(start, events, a, b, k + 1, after),
{
    assert((k + 1) - 1 == k);
}

impl Game {
    /// `after` is this game once the room `region` has been seen: every note
    /// it sets off fires, in order, and is marked as fired. No effect reads
    /// the notes themselves.
    pub open spec fn room_events_resolved(self, region: i16, after: Game) -> bool {
        exists|cleared: Game, done: Game|
            #![trigger room_notes_done(cleared, self.quest_events@, region, self.quest_events@.len() as int, done)]
            cleared == (Game { quest_events: cleared.quest_events, ..self })
                && cleared.quest_events@.len() == 0 && room_notes_done(
                cleared,
                self.quest_events@,
                region,
                self.quest_events@.len() as int,
                done,
            ) && after == (Game { quest_events: after.quest_events, ..done }) && marked_where(
                self.quest_events@,
                |e: QuestEvent| room_note_fires(e, region),
                after.quest_events@,
            )
    }

    /// `after` is this game once the door between `a` and `b` has opened:
    /// every note it sets off fires, in order, and is marked as fired.
    pub open spec fn door_events_resolved(self, a: Pos, b: Pos, after: Game) -> bool {
        exists|cleared: Game, done: Game|
            #![trigger door_notes_done(cleared, self.quest_events@, a, b, self.quest_events@.len() as int, done)]
            cleared == (Game { quest_events: cleared.quest_events, ..self })
                && cleared.quest_events@.len() == 0 && door_notes_done(
                cleared,
                self.quest_events@,
                a,
                b,
                self.quest_events@.len() as int,
                done,
            ) && after == (Game { quest_events: after.quest_events, ..done }) && marked_where(
                self.quest_events@,
                |e: QuestEvent| door_note_fires(e, a, b),
                after.quest_events@,
            )
    }

    /// The room `region` has been seen: each quest note waiting for that
    /// fires and is marked as fired.
    #[verifier::spinoff_prover]
    #[verifier::rlimit(60)]
    fn resolve_room_events(&mut self, region: i16)
        requires
            old(self).wf(),
        ensures
            final(self).wf(),
            old(self).room_events_resolved(region, *final(self)),
            old(self).fixtures_kept(*final(self)),
    {
        let mut events: Vec<QuestEvent> = Vec::new();
        std::mem::swap(&mut events, &mut self.quest_events);
        let ghost original = events@;
        let ghost cleared = *self;
        proof {
            reveal(Game::wf);
        }
        let mut i: usize = 0;
        while i < events.len()
            invariant
                self.wf(),
                events@.len() == original.len(),
                0 <= i <= original.len(),
                cleared.quest_events@.len() == 0,
                forall|j: int|
                    0 <= j < i ==> #[trigger] events@[j] == if room_note_fires(original[j], region) {
                        QuestEvent { resolved: true, ..original[j] }
                    } else {
                        original[j]
                    },
                forall|j: int| i <= j < original.len() ==> #[trigger] events@[j] == original[j],
                room_notes_done(cleared, original, region, i as int, *self),
                cleared.fixtures_kept(*self),
                cleared == (Game { quest_events: cleared.quest_events, ..*old(self) }),
            decreases events.len() - i,
        {
            let ghost mid = *self;
            let fires = !events[i].resolved && match &events[i].trigger {
                QuestTrigger::RevealRoom { region: r } => *r == region,
                _ => false,
            };
            if fires {
                let mut event = QuestEvent {
                    id: String::new(),
                    trigger: QuestTrigger::RevealRoom { region: 0 },
                    effect: QuestEffectDef::Empty,
                    message: None,
                    resolved: false,
                };
                events.set_and_swap(i, &mut event);
                assert(event == original[i as int]);
                match &event.effect {
                    QuestEffectDef::Alarm { ally, forbid_treasure } => self.trigger_alarm(
                        ally,
                        region,
                        *forbid_treasure,
                    ),
                    other => self.apply_world_effect(other),
                }
                let ghost acted = *self;
                let line = match &event.message {
                    Some(m) => m.clone(),
                    None => {
                        let mut line = String::from_str("Quest event ");
                        line.append(event.id.as_str());
                        line.append(" was revealed.");
                        line
                    },
                };
                proof {
                    assert(line@ =~= room_note_text(event));
                }
                self.push_log(line);
                proof {
                    assert(mid.room_effect_worked(event.effect, region, acted));
                    assert(mid.room_note_fired(event, region, *self));
                }
                event.resolved = true;
                events.set(i, event);
            }
            proof {
                lemma_room_step(cleared, original, region, i as int, mid, *self);
            }
            i = i + 1;
        }
        let ghost done = *self;
        std::mem::swap(&mut events, &mut self.quest_events);
        proof {
            reveal(Game::wf);
            assert(marked_where(original, |e: QuestEvent| room_note_fires(e, region), self.quest_events@));
            assert(room_notes_done(cleared, original, region, original.len() as int, done));
        }
    }

    /// The door between `a` and `b` has opened: each quest note waiting for
    /// that fires and is marked as fired.
    #[verifier::spinoff_prover]
    #[verifier::rlimit(60)]
    fn resolve_open_door_events(&mut self, a: Pos, b: Pos)
        requires
            old(self).wf(),
        ensures
            final(self).wf(),
            old(self).door_events_resolved(a, b, *final(self)),
    {
        let mut events: Vec<QuestEvent> = Vec::new();
        std::mem::swap(&mut events, &mut self.quest_events);
        let ghost original = events@;
        let ghost cleared = *self;
        proof {
            reveal(Game::wf);
        }
        let mut i: usize = 0;
        while i < events.len()
            invariant
                self.wf(),
                events@.len() == original.len(),
                0 <= i <= original.len(),
                cleared.quest_events@.len() == 0,
                forall|j: int|
                    0 <= j < i ==> #[trigger] events@[j] == if door_note_fires(original[j], a, b) {
                        QuestEvent { resolved: true, ..original[j] }
                    } else {
                        original[j]
                    },
                forall|j: int| i <= j < original.len() ==> #[trigger] events@[j] == original[j],
                door_notes_done(cleared, original, a, b, i as int, *self),
            decreases events.len() - i,
        {
            let ghost mid = *self;
            let fires = !events[i].resolved && match &events[i].trigger {
                QuestTrigger::OpenDoor { a: ea, b: eb } => (*ea == a && *eb == b) || (*ea == b && *eb
                    == a),
                _ => false,
            };
            if fires {
                let mut event = QuestEvent {
                    id: String::new(),
                    trigger: QuestTrigger::RevealRoom { region: 0 },
                    effect: QuestEffectDef::Empty,
                    message: None,
                    resolved: false,
                };
                events.set_and_swap(i, &mut event);
                assert(event == original[i as int]);
                self.apply_world_effect(&event.effect);
                let ghost acted = *self;
                match &event.message {
                    Some(m) => self.push_log(m.clone()),
                    None => {},
                }
                proof {
                    assert(mid.effect_applied(event.effect, acted));
                    assert(mid.door_note_fired(event, *self));
                }
                event.resolved = true;
                events.set(i, event);
            }
            proof {
                lemma_door_step(cleared, original, a, b, i as int, mid, *self);
            }
            i = i + 1;
        }
        let ghost done = *self;
        std::mem::swap(&mut events, &mut self.quest_events);
        proof {
            reveal(Game::wf);
            assert(marked_where(original, |e: QuestEvent| door_note_fires(e, a, b), self.quest_events@));
            assert(door_notes_done(cleared, original, a, b, original.len() as int, done));
        }
    }
}

impl Game {
    /// The board once every corridor square seen from `pos` is shown.
    pub open spec fn corridors_seen(self, pos: Pos) -> Seq<Cell> {
        Seq::new(
            self.cells@.len(),
            |i: int|
                if self.cells@[i].passable && self.cells@[i].region == 0 && self.spec_can_see(
                    pos,
                    spec_pos_from_cell_index(i as usize),
                ) {
                    Cell { revealed: true, ..self.cells@[i] }
                } else {
                    self.cells@[i]
                },
        )
    }

    /// `noted` is this game once what is seen from `pos` is shown: its
    /// whole room, whose notes then fire, or the corridor squares in sight.
    pub open spec fn sight_stage(self, pos: Pos, noted: Game) -> bool {
        let region = self.cells@[spec_cell_index(pos)].region;
        if region > 0 {
            exists|lit: Game|
                #[trigger] lit.room_events_resolved(region, noted) && lit == (Game {
                    cells: lit.cells,
                    ..self
                }) && lit.cells@ == room_shown(self.cells@, region)
        } else {
            noted == (Game { cells: noted.cells, ..self }) && noted.cells@ == self.corridors_seen(pos)
        }
    }

    /// `after` is this game once what is seen from `pos` is shown and each
    /// monster then in view has its piece.
    pub open spec fn area_revealed(self, pos: Pos, after: Game) -> bool {
        exists|noted: Game|
            #[trigger] self.sight_stage(pos, noted) && allocations_done(
                noted,
                pending_order(noted, noted.units@, true) + pending_order(noted, noted.units@, false),
                after,
            )
    }

    /// Shows what is seen from `pos`: the whole room it lies in, setting off
    /// the room's notes, or else each corridor square in sight; then each
    /// monster now in view is given its piece.
    #[verifier::spinoff_prover]
    #[verifier::rlimit(60)]
    pub(crate) fn reveal_from(&mut self, pos: Pos)
        requires
            old(self).wf(),
            spec_in_bounds(pos),
        ensures
            final(self).wf(),
            old(self).area_revealed(pos, *final(self)),
            old(self).fixtures_kept(*final(self)),
    {
        proof {
            reveal(Game::wf);
            assert((pos.y as int) * 26 + pos.x < 494) by (nonlinear_arith)
                requires
                    pos.x < 26,
                    pos.y < 19,
            ;
        }
        let index = Self::cell_index(pos);
        let region = self.cells[index].region;
        if region > 0 {
            let ghost cells = self.cells@;
            let ghost before = *self;
            let mut c: usize = 0;
            while c < self.cells.len()
                invariant
                    *self == (Game { cells: self.cells, ..before }),
                    before.cells@ == cells,
                    self.cells@.len() == cells.len(),
                    c <= cells.len(),
                    forall|j: int|
                        0 <= j < c ==> #[trigger] self.cells@[j] == if cells[j].region == region {
                            Cell { revealed: true, ..cells[j] }
                        } else {
                            cells[j]
                        },
                    forall|j: int| c <= j < cells.len() ==> #[trigger] self.cells@[j] == cells[j],
                decreases self.cells.len() - c,
            {
                if self.cells[c].region == region {
                    let cell = Cell { revealed: true, ..self.cells[c] };
                    self.cells.set(c, cell);
                }
                c = c + 1;
            }
            assert(self.cells@ =~= room_shown(cells, region));
            proof {
                reveal(Game::wf);
                assert(self.wf());
            }
            let ghost lit = *self;
            self.resolve_room_events(region);
            proof {
                assert(old(self).sight_stage(pos, *self)) by {
                    assert(lit.room_events_resolved(region, *self));
                }
            }
        } else {
            let mut seen: Vec<bool> = Vec::new();
            let mut c: usize = 0;
            while c < self.cells.len()
                invariant
                    *self == *old(self),
                    self.wf(),
                    c <= self.cells@.len(),
                    seen@.len() == c,
                    forall|j: int|
                        0 <= j < c ==> #[trigger] seen@[j] == (self.cells@[j].passable
                            && self.cells@[j].region == 0 && self.spec_can_see(
                            pos,
                            spec_pos_from_cell_index(j as usize),
                        )),
                decreases self.cells.len() - c,
            {
                let target = pos_from_cell_index(c);
                let flag = self.cells[c].passable && self.cells[c].region == 0 && self.can_see(
                    pos,
                    target,
                );
                seen.push(flag);
                c = c + 1;
            }
            let ghost cells = self.cells@;
            let ghost before = *self;
            let mut d: usize = 0;
            while d < self.cells.len()
                invariant
                    *self == (Game { cells: self.cells, ..before }),
                    before.cells@ == cells,
                    self.cells@.len() == cells.len(),
                    seen@.len() == cells.len(),
                    d <= cells.len(),
                    forall|j: int|
                        0 <= j < d ==> #[trigger] self.cells@[j] == if seen@[j] {
                            Cell { revealed: true, ..cells[j] }
                        } else {
                            cells[j]
                        },
                    forall|j: int| d <= j < cells.len() ==> #[trigger] self.cells@[j] == cells[j],
                decreases self.cells.len() - d,
            {
                if seen[d] {
                    let cell = Cell { revealed: true, ..self.cells[d] };
                    self.cells.set(d, cell);
                }
                d = d + 1;
            }
            assert(self.cells@ =~= old(self).corridors_seen(pos));
            proof {
                reveal(Game::wf);
                assert(self.wf());
                assert(old(self).sight_stage(pos, *self));
            }
        }
        let ghost noted = *self;
        self.allocate_pending_visible_figures();
        proof {
            assert(old(self).sight_stage(pos, noted));
        }
    }
}

impl Game {
    /// Why the door at `index` cannot be opened, if it cannot: it must
    /// exist and be shut, not be a false door, and be found if secret.
    pub open spec fn door_refusal(self, index: int) -> Option<RuleError> {
        if index < 0 || index >= self.doors@.len() || self.doors@[index].open {
            Some(RuleError::NoDoor)
        } else if self.doors@[index].false_door {
            Some(RuleError::FalseDoor)
        } else if self.doors@[index].secret && !self.doors@[index].discovered {
            Some(RuleError::InvalidHeroSpellTarget)
        } else {
            None
        }
    }

    /// `after` is this game once the door at `index` has swung open: what
    /// is seen from each of its squares is shown, then the notes the door
    /// sets off fire.
    pub open spec fn door_opened(self, index: int, after: Game) -> bool {
        let door = self.doors@[index];
        exists|swung: Game, first: Game, second: Game|
            #![trigger swung.area_revealed(door.a, first), first.area_revealed(door.b, second)]
            swung == (Game { doors: swung.doors, ..self }) && swung.doors@ == self.doors@.update(
                index,
                Door { open: true, ..door },
            ) && swung.area_revealed(door.a, first) && first.area_revealed(door.b, second)
                && second.door_events_resolved(door.a, door.b, after)
    }

    /// Opens the door at `index`; returns its two squares.
    #[verifier::spinoff_prover]
    #[verifier::rlimit(40)]
    pub(crate) fn open_door_index(&mut self, index: usize) -> (squares: Result<(Pos, Pos), RuleError>)
        requires
            old(self).wf(),
        ensures
            final(self).wf(),
            match squares {
                Ok((a, b)) => old(self).door_refusal(index as int) is None && a == old(
                    self,
                ).doors@[index as int].a && b == old(self).doors@[index as int].b && old(
                    self,
                ).door_opened(index as int, *final(self)),
                Err(e) => old(self).door_refusal(index as int) == Some(e) && *final(self) == *old(
                    self,
                ),
            },
    {
        proof {
            reveal(Game::wf);
        }
        if index >= self.doors.len() || self.doors[index].open {
            return Err(RuleError::NoDoor);
        }
        if self.doors[index].false_door {
            return Err(RuleError::FalseDoor);
        }
        if self.doors[index].secret && !self.doors[index].discovered {
            return Err(RuleError::InvalidHeroSpellTarget);
        }
        let a = self.doors[index].a;
        let b = self.doors[index].b;
        let door = Door { open: true, ..self.doors[index] };
        self.doors.set(index, door);
        proof {
            reveal(Game::wf);
            assert forall|k: int| 0 <= k < self.doors@.len() implies spec_in_bounds(
                #[trigger] self.doors@[k].a,
            ) && spec_in_bounds(self.doors@[k].b) by {
                assert(self.doors@[k].a == old(self).doors@[k].a);
            }
            assert(self.wf());
            assert(spec_in_bounds(a) && spec_in_bounds(b));
        }
        let ghost swung = *self;
        self.reveal_from(a);
        let ghost first = *self;
        proof {
            reveal(Game::wf);
        }
        self.reveal_from(b);
        let ghost second = *self;
        self.resolve_open_door_events(a, b);
        proof {
            assert(swung.area_revealed(a, first) && first.area_revealed(b, second));
        }
        Ok((a, b))
    }
}

impl Game {
    /// Why the active hero cannot open the door at `index`, if it cannot: it
    /// must be able to act, and the door must be a shut, found door beside
    /// it that is not a false door.
    pub open spec fn hero_door_refusal(self, index: int) -> Option<RuleError> {
        match self.spec_active_awake_hero_id() {
            Err(e) => Some(e),
            Ok(id) => {
                let hero = self.spec_unit(id)->0;
                if index < 0 || index >= self.doors@.len() || self.doors@[index].open || (
                self.doors@[index].secret && !self.doors@[index].discovered) || !(
                self.doors@[index].a == hero.pos || self.doors@[index].b == hero.pos) {
                    Some(RuleError::NoDoor)
                } else if self.doors@[index].false_door {
                    Some(RuleError::FalseDoor)
                } else {
                    None
                }
            },
        }
    }

    /// `after` is this game once the active hero has opened the door at
    /// `index`, which the log tells, with `squares` the door's two squares;
    /// or this game unchanged with the refusal.
    pub open spec fn hero_opened_door(
        self,
        index: int,
        squares: Result<(Pos, Pos), RuleError>,
        after: Game,
    ) -> bool {
        match self.hero_door_refusal(index) {
            Some(e) => squares == Err::<(Pos, Pos), RuleError>(e) && after == self,
            None => {
                let hero = self.spec_unit(self.spec_active_awake_hero_id()->Ok_0)->0;
                &&& squares == Ok::<(Pos, Pos), RuleError>(
                    (self.doors@[index].a, self.doors@[index].b),
                )
                &&& exists|opened: Game|
                    #[trigger] self.door_opened(index, opened) && after == (Game {
                        log: after.log,
                        ..opened
                    }) && after.log@.len() > 0 && after.log@ == log_after(
                        opened.log@,
                        after.log@.last(),
                    ) && after.log@.last()@ == hero.name@ + " opened a door."@
            },
        }
    }

    /// The active hero opens the door at `index` beside it.
    #[verifier::spinoff_prover]
    #[verifier::rlimit(40)]
    pub fn open_selected_adjacent_door(&mut self, index: usize) -> (squares: Result<(Pos, Pos), RuleError>)
        requires
            old(self).wf(),
            old(self).spec_active_awake_hero_id() matches Ok(id) ==> old(self).spec_unit(id) is Some,
        ensures
            final(self).wf(),
            old(self).hero_opened_door(index as int, squares, *final(self)),
    {
        proof {
            crate::engine::lemma_wf_ids(*self);
        }
        let hero_id = match self.active_awake_hero_id() {
            Ok(id) => id,
            Err(e) => return Err(e),
        };
        let hero_index = match self.unit_index(hero_id) {
            Some(i) => i,
            None => return Err(RuleError::NotHeroTurn),
        };
        proof {
            crate::engine::lemma_slot_of(self.units@, hero_id, hero_index as int);
        }
        let hero_pos = self.units[hero_index].pos;
        if index >= self.doors.len() || self.doors[index].open || (self.doors[index].secret
            && !self.doors[index].discovered) || !self.doors[index].touches(hero_pos) {
            return Err(RuleError::NoDoor);
        }
        if self.doors[index].false_door {
            return Err(RuleError::FalseDoor);
        }
        let mut line = self.units[hero_index].name.clone();
        let squares = self.open_door_index(index);
        let ghost opened = *self;
        line.append(" opened a door.");
        self.push_log(line);
        proof {
            assert(old(self).door_opened(index as int, opened));
        }
        squares
    }

    /// The active hero opens the first door beside it that it can open.
    pub fn open_adjacent_door(&mut self) -> (squares: Result<(Pos, Pos), RuleError>)
        requires
            old(self).wf(),
            old(self).spec_active_awake_hero_id() matches Ok(id) ==> old(self).spec_unit(id) is Some,
        ensures
            final(self).wf(),
            match old(self).spec_active_awake_hero_id() {
                Err(e) => squares == Err::<(Pos, Pos), RuleError>(e) && *final(self) == *old(self),
                Ok(id) => {
                    let doors = crate::doors::openable_doors(
                        old(self).doors@,
                        old(self).spec_unit(id)->0.pos,
                    );
                    if doors.len() == 0 {
                        squares == Err::<(Pos, Pos), RuleError>(RuleError::NoDoor) && *final(self)
                            == *old(self)
                    } else {
                        old(self).hero_opened_door(doors[0] as int, squares, *final(self))
                    }
                },
            },
    {
        let doors = match self.adjacent_closed_door_indices() {
            Ok(doors) => doors,
            Err(e) => return Err(e),
        };
        self.open_selected_adjacent_door(doors[0])
    }
}

impl Game {
    /// A room's notes fire once: once the room has been seen, none of its
    /// notes waits for it any more, and no note is lost.
    pub proof fn lemma_room_notes_fire_once(self, region: i16, after: Game)
        requires
            self.room_events_resolved(region, after),
        ensures
            after.quest_events@.len() == self.quest_events@.len(),
            forall|i: int|
                0 <= i < after.quest_events@.len() ==> !room_note_fires(
                    #[trigger] after.quest_events@[i],
                    region,
                ),
    {
        assert forall|i: int| 0 <= i < after.quest_events@.len() implies !room_note_fires(
            #[trigger] after.quest_events@[i],
            region,
        ) by {
            let fires = |e: QuestEvent| room_note_fires(e, region);
            assert(after.quest_events@[i] == if fires(self.quest_events@[i]) {
                QuestEvent { resolved: true, ..self.quest_events@[i] }
            } else {
                self.quest_events@[i]
            });
        }
    }

    /// A door's notes fire once: once it has opened, none of its notes
    /// waits for it any more, and no note is lost.
    pub proof fn lemma_door_notes_fire_once(self, a: Pos, b: Pos, after: Game)
        requires
            self.door_events_resolved(a, b, after),
        ensures
            after.quest_events@.len() == self.quest_events@.len(),
            forall|i: int|
                0 <= i < after.quest_events@.len() ==> !door_note_fires(
                    #[trigger] after.quest_events@[i],
                    a,
                    b,
                ),
    {
        assert forall|i: int| 0 <= i < after.quest_events@.len() implies !door_note_fires(
            #[trigger] after.quest_events@[i],
            a,
            b,
        ) by {
            let fires = |e: QuestEvent| door_note_fires(e, a, b);
            assert(after.quest_events@[i] == if fires(self.quest_events@[i]) {
                QuestEvent { resolved: true, ..self.quest_events@[i] }
            } else {
                self.quest_events@[i]
            });
        }
    }
}

} // verus!
