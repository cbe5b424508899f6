//! Searching for traps and secret doors: what a search covers and what it
//! finds.
use vstd::prelude::*;

use crate::engine::{Game, logged_one_line, spec_cell_index, spec_in_bounds};
use crate::game::{Door, HeroTurnState, RuleError, Trap};
use crate::model::Pos;
use crate::status::{decimal_string, decimal_text};

verus! {

/// The line a search logs: `none` when nothing turned up, else the number
/// found followed by `some`.
pub open spec fn search_text(found: nat, none: Seq<char>, some: Seq<char>) -> Seq<char> {
    if found == 0 {
        none
    } else {
        decimal_text(found) + some
    }
}

/// The trap after the search uncovered it.
pub open spec fn discovered_trap(trap: Trap) -> Trap {
    Trap { discovered: true, ..trap }
}

/// The door after the search uncovered it.
pub open spec fn discovered_door(door: Door) -> Door {
    Door { discovered: true, ..door }
}

impl Game {
    /// What a search from `observer` covers: only the pit itself for a hero
    /// standing in one, the whole room from a room, and from a corridor the
    /// corridor squares in sight.
    pub open spec fn spec_in_search_area(self, observer: Pos, target: Pos) -> bool {
        if self.spec_active_hero() matches Some(hero) && hero.pos == observer && hero.in_pit {
            target == observer
        } else if !spec_in_bounds(observer) || !spec_in_bounds(target) {
            false
        } else {
            let from = self.cells@[spec_cell_index(observer)];
            let to = self.cells@[spec_cell_index(target)];
            if from.region > 0 {
                to.region == from.region
            } else {
                to.region == 0 && self.spec_can_see(observer, target)
            }
        }
    }

    pub fn in_current_search_area(&self, observer: Pos, target: Pos) -> (covered: bool)
        requires
            self.wf(),
        ensures
            covered == self.spec_in_search_area(observer, target),
    {
        let in_own_pit = match self.active_hero() {
            Some(hero) => hero.pos == observer && hero.in_pit,
            None => false,
        };
        if in_own_pit {
            return target == observer;
        }
        let observer_cell = match self.cell(observer) {
            Some(cell) => cell,
            None => return false,
        };
        let target_cell = match self.cell(target) {
            Some(cell) => cell,
            None => return false,
        };
        if observer_cell.region > 0 {
            target_cell.region == observer_cell.region
        } else {
            target_cell.region == 0 && self.can_see(observer, target)
        }
    }

    /// Why the active hero may not search now, if anything stops it: a hero
    /// must be active, awake, not have acted, and see no monster.
    pub open spec fn spec_search_refusal(self) -> Option<RuleError> {
        match self.spec_active_hero() {
            None => Some(RuleError::NotHeroTurn),
            Some(hero) => if hero.sleeping || hero.clouded {
                Some(RuleError::Incapacitated)
            } else if self.hero_turn.action_used {
                Some(RuleError::AlreadyActed)
            } else if exists|i: int|
                0 <= i < self.units@.len() && self.sees_monster(hero.pos, #[trigger] self.units@[i]) {
                Some(RuleError::VisibleMonster)
            } else {
                None
            },
        }
    }

    /// The turn after a search: the action is spent, and a hero who has
    /// already moved may move no further.
    pub open spec fn turn_after_search(turn: HeroTurnState) -> HeroTurnState {
        HeroTurnState {
            action_used: true,
            movement_left: if turn.moved_steps > 0 {
                0
            } else {
                turn.movement_left
            },
            ..turn
        }
    }

    fn spend_search_action(&mut self)
        requires
            old(self).wf(),
        ensures
            final(self).wf(),
            final(self).hero_turn == Self::turn_after_search(old(self).hero_turn),
            *final(self) == (Game { hero_turn: final(self).hero_turn, ..*old(self) }),
    {
        reveal(Game::wf);
        self.hero_turn.action_used = true;
        if self.hero_turn.moved_steps > 0 {
            self.hero_turn.movement_left = 0;
        }
    }

    fn begin_search_action(&mut self) -> (outcome: Result<(), RuleError>)
        requires
            old(self).wf(),
        ensures
            final(self).wf(),
            match old(self).spec_search_refusal() {
                Some(error) => outcome == Err::<(), RuleError>(error) && *final(self) == *old(self),
                None => outcome is Ok && *final(self) == (Game {
                    hero_turn: Self::turn_after_search(old(self).hero_turn),
                    ..*old(self)
                }),
            },
    {
        let hero_id = match self.active_hero_id() {
            Some(id) => id,
            None => return Err(RuleError::NotHeroTurn),
        };
        let (sleeping, clouded) = match self.unit(hero_id) {
            Some(hero) => (hero.sleeping, hero.clouded),
            None => return Err(RuleError::NotHeroTurn),
        };
        if sleeping || clouded {
            return Err(RuleError::Incapacitated);
        }
        if self.hero_turn.action_used {
            return Err(RuleError::AlreadyActed);
        }
        if self.unit_can_see_monster(hero_id) {
            return Err(RuleError::VisibleMonster);
        }
        self.spend_search_action();
        Ok(())
    }

    /// The trap is still set and lies where the search reaches.
    pub open spec fn trap_found_by(self, observer: Pos, trap: Trap) -> bool {
        !trap.sprung && !trap.disarmed && self.spec_in_search_area(observer, trap.pos)
    }

    /// The positions of the traps among the first `n` that the search finds.
    pub open spec fn traps_found_upto(self, observer: Pos, n: nat) -> Seq<Pos>
        decreases n,
    {
        if n == 0 {
            Seq::empty()
        } else {
            let prev = self.traps_found_upto(observer, (n - 1) as nat);
            if self.trap_found_by(observer, self.traps@[n - 1]) {
                prev.push(self.traps@[n - 1].pos)
            } else {
                prev
            }
        }
    }

    /// The traps after a search from `observer`.
    pub open spec fn traps_after_search(self, observer: Pos) -> Seq<Trap> {
        Seq::new(
            self.traps@.len(),
            |i: int|
                if self.trap_found_by(observer, self.traps@[i]) {
                    discovered_trap(self.traps@[i])
                } else {
                    self.traps@[i]
                },
        )
    }

    fn discover_trap(&mut self, index: usize)
        requires
            old(self).wf(),
            index < old(self).traps@.len(),
        ensures
            final(self).wf(),
            final(self).traps@ == old(self).traps@.update(
                index as int,
                discovered_trap(old(self).traps@[index as int]),
            ),
            *final(self) == (Game { traps: final(self).traps, ..*old(self) }),
    {
        reveal(Game::wf);
        let trap = self.traps[index];
        self.traps.set(index, Trap { discovered: true, ..trap });
    }

    /// The active hero searches for traps: every trap still set in the
    /// search area is uncovered and listed.
    pub fn search_traps(&mut self) -> (found: Result<Vec<Pos>, RuleError>)
        requires
            old(self).wf(),
        ensures
            final(self).wf(),
            match old(self).spec_search_refusal() {
                Some(error) => found == Err::<Vec<Pos>, RuleError>(error) && *final(self) == *old(self),
                None => {
                    let observer = old(self).spec_active_hero().unwrap().pos;
                    &&& found matches Ok(positions) && positions@ == old(self).traps_found_upto(
                        observer,
                        old(self).traps@.len(),
                    )
                    &&& final(self).traps@ == old(self).traps_after_search(observer)
                    &&& final(self).hero_turn == Self::turn_after_search(old(self).hero_turn)
                    &&& logged_one_line(old(self).log@, final(self).log@)
                    &&& final(self).log@.last()@ == search_text(
                        old(self).traps_found_upto(observer, old(self).traps@.len()).len(),
                        "No traps were found in this area."@,
                        " concealed trap location(s) were found."@,
                    )
                    &&& *final(self) == (Game {
                        traps: final(self).traps,
                        hero_turn: final(self).hero_turn,
                        log: final(self).log,
                        ..*old(self)
                    })
                },
            },
    {
        let observer = match self.active_hero() {
            Some(hero) => hero.pos,
            None => return Err(RuleError::NotHeroTurn),
        };
        let ghost start = *self;
        let mut flags: Vec<bool> = Vec::new();
        let mut found: Vec<Pos> = Vec::new();
        let mut i: usize = 0;
        while i < self.traps.len()
            invariant
                self.wf(),
                *self == start,
                i <= self.traps@.len(),
                found@ == self.traps_found_upto(observer, i as nat),
                flags@.len() == i,
                forall|j: int| 0 <= j < i ==> #[trigger] flags@[j] == self.trap_found_by(observer, self.traps@[j]),
            decreases self.traps.len() - i,
        {
            let trap = self.traps[i];
            let hit = !trap.sprung && !trap.disarmed && self.in_current_search_area(observer, trap.pos);
            if hit {
                found.push(trap.pos);
            }
            flags.push(hit);
            i = i + 1;
        }
        match self.begin_search_action() {
            Ok(()) => {},
            Err(error) => return Err(error),
        }
        let ghost searched = *self;
        let mut m: usize = 0;
        while m < flags.len()
            invariant
                self.wf(),
                m <= flags@.len(),
                flags@.len() == start.traps@.len(),
                self.traps@.len() == start.traps@.len(),
                forall|j: int| 0 <= j < flags@.len() ==> #[trigger] flags@[j] == start.trap_found_by(observer, start.traps@[j]),
                forall|j: int|
                    0 <= j < self.traps@.len() ==> #[trigger] self.traps@[j] == if j < m && flags@[j] {
                        discovered_trap(start.traps@[j])
                    } else {
                        start.traps@[j]
                    },
                searched.traps == start.traps,
                *self == (Game { traps: self.traps, ..searched }),
            decreases flags.len() - m,
        {
            if flags[m] {
                self.discover_trap(m);
            }
            m = m + 1;
        }
        assert(self.traps@ =~= start.traps_after_search(observer));
        if found.len() == 0 {
            self.log_text("No traps were found in this area.");
        } else {
            let mut message = decimal_string(found.len() as u64);
            message.append(" concealed trap location(s) were found.");
            self.push_log(message);
        }
        Ok(found)
    }

    /// The door is a hidden secret door that a search reaches at either side.
    pub open spec fn door_found_by(self, observer: Pos, door: Door) -> bool {
        door.secret && door.searchable && !door.discovered && (self.spec_in_search_area(
            observer,
            door.a,
        ) || self.spec_in_search_area(observer, door.b))
    }

    /// The squares of the secret doors among the first `n` that the search
    /// finds.
    pub open spec fn doors_found_upto(self, observer: Pos, n: nat) -> Seq<(Pos, Pos)>
        decreases n,
    {
        if n == 0 {
            Seq::empty()
        } else {
            let prev = self.doors_found_upto(observer, (n - 1) as nat);
            let door = self.doors@[n - 1];
            if self.door_found_by(observer, door) {
                prev.push((door.a, door.b))
            } else {
                prev
            }
        }
    }

    /// The doors after a search from `observer`.
    pub open spec fn doors_after_search(self, observer: Pos) -> Seq<Door> {
        Seq::new(
            self.doors@.len(),
            |i: int|
                if self.door_found_by(observer, self.doors@[i]) {
                    discovered_door(self.doors@[i])
                } else {
                    self.doors@[i]
                },
        )
    }

    fn discover_door(&mut self, index: usize)
        requires
            old(self).wf(),
            index < old(self).doors@.len(),
        ensures
            final(self).wf(),
            final(self).doors@ == old(self).doors@.update(
                index as int,
                discovered_door(old(self).doors@[index as int]),
            ),
            *final(self) == (Game { doors: final(self).doors, ..*old(self) }),
    {
        reveal(Game::wf);
        let door = self.doors[index];
        self.doors.set(index, Door { discovered: true, ..door });
        assert forall|i: int| 0 <= i < self.doors@.len() implies spec_in_bounds(
            #[trigger] self.doors@[i].a,
        ) && spec_in_bounds(self.doors@[i].b) by {
            assert(self.doors@[i].a == old(self).doors@[i].a);
        }
    }

    /// The active hero searches for secret doors: every hidden one the
    /// search reaches is uncovered (not opened) and listed.
    pub fn search_secret_doors(&mut self) -> (found: Result<Vec<(Pos, Pos)>, RuleError>)
        requires
            old(self).wf(),
        ensures
            final(self).wf(),
            match old(self).spec_search_refusal() {
                Some(error) => found == Err::<Vec<(Pos, Pos)>, RuleError>(error) && *final(self)
                    == *old(self),
                None => {
                    let observer = old(self).spec_active_hero().unwrap().pos;
                    &&& found matches Ok(squares) && squares@ == old(self).doors_found_upto(
                        observer,
                        old(self).doors@.len(),
                    )
                    &&& final(self).doors@ == old(self).doors_after_search(observer)
                    &&& final(self).hero_turn == Self::turn_after_search(old(self).hero_turn)
                    &&& logged_one_line(old(self).log@, final(self).log@)
                    &&& final(self).log@.last()@ == search_text(
                        old(self).doors_found_upto(observer, old(self).doors@.len()).len(),
                        "No secret doors were found in this area."@,
                        " secret door(s) were found."@,
                    )
                    &&& *final(self) == (Game {
                        doors: final(self).doors,
                        hero_turn: final(self).hero_turn,
                        log: final(self).log,
                        ..*old(self)
                    })
                },
            },
    {
        let observer = match self.active_hero() {
            Some(hero) => hero.pos,
            None => return Err(RuleError::NotHeroTurn),
        };
        let ghost start = *self;
        let mut flags: Vec<bool> = Vec::new();
        let mut found: Vec<(Pos, Pos)> = Vec::new();
        let mut i: usize = 0;
        while i < self.doors.len()
            invariant
                self.wf(),
                *self == start,
                i <= self.doors@.len(),
                found@ == self.doors_found_upto(observer, i as nat),
                flags@.len() == i,
                forall|j: int|
                    0 <= j < i ==> #[trigger] flags@[j] == self.door_found_by(observer, self.doors@[j]),
            decreases self.doors.len() - i,
        {
            let door = self.doors[i];
            let hit = door.secret && door.searchable && !door.discovered && (
            self.in_current_search_area(observer, door.a) || self.in_current_search_area(
                observer,
                door.b,
            ));
            if hit {
                found.push((door.a, door.b));
            }
            flags.push(hit);
            i = i + 1;
        }
        match self.begin_search_action() {
            Ok(()) => {},
            Err(error) => return Err(error),
        }
        let ghost searched = *self;
        let mut m: usize = 0;
        while m < flags.len()
            invariant
                self.wf(),
                m <= flags@.len(),
                flags@.len() == start.doors@.len(),
                self.doors@.len() == start.doors@.len(),
                forall|j: int|
                    0 <= j < flags@.len() ==> #[trigger] flags@[j] == start.door_found_by(
                        observer,
                        start.doors@[j],
                    ),
                forall|j: int|
                    0 <= j < self.doors@.len() ==> #[trigger] self.doors@[j] == if j < m && flags@[j] {
                        discovered_door(start.doors@[j])
                    } else {
                        start.doors@[j]
                    },
                searched.doors == start.doors,
                *self == (Game { doors: self.doors, ..searched }),
            decreases flags.len() - m,
        {
            if flags[m] {
                self.discover_door(m);
            }
            m = m + 1;
        }
        assert(self.doors@ =~= start.doors_after_search(observer));
        if found.len() == 0 {
            self.log_text("No secret doors were found in this area.");
        } else {
            let mut message = decimal_string(found.len() as u64);
            message.append(" secret door(s) were found.");
            self.push_log(message);
        }
        Ok(found)
    }
}

impl Game {
    /// From a corridor square, every trap square the search finds is one the
    /// searcher can see.
    proof fn lemma_corridor_traps_found_seen(self, observer: Pos, n: nat, i: int)
        requires
            spec_in_bounds(observer),
            self.cells@[spec_cell_index(observer)].region == 0,
            n <= self.traps@.len(),
            0 <= i < self.traps_found_upto(observer, n).len(),
        ensures
            self.spec_can_see(observer, self.traps_found_upto(observer, n)[i]),
        decreases n,
    {
        let prev = self.traps_found_upto(observer, (n - 1) as nat);
        if i < prev.len() {
            self.lemma_corridor_traps_found_seen(observer, (n - 1) as nat, i);
        }
    }

    /// A search made from a corridor square uncovers only traps and secret
    /// doors on squares the searcher can see: every trap it reports and every
    /// trap it marks found lies in sight, and so does a square of every
    /// secret door it reports or marks found.
    pub proof fn lemma_corridor_search_stays_in_sight(self, observer: Pos)
        requires
            spec_in_bounds(observer),
            self.cells@[spec_cell_index(observer)].region == 0,
        ensures
            forall|i: int|
                0 <= i < self.traps_found_upto(observer, self.traps@.len()).len() ==> self.spec_can_see(
                    observer,
                    #[trigger] self.traps_found_upto(observer, self.traps@.len())[i],
                ),
            forall|k: int|
                0 <= k < self.traps@.len() && #[trigger] self.traps_after_search(observer)[k].discovered
                    && !self.traps@[k].discovered ==> self.spec_can_see(observer, self.traps@[k].pos),
            forall|k: int|
                0 <= k < self.doors@.len() && #[trigger] self.doors_after_search(observer)[k].discovered
                    && !self.doors@[k].discovered ==> self.spec_can_see(observer, self.doors@[k].a)
                    || self.spec_can_see(observer, self.doors@[k].b),
    {
        assert forall|i: int|
            0 <= i < self.traps_found_upto(observer, self.traps@.len()).len() implies self.spec_can_see(
            observer,
            #[trigger] self.traps_found_upto(observer, self.traps@.len())[i],
        ) by {
            self.lemma_corridor_traps_found_seen(observer, self.traps@.len(), i);
        }
    }
}

impl Game {
    /// A search made from a room, by a hero not standing in a pit, uncovers
    /// only traps and secret doors of that room.
    pub proof fn lemma_room_search_stays_in_room(self, observer: Pos)
        requires
            spec_in_bounds(observer),
            self.cells@[spec_cell_index(observer)].region > 0,
            !(self.spec_active_hero() matches Some(hero) && hero.pos == observer && hero.in_pit),
        ensures
            forall|k: int|
                0 <= k < self.traps@.len() && #[trigger] self.traps_after_search(observer)[k].discovered
                    && !self.traps@[k].discovered ==> spec_in_bounds(self.traps@[k].pos)
                    && self.cells@[spec_cell_index(self.traps@[k].pos)].region == self.cells@[spec_cell_index(
                    observer,
                )].region,
            forall|k: int|
                0 <= k < self.doors@.len() && #[trigger] self.doors_after_search(observer)[k].discovered
                    && !self.doors@[k].discovered ==> (spec_in_bounds(self.doors@[k].a)
                    && self.cells@[spec_cell_index(self.doors@[k].a)].region == self.cells@[spec_cell_index(
                    observer,
                )].region) || (spec_in_bounds(self.doors@[k].b) && self.cells@[spec_cell_index(
                    self.doors@[k].b,
                )].region == self.cells@[spec_cell_index(observer)].region),
    {
    }
}

} // verus!
