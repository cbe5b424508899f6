//! Which doors the active hero can open.
use vstd::prelude::*;

use crate::engine::{Game, lemma_slot_of, lemma_wf_ids};
use crate::game::{Door, RuleError};
use crate::model::Pos;

verus! {

/// A hero on `pos` can open `door`: it is closed, not a secret door still
/// hidden, and `pos` is one of its two squares.
pub open spec fn door_opens_from(door: Door, pos: Pos) -> bool {
    &&& !door.open
    &&& (!door.secret || door.discovered)
    &&& (door.a == pos || door.b == pos)
}

/// The indices, in order, of the doors of `doors` a hero on `pos` can open.
pub open spec fn openable_doors(doors: Seq<Door>, pos: Pos) -> Seq<usize>
    decreases doors.len(),
{
    if doors.len() == 0 {
        Seq::empty()
    } else {
        let earlier = openable_doors(doors.drop_last(), pos);
        if door_opens_from(doors.last(), pos) {
            earlier.push((doors.len() - 1) as usize)
        } else {
            earlier
        }
    }
}

impl Game {
    /// Every closed door, not a hidden secret one, on the active hero's
    /// square: the choices a hero has when opening a door.
    pub fn adjacent_closed_door_indices(&self) -> (result: Result<Vec<usize>, RuleError>)
        requires
            self.wf(),
            self.spec_active_awake_hero_id() matches Ok(id) ==> self.spec_unit(id) is Some,
        ensures
            match self.spec_active_awake_hero_id() {
                Err(e) => result == Err::<Vec<usize>, RuleError>(e),
                Ok(id) => {
                    let doors = openable_doors(self.doors@, self.spec_unit(id)->Some_0.pos);
                    match result {
                        Ok(found) => found@ == doors && doors.len() > 0,
                        Err(e) => e == RuleError::NoDoor && doors.len() == 0,
                    }
                },
            },
    {
        let hero_id = match self.active_awake_hero_id() {
            Ok(id) => id,
            Err(e) => return Err(e),
        };
        proof {
            lemma_wf_ids(*self);
        }
        let index = match self.unit_index(hero_id) {
            Some(index) => index,
            None => return Err(RuleError::NotHeroTurn),
        };
        proof {
            lemma_slot_of(self.units@, hero_id, index as int);
        }
        let hero_pos = self.units[index].pos;
        let mut found: Vec<usize> = Vec::new();
        let mut i: usize = 0;
        while i < self.doors.len()
            invariant
                i <= self.doors@.len(),
                found@ == openable_doors(self.doors@.take(i as int), hero_pos),
            decreases self.doors.len() - i,
        {
            proof {
                assert(self.doors@.take(i + 1).drop_last() =~= self.doors@.take(i as int));
            }
            let door = &self.doors[i];
            if !door.open && (!door.secret || door.discovered) && door.touches(hero_pos) {
                found.push(i);
            }
            i = i + 1;
        }
        proof {
            assert(self.doors@.take(i as int) =~= self.doors@);
        }
        if found.len() == 0 {
            Err(RuleError::NoDoor)
        } else {
            Ok(found)
        }
    }
}

} // verus!
