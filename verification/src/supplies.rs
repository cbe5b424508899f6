//! Gifts between heroes: gold and potions passed from the active hero to a
//! companion.
use vstd::prelude::*;

use crate::engine::{Game, has_unit_id, logged_one_line, unit_slot};
use crate::game;
use crate::game::{PotionKind, RuleError, Unit, UnitId, potion_count, spec_potion_name};
use crate::status::{decimal_string, decimal_text};
use crate::outcome::{sat_gold, with_gold};

verus! {

impl Game {
    /// A hero in turn order other than the active one, alive and still in
    /// the dungeon.
    pub open spec fn is_other_living_hero(self, id: UnitId) -> bool {
        &&& self.spec_active_hero_id() != Some(id)
        &&& self.spec_unit(id) matches Some(hero) && hero.alive && !hero.escaped
    }

    /// The other living heroes among the first `n` in turn order.
    pub open spec fn others_upto(self, n: nat) -> Seq<UnitId>
        decreases n,
    {
        if n == 0 {
            Seq::empty()
        } else {
            let prev = self.others_upto((n - 1) as nat);
            let id = self.hero_order@[n - 1];
            if self.is_other_living_hero(id) {
                prev.push(id)
            } else {
                prev
            }
        }
    }

    pub open spec fn spec_living_other_heroes(self) -> Seq<UnitId> {
        self.others_upto(self.hero_order@.len())
    }

    /// The giver and receiver of a gift, by their places in `units`, or why
    /// no gift can be made: the giver must be the active, awake hero with
    /// equipment at hand, the receiver another living hero.
    pub open spec fn spec_gift_parties(self, recipient: UnitId) -> Result<(int, int), RuleError> {
        match self.spec_active_awake_hero_id() {
            Err(error) => Err(error),
            Ok(giver) => if !self.spec_living_other_heroes().contains(recipient) {
                Err(RuleError::NoGiftRecipient)
            } else if !has_unit_id(self.units@, giver) {
                Err(RuleError::NotHeroTurn)
            } else if !self.units@[unit_slot(self.units@, giver)].equipment_available {
                Err(RuleError::EquipmentUnavailable)
            } else {
                Ok((unit_slot(self.units@, giver), unit_slot(self.units@, recipient)))
            },
        }
    }

    proof fn lemma_others_upto(self, n: nat)
        requires
            n <= self.hero_order@.len(),
        ensures
            forall|r: int|
                0 <= r < self.others_upto(n).len() ==> self.is_other_living_hero(
                    #[trigger] self.others_upto(n)[r],
                ),
        decreases n,
    {
        if n > 0 {
            self.lemma_others_upto((n - 1) as nat);
            let prev = self.others_upto((n - 1) as nat);
            let cur = self.others_upto(n);
            assert forall|r: int| 0 <= r < cur.len() implies self.is_other_living_hero(
                #[trigger] cur[r],
            ) by {
                if r < prev.len() {
                    assert(cur[r] == prev[r]);
                }
            }
        }
    }

    /// The heroes the active hero may hand gold or a potion to, in turn order.
    pub fn living_other_heroes(&self) -> (ids: Vec<UnitId>)
        requires
            self.wf(),
        ensures
            ids@ == self.spec_living_other_heroes(),
    {
        let giver = self.active_hero_id();
        let mut ids: Vec<UnitId> = Vec::new();
        let mut i: usize = 0;
        while i < self.hero_order.len()
            invariant
                self.wf(),
                giver == self.spec_active_hero_id(),
                i <= self.hero_order@.len(),
                ids@ == self.others_upto(i as nat),
            decreases self.hero_order.len() - i,
        {
            let id = self.hero_order[i];
            let other = match giver {
                Some(active) => active != id,
                None => true,
            };
            let living = match self.unit(id) {
                Some(hero) => hero.alive && !hero.escaped,
                None => false,
            };
            if other && living {
                ids.push(id);
            }
            i = i + 1;
        }
        ids
    }

    fn gift_parties(&self, recipient: UnitId) -> (parties: Result<(usize, usize), RuleError>)
        requires
            self.wf(),
        ensures
            match parties {
                Ok((g, r)) => self.spec_gift_parties(recipient) == Ok::<(int, int), RuleError>(
                    (g as int, r as int),
                ) && g < self.units@.len() && r < self.units@.len() && g != r
                    && self.units@[r as int].id == recipient,
                Err(error) => self.spec_gift_parties(recipient) == Err::<(int, int), RuleError>(
                    error,
                ),
            },
    {
        reveal(Game::wf);
        let giver = match self.active_awake_hero_id() {
            Ok(id) => id,
            Err(error) => return Err(error),
        };
        let others = self.living_other_heroes();
        if !game::contains_unit_id(&others, recipient) {
            return Err(RuleError::NoGiftRecipient);
        }
        proof {
            self.lemma_others_upto(self.hero_order@.len());
            let r = choose|r: int| 0 <= r < others@.len() && others@[r] == recipient;
            assert(self.is_other_living_hero(others@[r]));
        }
        let giver_index = match self.unit_index(giver) {
            Some(index) => index,
            None => return Err(RuleError::NotHeroTurn),
        };
        let recipient_index = match self.unit_index(recipient) {
            Some(index) => index,
            None => return Err(RuleError::NoGiftRecipient),
        };
        if !self.units[giver_index].equipment_available {
            return Err(RuleError::EquipmentUnavailable);
        }
        Ok((giver_index, recipient_index))
    }

    pub open spec fn spec_gold_gift(self, recipient: UnitId, amount: u16) -> Result<
        (int, int),
        RuleError,
    > {
        match self.spec_gift_parties(recipient) {
            Err(error) => Err(error),
            Ok((giver, receiver)) => if amount == 0 || amount > self.units@[giver].inventory.gold {
                Err(RuleError::InvalidGoldTransfer)
            } else {
                Ok((giver, receiver))
            },
        }
    }

    /// The active hero hands `amount` gold coins to another living hero;
    /// the receiver's purse is held at the largest amount.
    pub fn give_active_gold(&mut self, recipient: UnitId, amount: u16) -> (outcome: Result<
        (),
        RuleError,
    >)
        requires
            old(self).wf(),
        ensures
            final(self).wf(),
            match old(self).spec_gold_gift(recipient, amount) {
                Err(error) => outcome == Err::<(), RuleError>(error) && *final(self) == *old(self),
                Ok((giver, receiver)) => {
                    let before = old(self).units@;
                    &&& outcome is Ok
                    &&& final(self).units@ == before.update(
                        giver,
                        with_gold(before[giver], (before[giver].inventory.gold - amount) as u16),
                    ).update(
                        receiver,
                        with_gold(
                            before[receiver],
                            sat_gold(before[receiver].inventory.gold as int, amount as int),
                        ),
                    )
                    &&& logged_one_line(old(self).log@, final(self).log@)
                    &&& final(self).log@.last()@ == before[giver].name@ + " gave "@ + decimal_text(amount as nat)
                        + " gold coins to "@ + before[receiver].name@ + "."@
                    &&& *final(self) == (Game {
                        units: final(self).units,
                        log: final(self).log,
                        ..*old(self)
                    })
                },
            },
            // Gold passes between the two heroes and is neither made nor lost,
            // unless the receiver's purse is already full.
            old(self).spec_gold_gift(recipient, amount) matches Ok((giver, receiver)) ==> (
            final(self).units@[giver].inventory.gold + final(self).units@[receiver].inventory.gold
                == old(self).units@[giver].inventory.gold
                + old(self).units@[receiver].inventory.gold
                || final(self).units@[receiver].inventory.gold == u16::MAX),
    {
        let (giver_index, recipient_index) = match self.gift_parties(recipient) {
            Ok(parties) => parties,
            Err(error) => return Err(error),
        };
        let available = self.units[giver_index].inventory.gold;
        if amount == 0 || amount > available {
            return Err(RuleError::InvalidGoldTransfer);
        }
        let ghost before = self.units@;
        self.set_unit_gold(giver_index, available - amount);
        let received = self.units[recipient_index].inventory.gold.saturating_add(amount);
        self.set_unit_gold(recipient_index, received);
        let mut message = self.units[giver_index].name.clone();
        message.append(" gave ");
        let coins = decimal_string(amount as u64);
        message.append(coins.as_str());
        message.append(" gold coins to ");
        message.append(self.units[recipient_index].name.as_str());
        message.append(".");
        self.push_log(message);
        Ok(())
    }

    pub open spec fn spec_potion_gift(self, recipient: UnitId, potion: PotionKind) -> Result<
        (int, int),
        RuleError,
    > {
        match self.spec_gift_parties(recipient) {
            Err(error) => Err(error),
            Ok((giver, receiver)) => if potion_count(self.units@[giver].inventory, potion) == 0 {
                Err(RuleError::NoPotionToGive)
            } else {
                Ok((giver, receiver))
            },
        }
    }

    /// The healing strength a handed-over Potion of Healing carries: the
    /// giver's last one, or none recorded.
    pub open spec fn moved_strength(giver: Unit) -> u8 {
        let strengths = giver.inventory.healing_potion_strengths@;
        if strengths.len() > 0 {
            strengths.last()
        } else {
            0
        }
    }

    /// A figure's record with a new potion count and healing strengths.
    pub open spec fn with_potions(unit: Unit, potion: PotionKind, count: u8, strengths: Vec<u8>) -> Unit {
        Unit {
            inventory: game::with_potion_count(
                game::Inventory { healing_potion_strengths: strengths, ..unit.inventory },
                potion,
                count,
            ),
            ..unit
        }
    }

    /// The active hero hands one potion to another living hero; a Potion of
    /// Healing keeps its recorded strength.
    pub fn give_active_potion(&mut self, recipient: UnitId, potion: PotionKind) -> (outcome: Result<
        (),
        RuleError,
    >)
        requires
            old(self).wf(),
            old(self).spec_potion_gift(recipient, potion) matches Ok((giver, receiver)) ==> potion_count(
                old(self).units@[receiver].inventory,
                potion,
            ) < u8::MAX,
        ensures
            final(self).wf(),
            match old(self).spec_potion_gift(recipient, potion) {
                Err(error) => outcome == Err::<(), RuleError>(error) && *final(self) == *old(self),
                Ok((giver, receiver)) => {
                    let before = old(self).units@;
                    let after = final(self).units@;
                    let giver_strengths = before[giver].inventory.healing_potion_strengths@;
                    let receiver_strengths = before[receiver].inventory.healing_potion_strengths@;
                    &&& outcome is Ok
                    &&& after.len() == before.len()
                    &&& forall|j: int|
                        0 <= j < before.len() && j != giver && j != receiver ==> #[trigger] after[j]
                            == before[j]
                    &&& after[giver] == Self::with_potions(
                        before[giver],
                        potion,
                        (potion_count(before[giver].inventory, potion) - 1) as u8,
                        after[giver].inventory.healing_potion_strengths,
                    )
                    &&& after[receiver] == Self::with_potions(
                        before[receiver],
                        potion,
                        (potion_count(before[receiver].inventory, potion) + 1) as u8,
                        after[receiver].inventory.healing_potion_strengths,
                    )
                    &&& after[giver].inventory.healing_potion_strengths@ == if potion
                        == PotionKind::Healing && giver_strengths.len() > 0 {
                        giver_strengths.drop_last()
                    } else {
                        giver_strengths
                    }
                    &&& after[receiver].inventory.healing_potion_strengths@ == if potion
                        == PotionKind::Healing {
                        receiver_strengths.push(Self::moved_strength(before[giver]))
                    } else {
                        receiver_strengths
                    }
                    &&& logged_one_line(old(self).log@, final(self).log@)
                    &&& final(self).log@.last()@ == before[giver].name@ + " gave "@ + spec_potion_name(potion)
                        + " to "@ + before[receiver].name@ + "."@
                    &&& *final(self) == (Game {
                        units: final(self).units,
                        log: final(self).log,
                        ..*old(self)
                    })
                },
            },
    {
        let (giver_index, recipient_index) = match self.gift_parties(recipient) {
            Ok(parties) => parties,
            Err(error) => return Err(error),
        };
        let owned: u8 = match potion {
            PotionKind::HeroicBrew => self.units[giver_index].inventory.heroic_brew,
            PotionKind::Defense => self.units[giver_index].inventory.potion_of_defense,
            PotionKind::Healing => self.units[giver_index].inventory.potion_of_healing,
            PotionKind::Strength => self.units[giver_index].inventory.potion_of_strength,
            PotionKind::Petrification => self.units[giver_index].inventory.petrification_potion,
        };
        if owned == 0 {
            return Err(RuleError::NoPotionToGive);
        }
        let strength: u8 = match self.units[giver_index].inventory.healing_potion_strengths.last() {
            Some(last) => *last,
            None => 0,
        };
        self.unit_take_potion(giver_index, potion);
        self.unit_receive_potion(recipient_index, potion, strength);
        let mut message = self.units[giver_index].name.clone();
        message.append(" gave ");
        message.append(potion.name());
        message.append(" to ");
        message.append(self.units[recipient_index].name.as_str());
        message.append(".");
        self.push_log(message);
        Ok(())
    }
}

} // verus!
