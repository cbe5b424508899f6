//! Where the active mover may end this move: every square it can reach with
//! the movement it has left, by legal steps, listed nearest first.
use vstd::prelude::*;

use crate::engine::{spec_cell_index, spec_in_bounds, Game, CELL_COUNT};
use crate::game::{pos_from_cell_index, spec_pos_from_cell_index, UnitId};
use crate::model::{spec_offset, Direction, Pos};

verus! {

/// `to` is one square from `from`, on the board.
pub open spec fn one_step(from: Pos, to: Pos) -> bool {
    ||| spec_offset(from, Direction::North) == Some(to)
    ||| spec_offset(from, Direction::East) == Some(to)
    ||| spec_offset(from, Direction::South) == Some(to)
    ||| spec_offset(from, Direction::West) == Some(to)
}

/// The board square of a cell index, and back.
pub proof fn lemma_cell_round_trip(index: int, pos: Pos)
    ensures
        0 <= index < CELL_COUNT ==> spec_in_bounds(spec_pos_from_cell_index(index as usize))
            && spec_cell_index(spec_pos_from_cell_index(index as usize)) == index,
        spec_in_bounds(pos) ==> 0 <= spec_cell_index(pos) < CELL_COUNT
            && spec_pos_from_cell_index(spec_cell_index(pos) as usize) == pos,
{
    if 0 <= index < CELL_COUNT {
        assert(0 <= index % 26 < 26 && 0 <= index / 26 < 19 && (index / 26) * 26 + index % 26
            == index) by (nonlinear_arith)
            requires
                0 <= index < 494,
        ;
    }
    if spec_in_bounds(pos) {
        let i = (pos.y as int) * 26 + pos.x;
        assert(0 <= i < 494 && i % 26 == pos.x && i / 26 == pos.y) by (nonlinear_arith)
            requires
                0 <= pos.x < 26,
                0 <= pos.y < 19,
                i == (pos.y as int) * 26 + pos.x,
        ;
    }
}

impl Game {
    /// The mover can stand on `pos`, going on from it, after at most `k`
    /// steps of a move of `budget`: each step enters and lets it go on, and
    /// a square first reached at step `k` is one from which movement is left.
    pub open spec fn reach(self, mover: UnitId, start: Pos, budget: int, k: nat, pos: Pos) -> bool
        decreases k,
    {
        if k == 0 {
            pos == start
        } else {
            self.reach(mover, start, budget, (k - 1) as nat, pos) || (k < budget && exists|from: Pos|
                #[trigger] self.spec_step_info(mover, from, pos).may_continue && spec_in_bounds(from)
                    && one_step(from, pos) && self.spec_step_info(mover, from, pos).may_enter
                    && self.reach(
                    mover,
                    start,
                    budget,
                    (k - 1) as nat,
                    from,
                ))
        }
    }

    /// The mover can end a move of `budget` on `to` with `c` steps: the
    /// last step, from a square reached with the steps before, enters `to`
    /// and may stop there.
    pub open spec fn ends_at(self, mover: UnitId, start: Pos, budget: int, c: nat, to: Pos) -> bool {
        &&& 1 <= c <= budget
        &&& to != start
        &&& exists|from: Pos|
            #[trigger] self.spec_step_info(mover, from, to).may_end && spec_in_bounds(from)
                && one_step(from, to)
                && self.spec_step_info(mover, from, to).may_enter && self.reach(
                mover,
                start,
                budget,
                (c - 1) as nat,
                from,
            )
    }

    /// The fewest steps with which the mover can end on `to`.
    pub open spec fn least_end(self, mover: UnitId, start: Pos, budget: int, c: nat, to: Pos) -> bool {
        &&& self.ends_at(mover, start, budget, c, to)
        &&& forall|d: nat| d < c ==> !#[trigger] self.ends_at(mover, start, budget, d, to)
    }
}

/// The square one step from `to` in `d` is a square from which `to` is one
/// step, and every such square is found that way.
pub proof fn lemma_step_back(from: Pos, to: Pos)
    requires
        spec_in_bounds(from),
        spec_in_bounds(to),
    ensures
        one_step(from, to) <==> (spec_offset(to, Direction::North) == Some(from) || spec_offset(
            to,
            Direction::East,
        ) == Some(from) || spec_offset(to, Direction::South) == Some(from) || spec_offset(
            to,
            Direction::West,
        ) == Some(from)),
{
}

impl Game {
    /// `level` holds, for each square, the fewest steps with which the mover
    /// can stand on it going on, when at most `k`, and 255 otherwise; every
    /// square one going-on step from a square of fewer than `k` steps has
    /// been counted.
    pub open spec fn levels_ok(self, mover: UnitId, start: Pos, budget: int, k: nat, level: Seq<u8>) -> bool {
        &&& level.len() == CELL_COUNT
        &&& forall|pos: Pos|
            #![trigger spec_cell_index(pos)]
            spec_in_bounds(pos) ==> {
                let l = level[spec_cell_index(pos)];
                &&& (l <= k ==> self.reach(mover, start, budget, l as nat, pos) && (l > 0
                    ==> !self.reach(mover, start, budget, (l - 1) as nat, pos)))
                &&& (l > k ==> l == 255 && !self.reach(mover, start, budget, k, pos))
            }
        &&& forall|from: Pos, to: Pos|
            #![trigger self.spec_step_info(mover, from, to)]
            spec_in_bounds(from) && spec_in_bounds(to) && level[spec_cell_index(from)] < k
                && one_step(from, to) && self.spec_step_info(mover, from, to).may_enter
                && self.spec_step_info(mover, from, to).may_continue ==> level[spec_cell_index(to)]
                <= level[spec_cell_index(from)] + 1
    }

    /// Some square of `level` exactly `k` lets the mover step on into `to`.
    pub open spec fn gains(self, mover: UnitId, k: nat, level: Seq<u8>, to: Pos) -> bool {
        exists|from: Pos|
            #[trigger] self.spec_step_info(mover, from, to).may_continue && spec_in_bounds(from)
                && level[spec_cell_index(from)] == k && one_step(from, to) && self.spec_step_info(
                mover,
                from,
                to,
            ).may_enter
    }

    /// The level of `to` after round `k`.
    pub open spec fn next_level(self, mover: UnitId, k: nat, level: Seq<u8>, to: Pos) -> u8 {
        let l = level[spec_cell_index(to)];
        if l == 255 && self.gains(mover, k, level, to) {
            (k + 1) as u8
        } else {
            l
        }
    }
}

/// One round of counting adds the squares first reached with `k + 1` steps.
proof fn lemma_round(
    game: Game,
    mover: UnitId,
    start: Pos,
    budget: int,
    k: nat,
    old_level: Seq<u8>,
    new_level: Seq<u8>,
)
    requires
        k + 1 < budget,
        budget <= 255,
        game.levels_ok(mover, start, budget, k, old_level),
        new_level.len() == CELL_COUNT,
        forall|pos: Pos|
            #![trigger spec_cell_index(pos)]
            spec_in_bounds(pos) ==> new_level[spec_cell_index(pos)] == game.next_level(
                mover,
                k,
                old_level,
                pos,
            ),
    ensures
        game.levels_ok(mover, start, budget, k + 1, new_level),
{
    assert forall|pos: Pos| #![trigger spec_cell_index(pos)] spec_in_bounds(pos) implies {
        let l = new_level[spec_cell_index(pos)];
        &&& (l <= k + 1 ==> game.reach(mover, start, budget, l as nat, pos) && (l > 0
            ==> !game.reach(mover, start, budget, (l - 1) as nat, pos)))
        &&& (l > k + 1 ==> l == 255 && !game.reach(mover, start, budget, k + 1, pos))
    } by {
        let o = old_level[spec_cell_index(pos)];
        if o == 255 && game.gains(mover, k, old_level, pos) {
            let from = choose|from: Pos|
                #[trigger] game.spec_step_info(mover, from, pos).may_continue && spec_in_bounds(from)
                    && old_level[spec_cell_index(from)] == k && one_step(from, pos)
                    && game.spec_step_info(mover, from, pos).may_enter;
            assert(game.reach(mover, start, budget, k, from));
            assert(game.reach(mover, start, budget, k + 1, pos));
        } else if o == 255 {
            if game.reach(mover, start, budget, k + 1, pos) {
                assert(!game.reach(mover, start, budget, k, pos));
                let from = choose|from: Pos|
                    #[trigger] game.spec_step_info(mover, from, pos).may_continue && spec_in_bounds(
                        from,
                    ) && one_step(from, pos) && game.spec_step_info(mover, from, pos).may_enter
                        && game.reach(mover, start, budget, k, from);
                let f = old_level[spec_cell_index(from)];
                assert(f <= k);
                if f == k {
                    assert(game.gains(mover, k, old_level, pos));
                } else {
                    assert(old_level[spec_cell_index(pos)] <= f + 1);
                }
            }
        }
    }
    assert forall|from: Pos, to: Pos|
        #![trigger game.spec_step_info(mover, from, to)]
        spec_in_bounds(from) && spec_in_bounds(to) && new_level[spec_cell_index(from)] < k + 1
            && one_step(from, to) && game.spec_step_info(mover, from, to).may_enter
            && game.spec_step_info(mover, from, to).may_continue implies new_level[spec_cell_index(
        to)] <= new_level[spec_cell_index(from)] + 1 by {
        let of = old_level[spec_cell_index(from)];
        let ot = old_level[spec_cell_index(to)];
        assert(new_level[spec_cell_index(from)] == game.next_level(mover, k, old_level, from));
        assert(new_level[spec_cell_index(to)] == game.next_level(mover, k, old_level, to));
        if of == 255 {
            assert(game.gains(mover, k, old_level, from));
        }
        assert(of <= k);
        if of == k && ot == 255 {
            assert(game.gains(mover, k, old_level, to));
        }
    }
}

impl Game {
    /// Whether the square `from`, of `level` exactly `k`, lets the mover
    /// step on into `to`.
    fn steps_on_from(&self, mover: UnitId, k: u8, level: &Vec<u8>, from: Option<Pos>, to: Pos) -> (steps: bool)
        requires
            self.wf(),
            level@.len() == CELL_COUNT,
            spec_in_bounds(to),
            from matches Some(f) ==> spec_in_bounds(f),
        ensures
            steps <==> (from matches Some(f) && level@[spec_cell_index(f)] == k && self.spec_step_info(
                mover,
                f,
                to,
            ).may_enter && self.spec_step_info(mover, f, to).may_continue),
    {
        match from {
            Some(f) => {
                proof {
                    lemma_cell_round_trip(0, f);
                }
                if level[Self::cell_index(f)] != k {
                    return false;
                }
                let info = self.movement_step_info(mover, f, to);
                info.may_enter && info.may_continue
            },
            None => false,
        }
    }

    /// Whether some square of `level` exactly `k` lets the mover step on
    /// into `to`.
    fn gains_at(&self, mover: UnitId, k: u8, level: &Vec<u8>, to: Pos) -> (gained: bool)
        requires
            self.wf(),
            level@.len() == CELL_COUNT,
            spec_in_bounds(to),
        ensures
            gained == self.gains(mover, k as nat, level@, to),
    {
        let north = to.offset(Direction::North);
        let east = to.offset(Direction::East);
        let south = to.offset(Direction::South);
        let west = to.offset(Direction::West);
        let gained = self.steps_on_from(mover, k, level, north, to) || self.steps_on_from(
            mover,
            k,
            level,
            east,
            to,
        ) || self.steps_on_from(mover, k, level, south, to) || self.steps_on_from(
            mover,
            k,
            level,
            west,
            to,
        );
        proof {
            if gained {
                let f = if self.steps_on_from_holds(k, level@, north, to, mover) {
                    north->0
                } else if self.steps_on_from_holds(k, level@, east, to, mover) {
                    east->0
                } else if self.steps_on_from_holds(k, level@, south, to, mover) {
                    south->0
                } else {
                    west->0
                };
                lemma_step_back(f, to);
                assert(self.spec_step_info(mover, f, to).may_continue);
            } else {
                assert forall|f: Pos|
                    #[trigger] self.spec_step_info(mover, f, to).may_continue && spec_in_bounds(f)
                        && level@[spec_cell_index(f)] == k && one_step(f, to) implies !self.spec_step_info(
                    mover,
                    f,
                    to,
                ).may_enter by {
                    lemma_step_back(f, to);
                }
            }
        }
        gained
    }

    pub open spec fn steps_on_from_holds(self, k: u8, level: Seq<u8>, from: Option<Pos>, to: Pos, mover: UnitId) -> bool {
        from matches Some(f) && level[spec_cell_index(f)] == k && self.spec_step_info(mover, f, to).may_enter
            && self.spec_step_info(mover, f, to).may_continue
    }
}

impl Game {
    /// For each square, the fewest steps with which the mover, starting on
    /// `start` with `budget` steps, can stand on it going on; 255 where it
    /// cannot.
    #[verifier::spinoff_prover]
    #[verifier::rlimit(60)]
    fn reach_levels(&self, mover: UnitId, start: Pos, budget: u8) -> (level: Vec<u8>)
        requires
            self.wf(),
            spec_in_bounds(start),
            1 <= budget,
        ensures
            self.levels_ok(mover, start, budget as int, (budget - 1) as nat, level@),
    {
        let mut level: Vec<u8> = Vec::new();
        let mut c: usize = 0;
        while c < CELL_COUNT
            invariant
                c <= CELL_COUNT,
                level@.len() == c,
                forall|i: int| 0 <= i < c ==> level@[i] == 255,
            decreases CELL_COUNT - c,
        {
            level.push(255);
            c = c + 1;
        }
        proof {
            lemma_cell_round_trip(0, start);
        }
        let origin = Self::cell_index(start);
        level.set(origin, 0);
        proof {
            assert forall|pos: Pos| #![trigger spec_cell_index(pos)] spec_in_bounds(pos) implies {
                let l = level@[spec_cell_index(pos)];
                &&& (l <= 0 ==> self.reach(mover, start, budget as int, l as nat, pos) && (l > 0
                    ==> !self.reach(mover, start, budget as int, (l - 1) as nat, pos)))
                &&& (l > 0 ==> l == 255 && !self.reach(mover, start, budget as int, 0, pos))
            } by {
                lemma_cell_round_trip(0, pos);
                if pos != start {
                    lemma_cell_round_trip(spec_cell_index(pos), start);
                    assert(spec_pos_from_cell_index(spec_cell_index(pos) as usize) == pos);
                    assert(spec_cell_index(pos) != spec_cell_index(start));
                }
            }
        }
        let mut k: u8 = 0;
        while k + 1 < budget
            invariant
                self.wf(),
                k < budget,
                self.levels_ok(mover, start, budget as int, k as nat, level@),
            decreases budget - k,
        {
            let ghost old_level = level@;
            let mut j: usize = 0;
            while j < CELL_COUNT
                invariant
                    self.wf(),
                    k + 1 < budget,
                    j <= CELL_COUNT,
                    level@.len() == CELL_COUNT,
                    old_level.len() == CELL_COUNT,
                    self.levels_ok(mover, start, budget as int, k as nat, old_level),
                    forall|i: int|
                        0 <= i < CELL_COUNT ==> (#[trigger] level@[i] == k) == (old_level[i] == k),
                    forall|i: int|
                        0 <= i < j ==> #[trigger] level@[i] == self.next_level(
                            mover,
                            k as nat,
                            old_level,
                            spec_pos_from_cell_index(i as usize),
                        ),
                    forall|i: int| j <= i < CELL_COUNT ==> #[trigger] level@[i] == old_level[i],
                decreases CELL_COUNT - j,
            {
                let to = pos_from_cell_index(j);
                proof {
                    lemma_cell_round_trip(j as int, to);
                    assert(self.gains(mover, k as nat, level@, to) == self.gains(
                        mover,
                        k as nat,
                        old_level,
                        to,
                    )) by {
                        if self.gains(mover, k as nat, level@, to) {
                            let f = choose|f: Pos|
                                #[trigger] self.spec_step_info(mover, f, to).may_continue && spec_in_bounds(f)
                                    && level@[spec_cell_index(f)] == k && one_step(f, to)
                                    && self.spec_step_info(mover, f, to).may_enter;
                            lemma_cell_round_trip(0, f);
                            assert(old_level[spec_cell_index(f)] == k);
                        }
                        if self.gains(mover, k as nat, old_level, to) {
                            let f = choose|f: Pos|
                                #[trigger] self.spec_step_info(mover, f, to).may_continue && spec_in_bounds(f)
                                    && old_level[spec_cell_index(f)] == k && one_step(f, to)
                                    && self.spec_step_info(mover, f, to).may_enter;
                            lemma_cell_round_trip(0, f);
                            assert(level@[spec_cell_index(f)] == k);
                        }
                    }
                }
                if level[j] == 255 && self.gains_at(mover, k, &level, to) {
                    level.set(j, k + 1);
                }
                j = j + 1;
            }
            proof {
                assert forall|pos: Pos| #![trigger spec_cell_index(pos)] spec_in_bounds(pos) implies level@[spec_cell_index(pos)]
                    == self.next_level(mover, k as nat, old_level, pos) by {
                    lemma_cell_round_trip(0, pos);
                    let i = spec_cell_index(pos);
                    assert(level@[i] == self.next_level(
                        mover,
                        k as nat,
                        old_level,
                        spec_pos_from_cell_index(i as usize),
                    ));
                }
                lemma_round(*self, mover, start, budget as int, k as nat, old_level, level@);
            }
            k = k + 1;
        }
        level
    }
}

/// Standing on a square going on within `m` steps stays true with more.
proof fn lemma_reach_grows(game: Game, mover: UnitId, start: Pos, budget: int, m: nat, n: nat, pos: Pos)
    requires
        m <= n,
        game.reach(mover, start, budget, m, pos),
    ensures
        game.reach(mover, start, budget, n, pos),
    decreases n - m,
{
    if m < n {
        lemma_reach_grows(game, mover, start, budget, m, (n - 1) as nat, pos);
    }
}

/// A square the mover stands on going on within `m` steps has a level of at
/// most `m`.
proof fn lemma_level_at_most(
    game: Game,
    mover: UnitId,
    start: Pos,
    budget: int,
    k: nat,
    level: Seq<u8>,
    m: nat,
    pos: Pos,
)
    requires
        game.levels_ok(mover, start, budget, k, level),
        m <= k,
        spec_in_bounds(pos),
        game.reach(mover, start, budget, m, pos),
    ensures
        level[spec_cell_index(pos)] <= m,
{
    let l = level[spec_cell_index(pos)];
    if l > k {
        lemma_reach_grows(game, mover, start, budget, m, k, pos);
    } else if l > m {
        lemma_reach_grows(game, mover, start, budget, m, (l - 1) as nat, pos);
    }
}

impl Game {
    /// `cost` is the fewest steps with which the mover can end on `to`, or
    /// none when it cannot end there.
    pub open spec fn end_cost_ok(self, mover: UnitId, start: Pos, budget: int, to: Pos, cost: u16) -> bool {
        &&& cost < u16::MAX ==> self.least_end(mover, start, budget, cost as nat, to)
        &&& cost == u16::MAX ==> forall|c: nat| !#[trigger] self.ends_at(mover, start, budget, c, to)
    }

    /// The cost of ending on `to` from the square `from`, if it is a
    /// counted square from which the mover may enter `to` and stop.
    fn end_via(&self, mover: UnitId, level: &Vec<u8>, from: Option<Pos>, to: Pos) -> (cost: u16)
        requires
            self.wf(),
            level@.len() == CELL_COUNT,
            spec_in_bounds(to),
            from matches Some(f) ==> spec_in_bounds(f),
        ensures
            cost == match from {
                Some(f) => if level@[spec_cell_index(f)] < 255 && self.spec_step_info(mover, f, to).may_enter
                    && self.spec_step_info(mover, f, to).may_end {
                    (level@[spec_cell_index(f)] + 1) as u16
                } else {
                    u16::MAX
                },
                None => u16::MAX,
            },
    {
        match from {
            Some(f) => {
                proof {
                    lemma_cell_round_trip(0, f);
                }
                let l = level[Self::cell_index(f)];
                if l == 255 {
                    return u16::MAX;
                }
                let info = self.movement_step_info(mover, f, to);
                if info.may_enter && info.may_end {
                    l as u16 + 1
                } else {
                    u16::MAX
                }
            },
            None => u16::MAX,
        }
    }

    /// The fewest steps with which the mover can end on `to`, if any.
    #[verifier::spinoff_prover]
    #[verifier::rlimit(60)]
    fn end_cost(&self, mover: UnitId, start: Pos, budget: u8, level: &Vec<u8>, to: Pos) -> (cost: u16)
        requires
            self.wf(),
            1 <= budget,
            spec_in_bounds(start),
            spec_in_bounds(to),
            self.levels_ok(mover, start, budget as int, (budget - 1) as nat, level@),
        ensures
            self.end_cost_ok(mover, start, budget as int, to, cost),
    {
        if to == start {
            return u16::MAX;
        }
        let north = to.offset(Direction::North);
        let east = to.offset(Direction::East);
        let south = to.offset(Direction::South);
        let west = to.offset(Direction::West);
        let a = self.end_via(mover, level, north, to);
        let b = self.end_via(mover, level, east, to);
        let c = self.end_via(mover, level, south, to);
        let d = self.end_via(mover, level, west, to);
        let mut best = a;
        if b < best {
            best = b;
        }
        if c < best {
            best = c;
        }
        if d < best {
            best = d;
        }
        proof {
            let b_int = budget as int;
            let k = (budget - 1) as nat;
            // every way of ending on `to` costs at least `best`
            assert forall|n: nat| #[trigger] self.ends_at(mover, start, b_int, n, to) implies best <= n by {
                let f = choose|f: Pos|
                    #[trigger] self.spec_step_info(mover, f, to).may_end && spec_in_bounds(f)
                        && one_step(f, to) && self.spec_step_info(mover, f, to).may_enter && self.reach(
                        mover,
                        start,
                        b_int,
                        (n - 1) as nat,
                        f,
                    );
                lemma_step_back(f, to);
                lemma_level_at_most(*self, mover, start, b_int, k, level@, (n - 1) as nat, f);
                lemma_cell_round_trip(0, f);
            }
            if best < u16::MAX {
                let f = if a == best {
                    north->0
                } else if b == best {
                    east->0
                } else if c == best {
                    south->0
                } else {
                    west->0
                };
                lemma_step_back(f, to);
                let l = level@[spec_cell_index(f)];
                assert(l < 255 && l + 1 == best);
                assert(budget <= 255);
                assert(l <= k);
                assert(self.reach(mover, start, b_int, l as nat, f));
                assert(self.spec_step_info(mover, f, to).may_end);
                assert(self.ends_at(mover, start, b_int, best as nat, to));
            }
        }
        best
    }
}

/// The fewest steps of ending on a square is one number.
proof fn lemma_least_end_unique(game: Game, mover: UnitId, start: Pos, budget: int, a: nat, b: nat, to: Pos)
    requires
        game.least_end(mover, start, budget, a, to),
        game.least_end(mover, start, budget, b, to),
    ensures
        a == b,
{
    if a < b {
        assert(!game.ends_at(mover, start, budget, a, to));
    } else if b < a {
        assert(!game.ends_at(mover, start, budget, b, to));
    }
}

impl Game {
    /// The fewest steps with which the mover can end on `to` (meaningful
    /// when it can end there).
    pub open spec fn end_steps(self, mover: UnitId, start: Pos, budget: int, to: Pos) -> nat {
        choose|c: nat| self.least_end(mover, start, budget, c, to)
    }

    /// `a` is listed before `b`: it takes fewer steps, or as many and lies
    /// earlier on the board, row by row and left to right.
    pub open spec fn listed_before(self, mover: UnitId, start: Pos, budget: int, a: Pos, b: Pos) -> bool {
        let ca = self.end_steps(mover, start, budget, a);
        let cb = self.end_steps(mover, start, budget, b);
        ca < cb || (ca == cb && spec_cell_index(a) < spec_cell_index(b))
    }

    /// `dests` are exactly the squares on which a mover starting on `start`
    /// with `budget` steps can end its move, each once, fewest steps first,
    /// then in board order.
    pub open spec fn listed_by_steps(self, mover: UnitId, start: Pos, budget: int, dests: Seq<Pos>) -> bool {
        &&& forall|i: int|
            0 <= i < dests.len() ==> spec_in_bounds(#[trigger] dests[i]) && exists|c: nat|
                self.ends_at(mover, start, budget, c, dests[i])
        &&& forall|pos: Pos|
            spec_in_bounds(pos) && (exists|c: nat| #[trigger] self.ends_at(mover, start, budget, c, pos))
                ==> dests.contains(pos)
        &&& forall|i: int, j: int|
            0 <= i < j < dests.len() ==> self.listed_before(mover, start, budget, dests[i], dests[j])
    }

    /// The squares a falling block's victim may flee to.
    pub open spec fn escape_squares(self) -> Seq<Pos> {
        match self.pending_falling_block {
            Some(p) => (match p.back {
                Some(b) => seq![b],
                None => Seq::empty(),
            }) + (match p.ahead {
                Some(a) => seq![a],
                None => Seq::empty(),
            }),
            None => Seq::empty(),
        }
    }

    /// The squares the active mover may be sent to this move: none while a
    /// trap awaits its dice, the flight squares of a falling block, none
    /// before the throw or with no movement left or for a mover that cannot
    /// act, else every square it can end on, nearest first.
    pub open spec fn destinations_listed(self, dests: Seq<Pos>) -> bool {
        if self.pending_trap_roll is Some {
            dests.len() == 0
        } else if self.pending_falling_block is Some {
            dests == self.escape_squares()
        } else if self.hero_turn.movement_roll is None || self.hero_turn.movement_left == 0 {
            dests.len() == 0
        } else {
            match self.spec_active_mover_id() {
                None => dests.len() == 0,
                Some(id) => match self.spec_unit(id) {
                    None => dests.len() == 0,
                    Some(mover) => if mover.sleeping || mover.clouded || mover.petrified_turns > 0 {
                        dests.len() == 0
                    } else {
                        self.listed_by_steps(
                            id,
                            mover.pos,
                            self.hero_turn.movement_left as int,
                            dests,
                        )
                    },
                },
            }
        }
    }

    /// The squares the active mover may be sent to this move, nearest
    /// first: the highlighted choices, so that only legal moves are shown.
    #[verifier::spinoff_prover]
    #[verifier::rlimit(80)]
    pub fn active_move_destinations(&self) -> (dests: Vec<Pos>)
        requires
            self.wf(),
        ensures
            self.destinations_listed(dests@),
    {
        let mut dests: Vec<Pos> = Vec::new();
        if self.pending_trap_roll.is_some() {
            return dests;
        }
        if let Some(pending) = self.pending_falling_block {
            if let Some(back) = pending.back {
                dests.push(back);
            }
            if let Some(ahead) = pending.ahead {
                dests.push(ahead);
            }
            proof {
                assert(dests@ =~= self.escape_squares());
            }
            return dests;
        }
        let budget = self.hero_turn.movement_left;
        if self.hero_turn.movement_roll.is_none() || budget == 0 {
            return dests;
        }
        let mover_id = match self.active_mover_id() {
            Some(id) => id,
            None => return dests,
        };
        let mover = match self.unit(mover_id) {
            Some(mover) => mover,
            None => return dests,
        };
        if mover.sleeping || mover.clouded || mover.petrified_turns > 0 {
            return dests;
        }
        let start = mover.pos;
        proof {
            reveal(Game::wf);
            crate::engine::lemma_wf_ids(*self);
            let slot = crate::engine::unit_slot(self.units@, mover_id);
            assert(self.units@[slot] == *mover);
            assert(spec_in_bounds(start));
        }
        let level = self.reach_levels(mover_id, start, budget);
        let mut costs: Vec<u16> = Vec::new();
        let mut i: usize = 0;
        while i < CELL_COUNT
            invariant
                self.wf(),
                1 <= budget,
                spec_in_bounds(start),
                self.levels_ok(mover_id, start, budget as int, (budget - 1) as nat, level@),
                i <= CELL_COUNT,
                costs@.len() == i,
                forall|t: int|
                    0 <= t < i ==> self.end_cost_ok(
                        mover_id,
                        start,
                        budget as int,
                        spec_pos_from_cell_index(t as usize),
                        #[trigger] costs@[t],
                    ),
            decreases CELL_COUNT - i,
        {
            let to = pos_from_cell_index(i);
            proof {
                lemma_cell_round_trip(i as int, to);
            }
            let cost = self.end_cost(mover_id, start, budget, &level, to);
            costs.push(cost);
            i = i + 1;
        }
        self.list_by_cost(mover_id, start, budget, &costs)
    }

    /// Lists the squares whose cost is set, fewest steps first, then in
    /// board order.
    #[verifier::spinoff_prover]
    #[verifier::rlimit(80)]
    fn list_by_cost(&self, mover: UnitId, start: Pos, budget: u8, costs: &Vec<u16>) -> (dests: Vec<Pos>)
        requires
            1 <= budget,
            costs@.len() == CELL_COUNT,
            forall|t: int|
                0 <= t < CELL_COUNT ==> self.end_cost_ok(
                    mover,
                    start,
                    budget as int,
                    spec_pos_from_cell_index(t as usize),
                    #[trigger] costs@[t],
                ),
        ensures
            self.listed_by_steps(mover, start, budget as int, dests@),
    {
        let mut dests: Vec<Pos> = Vec::new();
        let mut c: u16 = 1;
        while c <= budget as u16
            invariant
                1 <= c <= budget as u16 + 1,
                costs@.len() == CELL_COUNT,
                forall|t: int|
                    0 <= t < CELL_COUNT ==> self.end_cost_ok(
                        mover,
                        start,
                        budget as int,
                        spec_pos_from_cell_index(t as usize),
                        #[trigger] costs@[t],
                    ),
                forall|u: int|
                    0 <= u < dests@.len() ==> spec_in_bounds(#[trigger] dests@[u]) && 0
                        <= spec_cell_index(dests@[u]) < CELL_COUNT && costs@[spec_cell_index(
                        dests@[u],
                    )] < c && spec_pos_from_cell_index(spec_cell_index(dests@[u]) as usize)
                        == dests@[u],
                forall|t: int|
                    0 <= t < CELL_COUNT && #[trigger] costs@[t] < c ==> dests@.contains(
                        spec_pos_from_cell_index(t as usize),
                    ),
                forall|u: int, v: int|
                    0 <= u < v < dests@.len() ==> (costs@[spec_cell_index(dests@[u])] < costs@[spec_cell_index(
                        dests@[v],
                    )] || (costs@[spec_cell_index(dests@[u])] == costs@[spec_cell_index(dests@[v])]
                        && spec_cell_index(dests@[u]) < spec_cell_index(dests@[v]))),
            decreases budget as u16 + 1 - c,
        {
            let mut j: usize = 0;
            while j < CELL_COUNT
                invariant
                    1 <= c <= budget as u16,
                    j <= CELL_COUNT,
                    costs@.len() == CELL_COUNT,
                    forall|t: int|
                        0 <= t < CELL_COUNT ==> self.end_cost_ok(
                            mover,
                            start,
                            budget as int,
                            spec_pos_from_cell_index(t as usize),
                            #[trigger] costs@[t],
                        ),
                    forall|u: int|
                        0 <= u < dests@.len() ==> spec_in_bounds(#[trigger] dests@[u]) && 0
                            <= spec_cell_index(dests@[u]) < CELL_COUNT && (costs@[spec_cell_index(
                            dests@[u],
                        )] < c || (costs@[spec_cell_index(dests@[u])] == c && spec_cell_index(
                            dests@[u],
                        ) < j)) && spec_pos_from_cell_index(spec_cell_index(dests@[u]) as usize)
                            == dests@[u],
                    forall|t: int|
                        0 <= t < CELL_COUNT && (#[trigger] costs@[t] < c || (costs@[t] == c && t < j))
                            ==> dests@.contains(spec_pos_from_cell_index(t as usize)),
                    forall|u: int, v: int|
                        0 <= u < v < dests@.len() ==> (costs@[spec_cell_index(dests@[u])] < costs@[spec_cell_index(
                            dests@[v],
                        )] || (costs@[spec_cell_index(dests@[u])] == costs@[spec_cell_index(dests@[v])]
                            && spec_cell_index(dests@[u]) < spec_cell_index(dests@[v]))),
                decreases CELL_COUNT - j,
            {
                if costs[j] == c {
                    let pos = pos_from_cell_index(j);
                    proof {
                        lemma_cell_round_trip(j as int, pos);
                    }
                    let ghost before = dests@;
                    dests.push(pos);
                    proof {
                        assert(dests@[before.len() as int] == pos);
                        assert forall|t: int|
                            0 <= t < CELL_COUNT && (#[trigger] costs@[t] < c || (costs@[t] == c && t < j
                                + 1)) implies dests@.contains(spec_pos_from_cell_index(t as usize)) by {
                            if t == j {
                                assert(dests@[before.len() as int] == spec_pos_from_cell_index(t as usize));
                            } else {
                                let w = choose|w: int| 0 <= w < before.len() && before[w] == spec_pos_from_cell_index(t as usize);
                                assert(dests@[w] == before[w]);
                            }
                        }
                    }
                }
                j = j + 1;
            }
            c = c + 1;
        }
        proof {
            let b = budget as int;
            assert forall|i: int| 0 <= i < dests@.len() implies spec_in_bounds(#[trigger] dests@[i])
                && exists|n: nat| self.ends_at(mover, start, b, n, dests@[i]) by {
                let t = spec_cell_index(dests@[i]);
                assert(self.end_cost_ok(mover, start, b, spec_pos_from_cell_index(t as usize), costs@[t]));
                assert(self.ends_at(mover, start, b, costs@[t] as nat, dests@[i]));
            }
            assert forall|pos: Pos|
                spec_in_bounds(pos) && (exists|n: nat| #[trigger] self.ends_at(mover, start, b, n, pos))
                    implies dests@.contains(pos) by {
                lemma_cell_round_trip(0, pos);
                let t = spec_cell_index(pos);
                let n = choose|n: nat| self.ends_at(mover, start, b, n, pos);
                assert(self.end_cost_ok(mover, start, b, spec_pos_from_cell_index(t as usize), costs@[t]));
                assert(costs@[t] < c);
            }
            assert forall|u: int, v: int| 0 <= u < v < dests@.len() implies self.listed_before(
                mover,
                start,
                b,
                dests@[u],
                dests@[v],
            ) by {
                let tu = spec_cell_index(dests@[u]);
                let tv = spec_cell_index(dests@[v]);
                assert(self.end_cost_ok(mover, start, b, spec_pos_from_cell_index(tu as usize), costs@[tu]));
                assert(self.end_cost_ok(mover, start, b, spec_pos_from_cell_index(tv as usize), costs@[tv]));
                let cu = self.end_steps(mover, start, b, dests@[u]);
                let cv = self.end_steps(mover, start, b, dests@[v]);
                lemma_least_end_unique(*self, mover, start, b, cu, costs@[tu] as nat, dests@[u]);
                lemma_least_end_unique(*self, mover, start, b, cv, costs@[tv] as nat, dests@[v]);
            }
        }
        dests
    }
}


/// The direction that undoes a step in `d`.
pub open spec fn spec_opposite(d: Direction) -> Direction {
    match d {
        Direction::North => Direction::South,
        Direction::East => Direction::West,
        Direction::South => Direction::North,
        Direction::West => Direction::East,
    }
}

/// The direction that undoes a step in `d`.
pub fn opposite(d: Direction) -> (back: Direction)
    ensures
        back == spec_opposite(d),
{
    match d {
        Direction::North => Direction::South,
        Direction::East => Direction::West,
        Direction::South => Direction::North,
        Direction::West => Direction::East,
    }
}

/// Stepping back from a square on the board returns to it.
pub proof fn lemma_opposite_returns(to: Pos, d: Direction, from: Pos)
    requires
        spec_in_bounds(to),
        spec_offset(to, d) == Some(from),
    ensures
        spec_offset(from, spec_opposite(d)) == Some(to),
        spec_in_bounds(from),
        one_step(from, to),
{
}

impl Game {
    /// `dirs` leads the mover through the squares `sq`, one legal step at a
    /// time: every step enters its square, every step but the last lets it
    /// go on, and the last lets it stop.
    #[verifier::opaque]
    pub open spec fn walks(self, mover: UnitId, sq: Seq<Pos>, dirs: Seq<Direction>) -> bool {
        &&& sq.len() == dirs.len() + 1
        &&& forall|i: int|
            #![trigger dirs[i]]
            0 <= i < dirs.len() ==> {
                &&& spec_in_bounds(sq[i])
                &&& spec_offset(sq[i], dirs[i]) == Some(sq[i + 1])
                &&& self.spec_step_info(mover, sq[i], sq[i + 1]).may_enter
                &&& (i + 1 < dirs.len() ==> self.spec_step_info(mover, sq[i], sq[i + 1]).may_continue)
                &&& (i + 1 == dirs.len() ==> self.spec_step_info(mover, sq[i], sq[i + 1]).may_end)
            }
    }

    /// `dirs` takes the mover from `start` to stop on `target` by legal
    /// steps, as few as any way of ending there.
    pub open spec fn shortest_path(
        self,
        mover: UnitId,
        start: Pos,
        budget: int,
        target: Pos,
        dirs: Seq<Direction>,
    ) -> bool {
        &&& dirs.len() == self.end_steps(mover, start, budget, target)
        &&& exists|sq: Seq<Pos>|
            #[trigger] self.walks(mover, sq, dirs) && sq[0] == start && sq.last() == target
    }

    /// `target` is one of the squares offered to the active mover this move.
    pub open spec fn offered(self, target: Pos) -> bool {
        if self.pending_trap_roll is Some {
            false
        } else if self.pending_falling_block is Some {
            self.escape_squares().contains(target)
        } else if self.hero_turn.movement_roll is None || self.hero_turn.movement_left == 0 {
            false
        } else {
            match self.spec_active_mover_id() {
                None => false,
                Some(id) => match self.spec_unit(id) {
                    None => false,
                    Some(mover) => !(mover.sleeping || mover.clouded || mover.petrified_turns > 0)
                        && spec_in_bounds(target) && exists|c: nat|
                        self.ends_at(id, mover.pos, self.hero_turn.movement_left as int, c, target),
                },
            }
        }
    }

    /// The way to an offered square: none unless the square is offered and
    /// the active mover can stop on it with the movement it has left, and
    /// then a shortest legal way there.
    pub open spec fn path_found(self, target: Pos, path: Option<Vec<Direction>>) -> bool {
        match self.spec_active_mover_id() {
            Some(id) => match self.spec_unit(id) {
                Some(mover) => {
                    let budget = self.hero_turn.movement_left as int;
                    if self.offered(target) && exists|c: nat| self.ends_at(id, mover.pos, budget, c, target) {
                        path matches Some(dirs) && self.shortest_path(id, mover.pos, budget, target, dirs@)
                    } else {
                        path is None
                    }
                },
                None => path is None,
            },
            None => path is None,
        }
    }

    /// The mover may step from `from` into `to` and stop there (when
    /// `ending`) or go on; held back from the solver until asked for.
    #[verifier::opaque]
    pub open spec fn steps_into(self, mover: UnitId, from: Pos, to: Pos, ending: bool) -> bool {
        let info = self.spec_step_info(mover, from, to);
        info.may_enter && if ending {
            info.may_end
        } else {
            info.may_continue
        }
    }

    /// Whether the square `from` has level `want` and lets the mover step
    /// into `to`, going on (or stopping, when `ending`).
    fn back_via(&self, mover: UnitId, level: &Vec<u8>, from: Option<Pos>, to: Pos, want: u8, ending: bool) -> (ok: bool)
        requires
            self.wf(),
            level@.len() == CELL_COUNT,
            from matches Some(f) ==> spec_in_bounds(f),
        ensures
            ok == (from matches Some(f) && level@[spec_cell_index(f)] == want && self.steps_into(
                mover,
                f,
                to,
                ending,
            )),
    {
        reveal(Game::steps_into);
        match from {
            Some(f) => {
                proof {
                    lemma_cell_round_trip(0, f);
                }
                if level[Self::cell_index(f)] != want {
                    return false;
                }
                let info = self.movement_step_info(mover, f, to);
                info.may_enter && if ending {
                    info.may_end
                } else {
                    info.may_continue
                }
            },
            None => false,
        }
    }

    /// A square one step from `to`, with its direction from `to`, of level
    /// `want` from which the mover may step into `to`, going on (or
    /// stopping, when `ending`); none when no square next to `to` is one.
    fn back_step(&self, mover: UnitId, level: &Vec<u8>, to: Pos, want: u8, ending: bool) -> (found: Option<(Pos, Direction)>)
        requires
            self.wf(),
            level@.len() == CELL_COUNT,
            spec_in_bounds(to),
        ensures
            found matches Some((f, d)) ==> spec_offset(to, d) == Some(f) && spec_in_bounds(f)
                && level@[spec_cell_index(f)] == want && self.steps_into(mover, f, to, ending),
            found is None ==> forall|f: Pos|
                #![trigger self.steps_into(mover, f, to, ending)]
                spec_in_bounds(f) && one_step(f, to) ==> !(level@[spec_cell_index(f)] == want
                    && self.steps_into(mover, f, to, ending)),
    {
        let north = to.offset(Direction::North);
        if self.back_via(mover, level, north, to, want, ending) {
            return Some((north.unwrap(), Direction::North));
        }
        let east = to.offset(Direction::East);
        if self.back_via(mover, level, east, to, want, ending) {
            return Some((east.unwrap(), Direction::East));
        }
        let south = to.offset(Direction::South);
        if self.back_via(mover, level, south, to, want, ending) {
            return Some((south.unwrap(), Direction::South));
        }
        let west = to.offset(Direction::West);
        if self.back_via(mover, level, west, to, want, ending) {
            return Some((west.unwrap(), Direction::West));
        }
        proof {
            assert forall|f: Pos|
                #![trigger self.steps_into(mover, f, to, ending)]
                spec_in_bounds(f) && one_step(f, to) implies !(level@[spec_cell_index(f)] == want
                    && self.steps_into(mover, f, to, ending)) by {
                lemma_step_back(f, to);
            }
        }
        None
    }

    /// The levels are counted for a move of `budget`, held back from the
    /// solver until a proof asks for them.
    #[verifier::opaque]
    pub open spec fn levels_counted(self, mover: UnitId, start: Pos, budget: int, level: Seq<u8>) -> bool {
        self.levels_ok(mover, start, budget, (budget - 1) as nat, level)
    }

    /// A shortest legal way, as directions to take one at a time, to a
    /// square offered to the active mover; none for a square that is not
    /// offered or cannot be reached.
    #[verifier::spinoff_prover]
    #[verifier::rlimit(60)]
    pub fn active_move_path_to(&self, target: Pos) -> (path: Option<Vec<Direction>>)
        requires
            self.wf(),
        ensures
            self.path_found(target, path),
    {
        let dests = self.active_move_destinations();
        let mut listed = false;
        let mut i: usize = 0;
        while i < dests.len()
            invariant
                i <= dests@.len(),
                listed <==> exists|u: int| 0 <= u < i && dests@[u] == target,
            decreases dests@.len() - i,
        {
            if dests[i] == target {
                listed = true;
            }
            i = i + 1;
        }
        proof {
            lemma_offered(*self, dests@, target);
            if listed {
                let u = choose|u: int| 0 <= u < i && dests@[u] == target;
                assert(dests@.contains(target));
            }
        }
        if !listed {
            return None;
        }
        let mover_id = match self.active_mover_id() {
            Some(id) => id,
            None => return None,
        };
        let mover = match self.unit(mover_id) {
            Some(mover) => mover,
            None => return None,
        };
        let start = mover.pos;
        proof {
            reveal(Game::wf);
            crate::engine::lemma_wf_ids(*self);
            let slot = crate::engine::unit_slot(self.units@, mover_id);
            assert(self.units@[slot] == *mover);
            assert(spec_in_bounds(start));
        }
        let budget = self.hero_turn.movement_left;
        if budget == 0 || !Self::in_bounds(target) {
            proof {
                assert forall|c: nat| !#[trigger] self.ends_at(mover_id, start, budget as int, c, target) by {
                    if self.ends_at(mover_id, start, budget as int, c, target) {
                        let f = choose|f: Pos|
                            #[trigger] self.spec_step_info(mover_id, f, target).may_end && spec_in_bounds(f)
                                && one_step(f, target) && self.spec_step_info(mover_id, f, target).may_enter
                                && self.reach(mover_id, start, budget as int, (c - 1) as nat, f);
                    }
                }
            }
            return None;
        }
        let level = self.reach_levels(mover_id, start, budget);
        let cost = self.end_cost(mover_id, start, budget, &level, target);
        if cost == u16::MAX {
            return None;
        }
        proof {
            reveal(Game::levels_counted);
        }
        let dirs = self.walk_back(mover_id, start, budget, &level, target, cost);
        Some(dirs)
    }

    /// Walks back from `target` over squares one level lower each step,
    /// down to the start, and gives the directions from the start.
    #[verifier::spinoff_prover]
    #[verifier::rlimit(60)]
    fn walk_back(&self, mover: UnitId, start: Pos, budget: u8, level: &Vec<u8>, target: Pos, cost: u16) -> (dirs: Vec<Direction>)
        requires
            self.wf(),
            1 <= budget,
            spec_in_bounds(start),
            spec_in_bounds(target),
            self.levels_counted(mover, start, budget as int, level@),
            level@.len() == CELL_COUNT,
            self.least_end(mover, start, budget as int, cost as nat, target),
        ensures
            self.shortest_path(mover, start, budget as int, target, dirs@),
    {
        let ghost b = budget as int;
        let ghost k = (budget - 1) as nat;
        proof {
            lemma_last_step(*self, mover, start, b, level@, cost as nat, target);
        }
        let last = self.back_step(mover, level, target, (cost - 1) as u8, true);
        let (mut cur, d_last) = last.unwrap();
        let mut l: u8 = (cost - 1) as u8;
        let mut dirs: Vec<Direction> = Vec::new();
        dirs.push(opposite(d_last));
        let ghost mut sq: Seq<Pos> = seq![cur, target];
        proof {
            lemma_opposite_returns(target, d_last, cur);
            assert(dirs@ =~= seq![spec_opposite(d_last)]);
            lemma_walk_one(*self, mover, cur, target, spec_opposite(d_last));
        }
        while l > 0
            invariant
                self.wf(),
                self.levels_counted(mover, start, b, level@),
                level@.len() == CELL_COUNT,
                1 <= budget,
                b == budget as int,
                k == (budget - 1) as nat,
                spec_in_bounds(start),
                spec_in_bounds(cur),
                (l as int) < cost,
                cost <= budget,
                level@[spec_cell_index(cur)] == l,
                dirs@.len() == cost - l,
                self.walks(mover, sq, dirs@),
                sq.len() == dirs@.len() + 1,
                sq[0] == cur,
                sq.last() == target,
            decreases l,
        {
            proof {
                lemma_step_before(*self, mover, start, b, level@, l as nat, cur);
            }
            let step = self.back_step(mover, level, cur, l - 1, false);
            let (p, d) = step.unwrap();
            proof {
                lemma_opposite_returns(cur, d, p);
            }
            let ghost old_sq = sq;
            let ghost old_dirs = dirs@;
            dirs.insert(0, opposite(d));
            proof {
                sq = seq![p] + old_sq;
                assert(sq.last() == old_sq.last());
                assert(dirs@ =~= seq![spec_opposite(d)] + old_dirs);
                lemma_walk_prepend(*self, mover, old_sq, old_dirs, p, spec_opposite(d));
            }
            cur = p;
            l = l - 1;
        }
        proof {
            lemma_start_level(*self, mover, start, b, level@, cur);
            lemma_shortest(*self, mover, start, b, target, cost as nat, sq, dirs@);
        }
        dirs
    }
}

/// The last step of a shortest way to `target` comes from a square one
/// level below its cost.
proof fn lemma_last_step(
    game: Game,
    mover: UnitId,
    start: Pos,
    budget: int,
    level: Seq<u8>,
    cost: nat,
    target: Pos,
)
    requires
        game.levels_counted(mover, start, budget, level),
        1 <= budget,
        game.least_end(mover, start, budget, cost, target),
    ensures
        1 <= cost <= budget,
        exists|f: Pos|
            #![trigger game.steps_into(mover, f, target, true)]
            spec_in_bounds(f) && one_step(f, target) && level[spec_cell_index(f)] == cost - 1
                && game.steps_into(mover, f, target, true),
{
    let k = (budget - 1) as nat;
    assert(game.levels_ok(mover, start, budget, k, level)) by {
        reveal(Game::levels_counted);
    }
    let f = choose|f: Pos|
        #[trigger] game.spec_step_info(mover, f, target).may_end && spec_in_bounds(f)
            && one_step(f, target) && game.spec_step_info(mover, f, target).may_enter
            && game.reach(mover, start, budget, (cost - 1) as nat, f);
    lemma_level_at_most(game, mover, start, budget, k, level, (cost - 1) as nat, f);
    lemma_cell_round_trip(0, f);
    let lf = level[spec_cell_index(f)];
    if lf < cost - 1 {
        assert(game.reach(mover, start, budget, lf as nat, f));
        assert(game.ends_at(mover, start, budget, (lf + 1) as nat, target));
    }
    assert(game.steps_into(mover, f, target, true)) by {
        reveal(Game::steps_into);
    }
}

/// A square of level `l > 0` is one going-on step from a square of level
/// `l - 1`.
proof fn lemma_step_before(
    game: Game,
    mover: UnitId,
    start: Pos,
    budget: int,
    level: Seq<u8>,
    l: nat,
    cur: Pos,
)
    requires
        game.levels_counted(mover, start, budget, level),
        1 <= budget,
        spec_in_bounds(cur),
        level[spec_cell_index(cur)] == l,
        0 < l < budget,
    ensures
        exists|f: Pos|
            #![trigger game.steps_into(mover, f, cur, false)]
            spec_in_bounds(f) && one_step(f, cur) && level[spec_cell_index(f)] == l - 1
                && game.steps_into(mover, f, cur, false),
{
    let k = (budget - 1) as nat;
    assert(game.levels_ok(mover, start, budget, k, level)) by {
        reveal(Game::levels_counted);
    }
    lemma_cell_round_trip(0, cur);
    assert(game.reach(mover, start, budget, l, cur));
    assert(!game.reach(mover, start, budget, (l - 1) as nat, cur));
    let f = choose|f: Pos|
        #[trigger] game.spec_step_info(mover, f, cur).may_continue && spec_in_bounds(f)
            && one_step(f, cur) && game.spec_step_info(mover, f, cur).may_enter
            && game.reach(mover, start, budget, (l - 1) as nat, f);
    lemma_level_at_most(game, mover, start, budget, k, level, (l - 1) as nat, f);
    lemma_cell_round_trip(0, f);
    assert(level[spec_cell_index(f)] == l - 1);
    assert(game.steps_into(mover, f, cur, false)) by {
        reveal(Game::steps_into);
    }
}

/// The square of level 0 is the start.
proof fn lemma_start_level(
    game: Game,
    mover: UnitId,
    start: Pos,
    budget: int,
    level: Seq<u8>,
    cur: Pos,
)
    requires
        game.levels_counted(mover, start, budget, level),
        1 <= budget,
        spec_in_bounds(cur),
        level[spec_cell_index(cur)] == 0,
    ensures
        cur == start,
{
    reveal(Game::levels_counted);
    let k = (budget - 1) as nat;
    lemma_cell_round_trip(0, cur);
    assert(game.reach(mover, start, budget, 0, cur));
}

/// A single stopping step is a walk.
proof fn lemma_walk_one(game: Game, mover: UnitId, f: Pos, to: Pos, d: Direction)
    requires
        spec_in_bounds(f),
        spec_offset(f, d) == Some(to),
        game.steps_into(mover, f, to, true),
    ensures
        game.walks(mover, seq![f, to], seq![d]),
{
    reveal(Game::walks);
    reveal(Game::steps_into);
}

/// A walk from the start to `target` as long as its fewest steps is a
/// shortest way there.
proof fn lemma_shortest(
    game: Game,
    mover: UnitId,
    start: Pos,
    budget: int,
    target: Pos,
    cost: nat,
    sq: Seq<Pos>,
    dirs: Seq<Direction>,
)
    requires
        game.least_end(mover, start, budget, cost, target),
        game.walks(mover, sq, dirs),
        sq[0] == start,
        sq.last() == target,
        dirs.len() == cost,
    ensures
        game.shortest_path(mover, start, budget, target, dirs),
{
    let c = game.end_steps(mover, start, budget, target);
    lemma_least_end_unique(game, mover, start, budget, c, cost, target);
}

/// A going-on step into the first square of a walk makes a longer walk.
proof fn lemma_walk_prepend(game: Game, mover: UnitId, sq: Seq<Pos>, dirs: Seq<Direction>, p: Pos, d: Direction)
    requires
        game.walks(mover, sq, dirs),
        dirs.len() >= 1,
        spec_in_bounds(p),
        spec_offset(p, d) == Some(sq[0]),
        game.steps_into(mover, p, sq[0], false),
    ensures
        game.walks(mover, seq![p] + sq, seq![d] + dirs),
{
    reveal(Game::walks);
    reveal(Game::steps_into);
    let nsq = seq![p] + sq;
    let nd = seq![d] + dirs;
    assert forall|i: int|
        #![trigger nd[i]]
        0 <= i < nd.len() implies {
            &&& spec_in_bounds(nsq[i])
            &&& spec_offset(nsq[i], nd[i]) == Some(nsq[i + 1])
            &&& game.spec_step_info(mover, nsq[i], nsq[i + 1]).may_enter
            &&& (i + 1 < nd.len() ==> game.spec_step_info(mover, nsq[i], nsq[i + 1]).may_continue)
            &&& (i + 1 == nd.len() ==> game.spec_step_info(mover, nsq[i], nsq[i + 1]).may_end)
        } by {
        if i > 0 {
            assert(nd[i] == dirs[i - 1]);
            assert(nsq[i] == sq[i - 1]);
            assert(nsq[i + 1] == sq[i]);
        }
    }
}

/// A square is among the listed destinations exactly when it is offered.
proof fn lemma_offered(game: Game, dests: Seq<Pos>, target: Pos)
    requires
        game.wf(),
        game.destinations_listed(dests),
    ensures
        dests.contains(target) <==> game.offered(target),
{
    if dests.contains(target) {
        let u = choose|u: int| 0 <= u < dests.len() && dests[u] == target;
        assert(dests[u] == target);
    }
}

/// A way found to a square stops on that square, which is among the
/// squares offered, and takes no more steps than the movement left.
pub proof fn lemma_path_within_movement(game: Game, target: Pos, path: Option<Vec<Direction>>)
    requires
        game.path_found(target, path),
        path is Some,
    ensures
        game.offered(target),
        path->Some_0@.len() <= game.hero_turn.movement_left,
        exists|sq: Seq<Pos>| #[trigger] game.walks(game.spec_active_mover_id()->Some_0, sq, path->Some_0@)
            && sq.last() == target,
{
    let id = game.spec_active_mover_id()->Some_0;
    let mover = game.spec_unit(id)->Some_0;
    let budget = game.hero_turn.movement_left as int;
    let c = choose|c: nat| game.ends_at(id, mover.pos, budget, c, target);
    lemma_least_exists(game, id, mover.pos, budget, c, target);
    let sq = choose|sq: Seq<Pos>|
        #[trigger] game.walks(id, sq, path->Some_0@) && sq[0] == mover.pos && sq.last() == target;
}

/// Where the mover can end on a square, there is a fewest number of steps.
proof fn lemma_least_exists(game: Game, mover: UnitId, start: Pos, budget: int, c: nat, to: Pos)
    requires
        game.ends_at(mover, start, budget, c, to),
    ensures
        game.least_end(mover, start, budget, game.end_steps(mover, start, budget, to), to),
        game.end_steps(mover, start, budget, to) <= budget,
    decreases c,
{
    if exists|d: nat| d < c && #[trigger] game.ends_at(mover, start, budget, d, to) {
        let d = choose|d: nat| d < c && #[trigger] game.ends_at(mover, start, budget, d, to);
        lemma_least_exists(game, mover, start, budget, d, to);
    } else {
        assert(game.least_end(mover, start, budget, c, to));
    }
}

/// The squares offered for a move never repeat, never include the square
/// the mover stands on, and go by fewest steps, then row, then column.
pub proof fn lemma_destinations_distinct(game: Game, dests: Seq<Pos>)
    requires
        game.destinations_listed(dests),
        game.pending_falling_block is None,
    ensures
        forall|i: int, j: int| 0 <= i < j < dests.len() ==> dests[i] != dests[j],
        game.spec_active_mover_id() matches Some(id) ==> (game.spec_unit(id) matches Some(mover)
            ==> !dests.contains(mover.pos)),
        (game.pending_trap_roll is Some || game.hero_turn.movement_roll is None
            || game.hero_turn.movement_left == 0) ==> dests.len() == 0,
{
    if dests.len() > 0 {
        let id = game.spec_active_mover_id()->Some_0;
        let mover = game.spec_unit(id)->Some_0;
        let budget = game.hero_turn.movement_left as int;
        assert forall|i: int, j: int| 0 <= i < j < dests.len() implies dests[i] != dests[j] by {
            assert(game.listed_before(id, mover.pos, budget, dests[i], dests[j]));
        }
        if dests.contains(mover.pos) {
            let k = choose|k: int| 0 <= k < dests.len() && dests[k] == mover.pos;
            assert(spec_in_bounds(dests[k]));
            let c = choose|c: nat| game.ends_at(id, mover.pos, budget, c, dests[k]);
        }
    }
}

/// Outside a falling block's flight, a way is found to a square exactly
/// when the square is among those offered.
pub proof fn lemma_path_iff_offered(game: Game, target: Pos, path: Option<Vec<Direction>>, dests: Seq<Pos>)
    requires
        game.wf(),
        game.path_found(target, path),
        game.destinations_listed(dests),
        game.pending_falling_block is None,
    ensures
        path is Some <==> dests.contains(target),
{
    lemma_offered(game, dests, target);
}

} // verus!
