//! The board model shared by every rule: squares, directions, factions,
//! figures, furniture footprints, trap kinds and the faces of the combat dice.
use vstd::prelude::*;

verus! {

/// Squares across the printed board.
pub const BOARD_WIDTH: u8 = 26;

/// Squares down the printed board.
pub const BOARD_HEIGHT: u8 = 19;

/// One square of the board, by column and row.
#[derive(Clone, Copy, Debug, PartialEq, Eq, Structural, Hash)]
pub struct Pos {
    pub x: u8,
    pub y: u8,
}

/// The four orthogonal movement directions.
#[derive(Clone, Copy, Debug, PartialEq, Eq, Structural, Hash)]
pub enum Direction {
    North,
    East,
    South,
    West,
}

impl Direction {
    /// Every direction, in the order in which movement options are listed.
    pub fn all() -> (dirs: [Direction; 4])
        ensures
            dirs@ == seq![Direction::North, Direction::East, Direction::South, Direction::West],
    {
        [Direction::North, Direction::East, Direction::South, Direction::West]
    }
}

/// The square one step from `pos` in `direction`, if it is still on the board.
pub open spec fn spec_offset(pos: Pos, direction: Direction) -> Option<Pos> {
    match direction {
        Direction::North => if pos.y > 0 {
            Some(Pos { x: pos.x, y: (pos.y - 1) as u8 })
        } else {
            None
        },
        Direction::South => if pos.y + 1 < BOARD_HEIGHT {
            Some(Pos { x: pos.x, y: (pos.y + 1) as u8 })
        } else {
            None
        },
        Direction::West => if pos.x > 0 {
            Some(Pos { x: (pos.x - 1) as u8, y: pos.y })
        } else {
            None
        },
        Direction::East => if pos.x + 1 < BOARD_WIDTH {
            Some(Pos { x: (pos.x + 1) as u8, y: pos.y })
        } else {
            None
        },
    }
}

/// Distance between two coordinates on one axis.
pub open spec fn axis_gap(a: u8, b: u8) -> int {
    if a >= b {
        a - b
    } else {
        b - a
    }
}

/// Two squares share an edge.
pub open spec fn spec_adjacent(a: Pos, b: Pos) -> bool {
    axis_gap(a.x, b.x) + axis_gap(a.y, b.y) == 1
}

impl Pos {
    pub fn new(x: u8, y: u8) -> (pos: Pos)
        ensures
            pos.x == x,
            pos.y == y,
    {
        Pos { x, y }
    }

    /// The neighbouring square in `direction`, or `None` past the board edge.
    pub fn offset(self, direction: Direction) -> (next: Option<Pos>)
        ensures
            next == spec_offset(self, direction),
    {
        match direction {
            Direction::North => if self.y > 0 {
                Some(Pos { x: self.x, y: self.y - 1 })
            } else {
                None
            },
            Direction::South => if self.y < BOARD_HEIGHT - 1 {
                Some(Pos { x: self.x, y: self.y + 1 })
            } else {
                None
            },
            Direction::West => if self.x > 0 {
                Some(Pos { x: self.x - 1, y: self.y })
            } else {
                None
            },
            Direction::East => if self.x < BOARD_WIDTH - 1 {
                Some(Pos { x: self.x + 1, y: self.y })
            } else {
                None
            },
        }
    }

    /// Whether `other` shares an edge with this square.
    pub fn is_adjacent(self, other: Pos) -> (adjacent: bool)
        ensures
            adjacent == spec_adjacent(self, other),
    {
        let dx: u8 = if self.x >= other.x {
            self.x - other.x
        } else {
            other.x - self.x
        };
        let dy: u8 = if self.y >= other.y {
            self.y - other.y
        } else {
            other.y - self.y
        };
        (dx == 1 && dy == 0) || (dx == 0 && dy == 1)
    }
}

#[derive(Clone, Copy, Debug, PartialEq, Eq, Structural, Hash)]
pub enum Faction {
    Hero,
    Monster,
}

#[derive(Clone, Copy, Debug, PartialEq, Eq, Structural, Hash)]
pub enum HeroKind {
    Barbarian,
    Dwarf,
    Elf,
    Wizard,
}

#[derive(Clone, Copy, Debug, PartialEq, Eq, Structural, Hash)]
pub enum MonsterKind {
    Goblin,
    Orc,
    Fimir,
    Skeleton,
    Zombie,
    Mummy,
    ChaosWarrior,
    Gargoyle,
    ChaosSorcerer,
}

#[derive(Clone, Copy, Debug, PartialEq, Eq, Structural, Hash)]
pub enum FigureKind {
    Hero(HeroKind),
    Monster(MonsterKind),
}

/// The printed characteristics of a figure.
#[derive(Clone, Copy, Debug, PartialEq, Eq, Structural, Hash)]
pub struct Stats {
    pub movement: u8,
    pub attack: u8,
    pub defend: u8,
    pub body: u8,
    pub mind: u8,
}

#[derive(Clone, Copy, Debug, PartialEq, Eq, Structural, Hash)]
pub enum TrapKind {
    Pit,
    Spear,
    FallingBlock,
}

#[derive(Clone, Copy, Debug, PartialEq, Eq, Structural, Hash)]
pub enum CombatFace {
    Skull,
    WhiteShield,
    BlackShield,
}

/// Furniture and other board pieces.
#[derive(Clone, Copy, Debug, PartialEq, Eq, Structural, Hash)]
pub enum PropKind {
    Stairs,
    Table,
    AlchemistsBench,
    SorcerersTable,
    Tomb,
    TortureRack,
    Bookcase,
    WeaponRack,
    Fireplace,
    Cupboard,
    Chest,
    Throne,
    StarOfWest,
}

/// Width and height of a piece lying in its printed, unrotated orientation.
pub open spec fn base_footprint(kind: PropKind) -> (u8, u8) {
    match kind {
        PropKind::Stairs => (2, 2),
        PropKind::Table => (3, 2),
        PropKind::AlchemistsBench => (3, 2),
        PropKind::SorcerersTable => (3, 2),
        PropKind::Tomb => (2, 3),
        PropKind::TortureRack => (2, 3),
        PropKind::Bookcase => (3, 1),
        PropKind::WeaponRack => (3, 1),
        PropKind::Fireplace => (2, 1),
        PropKind::Cupboard => (3, 1),
        PropKind::Chest => (1, 1),
        PropKind::Throne => (1, 1),
        PropKind::StarOfWest => (1, 1),
    }
}

/// Width and height after `rotation_quarters` quarter turns: an odd number of
/// turns swaps the two sides.
pub open spec fn spec_footprint(kind: PropKind, rotation_quarters: u8) -> (u8, u8) {
    let (w, h) = base_footprint(kind);
    if rotation_quarters % 2 == 1 {
        (h, w)
    } else {
        (w, h)
    }
}

/// Every piece covers at most three squares each way.
pub proof fn lemma_footprint_small(kind: PropKind, rotation_quarters: u8)
    ensures
        1 <= spec_footprint(kind, rotation_quarters).0 <= 3,
        1 <= spec_footprint(kind, rotation_quarters).1 <= 3,
{
}

/// The squares a piece covers, row by row from its origin square.
pub open spec fn spec_footprint_squares(kind: PropKind, origin: Pos, rotation_quarters: u8) -> Seq<
    Pos,
> {
    let (w, h) = spec_footprint(kind, rotation_quarters);
    Seq::new(
        (w * h) as nat,
        |i: int| Pos { x: (origin.x + i % (w as int)) as u8, y: (origin.y + i / (w as int)) as u8 },
    )
}

impl PropKind {
    pub fn footprint(self, rotation_quarters: u8) -> (size: (u8, u8))
        ensures
            size == spec_footprint(self, rotation_quarters),
            1 <= size.0 <= 3,
            1 <= size.1 <= 3,
    {
        let (w, h): (u8, u8) = match self {
            PropKind::Stairs => (2, 2),
            PropKind::Table => (3, 2),
            PropKind::AlchemistsBench => (3, 2),
            PropKind::SorcerersTable => (3, 2),
            PropKind::Tomb => (2, 3),
            PropKind::TortureRack => (2, 3),
            PropKind::Bookcase => (3, 1),
            PropKind::WeaponRack => (3, 1),
            PropKind::Fireplace => (2, 1),
            PropKind::Cupboard => (3, 1),
            PropKind::Chest => (1, 1),
            PropKind::Throne => (1, 1),
            PropKind::StarOfWest => (1, 1),
        };
        if rotation_quarters % 2 == 1 {
            (h, w)
        } else {
            (w, h)
        }
    }

    /// Stairs and the Star of the West may be walked over; every other piece
    /// is impassable furniture.
    pub fn blocks_movement(self) -> (blocks: bool)
        ensures
            blocks == !(self == PropKind::Stairs || self == PropKind::StarOfWest),
    {
        match self {
            PropKind::Stairs | PropKind::StarOfWest => false,
            _ => true,
        }
    }

    /// Every covered square of a piece placed at `origin`.
    pub fn footprint_squares(self, origin: Pos, rotation_quarters: u8) -> (squares: Vec<Pos>)
        requires
            origin.x + spec_footprint(self, rotation_quarters).0 <= u8::MAX,
            origin.y + spec_footprint(self, rotation_quarters).1 <= u8::MAX,
        ensures
            squares@ == spec_footprint_squares(self, origin, rotation_quarters),
    {
        let (w, h) = self.footprint(rotation_quarters);
        let mut squares: Vec<Pos> = Vec::new();
        let mut dy: u8 = 0;
        while dy < h
            invariant
                (w, h) == spec_footprint(self, rotation_quarters),
                1 <= w <= 3,
                1 <= h <= 3,
                dy <= h,
                origin.x + w <= u8::MAX,
                origin.y + h <= u8::MAX,
                squares@.len() == (dy as int) * (w as int),
                forall|i: int|
                    0 <= i < squares@.len() ==> #[trigger] squares@[i] == (Pos {
                        x: (origin.x + i % (w as int)) as u8,
                        y: (origin.y + i / (w as int)) as u8,
                    }),
            decreases h - dy,
        {
            let mut dx: u8 = 0;
            while dx < w
                invariant
                    (w, h) == spec_footprint(self, rotation_quarters),
                    1 <= w <= 3,
                    1 <= h <= 3,
                    dy < h,
                    dx <= w,
                    origin.x + w <= u8::MAX,
                    origin.y + h <= u8::MAX,
                    squares@.len() == (dy as int) * (w as int) + dx,
                    forall|i: int|
                        0 <= i < squares@.len() ==> #[trigger] squares@[i] == (Pos {
                            x: (origin.x + i % (w as int)) as u8,
                            y: (origin.y + i / (w as int)) as u8,
                        }),
                decreases w - dx,
            {
                let ghost k: int = (dy as int) * (w as int) + dx;
                assert(k % (w as int) == dx && k / (w as int) == dy) by (nonlinear_arith)
                    requires
                        k == (dy as int) * (w as int) + dx,
                        0 <= dx < w,
                        0 <= dy,
                ;
                squares.push(Pos { x: origin.x + dx, y: origin.y + dy });
                dx = dx + 1;
            }
            assert((dy as int) * (w as int) + (w as int) == ((dy + 1) as int) * (w as int))
                by (nonlinear_arith);
            dy = dy + 1;
        }
        squares
    }
}

/// The name of a kind of monster.
pub open spec fn spec_monster_name(kind: MonsterKind) -> Seq<char> {
    match kind {
        MonsterKind::Goblin => "Goblin"@,
        MonsterKind::Orc => "Orc"@,
        MonsterKind::Fimir => "Fimir"@,
        MonsterKind::Skeleton => "Skeleton"@,
        MonsterKind::Zombie => "Zombie"@,
        MonsterKind::Mummy => "Mummy"@,
        MonsterKind::ChaosWarrior => "Chaos Warrior"@,
        MonsterKind::Gargoyle => "Gargoyle"@,
        MonsterKind::ChaosSorcerer => "Chaos Sorcerer"@,
    }
}

impl MonsterKind {
    pub fn name(self) -> (name: &'static str)
        ensures
            name@ == spec_monster_name(self),
    {
        match self {
            MonsterKind::Goblin => "Goblin",
            MonsterKind::Orc => "Orc",
            MonsterKind::Fimir => "Fimir",
            MonsterKind::Skeleton => "Skeleton",
            MonsterKind::Zombie => "Zombie",
            MonsterKind::Mummy => "Mummy",
            MonsterKind::ChaosWarrior => "Chaos Warrior",
            MonsterKind::Gargoyle => "Gargoyle",
            MonsterKind::ChaosSorcerer => "Chaos Sorcerer",
        }
    }
}

} // verus!
