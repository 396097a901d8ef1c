use vstd::prelude::*;

verus! {

/// A grid coordinate in the mathematical model: `(row, column)`.
pub type Cell = (int, int);

/// One of the four headings. `UP` and `DOWN` move along the row axis (`x`),
/// `LEFT` and `RIGHT` along the column axis (`y`).
#[derive(Clone, Copy, Debug, PartialEq, Eq, Structural)]
pub enum Direction {
    UP,
    DOWN,
    RIGHT,
    LEFT,
}

/// What a grid cell shows when the board is drawn.
#[derive(Clone, Copy, Debug, PartialEq, Eq, Structural)]
pub enum LocationType {
    EMPTY,
    FOOD,
    SNAKE,
    HEAD,
}

/// The change of coordinates that one step in direction `d` makes.
pub open spec fn delta(d: Direction) -> Cell {
    match d {
        Direction::UP => (-1, 0),
        Direction::DOWN => (1, 0),
        Direction::RIGHT => (0, 1),
        Direction::LEFT => (0, -1),
    }
}

/// The cell `c` shifted by the vector `v`.
pub open spec fn translate(c: Cell, v: Cell) -> Cell {
    (c.0 + v.0, c.1 + v.1)
}

/// The cell one step away from `c` in direction `d`.
pub open spec fn step(c: Cell, d: Direction) -> Cell {
    translate(c, delta(d))
}

/// Two cells are neighbours: they differ by one step along exactly one axis.
pub open spec fn adjacent(a: Cell, b: Cell) -> bool {
    exists|d: Direction| step(a, d) == b
}

/// The heading that undoes a step in direction `d`.
pub open spec fn reverse(d: Direction) -> Direction {
    match d {
        Direction::UP => Direction::DOWN,
        Direction::DOWN => Direction::UP,
        Direction::RIGHT => Direction::LEFT,
        Direction::LEFT => Direction::RIGHT,
    }
}

/// A cell is adjacent to the cell one step away from it, and that cell to it.
pub proof fn lemma_step_adjacent(c: Cell, d: Direction)
    ensures
        adjacent(c, step(c, d)),
        adjacent(step(c, d), c),
{
    assert(step(step(c, d), reverse(d)) == c);
}

/// A cell whose coordinates can be held by a `Location`.
pub open spec fn representable(c: Cell) -> bool {
    0 <= c.0 <= usize::MAX && 0 <= c.1 <= usize::MAX
}

/// A cell together with what it holds. Two locations denote the same cell
/// when their coordinates agree; the kind only matters for drawing.
#[derive(Clone, Copy, Debug)]
pub struct Location {
    x: usize,
    y: usize,
    location_type: LocationType,
}

impl View for Location {
    type V = Cell;

    closed spec fn view(&self) -> Cell {
        (self.x as int, self.y as int)
    }
}

/// Every location denotes a representable cell.
pub proof fn lemma_location_representable(l: Location)
    ensures
        representable(l@),
{
}

impl Location {
    pub closed spec fn kind(&self) -> LocationType {
        self.location_type
    }

    /// A location at row `x`, column `y`, of the given kind.
    pub fn new(x: usize, y: usize, location_type: LocationType) -> (r: Location)
        ensures
            r@ == (x as int, y as int),
            r.kind() == location_type,
    {
        Location { x, y, location_type }
    }

    /// A copy of `location`.
    pub fn from(location: &Location) -> (r: Location)
        ensures
            r@ == location@,
            r.kind() == location.kind(),
    {
        Location { x: location.x, y: location.y, location_type: location.location_type }
    }

    pub fn x(&self) -> (r: usize)
        ensures
            r as int == self@.0,
    {
        self.x
    }

    pub fn y(&self) -> (r: usize)
        ensures
            r as int == self@.1,
    {
        self.y
    }

    pub fn location_type(&self) -> (r: LocationType)
        ensures
            r == self.kind(),
    {
        self.location_type
    }

    /// Whether one step in direction `dir` stays within the coordinates that
    /// a location can hold (it does not go below row or column zero, nor
    /// past the largest `usize`).
    pub fn can_advance(&self, dir: &Direction) -> (r: bool)
        ensures
            r == representable(step(self@, *dir)),
    {
        match dir {
            Direction::UP => self.x > 0,
            Direction::DOWN => self.x < usize::MAX,
            Direction::RIGHT => self.y < usize::MAX,
            Direction::LEFT => self.y > 0,
        }
    }

    /// The location one step away in direction `dir`, of the same kind.
    pub fn advance(&self, dir: &Direction) -> (r: Location)
        requires
            representable(step(self@, *dir)),
        ensures
            r@ == step(self@, *dir),
            r.kind() == self.kind(),
    {
        match dir {
            Direction::UP => Location { x: self.x - 1, y: self.y, location_type: self.location_type },
            Direction::DOWN => Location { x: self.x + 1, y: self.y, location_type: self.location_type },
            Direction::RIGHT => Location { x: self.x, y: self.y + 1, location_type: self.location_type },
            Direction::LEFT => Location { x: self.x, y: self.y - 1, location_type: self.location_type },
        }
    }

    /// Whether this location is at row `x`, column `y`.
    pub fn matches(&self, x: usize, y: usize) -> (r: bool)
        ensures
            r == (self@ == (x as int, y as int)),
    {
        self.x == x && self.y == y
    }

    /// Whether the two locations denote the same cell.
    pub fn same_cell(&self, other: &Location) -> (r: bool)
        ensures
            r == (self@ == other@),
    {
        self.x == other.x && self.y == other.y
    }
}

} // verus!
