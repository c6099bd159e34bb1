//! The bounded grid: directions, positions and saturating moves.
use rand::Rng;
use vstd::prelude::*;

verus! {

/// Number of columns of the grid.
pub const WIDTH: u8 = 80;

/// Number of rows of the grid.
pub const HEIGHT: u8 = 50;

/// Where a segment is heading; `Idle` only before the first turn.
#[derive(Clone, Copy, Debug, PartialEq, Eq, Structural)]
pub enum Direction {
    Up,
    Down,
    Left,
    Right,
    Idle,
}

impl Direction {
    /// The reverse heading; `Idle` has none but itself.
    pub open spec fn reverse(self) -> Direction {
        match self {
            Direction::Up => Direction::Down,
            Direction::Down => Direction::Up,
            Direction::Left => Direction::Right,
            Direction::Right => Direction::Left,
            Direction::Idle => Direction::Idle,
        }
    }

    pub fn opposite(self) -> (r: Direction)
        ensures
            r == self.reverse(),
    {
        match self {
            Direction::Up => Direction::Down,
            Direction::Down => Direction::Up,
            Direction::Left => Direction::Right,
            Direction::Right => Direction::Left,
            Direction::Idle => Direction::Idle,
        }
    }
}

/// One step towards zero, staying at zero.
pub open spec fn dec_sat(v: u8) -> u8 {
    if v == 0 {
        0
    } else {
        (v - 1) as u8
    }
}

/// One step up, clamped to the last cell below `bound`.
pub open spec fn inc_clamped(v: u8, bound: u8) -> u8 {
    if v + 1 >= bound {
        (bound - 1) as u8
    } else {
        (v + 1) as u8
    }
}

/// A cell of the grid.
#[derive(Clone, Copy, Debug, PartialEq, Eq, Structural)]
pub struct Position {
    pub x: u8,
    pub y: u8,
}

impl Position {
    pub open spec fn in_bounds(self) -> bool {
        self.x < WIDTH && self.y < HEIGHT
    }

    /// The cell one step away in direction `d`, clamped at the border.
    pub open spec fn moved(self, d: Direction) -> Position {
        match d {
            Direction::Up => Position { x: self.x, y: dec_sat(self.y) },
            Direction::Down => Position { x: self.x, y: inc_clamped(self.y, HEIGHT) },
            Direction::Left => Position { x: dec_sat(self.x), y: self.y },
            Direction::Right => Position { x: inc_clamped(self.x, WIDTH), y: self.y },
            Direction::Idle => self,
        }
    }

    /// The cell one step behind a segment heading in direction `d`.
    pub open spec fn behind(self, d: Direction) -> Position {
        self.moved(d.reverse())
    }

    pub fn move_saturating(self, d: Direction) -> (r: Position)
        ensures
            r == self.moved(d),
    {
        match d {
            Direction::Up => Position { x: self.x, y: if self.y == 0 { 0 } else { self.y - 1 } },
            Direction::Down => Position {
                x: self.x,
                y: if self.y >= HEIGHT - 1 { HEIGHT - 1 } else { self.y + 1 },
            },
            Direction::Left => Position { x: if self.x == 0 { 0 } else { self.x - 1 }, y: self.y },
            Direction::Right => Position {
                x: if self.x >= WIDTH - 1 { WIDTH - 1 } else { self.x + 1 },
                y: self.y,
            },
            Direction::Idle => self,
        }
    }

    pub fn step_back(self, d: Direction) -> (r: Position)
        ensures
            r == self.behind(d),
    {
        self.move_saturating(d.opposite())
    }

    /// A cell drawn at random from the whole grid.
    pub fn random() -> (r: Position)
        ensures
            r.in_bounds(),
    {
        Position { x: random_below(WIDTH), y: random_below(HEIGHT) }
    }
}

/// Relies on rand's `thread_rng().gen_range(0..upper)`: a value in `[0, upper)`;
/// it panics on an empty range, which `requires` leaves out.
#[verifier::external_body]
fn random_below(upper: u8) -> (r: u8)
    requires
        upper > 0,
    ensures
        r < upper,
{
    rand::thread_rng().gen_range(0..upper)
}

/// A move from a cell of the grid never leaves the grid.
pub proof fn lemma_move_in_bounds(p: Position, d: Direction)
    requires
        p.in_bounds(),
    ensures
        p.moved(d).in_bounds(),
        p.behind(d).in_bounds(),
{
}

} // verus!
