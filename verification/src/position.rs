//! Cells of the grid and steps on its torus.
use vstd::prelude::*;
use crate::direction::Direction;

verus! {

/// Number of rows, and of columns, of the grid.
pub const GRID_SIZE: u8 = 5;

/// A cell of the grid, by row and column.
#[derive(Clone, Copy, Debug, PartialEq, Eq, Structural)]
pub struct Position {
    pub row: u8,
    pub col: u8,
}

impl Position {
    /// Both coordinates lie in `[0, GRID_SIZE)`.
    pub open spec fn in_grid(self) -> bool {
        self.row < GRID_SIZE && self.col < GRID_SIZE
    }

    /// The cell one step away in direction `d`. The grid is a torus: a step past
    /// the last row or column arrives at the first, and the other way round.
    pub open spec fn step(self, d: Direction) -> Position {
        match d {
            Direction::Up => Position { row: coordinate_before(self.row), col: self.col },
            Direction::Down => Position { row: coordinate_after(self.row), col: self.col },
            Direction::Left => Position { row: self.row, col: coordinate_before(self.col) },
            Direction::Right => Position { row: self.row, col: coordinate_after(self.col) },
        }
    }

    /// Tells whether the position is a cell of the grid.
    pub fn is_in_grid(&self) -> (r: bool)
        ensures
            r == self.in_grid(),
    {
        self.row < GRID_SIZE && self.col < GRID_SIZE
    }

    /// Moves one cell in direction `d`, wrapping round the edges.
    pub fn stepped(&self, d: Direction) -> (r: Position)
        requires
            self.in_grid(),
        ensures
            r == self.step(d),
            r.in_grid(),
    {
        match d {
            Direction::Up => Position { row: previous_coordinate(self.row), col: self.col },
            Direction::Down => Position { row: next_coordinate(self.row), col: self.col },
            Direction::Left => Position { row: self.row, col: previous_coordinate(self.col) },
            Direction::Right => Position { row: self.row, col: next_coordinate(self.col) },
        }
    }
}

/// The coordinate after `c` on the torus.
pub open spec fn coordinate_after(c: u8) -> u8 {
    if c == GRID_SIZE - 1 {
        0
    } else {
        (c + 1) as u8
    }
}

/// The coordinate before `c` on the torus.
pub open spec fn coordinate_before(c: u8) -> u8 {
    if c == 0 {
        (GRID_SIZE - 1) as u8
    } else {
        (c - 1) as u8
    }
}

fn next_coordinate(c: u8) -> (r: u8)
    requires
        c < GRID_SIZE,
    ensures
        r == coordinate_after(c),
        r < GRID_SIZE,
{
    if c == GRID_SIZE - 1 {
        0
    } else {
        c + 1
    }
}

fn previous_coordinate(c: u8) -> (r: u8)
    requires
        c < GRID_SIZE,
    ensures
        r == coordinate_before(c),
        r < GRID_SIZE,
{
    if c == 0 {
        GRID_SIZE - 1
    } else {
        c - 1
    }
}

/// On the grid a step is modular arithmetic on one coordinate, and leaves the
/// other coordinate alone.
pub proof fn lemma_step_is_modular(p: Position, d: Direction)
    requires
        p.in_grid(),
    ensures
        p.step(d).in_grid(),
        p.step(Direction::Up) == (Position { row: ((p.row + 4) % 5) as u8, col: p.col }),
        p.step(Direction::Down) == (Position { row: ((p.row + 1) % 5) as u8, col: p.col }),
        p.step(Direction::Left) == (Position { row: p.row, col: ((p.col + 4) % 5) as u8 }),
        p.step(Direction::Right) == (Position { row: p.row, col: ((p.col + 1) % 5) as u8 }),
{
}

/// A step and then a step in the reversed direction lead back to the start.
pub proof fn lemma_step_back_and_forth(p: Position, d: Direction)
    requires
        p.in_grid(),
    ensures
        p.step(d).step(d.reversed()) == p,
        p.step(d.reversed()).step(d) == p,
        p.step(d) != p,
{
}

} // verus!
