//! The four directions and the input bytes that ask for them.
use vstd::prelude::*;

verus! {

/// One of the four ways a segment can travel. Rows grow downwards and columns
/// grow to the right.
#[derive(Clone, Copy, Debug, PartialEq, Eq, Structural)]
pub enum Direction {
    Up,
    Down,
    Left,
    Right,
}

impl Direction {
    /// The direction of travel that undoes `self`.
    pub open spec fn reversed(self) -> Direction {
        match self {
            Direction::Up => Direction::Down,
            Direction::Down => Direction::Up,
            Direction::Left => Direction::Right,
            Direction::Right => Direction::Left,
        }
    }

    /// The direction that an input byte asks for: the ASCII capitals `U`, `D`, `L`
    /// and `R`. Every other byte asks for nothing.
    pub open spec fn decode(byte: u8) -> Option<Direction> {
        if byte == 0x55 {
            Some(Direction::Up)
        } else if byte == 0x44 {
            Some(Direction::Down)
        } else if byte == 0x4c {
            Some(Direction::Left)
        } else if byte == 0x52 {
            Some(Direction::Right)
        } else {
            None
        }
    }

    /// The direction of travel that undoes `self`.
    pub fn opposite(self) -> (r: Direction)
        ensures
            r == self.reversed(),
    {
        match self {
            Direction::Up => Direction::Down,
            Direction::Down => Direction::Up,
            Direction::Left => Direction::Right,
            Direction::Right => Direction::Left,
        }
    }

    /// Maps one byte of input to the direction it asks for, if any.
    pub fn from_byte(byte: u8) -> (r: Option<Direction>)
        ensures
            r == Direction::decode(byte),
    {
        if byte == 0x55 {
            Some(Direction::Up)
        } else if byte == 0x44 {
            Some(Direction::Down)
        } else if byte == 0x4c {
            Some(Direction::Left)
        } else if byte == 0x52 {
            Some(Direction::Right)
        } else {
            None
        }
    }
}

/// Reversing a direction twice gives it back, and never gives the direction itself.
pub proof fn lemma_reversed_is_involution(d: Direction)
    ensures
        d.reversed().reversed() == d,
        d.reversed() != d,
{
}

} // verus!
