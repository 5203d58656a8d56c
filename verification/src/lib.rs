//! The game-state engine of a snake game played on a 5x5 toroidal grid.
//!
//! A snake is a head-first list of segments. Each segment follows the head by
//! replaying the head's turns: a turn is recorded as a checkpoint (a cell and a
//! direction) in the queue of every segment, and a segment adopts the direction
//! when it stands on the cell. One call of [`jungle::Jungle::update`] is one
//! tick; [`tick::JungleView::tick`] says what a tick does. A game loop reads an
//! input byte, calls [`jungle::Jungle::play_tick`] and shows the bitmap it gets.
pub mod bounded;
pub mod capacity;
pub mod direction;
pub mod grid;
pub mod jungle;
pub mod position;
pub mod rng;
pub mod segment;
pub mod snake;
pub mod tick;
