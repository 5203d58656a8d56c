//! The game itself: its state, the tick that changes it, and the round of the
//! game loop around the tick.
use vstd::prelude::*;
use crate::capacity::CapacityError;
use crate::capacity::SEGMENT_CAPACITY;
use crate::direction::Direction;
use crate::grid::blank_grid;
use crate::grid::grid_of;
use crate::grid::marked;
use crate::grid::EMPTY;
use crate::grid::OCCUPIED;
use crate::position::Position;
use crate::position::GRID_SIZE;
use crate::rng::lcg_step;
use crate::rng::low_byte;
use crate::rng::LcgRng;
use crate::segment::push_segment_to_back;
use crate::segment::Checkpoint;
use crate::snake::initial_segments;
use crate::snake::Snake;
use crate::tick::asked_by;
use crate::tick::earlier;
use crate::tick::lemma_tick_moves_each_segment;
use crate::tick::lemma_tick_with_one_meal;
use crate::tick::lemma_tick_without_meal;
use crate::tick::nugget_after;
use crate::tick::JungleView;

verus! {

/// What one tick hands out: the bitmap to show, and the first thing the tick had
/// to leave out, if anything.
#[derive(Clone, Copy, Debug)]
pub struct Frame {
    pub bitmap: [[u8; 5]; 5],
    pub fault: Option<CapacityError>,
}

/// Draws a cell for a nugget: first the row, then the column, each from the
/// range `[0, GRID_SIZE - 1]`.
fn draw_nugget(rng: &mut LcgRng) -> (r: Position)
    ensures
        r == nugget_after(old(rng)@),
        final(rng)@ == lcg_step(lcg_step(old(rng)@)),
        r.in_grid(),
{
    let row: u8 = rng.next_in_range(0, GRID_SIZE - 1);
    assert(row == low_byte(rng@) % GRID_SIZE);
    let col: u8 = rng.next_in_range(0, GRID_SIZE - 1);
    assert(col == low_byte(rng@) % GRID_SIZE);
    Position { row, col }
}

/// The game: the snake, the nugget it is after, the bitmap that shows both, the
/// direction asked for last, and the generator that places nuggets.
pub struct Jungle {
    snake: Snake,
    basemap: [[u8; 5]; 5],
    previous_direction: Direction,
    nugget: Position,
    rng: LcgRng,
}

impl View for Jungle {
    type V = JungleView;

    closed spec fn view(&self) -> JungleView {
        JungleView {
            segments: self.snake@,
            grid: grid_of(self.basemap),
            previous_direction: self.previous_direction,
            nugget: self.nugget,
            rng: self.rng@,
        }
    }
}

impl Jungle {
    /// The snake fits and stands on the grid, and so does the nugget.
    pub open spec fn wf(&self) -> bool {
        self@.wf()
    }

    /// A game with a blank bitmap in which the last direction asked for counts
    /// as `Right`.
    pub fn new(snake: Snake, nugget: Position, rng: LcgRng) -> (r: Jungle)
        requires
            snake.wf(),
            nugget.in_grid(),
        ensures
            r@ == (JungleView {
                segments: snake@,
                grid: blank_grid(),
                previous_direction: Direction::Right,
                nugget,
                rng: rng@,
            }),
            r.wf(),
    {
        let r = Jungle {
            snake,
            basemap: [[EMPTY; 5]; 5],
            previous_direction: Direction::Right,
            nugget,
            rng,
        };
        assert(r@.grid =~~= blank_grid());
        r
    }

    /// The game as it starts: a new snake, a generator seeded with `seed`, and
    /// the first nugget drawn from that generator.
    pub fn from_seed(seed: u32) -> (r: Jungle)
        ensures
            r@ == (JungleView {
                segments: initial_segments(),
                grid: blank_grid(),
                previous_direction: Direction::Right,
                nugget: nugget_after(seed),
                rng: lcg_step(lcg_step(seed)),
            }),
            r.wf(),
    {
        let mut rng = LcgRng::new(seed);
        let nugget = draw_nugget(&mut rng);
        Jungle::new(Snake::new(), nugget, rng)
    }

    /// The occupancy bitmap, row by row, to be shown.
    pub fn basemap(&self) -> (r: [[u8; 5]; 5])
        ensures
            grid_of(r) == self@.grid,
    {
        self.basemap
    }

    /// Frees every cell of the bitmap and leaves the rest of the game alone.
    pub fn clear_basemap(&mut self)
        ensures
            final(self)@ == (JungleView { grid: blank_grid(), ..old(self)@ }),
            old(self).wf() ==> final(self).wf(),
    {
        self.basemap = [[EMPTY; 5]; 5];
        assert(self@.grid =~~= blank_grid());
    }

    /// The snake, for a look at its segments.
    pub fn snake(&self) -> (r: &Snake)
        ensures
            r@ == self@.segments,
    {
        &self.snake
    }

    /// The cell that the snake is after.
    pub fn nugget(&self) -> (r: Position)
        ensures
            r == self@.nugget,
    {
        self.nugget
    }

    /// The direction that the last turn asked for.
    pub fn previous_direction(&self) -> (r: Direction)
        ensures
            r == self@.previous_direction,
    {
        self.previous_direction
    }

    fn mark(&mut self, p: Position)
        requires
            p.in_grid(),
        ensures
            final(self)@ == (JungleView { grid: marked(old(self)@.grid, p), ..old(self)@ }),
    {
        let row: usize = p.row as usize;
        let col: usize = p.col as usize;
        self.basemap[row][col] = OCCUPIED;
        assert(self@.grid =~~= marked(old(self)@.grid, p));
    }

    /// One tick of the game: the nugget is shown, a turn that `new_direction`
    /// asks for is handed to every segment, every segment moves, and a segment
    /// that arrives on the nugget makes the snake grow and the nugget move.
    ///
    /// The tick is always carried out in full. Where a segment's checkpoint
    /// queue is full the turn is not queued for that segment, and where the
    /// snake is full no tail grows; the call then returns the first such fault
    /// as an error, after the tick.
    pub fn update(&mut self, new_direction: Option<Direction>) -> (r: Result<(), CapacityError>)
        requires
            old(self).wf(),
        ensures
            final(self)@ == old(self)@.tick(new_direction),
            final(self).wf(),
            r is Ok <==> old(self)@.tick_fault(new_direction) is None,
            r matches Err(e) ==> old(self)@.tick_fault(new_direction) == Some(e),
            // What follows for every segment that was there before the tick:
            final(self)@.segments.len() >= old(self)@.segments.len(),
            forall|k: int|
                0 <= k < old(self)@.segments.len() ==> #[trigger] final(self)@.segments[k]
                    == old(self)@.moved(old(self)@.turn_for(new_direction), k),
            // for a tick in which no segment arrives on the nugget:
            old(self)@.all_miss(old(self)@.turn_for(new_direction), 0) ==> ({
                &&& final(self)@.segments.len() == old(self)@.segments.len()
                &&& final(self)@.nugget == old(self)@.nugget
                &&& final(self)@.rng == old(self)@.rng
            }),
            // and for a tick in which the head does and nothing else happens:
            old(self)@.one_meal(new_direction) ==> ({
                &&& final(self)@.segments.len() == old(self)@.segments.len() + 1
                &&& final(self)@.nugget == nugget_after(old(self)@.rng)
                &&& final(self)@.rng == lcg_step(lcg_step(old(self)@.rng))
            }),
    {
        proof {
            lemma_tick_moves_each_segment(old(self)@, new_direction);
            if old(self)@.all_miss(old(self)@.turn_for(new_direction), 0) {
                lemma_tick_without_meal(old(self)@, new_direction);
            }
            if old(self)@.one_meal(new_direction) {
                lemma_tick_with_one_meal(old(self)@, new_direction);
            }
        }
        self.mark(self.nugget);
        if self.snake.len() == 0 {
            return Ok(());
        }
        let head_position = self.snake.segment(0).position();
        let turn: Option<Checkpoint> = match new_direction {
            Some(d) => if d != self.previous_direction {
                Some(Checkpoint { position: head_position, direction: d })
            } else {
                None
            },
            None => None,
        };
        let ghost shown = self@;
        let mut fault: Option<CapacityError> = None;
        let mut i: usize = 0;
        while i < self.snake.len()
            invariant
                self@.wf(),
                i <= self@.segments.len(),
                self@.previous_direction == shown.previous_direction,
                self@.sweep(turn, i as int) == shown.sweep(turn, 0),
                earlier(fault, self@.sweep_fault(turn, i as int)) == shown.sweep_fault(turn, 0),
            decreases SEGMENT_CAPACITY - i,
        {
            let ghost before = self@;
            let segment = self.snake.segment_mut(i);
            match turn {
                Some(c) => {
                    match segment.add_checkpoint(c.position, c.direction) {
                        Ok(()) => {},
                        Err(e) => {
                            if fault.is_none() {
                                fault = Some(e);
                            }
                        },
                    }
                },
                None => {},
            }
            segment.update();
            let here = segment.position();
            if here == self.nugget {
                let last = self.snake.segment(self.snake.len() - 1);
                let tail = push_segment_to_back(last, last.direction());
                match self.snake.add_segment(tail) {
                    Ok(()) => {},
                    Err(e) => {
                        if fault.is_none() {
                            fault = Some(e);
                        }
                    },
                }
                self.nugget = draw_nugget(&mut self.rng);
            }
            self.mark(here);
            assert(self@.segments =~= before.visit(turn, i as int).segments);
            assert(self@ == before.visit(turn, i as int));
            i += 1;
        }
        match new_direction {
            Some(d) => {
                self.previous_direction = d;
            },
            None => {},
        }
        match fault {
            None => Ok(()),
            Some(e) => Err(e),
        }
    }

    /// One round of the game loop between reading the input and showing the
    /// result: the input is decoded, the tick is carried out, and the bitmap
    /// is handed out and then blanked for the next tick.
    pub fn play_tick(&mut self, input: Option<u8>) -> (frame: Frame)
        requires
            old(self).wf(),
        ensures
            grid_of(frame.bitmap) == old(self)@.tick(asked_by(input)).grid,
            frame.fault == old(self)@.tick_fault(asked_by(input)),
            final(self)@ == (JungleView {
                grid: blank_grid(),
                ..old(self)@.tick(asked_by(input))
            }),
            final(self).wf(),
            final(self)@.segments.len() >= old(self)@.segments.len(),
            forall|k: int|
                0 <= k < old(self)@.segments.len() ==> #[trigger] final(self)@.segments[k]
                    == old(self)@.moved(old(self)@.turn_for(asked_by(input)), k),
    {
        let asked = match input {
            Some(byte) => Direction::from_byte(byte),
            None => None,
        };
        let fault = match self.update(asked) {
            Ok(()) => None,
            Err(e) => Some(e),
        };
        let bitmap = self.basemap();
        self.clear_basemap();
        Frame { bitmap, fault }
    }
}

} // verus!
