//! What one tick does to the game, as a function on the game's view, and what
//! follows from that.
use vstd::prelude::*;
use crate::capacity::CapacityError;
use crate::capacity::CHECKPOINT_CAPACITY;
use crate::capacity::SEGMENT_CAPACITY;
use crate::direction::Direction;
use crate::grid::grid_wf;
use crate::grid::lemma_marked_takes_one_cell;
use crate::grid::marked;
use crate::grid::OCCUPIED;
use crate::position::Position;
use crate::position::GRID_SIZE;
use crate::rng::lcg_step;
use crate::rng::low_byte;
use crate::segment::lemma_advance_keeps_wf;
use crate::segment::Checkpoint;
use crate::segment::SegmentView;
use crate::snake::body_wf;

verus! {

/// Whether one of the segments from index `from` on stands on `p`.
pub open spec fn covers(segments: Seq<SegmentView>, from: int, p: Position) -> bool {
    exists|k: int| from <= k < segments.len() && (#[trigger] segments[k]).position == p
}

/// The earlier of two faults: `first` where there is one, else `second`.
pub open spec fn earlier(first: Option<CapacityError>, second: Option<CapacityError>) -> Option<
    CapacityError,
> {
    if first is Some {
        first
    } else {
        second
    }
}

/// The cell that a generator in state `rng` picks for a nugget: the row from its
/// next draw, the column from the one after, each byte reduced modulo
/// `GRID_SIZE`.
pub open spec fn nugget_after(rng: u32) -> Position {
    let first: u32 = lcg_step(rng);
    let second: u32 = lcg_step(first);
    Position { row: low_byte(first) % GRID_SIZE, col: low_byte(second) % GRID_SIZE }
}

/// The direction that one polled input asks for: none where nothing was
/// received, and none where the byte is not one of the four direction bytes.
pub open spec fn asked_by(input: Option<u8>) -> Option<Direction> {
    match input {
        Some(byte) => Direction::decode(byte),
        None => None,
    }
}

/// What the game is between two ticks.
pub struct JungleView {
    /// The snake, head first.
    pub segments: Seq<SegmentView>,
    /// The occupancy bitmap, row by row.
    pub grid: Seq<Seq<u8>>,
    /// The direction that the last turn asked for.
    pub previous_direction: Direction,
    /// The cell that the snake is after.
    pub nugget: Position,
    /// The state of the generator that places the next nugget.
    pub rng: u32,
}

impl JungleView {
    /// The snake fits and stands on the grid, the bitmap has the size of the
    /// grid, and the nugget lies on the grid.
    pub open spec fn wf(self) -> bool {
        &&& body_wf(self.segments)
        &&& grid_wf(self.grid)
        &&& self.nugget.in_grid()
    }

    /// The checkpoint that a tick with input `new_direction` hands to every
    /// segment: a turn is taken only where a direction is asked for that differs
    /// from the one asked for last, and it is taken on the cell where the head
    /// stands before the tick. Any of the other three directions is a turn,
    /// the reverse of the one asked for last too: nothing keeps the head from
    /// running back into the body.
    pub open spec fn turn_for(self, new_direction: Option<Direction>) -> Option<Checkpoint> {
        match new_direction {
            Some(d) => if d != self.previous_direction && self.segments.len() > 0 {
                Some(Checkpoint { position: self.segments[0].position, direction: d })
            } else {
                None
            },
            None => None,
        }
    }

    /// Where the next nugget goes.
    pub open spec fn next_nugget(self) -> Position {
        nugget_after(self.rng)
    }

    /// Segment `i` as the tick leaves it: with the turn queued, if there is one
    /// and it fits, and then advanced by one tick.
    pub open spec fn moved(self, turn: Option<Checkpoint>, i: int) -> SegmentView {
        match turn {
            Some(c) => self.segments[i].enqueue(c).advance(),
            None => self.segments[i].advance(),
        }
    }

    /// Whether segment `i` arrives on the nugget.
    pub open spec fn eats(self, turn: Option<Checkpoint>, i: int) -> bool {
        self.moved(turn, i).position == self.nugget
    }

    /// Whether none of the segments from index `from` on arrives on the nugget.
    pub open spec fn all_miss(self, turn: Option<Checkpoint>, from: int) -> bool {
        forall|k: int|
            from <= k < self.segments.len() ==> (#[trigger] self.moved(turn, k)).position
                != self.nugget
    }

    /// The usual meal: the head arrives on the nugget, the snake has room, and
    /// none of the other segments, the new tail included, arrives on the cell
    /// where the nugget then goes.
    pub open spec fn one_meal(self, new_direction: Option<Direction>) -> bool {
        &&& 0 < self.segments.len() < SEGMENT_CAPACITY
        &&& self.eats(self.turn_for(new_direction), 0)
        &&& self.visit(self.turn_for(new_direction), 0).all_miss(self.turn_for(new_direction), 1)
    }

    /// The game after the tick has dealt with segment `i`. The segment takes the
    /// turn and moves. If it arrives on the nugget, a new tail grows behind the
    /// segment that is last at that moment, as that segment then stands, unless
    /// the snake is full, and the nugget goes to a new cell. The cell the
    /// segment arrived on is taken.
    pub open spec fn visit(self, turn: Option<Checkpoint>, i: int) -> JungleView {
        let moved = self.moved(turn, i);
        let body = self.segments.update(i, moved);
        if self.eats(turn, i) {
            JungleView {
                segments: if body.len() < SEGMENT_CAPACITY {
                    body.push(body.last().tail_behind(body.last().direction))
                } else {
                    body
                },
                grid: marked(self.grid, moved.position),
                previous_direction: self.previous_direction,
                nugget: self.next_nugget(),
                rng: lcg_step(lcg_step(self.rng)),
            }
        } else {
            JungleView { segments: body, grid: marked(self.grid, moved.position), ..self }
        }
    }

    /// What had to be left out while the tick dealt with segment `i`: the turn,
    /// where the segment's queue was full, else the new tail, where the segment
    /// arrived on the nugget and the snake was full.
    pub open spec fn visit_fault(self, turn: Option<Checkpoint>, i: int) -> Option<
        CapacityError,
    > {
        if turn is Some && self.segments[i].checkpoints.len() >= CHECKPOINT_CAPACITY {
            Some(CapacityError::CheckpointQueueFull)
        } else if self.eats(turn, i) && self.segments.len() >= SEGMENT_CAPACITY {
            Some(CapacityError::SegmentListFull)
        } else {
            None
        }
    }

    /// The game after the tick has dealt with segment `i` and every segment
    /// behind it, those that grew meanwhile included.
    pub open spec fn sweep(self, turn: Option<Checkpoint>, i: int) -> JungleView
        decreases SEGMENT_CAPACITY - i,
    {
        if 0 <= i < self.segments.len() <= SEGMENT_CAPACITY {
            self.visit(turn, i).sweep(turn, i + 1)
        } else {
            self
        }
    }

    /// The first thing that had to be left out while the tick dealt with
    /// segment `i` and every segment behind it.
    pub open spec fn sweep_fault(self, turn: Option<Checkpoint>, i: int) -> Option<CapacityError>
        decreases SEGMENT_CAPACITY - i,
    {
        if 0 <= i < self.segments.len() <= SEGMENT_CAPACITY {
            earlier(self.visit_fault(turn, i), self.visit(turn, i).sweep_fault(turn, i + 1))
        } else {
            None
        }
    }

    /// The game one tick later. The nugget's cell is taken. Without segments
    /// that is all. Otherwise the segments are dealt with from head to tail,
    /// and a direction that was asked for becomes the direction asked for last.
    pub open spec fn tick(self, new_direction: Option<Direction>) -> JungleView {
        let shown = JungleView { grid: marked(self.grid, self.nugget), ..self };
        if self.segments.len() == 0 {
            shown
        } else {
            JungleView {
                previous_direction: match new_direction {
                    Some(d) => d,
                    None => self.previous_direction,
                },
                ..shown.sweep(self.turn_for(new_direction), 0)
            }
        }
    }

    /// The first thing that the tick had to leave out, if anything.
    pub open spec fn tick_fault(self, new_direction: Option<Direction>) -> Option<CapacityError> {
        JungleView { grid: marked(self.grid, self.nugget), ..self }.sweep_fault(
            self.turn_for(new_direction),
            0,
        )
    }
}

/// Wherever the generator stands, the next nugget lies on the grid.
pub proof fn lemma_next_nugget_in_grid(j: JungleView)
    ensures
        j.next_nugget().in_grid(),
{
}

/// Growth keeps pending turns. Where segment `i` arrives on the nugget and the
/// snake is not full, one segment joins at the tail. It has the pending turns,
/// in their order, and the direction of the segment that was last just before,
/// and stands one cell behind that segment. The nugget goes to a cell of the
/// grid that the generator's next two draws decide.
pub proof fn lemma_growth_keeps_pending_turns(j: JungleView, turn: Option<Checkpoint>, i: int)
    requires
        j.wf(),
        0 <= i < j.segments.len() < SEGMENT_CAPACITY,
        j.eats(turn, i),
    ensures
        ({
            let grown_from = j.segments.update(i, j.moved(turn, i)).last();
            let grown = j.visit(turn, i).segments;
            &&& grown.len() == j.segments.len() + 1
            &&& grown.last().checkpoints == grown_from.checkpoints
            &&& grown.last().direction == grown_from.direction
            &&& grown.last().position == grown_from.position.step(grown_from.direction.reversed())
        }),
        j.visit(turn, i).nugget == nugget_after(j.rng),
        j.visit(turn, i).nugget.in_grid(),
        j.visit(turn, i).rng == lcg_step(lcg_step(j.rng)),
{
}

/// Dealing with one segment keeps the game well formed, never shrinks the
/// snake, and changes no segment but the one dealt with.
pub proof fn lemma_visit_keeps_wf(j: JungleView, turn: Option<Checkpoint>, i: int)
    requires
        j.wf(),
        0 <= i < j.segments.len(),
    ensures
        j.visit(turn, i).wf(),
        j.visit(turn, i).previous_direction == j.previous_direction,
        j.segments.len() <= j.visit(turn, i).segments.len() <= j.segments.len() + 1,
        j.visit(turn, i).segments[i] == j.moved(turn, i),
        forall|k: int|
            0 <= k < j.segments.len() && k != i ==> #[trigger] j.visit(turn, i).segments[k]
                == j.segments[k],
{
    let queued = match turn {
        Some(c) => j.segments[i].enqueue(c),
        None => j.segments[i],
    };
    assert(j.segments[i].wf());
    lemma_advance_keeps_wf(queued);
    let body = j.segments.update(i, j.moved(turn, i));
    assert(body_wf(body)) by {
        assert forall|k: int| 0 <= k < body.len() implies (#[trigger] body[k]).wf() by {
            if k != i {
                assert(j.segments[k].wf());
            }
        }
    }
    assert(body.last().wf());
    let after = j.visit(turn, i);
    assert(body_wf(after.segments)) by {
        assert forall|k: int| 0 <= k < after.segments.len() implies (#[trigger] after.segments[k]).wf() by {
            if k < body.len() {
                assert(body[k].wf());
            }
        }
    }
    lemma_marked_takes_one_cell(j.grid, j.moved(turn, i).position);
}

/// Dealing with segment `i` and all behind it keeps the game well formed and
/// leaves the direction asked for last alone. Each segment that is there
/// beforehand, from `i` on, gets the turn and moves by one tick; those before
/// `i` stay.
pub proof fn lemma_sweep_moves_each_segment(j: JungleView, turn: Option<Checkpoint>, i: int)
    requires
        j.wf(),
        0 <= i,
    ensures
        j.sweep(turn, i).wf(),
        j.sweep(turn, i).previous_direction == j.previous_direction,
        j.sweep(turn, i).segments.len() >= j.segments.len(),
        forall|k: int|
            0 <= k < j.segments.len() ==> #[trigger] j.sweep(turn, i).segments[k] == if k < i {
                j.segments[k]
            } else {
                j.moved(turn, k)
            },
    decreases SEGMENT_CAPACITY - i,
{
    if i < j.segments.len() {
        let next = j.visit(turn, i);
        lemma_visit_keeps_wf(j, turn, i);
        lemma_sweep_moves_each_segment(next, turn, i + 1);
        assert forall|k: int| 0 <= k < j.segments.len() implies #[trigger] j.sweep(
            turn,
            i,
        ).segments[k] == if k < i {
            j.segments[k]
        } else {
            j.moved(turn, k)
        } by {
            if k != i {
                assert(next.segments[k] == j.segments[k]);
            }
        }
    }
}

/// Dealing with segment `i` and all behind it takes exactly the cells on which
/// those segments then stand, the ones that grew meanwhile included, and leaves
/// every other cell of the bitmap as it was.
pub proof fn lemma_sweep_marks_the_snake(
    j: JungleView,
    turn: Option<Checkpoint>,
    i: int,
    p: Position,
)
    requires
        j.wf(),
        0 <= i,
        p.in_grid(),
    ensures
        j.sweep(turn, i).grid[p.row as int][p.col as int] == if covers(
            j.sweep(turn, i).segments,
            i,
            p,
        ) {
            OCCUPIED
        } else {
            j.grid[p.row as int][p.col as int]
        },
    decreases SEGMENT_CAPACITY - i,
{
    if i < j.segments.len() {
        let next = j.visit(turn, i);
        let swept = j.sweep(turn, i);
        lemma_visit_keeps_wf(j, turn, i);
        lemma_sweep_marks_the_snake(next, turn, i + 1, p);
        lemma_sweep_moves_each_segment(next, turn, i + 1);
        assert(swept.segments[i] == next.segments[i]);
        assert(next.segments[i] == j.moved(turn, i));
        lemma_marked_takes_one_cell(j.grid, j.moved(turn, i).position);
        if covers(swept.segments, i, p) {
            let k: int = choose|k: int|
                i <= k < swept.segments.len() && (#[trigger] swept.segments[k]).position == p;
            if k != i {
                assert(covers(swept.segments, i + 1, p));
            }
        } else {
            assert(swept.segments[i].position != p);
            assert(!covers(swept.segments, i + 1, p));
        }
    }
}

/// After a tick the bitmap shows the nugget where it lay before the tick and
/// every segment of the snake where it stands after the tick. Every other cell
/// is as it was.
pub proof fn lemma_tick_shows_nugget_and_snake(
    j: JungleView,
    new_direction: Option<Direction>,
    p: Position,
)
    requires
        j.wf(),
        p.in_grid(),
    ensures
        j.tick(new_direction).grid[p.row as int][p.col as int] == if p == j.nugget || covers(
            j.tick(new_direction).segments,
            0,
            p,
        ) {
            OCCUPIED
        } else {
            j.grid[p.row as int][p.col as int]
        },
{
    let shown = JungleView { grid: marked(j.grid, j.nugget), ..j };
    lemma_marked_takes_one_cell(j.grid, j.nugget);
    if j.segments.len() > 0 {
        lemma_sweep_marks_the_snake(shown, j.turn_for(new_direction), 0, p);
    }
}

/// A tick keeps the game well formed: the snake fits, every segment and the
/// nugget lie on the grid. It never shrinks the snake, and every segment that
/// is there beforehand, the head included, gets the same turn, taken on the
/// cell where the head stood before the tick, and moves by one tick.
pub proof fn lemma_tick_moves_each_segment(j: JungleView, new_direction: Option<Direction>)
    requires
        j.wf(),
    ensures
        j.tick(new_direction).wf(),
        j.tick(new_direction).segments.len() >= j.segments.len(),
        forall|k: int|
            0 <= k < j.segments.len() ==> #[trigger] j.tick(new_direction).segments[k] == j.moved(
                j.turn_for(new_direction),
                k,
            ),
{
    let shown = JungleView { grid: marked(j.grid, j.nugget), ..j };
    lemma_marked_takes_one_cell(j.grid, j.nugget);
    lemma_sweep_moves_each_segment(shown, j.turn_for(new_direction), 0);
}

/// Where none of the segments from `i` on arrives on the nugget, nothing grows
/// and nothing is drawn: dealing with them leaves the number of segments, the
/// nugget and the generator as they were.
pub proof fn lemma_sweep_without_meal(j: JungleView, turn: Option<Checkpoint>, i: int)
    requires
        j.wf(),
        0 <= i,
        j.all_miss(turn, i),
    ensures
        j.sweep(turn, i).segments.len() == j.segments.len(),
        j.sweep(turn, i).nugget == j.nugget,
        j.sweep(turn, i).rng == j.rng,
    decreases SEGMENT_CAPACITY - i,
{
    if i < j.segments.len() {
        let next = j.visit(turn, i);
        lemma_visit_keeps_wf(j, turn, i);
        assert(j.moved(turn, i).position != j.nugget);
        assert(next.nugget == j.nugget);
        assert(next.segments.len() == j.segments.len());
        assert forall|k: int| i + 1 <= k < next.segments.len() implies (#[trigger] next.moved(
            turn,
            k,
        )).position != next.nugget by {
            assert(next.segments[k] == j.segments[k]);
            assert(j.moved(turn, k).position != j.nugget);
        }
        lemma_sweep_without_meal(next, turn, i + 1);
    }
}

/// A tick in which no segment arrives on the nugget moves every segment and
/// changes neither the number of segments nor the nugget nor the generator.
pub proof fn lemma_tick_without_meal(j: JungleView, new_direction: Option<Direction>)
    requires
        j.wf(),
        j.all_miss(j.turn_for(new_direction), 0),
    ensures
        j.tick(new_direction).segments.len() == j.segments.len(),
        j.tick(new_direction).nugget == j.nugget,
        j.tick(new_direction).rng == j.rng,
        forall|k: int|
            0 <= k < j.segments.len() ==> #[trigger] j.tick(new_direction).segments[k] == j.moved(
                j.turn_for(new_direction),
                k,
            ),
{
    let shown = JungleView { grid: marked(j.grid, j.nugget), ..j };
    lemma_marked_takes_one_cell(j.grid, j.nugget);
    let turn = j.turn_for(new_direction);
    assert forall|k: int| 0 <= k < shown.segments.len() implies (#[trigger] shown.moved(
        turn,
        k,
    )).position != shown.nugget by {
        assert(j.moved(turn, k).position != j.nugget);
    }
    lemma_sweep_without_meal(shown, turn, 0);
    lemma_sweep_moves_each_segment(shown, turn, 0);
}

/// After the usual meal the snake has one segment more, the new tail moved by
/// one tick like the others; the nugget lies where the generator's next two
/// draws put it; and the generator has made those two draws and no more.
pub proof fn lemma_tick_with_one_meal(j: JungleView, new_direction: Option<Direction>)
    requires
        j.wf(),
        j.one_meal(new_direction),
    ensures
        j.tick(new_direction).segments.len() == j.segments.len() + 1,
        j.tick(new_direction).nugget == nugget_after(j.rng),
        j.tick(new_direction).rng == lcg_step(lcg_step(j.rng)),
        j.tick(new_direction).segments[j.segments.len() as int] == j.visit(
            j.turn_for(new_direction),
            0,
        ).moved(j.turn_for(new_direction), j.segments.len() as int),
        forall|k: int|
            0 <= k < j.segments.len() ==> #[trigger] j.tick(new_direction).segments[k] == j.moved(
                j.turn_for(new_direction),
                k,
            ),
{
    let turn = j.turn_for(new_direction);
    let shown = JungleView { grid: marked(j.grid, j.nugget), ..j };
    lemma_marked_takes_one_cell(j.grid, j.nugget);
    let fed = shown.visit(turn, 0);
    lemma_visit_keeps_wf(shown, turn, 0);
    assert(fed.segments == j.visit(turn, 0).segments);
    assert(fed.nugget == j.visit(turn, 0).nugget);
    assert forall|k: int| 1 <= k < fed.segments.len() implies (#[trigger] fed.moved(
        turn,
        k,
    )).position != fed.nugget by {
        assert(j.visit(turn, 0).moved(turn, k).position != j.visit(turn, 0).nugget);
    }
    lemma_sweep_without_meal(fed, turn, 1);
    lemma_sweep_moves_each_segment(fed, turn, 1);
    lemma_sweep_moves_each_segment(shown, turn, 0);
    assert(shown.sweep(turn, 0) == fed.sweep(turn, 1));
}

/// A tick without input, or with the direction that was asked for last, turns
/// nothing: no segment gets a checkpoint, and the direction asked for last
/// stays.
pub proof fn lemma_tick_without_turn(j: JungleView, new_direction: Option<Direction>)
    requires
        j.wf(),
        new_direction is None || new_direction == Some(j.previous_direction),
    ensures
        j.turn_for(new_direction) is None,
        j.tick(new_direction).previous_direction == j.previous_direction,
        forall|k: int|
            0 <= k < j.segments.len() ==> #[trigger] j.tick(new_direction).segments[k]
                == j.segments[k].advance(),
{
    let shown = JungleView { grid: marked(j.grid, j.nugget), ..j };
    lemma_marked_takes_one_cell(j.grid, j.nugget);
    lemma_sweep_moves_each_segment(shown, j.turn_for(new_direction), 0);
}

} // verus!
