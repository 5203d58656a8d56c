//! Segments, the checkpoints they hold, and how a segment moves and grows.
use vstd::prelude::*;
use crate::bounded::queue_clone;
use crate::bounded::queue_contents;
use crate::bounded::queue_get;
use crate::bounded::queue_len;
use crate::bounded::queue_new;
use crate::bounded::queue_push;
use crate::bounded::queue_remove;
use crate::capacity::CapacityError;
use crate::capacity::CHECKPOINT_CAPACITY;
use crate::direction::lemma_reversed_is_involution;
use crate::direction::Direction;
use crate::position::lemma_step_back_and_forth;
use crate::position::Position;

verus! {

/// A recorded turn: a segment that stands on `position` adopts `direction`.
#[derive(Clone, Copy, Debug, PartialEq, Eq, Structural)]
pub struct Checkpoint {
    pub position: Position,
    pub direction: Direction,
}

/// What a segment is: where it stands, where it is heading, and the turns it
/// has still to make, oldest first.
pub struct SegmentView {
    pub position: Position,
    pub direction: Direction,
    pub checkpoints: Seq<Checkpoint>,
}

impl SegmentView {
    /// The segment stands on a cell of the grid and holds no more checkpoints
    /// than fit.
    pub open spec fn wf(self) -> bool {
        self.position.in_grid() && self.checkpoints.len() <= CHECKPOINT_CAPACITY
    }

    /// The segment with `c` behind its other checkpoints, or unchanged where
    /// the queue is full.
    pub open spec fn enqueue(self, c: Checkpoint) -> SegmentView {
        if self.checkpoints.len() < CHECKPOINT_CAPACITY {
            SegmentView { checkpoints: self.checkpoints.push(c), ..self }
        } else {
            self
        }
    }

    /// Whether the oldest checkpoint is for the cell the segment stands on.
    pub open spec fn at_checkpoint(self) -> bool {
        self.checkpoints.len() > 0 && self.checkpoints[0].position == self.position
    }

    /// The segment after it has looked at its oldest checkpoint: standing on
    /// that checkpoint's cell it adopts the direction and drops the checkpoint,
    /// elsewhere nothing changes. Younger checkpoints are never looked at.
    pub open spec fn turn(self) -> SegmentView {
        if self.at_checkpoint() {
            SegmentView {
                position: self.position,
                direction: self.checkpoints[0].direction,
                checkpoints: self.checkpoints.remove(0),
            }
        } else {
            self
        }
    }

    /// The segment one tick later: it turns if it stands on its oldest
    /// checkpoint, then moves one cell in the direction it then has.
    pub open spec fn advance(self) -> SegmentView {
        let turned = self.turn();
        SegmentView { position: turned.position.step(turned.direction), ..turned }
    }

    /// The segment `n` ticks later, with no checkpoint added meanwhile.
    pub open spec fn advance_by(self, n: nat) -> SegmentView
        decreases n,
    {
        if n == 0 {
            self
        } else {
            self.advance_by((n - 1) as nat).advance()
        }
    }

    /// The segment that grows behind this one when this one is the tail and
    /// travels in `direction`: one cell against `direction`, heading the same
    /// way, with the same turns still to make.
    pub open spec fn tail_behind(self, direction: Direction) -> SegmentView {
        SegmentView {
            position: self.position.step(direction.reversed()),
            direction,
            checkpoints: self.checkpoints,
        }
    }
}

/// One cell of the snake's body.
pub struct Segment {
    position: Position,
    direction: Direction,
    checkpoints: heapless::Vec<Checkpoint, 10>,
}

impl View for Segment {
    type V = SegmentView;

    closed spec fn view(&self) -> SegmentView {
        SegmentView {
            position: self.position,
            direction: self.direction,
            checkpoints: queue_contents(self.checkpoints),
        }
    }
}

impl Segment {
    /// A segment on `position` heading in `direction`, with no turn to make.
    pub fn new(position: Position, direction: Direction) -> (r: Segment)
        requires
            position.in_grid(),
        ensures
            r@ == (SegmentView { position, direction, checkpoints: Seq::empty() }),
            r@.wf(),
    {
        Segment { position, direction, checkpoints: queue_new() }
    }

    /// The cell the segment stands on.
    pub fn position(&self) -> (r: Position)
        ensures
            r == self@.position,
    {
        self.position
    }

    /// The direction the segment is heading in.
    pub fn direction(&self) -> (r: Direction)
        ensures
            r == self@.direction,
    {
        self.direction
    }

    /// Number of turns the segment has still to make.
    pub fn checkpoint_count(&self) -> (n: usize)
        ensures
            n == self@.checkpoints.len(),
            n <= CHECKPOINT_CAPACITY,
    {
        queue_len(&self.checkpoints)
    }

    /// The pending turn at `index`, counted from the oldest, if there is one.
    pub fn checkpoint(&self, index: usize) -> (r: Option<Checkpoint>)
        ensures
            r == if index < self@.checkpoints.len() {
                Some(self@.checkpoints[index as int])
            } else {
                None
            },
    {
        match queue_get(&self.checkpoints, index) {
            Some(checkpoint) => Some(*checkpoint),
            None => None,
        }
    }

    /// Records behind the pending turns that the segment is to adopt
    /// `direction` on `position`. A segment that already holds
    /// `CHECKPOINT_CAPACITY` checkpoints stays as it is and the call fails.
    pub fn add_checkpoint(&mut self, position: Position, direction: Direction) -> (r: Result<
        (),
        CapacityError,
    >)
        ensures
            final(self)@ == old(self)@.enqueue(Checkpoint { position, direction }),
            r is Ok <==> old(self)@.checkpoints.len() < CHECKPOINT_CAPACITY,
            r matches Err(e) ==> e == CapacityError::CheckpointQueueFull,
            old(self)@.wf() ==> final(self)@.wf(),
    {
        match queue_push(&mut self.checkpoints, Checkpoint { position, direction }) {
            None => Ok(()),
            Some(_) => Err(CapacityError::CheckpointQueueFull),
        }
    }

    /// One tick: the segment turns if it stands on its oldest checkpoint, then
    /// moves one cell, wrapping round the edges of the grid.
    pub fn update(&mut self)
        requires
            old(self)@.wf(),
        ensures
            final(self)@ == old(self)@.advance(),
            final(self)@.wf(),
    {
        let front: Option<Checkpoint> = self.checkpoint(0);
        match front {
            Some(front) => {
                if front.position == self.position {
                    self.direction = front.direction;
                    let _ = queue_remove(&mut self.checkpoints, 0);
                }
            },
            None => {},
        }
        self.position = self.position.stepped(self.direction);
    }
}

impl Clone for Segment {
    fn clone(&self) -> (r: Segment)
        ensures
            r@ == self@,
    {
        Segment {
            position: self.position,
            direction: self.direction,
            checkpoints: queue_clone(&self.checkpoints),
        }
    }
}

/// Builds the segment that grows behind `last_segment`, the tail of a snake
/// that travels in `direction`: it stands one cell from the tail against
/// `direction`, round the edge of the grid where the tail stands on one, heads in
/// `direction`, and has the tail's pending turns, in the tail's order.
pub fn push_segment_to_back(last_segment: &Segment, direction: Direction) -> (r: Segment)
    requires
        last_segment@.wf(),
    ensures
        r@ == last_segment@.tail_behind(direction),
        r@.checkpoints == last_segment@.checkpoints,
        r@.wf(),
{
    Segment {
        position: last_segment.position.stepped(direction.opposite()),
        direction,
        checkpoints: queue_clone(&last_segment.checkpoints),
    }
}

/// A segment with no turn to make keeps its direction and moves one cell in it.
/// On the moved axis coordinate 4 is followed by 0 and coordinate 0 is preceded
/// by 4; the other axis stays.
pub proof fn lemma_advance_without_checkpoints(s: SegmentView)
    requires
        s.wf(),
        s.checkpoints.len() == 0,
    ensures
        s.advance() == (SegmentView { position: s.position.step(s.direction), ..s }),
        s.advance().wf(),
        s.direction == Direction::Up ==> s.advance().position == (Position {
            row: if s.position.row == 0 { 4u8 } else { (s.position.row - 1) as u8 },
            col: s.position.col,
        }),
        s.direction == Direction::Down ==> s.advance().position == (Position {
            row: if s.position.row == 4 { 0u8 } else { (s.position.row + 1) as u8 },
            col: s.position.col,
        }),
        s.direction == Direction::Left ==> s.advance().position == (Position {
            row: s.position.row,
            col: if s.position.col == 0 { 4u8 } else { (s.position.col - 1) as u8 },
        }),
        s.direction == Direction::Right ==> s.advance().position == (Position {
            row: s.position.row,
            col: if s.position.col == 4 { 0u8 } else { (s.position.col + 1) as u8 },
        }),
{
}

/// A tail that grows behind a segment heading the segment's way steps, on its
/// first tick, onto the cell where the segment stood when the tail grew, unless
/// a turn is due on the very cell where the tail was put.
pub proof fn lemma_new_tail_follows(s: SegmentView)
    requires
        s.wf(),
        !s.tail_behind(s.direction).at_checkpoint(),
    ensures
        s.tail_behind(s.direction).wf(),
        s.tail_behind(s.direction).checkpoints == s.checkpoints,
        s.tail_behind(s.direction).advance().position == s.position,
{
    lemma_step_back_and_forth(s.position, s.direction);
    lemma_reversed_is_involution(s.direction);
}

/// A tick keeps a segment well formed, and takes at most the oldest checkpoint.
pub proof fn lemma_advance_keeps_wf(s: SegmentView)
    requires
        s.wf(),
    ensures
        s.advance().wf(),
        s.advance().checkpoints == if s.at_checkpoint() {
            s.checkpoints.skip(1)
        } else {
            s.checkpoints
        },
{
    if s.at_checkpoint() {
        assert(s.checkpoints.remove(0) =~= s.checkpoints.skip(1));
    }
}

/// Checkpoints leave a segment in the order in which they came. After `n` ticks
/// with no checkpoint added, the `k` oldest are gone for some `k` of at most
/// `n`, all younger ones are still there in their order, and the segment heads
/// where the youngest of those `k` sent it, or as before where `k` is 0.
pub proof fn lemma_checkpoints_leave_in_order(s: SegmentView, n: nat)
    ensures
        s.advance_by(n).checkpoints.len() <= s.checkpoints.len(),
        s.checkpoints.len() - s.advance_by(n).checkpoints.len() <= n,
        s.advance_by(n).checkpoints == s.checkpoints.skip(
            s.checkpoints.len() - s.advance_by(n).checkpoints.len(),
        ),
        s.advance_by(n).direction == if s.advance_by(n).checkpoints.len() == s.checkpoints.len() {
            s.direction
        } else {
            s.checkpoints[s.checkpoints.len() - s.advance_by(n).checkpoints.len() - 1].direction
        },
    decreases n,
{
    if n == 0 {
        assert(s.checkpoints.skip(0) =~= s.checkpoints);
    } else {
        let before = s.advance_by((n - 1) as nat);
        lemma_checkpoints_leave_in_order(s, (n - 1) as nat);
        let k: int = s.checkpoints.len() - before.checkpoints.len();
        if before.at_checkpoint() {
            assert(before.checkpoints.remove(0) =~= s.checkpoints.skip(k + 1));
            assert(before.checkpoints[0] == s.checkpoints[k]);
        }
    }
}

/// First in, first out. A segment with no turn to make is handed `first` and
/// then `second`. Whatever happens in the `n` ticks after that, `second` is
/// never taken while `first` waits: either both wait, or `first` was taken and
/// the segment heads where `first` sent it, or both were taken, `first` before
/// `second`, and it heads where `second` sent it. On the tick on which the
/// segment stands on the cell of `first` it takes `first`; standing on the cell
/// of `second` alone it takes nothing.
pub proof fn lemma_first_in_first_out(s: SegmentView, first: Checkpoint, second: Checkpoint, n: nat)
    requires
        s.checkpoints.len() == 0,
    ensures
        s.enqueue(first).enqueue(second).checkpoints == seq![first, second],
        ({
            let later = s.enqueue(first).enqueue(second).advance_by(n);
            ||| later.checkpoints == seq![first, second] && later.direction == s.direction
            ||| later.checkpoints == seq![second] && later.direction == first.direction
            ||| later.checkpoints == Seq::<Checkpoint>::empty() && later.direction
                == second.direction
        }),
        ({
            let queued = s.enqueue(first).enqueue(second);
            &&& s.position == first.position ==> queued.advance().direction == first.direction
                && queued.advance().checkpoints == seq![second]
            &&& s.position != first.position ==> queued.advance().direction == s.direction
                && queued.advance().checkpoints == seq![first, second]
        }),
{
    let queued = s.enqueue(first).enqueue(second);
    assert(queued.checkpoints =~= seq![first, second]);
    lemma_checkpoints_leave_in_order(queued, n);
    let later = queued.advance_by(n);
    let k: int = queued.checkpoints.len() - later.checkpoints.len();
    if k == 0 {
        assert(queued.checkpoints.skip(0) =~= seq![first, second]);
    } else if k == 1 {
        assert(queued.checkpoints.skip(1) =~= seq![second]);
    } else {
        assert(queued.checkpoints.skip(2) =~= Seq::<Checkpoint>::empty());
    }
    assert(queued.checkpoints.remove(0) =~= seq![second]);
}

} // verus!
