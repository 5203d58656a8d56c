//! The snake: a bounded, head-first list of segments.
use vstd::prelude::*;
use crate::bounded::body_at;
use crate::bounded::body_at_mut;
use crate::bounded::body_contents;
use crate::bounded::body_len;
use crate::bounded::body_new;
use crate::bounded::body_push;
use crate::capacity::CapacityError;
use crate::capacity::SEGMENT_CAPACITY;
use crate::direction::Direction;
use crate::position::Position;
use crate::segment::Segment;
use crate::segment::SegmentView;

verus! {

/// The two segments of a new snake: the head on row 1, column 1 and one segment
/// to its left, both heading right with no turn to make.
pub open spec fn initial_segments() -> Seq<SegmentView> {
    seq![
        SegmentView {
            position: Position { row: 1, col: 1 },
            direction: Direction::Right,
            checkpoints: Seq::empty(),
        },
        SegmentView {
            position: Position { row: 1, col: 0 },
            direction: Direction::Right,
            checkpoints: Seq::empty(),
        },
    ]
}

/// A list of segments is a snake's body when it fits and each segment is well
/// formed.
pub open spec fn body_wf(segments: Seq<SegmentView>) -> bool {
    &&& segments.len() <= SEGMENT_CAPACITY
    &&& forall|i: int| 0 <= i < segments.len() ==> (#[trigger] segments[i]).wf()
}

/// The segments of the snake, head first. Segments join at the tail only.
pub struct Snake {
    segments: heapless::Vec<Segment, 25>,
}

impl View for Snake {
    type V = Seq<SegmentView>;

    closed spec fn view(&self) -> Seq<SegmentView> {
        body_contents(self.segments).map_values(|s: Segment| s@)
    }
}

impl Snake {
    /// The snake fits and each of its segments is well formed.
    pub open spec fn wf(&self) -> bool {
        body_wf(self@)
    }

    /// The snake as the game starts: two segments in a row, heading right.
    pub fn new() -> (r: Snake)
        ensures
            r@ == initial_segments(),
            r.wf(),
    {
        let mut body = body_new();
        let head = Segment::new(Position { row: 1, col: 1 }, Direction::Right);
        let second = Segment::new(Position { row: 1, col: 0 }, Direction::Right);
        let _ = body_push(&mut body, head);
        let _ = body_push(&mut body, second);
        let r = Snake { segments: body };
        assert(r@ =~= initial_segments());
        r
    }

    /// Appends `segment` at the tail. A snake that already has
    /// `SEGMENT_CAPACITY` segments stays as it is and the call fails.
    pub fn add_segment(&mut self, segment: Segment) -> (r: Result<(), CapacityError>)
        ensures
            r is Ok <==> old(self)@.len() < SEGMENT_CAPACITY,
            r is Ok ==> final(self)@ == old(self)@.push(segment@),
            r matches Err(e) ==> e == CapacityError::SegmentListFull && final(self)@ == old(self)@,
            old(self).wf() && segment@.wf() ==> final(self).wf(),
    {
        match body_push(&mut self.segments, segment) {
            None => {
                assert(self@ =~= old(self)@.push(segment@));
                Ok(())
            },
            Some(_) => Err(CapacityError::SegmentListFull),
        }
    }

    /// Number of segments.
    pub fn len(&self) -> (n: usize)
        ensures
            n == self@.len(),
            n <= SEGMENT_CAPACITY,
    {
        body_len(&self.segments)
    }

    /// The segment at `index`, counted from the head.
    pub fn segment(&self, index: usize) -> (r: &Segment)
        requires
            index < self@.len(),
        ensures
            r@ == self@[index as int],
    {
        body_at(&self.segments, index)
    }

    /// The segment at `index`, counted from the head, to be changed in place.
    pub fn segment_mut(&mut self, index: usize) -> (r: &mut Segment)
        requires
            index < old(self)@.len(),
        ensures
            r@ == old(self)@[index as int],
            final(self)@ == old(self)@.update(index as int, final(r)@),
    {
        body_at_mut(&mut self.segments, index)
    }
}

} // verus!
