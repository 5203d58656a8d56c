use snake_jungle::capacity::CapacityError;
use snake_jungle::capacity::CHECKPOINT_CAPACITY;
use snake_jungle::direction::Direction;
use snake_jungle::position::Position;
use snake_jungle::segment::push_segment_to_back;
use snake_jungle::segment::Checkpoint;
use snake_jungle::segment::Segment;

fn at(row: u8, col: u8) -> Position {
    Position { row, col }
}

#[test]
fn new_segment_has_no_checkpoints() {
    let s = Segment::new(at(3, 2), Direction::Left);
    assert_eq!(s.position(), at(3, 2));
    assert_eq!(s.direction(), Direction::Left);
    assert_eq!(s.checkpoint_count(), 0);
    assert_eq!(s.checkpoint(0), None);
}

#[test]
fn moving_up_from_the_top_row_wraps_to_the_bottom_row() {
    let mut s = Segment::new(at(0, 0), Direction::Up);
    s.update();
    assert_eq!(s.position(), at(4, 0));
    assert_eq!(s.direction(), Direction::Up);
}

#[test]
fn update_without_checkpoints_moves_one_cell_from_every_cell() {
    for row in 0..5u8 {
        for col in 0..5u8 {
            let mut up = Segment::new(at(row, col), Direction::Up);
            up.update();
            assert_eq!(up.position(), at(if row == 0 { 4 } else { row - 1 }, col));
            assert_eq!(up.direction(), Direction::Up);

            let mut down = Segment::new(at(row, col), Direction::Down);
            down.update();
            assert_eq!(down.position(), at(if row == 4 { 0 } else { row + 1 }, col));

            let mut left = Segment::new(at(row, col), Direction::Left);
            left.update();
            assert_eq!(left.position(), at(row, if col == 0 { 4 } else { col - 1 }));

            let mut right = Segment::new(at(row, col), Direction::Right);
            right.update();
            assert_eq!(right.position(), at(row, if col == 4 { 0 } else { col + 1 }));
            assert_eq!(right.checkpoint_count(), 0);
        }
    }
}

#[test]
fn five_steps_go_round_the_torus() {
    let mut s = Segment::new(at(2, 3), Direction::Right);
    let mut seen = Vec::new();
    for _ in 0..5 {
        s.update();
        seen.push(s.position());
    }
    assert_eq!(seen, vec![at(2, 4), at(2, 0), at(2, 1), at(2, 2), at(2, 3)]);
}

#[test]
fn add_checkpoint_appends_at_the_back() {
    let mut s = Segment::new(at(0, 0), Direction::Right);
    assert_eq!(s.add_checkpoint(at(0, 2), Direction::Down), Ok(()));
    assert_eq!(s.add_checkpoint(at(3, 2), Direction::Left), Ok(()));
    assert_eq!(s.checkpoint_count(), 2);
    assert_eq!(s.checkpoint(0), Some(Checkpoint { position: at(0, 2), direction: Direction::Down }));
    assert_eq!(s.checkpoint(1), Some(Checkpoint { position: at(3, 2), direction: Direction::Left }));
    assert_eq!(s.checkpoint(2), None);
    assert_eq!(s.position(), at(0, 0));
    assert_eq!(s.direction(), Direction::Right);
}

#[test]
fn add_checkpoint_fails_on_a_full_queue_and_changes_nothing() {
    let mut s = Segment::new(at(4, 4), Direction::Right);
    for i in 0..CHECKPOINT_CAPACITY {
        assert_eq!(s.add_checkpoint(at(0, (i % 5) as u8), Direction::Up), Ok(()));
    }
    assert_eq!(s.checkpoint_count(), 10);
    assert_eq!(
        s.add_checkpoint(at(1, 1), Direction::Down),
        Err(CapacityError::CheckpointQueueFull)
    );
    assert_eq!(s.checkpoint_count(), 10);
    for i in 0..CHECKPOINT_CAPACITY {
        assert_eq!(
            s.checkpoint(i),
            Some(Checkpoint { position: at(0, (i % 5) as u8), direction: Direction::Up })
        );
    }
    assert_eq!(s.position(), at(4, 4));
    assert_eq!(s.direction(), Direction::Right);
}

#[test]
fn a_full_queue_takes_a_checkpoint_again_once_one_is_consumed() {
    let mut s = Segment::new(at(1, 1), Direction::Right);
    for _ in 0..CHECKPOINT_CAPACITY {
        assert_eq!(s.add_checkpoint(at(1, 1), Direction::Right), Ok(()));
    }
    assert!(s.add_checkpoint(at(2, 2), Direction::Up).is_err());
    s.update();
    assert_eq!(s.checkpoint_count(), 9);
    assert_eq!(s.add_checkpoint(at(2, 2), Direction::Up), Ok(()));
    assert_eq!(s.checkpoint_count(), 10);
}

#[test]
fn update_turns_on_the_checkpoint_cell_then_moves() {
    let mut s = Segment::new(at(2, 3), Direction::Right);
    s.add_checkpoint(at(2, 3), Direction::Down).unwrap();
    s.update();
    assert_eq!(s.direction(), Direction::Down);
    assert_eq!(s.position(), at(3, 3));
    assert_eq!(s.checkpoint_count(), 0);
}

#[test]
fn update_keeps_a_checkpoint_for_another_cell() {
    let mut s = Segment::new(at(2, 2), Direction::Right);
    s.add_checkpoint(at(2, 4), Direction::Up).unwrap();
    s.update();
    assert_eq!(s.direction(), Direction::Right);
    assert_eq!(s.position(), at(2, 3));
    assert_eq!(s.checkpoint_count(), 1);
    assert_eq!(s.checkpoint(0), Some(Checkpoint { position: at(2, 4), direction: Direction::Up }));
}

#[test]
fn update_needs_both_coordinates_to_match() {
    let mut same_row = Segment::new(at(2, 2), Direction::Right);
    same_row.add_checkpoint(at(2, 0), Direction::Up).unwrap();
    same_row.update();
    assert_eq!(same_row.direction(), Direction::Right);
    assert_eq!(same_row.checkpoint_count(), 1);

    let mut same_col = Segment::new(at(2, 2), Direction::Right);
    same_col.add_checkpoint(at(0, 2), Direction::Up).unwrap();
    same_col.update();
    assert_eq!(same_col.direction(), Direction::Right);
    assert_eq!(same_col.checkpoint_count(), 1);
}

#[test]
fn update_consumes_one_checkpoint_per_tick_even_on_one_cell() {
    let mut s = Segment::new(at(1, 1), Direction::Right);
    s.add_checkpoint(at(1, 1), Direction::Down).unwrap();
    s.add_checkpoint(at(1, 1), Direction::Left).unwrap();
    s.update();
    // the older one wins, the younger one waits
    assert_eq!(s.direction(), Direction::Down);
    assert_eq!(s.position(), at(2, 1));
    assert_eq!(s.checkpoint_count(), 1);
    assert_eq!(s.checkpoint(0), Some(Checkpoint { position: at(1, 1), direction: Direction::Left }));
}

#[test]
fn checkpoints_are_consumed_first_in_first_out() {
    let mut s = Segment::new(at(0, 0), Direction::Right);
    s.add_checkpoint(at(0, 2), Direction::Down).unwrap();
    s.add_checkpoint(at(2, 2), Direction::Left).unwrap();
    let mut directions = Vec::new();
    let mut positions = Vec::new();
    for _ in 0..6 {
        s.update();
        directions.push(s.direction());
        positions.push(s.position());
    }
    assert_eq!(
        positions,
        vec![at(0, 1), at(0, 2), at(1, 2), at(2, 2), at(2, 1), at(2, 0)]
    );
    assert_eq!(
        directions,
        vec![
            Direction::Right,
            Direction::Right,
            Direction::Down,
            Direction::Down,
            Direction::Left,
            Direction::Left
        ]
    );
    assert_eq!(s.checkpoint_count(), 0);
}

#[test]
fn a_younger_checkpoint_is_not_taken_before_an_older_one() {
    // the segment first crosses the cell of the younger checkpoint
    let mut s = Segment::new(at(0, 0), Direction::Right);
    s.add_checkpoint(at(0, 3), Direction::Down).unwrap();
    s.add_checkpoint(at(0, 1), Direction::Up).unwrap();
    s.update();
    assert_eq!(s.position(), at(0, 1));
    s.update();
    // stood on (0, 1), the younger one's cell: nothing taken
    assert_eq!(s.direction(), Direction::Right);
    assert_eq!(s.position(), at(0, 2));
    assert_eq!(s.checkpoint_count(), 2);
    s.update();
    assert_eq!(s.position(), at(0, 3));
    s.update();
    assert_eq!(s.direction(), Direction::Down);
    assert_eq!(s.position(), at(1, 3));
    assert_eq!(s.checkpoint_count(), 1);
    assert_eq!(s.checkpoint(0), Some(Checkpoint { position: at(0, 1), direction: Direction::Up }));
}

#[test]
fn a_trailing_segment_turns_where_the_head_turned() {
    // the head turned from Right to Down on (2, 3); the trailing segment got
    // the same checkpoint while it stood two cells behind
    let mut trailing = Segment::new(at(2, 1), Direction::Right);
    trailing.add_checkpoint(at(2, 3), Direction::Down).unwrap();
    trailing.update();
    assert_eq!(trailing.position(), at(2, 2));
    trailing.update();
    assert_eq!(trailing.position(), at(2, 3));
    assert_eq!(trailing.direction(), Direction::Right);
    assert_eq!(trailing.checkpoint_count(), 1);
    trailing.update();
    assert_eq!(trailing.direction(), Direction::Down);
    assert_eq!(trailing.position(), at(3, 3));
    assert_eq!(trailing.checkpoint_count(), 0);
}

#[test]
fn clone_copies_the_segment_and_its_queue() {
    let mut s = Segment::new(at(1, 2), Direction::Up);
    s.add_checkpoint(at(0, 2), Direction::Left).unwrap();
    let mut c = s.clone();
    assert_eq!(c.position(), at(1, 2));
    assert_eq!(c.direction(), Direction::Up);
    assert_eq!(c.checkpoint_count(), 1);
    assert_eq!(c.checkpoint(0), s.checkpoint(0));
    c.add_checkpoint(at(4, 4), Direction::Down).unwrap();
    c.update();
    assert_eq!(s.checkpoint_count(), 1);
    assert_eq!(s.position(), at(1, 2));
}

#[test]
fn push_segment_to_back_places_the_tail_against_the_direction() {
    let last = Segment::new(at(2, 2), Direction::Right);
    assert_eq!(push_segment_to_back(&last, Direction::Right).position(), at(2, 1));
    assert_eq!(push_segment_to_back(&last, Direction::Left).position(), at(2, 3));
    assert_eq!(push_segment_to_back(&last, Direction::Up).position(), at(3, 2));
    assert_eq!(push_segment_to_back(&last, Direction::Down).position(), at(1, 2));
    assert_eq!(push_segment_to_back(&last, Direction::Down).direction(), Direction::Down);
    assert_eq!(push_segment_to_back(&last, Direction::Left).direction(), Direction::Left);
}

#[test]
fn push_segment_to_back_wraps_on_the_moved_axis() {
    assert_eq!(
        push_segment_to_back(&Segment::new(at(1, 0), Direction::Right), Direction::Right).position(),
        at(1, 4)
    );
    assert_eq!(
        push_segment_to_back(&Segment::new(at(1, 4), Direction::Left), Direction::Left).position(),
        at(1, 0)
    );
    assert_eq!(
        push_segment_to_back(&Segment::new(at(4, 3), Direction::Up), Direction::Up).position(),
        at(0, 3)
    );
}

#[test]
fn a_tail_behind_a_segment_moving_down_from_the_top_row_wraps_its_row() {
    // the row wraps to 4 and the column stays
    let last = Segment::new(at(0, 2), Direction::Down);
    let tail = push_segment_to_back(&last, Direction::Down);
    assert_eq!(tail.position(), at(4, 2));
    let corner = Segment::new(at(0, 0), Direction::Down);
    assert_eq!(push_segment_to_back(&corner, Direction::Down).position(), at(4, 0));
}

#[test]
fn growth_preserves_pending_turns() {
    let mut last = Segment::new(at(3, 3), Direction::Up);
    last.add_checkpoint(at(1, 3), Direction::Left).unwrap();
    last.add_checkpoint(at(1, 0), Direction::Down).unwrap();
    let tail = push_segment_to_back(&last, last.direction());
    assert_eq!(tail.checkpoint_count(), 2);
    assert_eq!(tail.checkpoint(0), Some(Checkpoint { position: at(1, 3), direction: Direction::Left }));
    assert_eq!(tail.checkpoint(1), Some(Checkpoint { position: at(1, 0), direction: Direction::Down }));
    // the segment it grew from is as before
    assert_eq!(last.checkpoint_count(), 2);
    assert_eq!(last.position(), at(3, 3));
}

#[test]
fn a_grown_tail_steps_onto_the_cell_of_the_segment_it_grew_from() {
    let last = Segment::new(at(0, 0), Direction::Left);
    let mut tail = push_segment_to_back(&last, last.direction());
    assert_eq!(tail.position(), at(0, 1));
    tail.update();
    assert_eq!(tail.position(), at(0, 0));
}
