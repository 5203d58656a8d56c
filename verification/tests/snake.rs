use snake_jungle::capacity::CapacityError;
use snake_jungle::capacity::SEGMENT_CAPACITY;
use snake_jungle::direction::Direction;
use snake_jungle::position::Position;
use snake_jungle::segment::Segment;
use snake_jungle::snake::Snake;

fn at(row: u8, col: u8) -> Position {
    Position { row, col }
}

#[test]
fn new_snake_has_two_segments_heading_right() {
    let snake = Snake::new();
    assert_eq!(snake.len(), 2);
    assert_eq!(snake.segment(0).position(), at(1, 1));
    assert_eq!(snake.segment(1).position(), at(1, 0));
    assert_eq!(snake.segment(0).direction(), Direction::Right);
    assert_eq!(snake.segment(1).direction(), Direction::Right);
    assert_eq!(snake.segment(0).checkpoint_count(), 0);
    assert_eq!(snake.segment(1).checkpoint_count(), 0);
}

#[test]
fn add_segment_appends_at_the_tail() {
    let mut snake = Snake::new();
    let mut extra = Segment::new(at(3, 4), Direction::Up);
    extra.add_checkpoint(at(0, 4), Direction::Left).unwrap();
    assert_eq!(snake.add_segment(extra), Ok(()));
    assert_eq!(snake.len(), 3);
    assert_eq!(snake.segment(0).position(), at(1, 1));
    assert_eq!(snake.segment(1).position(), at(1, 0));
    assert_eq!(snake.segment(2).position(), at(3, 4));
    assert_eq!(snake.segment(2).direction(), Direction::Up);
    assert_eq!(snake.segment(2).checkpoint_count(), 1);
}

#[test]
fn add_segment_fails_once_25_segments_are_reached() {
    let mut snake = Snake::new();
    for i in 2..SEGMENT_CAPACITY {
        let s = Segment::new(at((i / 5) as u8, (i % 5) as u8), Direction::Down);
        assert_eq!(snake.add_segment(s), Ok(()));
        assert_eq!(snake.len(), i + 1);
    }
    assert_eq!(snake.len(), 25);
    assert_eq!(
        snake.add_segment(Segment::new(at(4, 4), Direction::Left)),
        Err(CapacityError::SegmentListFull)
    );
    assert_eq!(snake.len(), 25);
    assert_eq!(snake.segment(0).position(), at(1, 1));
    assert_eq!(snake.segment(24).position(), at(4, 4));
    assert_eq!(snake.segment(24).direction(), Direction::Down);
}

#[test]
fn segment_mut_changes_the_segment_in_place() {
    let mut snake = Snake::new();
    snake.segment_mut(1).update();
    assert_eq!(snake.segment(1).position(), at(1, 1));
    assert_eq!(snake.segment(0).position(), at(1, 1));
    snake.segment_mut(0).add_checkpoint(at(1, 1), Direction::Up).unwrap();
    assert_eq!(snake.segment(0).checkpoint_count(), 1);
    assert_eq!(snake.segment(1).checkpoint_count(), 0);
    assert_eq!(snake.len(), 2);
}
