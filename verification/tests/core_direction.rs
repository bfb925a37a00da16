use connect_four::direction::{Direction, Horizontal, Vertical, WinDirectionIterator};

#[test]
fn direction_test_direction_all() {
    let all = Direction::all();
    assert_eq!(all.len(), 8);
}

#[test]
fn direction_test_direction_cardinal() {
    let cardinal = Direction::cardinal();
    assert_eq!(cardinal.len(), 4);
    assert!(cardinal.contains(&Direction::North));
    assert!(!cardinal.contains(&Direction::Northeast));
}

#[test]
fn test_direction_diagonal() {
    let diagonal = Direction::diagonal();
    assert_eq!(diagonal.len(), 4);
    assert!(diagonal.contains(&Direction::Northeast));
    assert!(!diagonal.contains(&Direction::North));
}

#[test]
fn test_direction_deltas() {
    assert_eq!(Direction::North.deltas(), (-1, 0));
    assert_eq!(Direction::East.deltas(), (0, 1));
    assert_eq!(Direction::Southeast.deltas(), (1, 1));
}

#[test]
fn direction_test_direction_opposite() {
    assert_eq!(Direction::North.opposite(), Direction::South);
    assert_eq!(Direction::East.opposite(), Direction::West);
    assert_eq!(Direction::Northeast.opposite(), Direction::Southwest);
}

#[test]
fn test_direction_clockwise() {
    assert_eq!(Direction::North.clockwise(), Direction::East);
    assert_eq!(Direction::East.clockwise(), Direction::South);
    assert_eq!(Direction::Northeast.clockwise(), Direction::Southeast);
}

#[test]
fn test_direction_counter_clockwise() {
    assert_eq!(Direction::North.counter_clockwise(), Direction::West);
    assert_eq!(Direction::West.counter_clockwise(), Direction::South);
}

#[test]
fn direction_test_direction_is_cardinal() {
    assert!(Direction::North.is_cardinal());
    assert!(Direction::East.is_cardinal());
    assert!(!Direction::Northeast.is_cardinal());
}

#[test]
fn direction_test_direction_is_diagonal() {
    assert!(Direction::Northeast.is_diagonal());
    assert!(Direction::Southwest.is_diagonal());
    assert!(!Direction::North.is_diagonal());
}

#[test]
fn test_direction_is_north() {
    assert!(Direction::North.is_north());
    assert!(Direction::Northeast.is_north());
    assert!(!Direction::South.is_north());
}

#[test]
fn test_direction_from_str() {
    assert_eq!(Direction::from_str("N").unwrap(), Direction::North);
    assert_eq!(Direction::from_str("south").unwrap(), Direction::South);
    assert_eq!(Direction::from_str("ne").unwrap(), Direction::Northeast);
    assert!(Direction::from_str("invalid").is_err());
}

#[test]
fn test_direction_char() {
    assert_eq!(Direction::North.char(), 'N');
    assert_eq!(Direction::East.char(), 'E');
}

#[test]
fn test_direction_arrow() {
    assert_eq!(Direction::North.arrow(), '↑');
    assert_eq!(Direction::East.arrow(), '→');
    assert_eq!(Direction::South.arrow(), '↓');
}

#[test]
fn test_direction_combine() {
    assert_eq!(Direction::North.combine(Direction::East), Some(Direction::Northeast));
    assert_eq!(Direction::North.combine(Direction::South), Some(Direction::North));
}

#[test]
fn test_horizontal() {
    assert_eq!(Direction::East.horizontal(), Some(Horizontal::Right));
    assert_eq!(Direction::West.horizontal(), Some(Horizontal::Left));
    assert_eq!(Direction::North.horizontal(), None);
}

#[test]
fn test_vertical() {
    assert_eq!(Direction::North.vertical(), Some(Vertical::Up));
    assert_eq!(Direction::South.vertical(), Some(Vertical::Down));
    assert_eq!(Direction::East.vertical(), None);
}

#[test]
fn test_horizontal_delta() {
    assert_eq!(Horizontal::Left.delta(), -1);
    assert_eq!(Horizontal::Right.delta(), 1);
}

#[test]
fn test_vertical_delta() {
    assert_eq!(Vertical::Up.delta(), -1);
    assert_eq!(Vertical::Down.delta(), 1);
}

#[test]
fn test_horizontal_opposite() {
    assert_eq!(Horizontal::Left.opposite(), Horizontal::Right);
}

#[test]
fn test_vertical_opposite() {
    assert_eq!(Vertical::Up.opposite(), Vertical::Down);
}

#[test]
fn test_win_direction_iterator() {
    let mut iter = WinDirectionIterator::new();
    assert!(iter.next().is_some());
    assert!(iter.next().is_some());
    assert!(iter.next().is_some());
    assert!(iter.next().is_some());
    assert!(iter.next().is_none());
}

#[test]
fn direction_rotations_undo_each_other() {
    for d in Direction::all() {
        assert_eq!(d.clockwise().counter_clockwise(), d);
        assert_eq!(d.clockwise().clockwise().clockwise().clockwise(), d);
        assert_eq!(d.opposite().opposite(), d);
    }
}

#[test]
fn direction_next_walks_in_order() {
    let mut d = Direction::North;
    assert_eq!(d.next(), Some(Direction::Northeast));
    assert_eq!(d, Direction::Northeast);
    let mut last = Direction::Northwest;
    assert_eq!(last.next(), None);
}

#[test]
fn direction_from_str_error() {
    assert_eq!(Direction::from_str("zz").unwrap_err(), "Invalid direction: zz");
}
