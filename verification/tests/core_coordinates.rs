use connect_four::coordinates::{Direction, Offset, Position};

#[test]
fn test_position_new() {
    let pos = Position::new(3, 5);
    assert_eq!(pos.row, 3);
    assert_eq!(pos.col, 5);
}

#[test]
fn test_position_origin() {
    let pos = Position::origin();
    assert_eq!(pos.row, 0);
    assert_eq!(pos.col, 0);
}

#[test]
fn test_position_is_valid() {
    let pos = Position::new(3, 5);
    assert!(pos.is_valid(6, 7));
    assert!(!pos.is_valid(3, 7));
    assert!(!pos.is_valid(6, 5));
}

#[test]
fn test_position_above() {
    let pos = Position::new(3, 5);
    assert_eq!(pos.above(), Some(Position::new(2, 5)));
    assert_eq!(Position::new(0, 5).above(), None);
}

#[test]
fn test_position_below() {
    let pos = Position::new(3, 5);
    assert_eq!(pos.below(), Position::new(4, 5));
}

#[test]
fn test_position_left() {
    let pos = Position::new(3, 5);
    assert_eq!(pos.left(), Some(Position::new(3, 4)));
    assert_eq!(Position::new(3, 0).left(), None);
}

#[test]
fn test_position_right() {
    let pos = Position::new(3, 5);
    assert_eq!(pos.right(), Position::new(3, 6));
}

#[test]
fn test_position_up_left() {
    let pos = Position::new(3, 5);
    assert_eq!(pos.up_left(), Some(Position::new(2, 4)));
    assert_eq!(Position::new(0, 5).up_left(), None);
}

#[test]
fn test_position_down_right() {
    let pos = Position::new(3, 5);
    assert_eq!(pos.down_right(), Position::new(4, 6));
}

#[test]
fn test_position_manhattan_distance() {
    let pos1 = Position::new(1, 1);
    let pos2 = Position::new(4, 5);
    assert_eq!(pos1.manhattan_distance(&pos2), 7);
}

#[test]
fn test_position_flatten() {
    let pos = Position::new(2, 3);
    assert_eq!(pos.flatten(7), 17);
}

#[test]
fn test_position_from_flat() {
    let pos = Position::from_flat(17, 7);
    assert_eq!(pos, Position::new(2, 3));
}

#[test]
fn test_offset_new() {
    let offset = Offset::new(-1, 2);
    assert_eq!(offset.row_offset, -1);
    assert_eq!(offset.col_offset, 2);
}

#[test]
fn test_offset_directions() {
    assert_eq!(Offset::up(), Offset::new(-1, 0));
    assert_eq!(Offset::down(), Offset::new(1, 0));
    assert_eq!(Offset::left(), Offset::new(0, -1));
    assert_eq!(Offset::right(), Offset::new(0, 1));
}

#[test]
fn test_offset_manhattan() {
    let offset = Offset::new(3, 4);
    assert_eq!(offset.manhattan(), 7);
}

#[test]
fn coordinates_test_direction_all() {
    let directions = Direction::all();
    assert_eq!(directions.len(), 8);
}

#[test]
fn coordinates_test_direction_cardinal() {
    let cardinal = Direction::cardinal();
    assert_eq!(cardinal.len(), 4);
    assert!(cardinal.contains(&Direction::North));
    assert!(!cardinal.contains(&Direction::Northeast));
}

#[test]
fn test_direction_offset() {
    assert_eq!(Direction::North.offset(), Offset::up());
    assert_eq!(Direction::South.offset(), Offset::down());
    assert_eq!(Direction::Northeast.offset(), Offset::up_right());
}

#[test]
fn test_direction_apply() {
    let pos = Position::new(3, 3);
    assert_eq!(Direction::North.apply(&pos), Some(Position::new(2, 3)));
    assert_eq!(Direction::East.apply(&pos), Some(Position::new(3, 4)));
    assert_eq!(Direction::West.apply(&Position::new(0, 0)), None);
}

#[test]
fn coordinates_test_direction_opposite() {
    assert_eq!(Direction::North.opposite(), Direction::South);
    assert_eq!(Direction::East.opposite(), Direction::West);
    assert_eq!(Direction::Northeast.opposite(), Direction::Southwest);
}

#[test]
fn coordinates_test_direction_is_cardinal() {
    assert!(Direction::North.is_cardinal());
    assert!(Direction::East.is_cardinal());
    assert!(!Direction::Northeast.is_cardinal());
}

#[test]
fn coordinates_test_direction_is_diagonal() {
    assert!(Direction::Northeast.is_diagonal());
    assert!(Direction::Southwest.is_diagonal());
    assert!(!Direction::North.is_diagonal());
}

#[test]
fn test_position_add_direction() {
    let pos = Position::new(3, 3);
    let result = pos + Direction::North;
    assert_eq!(result, Some(Position::new(2, 3)));
}

#[test]
fn test_position_add_offset() {
    let pos = Position::new(3, 3);
    let offset = Offset::new(1, 2);
    let result = pos + offset;
    assert_eq!(result, Position::new(4, 5));
}

#[test]
fn test_position_sub() {
    let pos1 = Position::new(5, 7);
    let pos2 = Position::new(3, 4);
    let offset = pos1 - pos2;
    assert_eq!(offset, Offset::new(2, 3));
}

#[test]
fn coordinates_opposite_twice_restores() {
    for d in Direction::all() {
        assert_eq!(d.opposite().opposite(), d);
    }
}

#[test]
fn position_flatten_round_trip() {
    let pos = Position::new(4, 6);
    assert_eq!(Position::from_flat(pos.flatten(7), 7), pos);
}
