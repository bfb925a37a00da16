use connect_four::board::Board;
use connect_four::cell::Cell;
use connect_four::coordinates::Position;
use connect_four::coordinates::Direction;

#[test]
fn test_board_new() {
    let board = Board::new(6, 7);
    assert_eq!(board.rows(), 6);
    assert_eq!(board.cols(), 7);
    assert_eq!(board.size(), 42);
}

#[test]
fn test_board_standard() {
    let board = Board::standard();
    assert_eq!(board.rows(), 6);
    assert_eq!(board.cols(), 7);
}

#[test]
fn test_board_from_cells() {
    let cells = vec![vec![Cell::Empty, Cell::Player1]];
    let board = Board::from_cells(&cells).unwrap();
    assert_eq!(board.rows(), 1);
    assert_eq!(board.cols(), 2);
}

#[test]
fn test_board_set_get() {
    let mut board = Board::new(3, 3);
    let pos = Position::new(1, 1);

    board.set(&pos, Cell::Player1).unwrap();
    assert_eq!(board.get(&pos), Some(Cell::Player1));
}

#[test]
fn test_board_clear() {
    let mut board = Board::new(3, 3);
    board.set_at(1, 1, Cell::Player1).unwrap();
    board.clear();
    assert!(board.is_empty_board());
}

#[test]
fn test_board_is_column_full() {
    let mut board = Board::new(3, 3);
    assert!(!board.is_column_full(0));

    for row in 0..3 {
        board.set_at(row, 0, Cell::Player1).unwrap();
    }
    assert!(board.is_column_full(0));
}

#[test]
fn test_board_lowest_empty_row() {
    let mut board = Board::new(6, 7);

    board.set_at(5, 3, Cell::Player1).unwrap();
    assert_eq!(board.lowest_empty_row(3), Some(4));

    board.set_at(4, 3, Cell::Player2).unwrap();
    assert_eq!(board.lowest_empty_row(3), Some(3));
}

#[test]
fn test_board_count_cells() {
    let mut board = Board::new(3, 3);
    board.set_at(0, 0, Cell::Player1).unwrap();
    board.set_at(0, 1, Cell::Player2).unwrap();

    assert_eq!(board.count_cells(Cell::Player1), 1);
    assert_eq!(board.count_cells(Cell::Player2), 1);
    assert_eq!(board.empty_count(), 7);
}

#[test]
fn test_board_is_full() {
    let mut board = Board::new(2, 2);
    assert!(!board.is_full());

    for row in 0..2 {
        for col in 0..2 {
            board.set_at(row, col, Cell::Player1).unwrap();
        }
    }
    assert!(board.is_full());
}

#[test]
fn test_board_column() {
    let mut board = Board::new(3, 2);
    board.set_at(0, 0, Cell::Player1).unwrap();
    board.set_at(1, 0, Cell::Player2).unwrap();

    let col = board.column(0).unwrap();
    assert_eq!(col, vec![Cell::Player1, Cell::Player2, Cell::Empty]);
}

#[test]
fn test_board_rotate() {
    let mut board = Board::new(2, 3);
    board.set_at(0, 0, Cell::Player1).unwrap();
    board.set_at(0, 2, Cell::Player2).unwrap();

    board.rotate_clockwise();
    assert_eq!(board.rows(), 3);
    assert_eq!(board.cols(), 2);
}

#[test]
fn test_board_flip() {
    let mut board = Board::new(2, 3);
    board.set_at(0, 0, Cell::Player1).unwrap();
    board.set_at(0, 2, Cell::Player2).unwrap();

    board.flip_horizontal();
    assert_eq!(board.get_at(0, 0), Some(Cell::Player2));
    assert_eq!(board.get_at(0, 2), Some(Cell::Player1));
}

#[test]
fn test_board_hash() {
    let board1 = Board::standard();
    let board2 = Board::standard();
    assert_eq!(board1.hash(), board2.hash());
}

#[test]
fn test_board_index() {
    let mut board = Board::new(3, 3);
    let pos = Position::new(1, 1);
    board.set(&pos, Cell::Player1).unwrap();
    assert_eq!(board[pos], Cell::Player1);
}

#[test]
fn test_board_iterator() {
    let board = Board::new(2, 2);
    let mut it = board.positions();
    let mut positions: Vec<Position> = Vec::new();
    while let Some(p) = it.next() {
        positions.push(p);
    }
    assert_eq!(positions.len(), 4);
}

#[test]
fn board_rotate_four_times_restores() {
    let mut board = Board::new(2, 3);
    board.set_at(0, 0, Cell::Player1).unwrap();
    board.set_at(1, 2, Cell::Player2).unwrap();
    let before = board.clone();
    for _ in 0..4 {
        board.rotate_clockwise();
    }
    for r in 0..2 {
        for c in 0..3 {
            assert_eq!(board.get_at(r, c), before.get_at(r, c));
        }
    }
}

#[test]
fn board_flip_twice_restores() {
    let mut board = Board::new(2, 3);
    board.set_at(0, 1, Cell::Player1).unwrap();
    board.flip_horizontal();
    assert_eq!(board.get_at(0, 1), Some(Cell::Player1));
    board.flip_vertical();
    board.flip_vertical();
    board.flip_horizontal();
    assert_eq!(board.get_at(0, 1), Some(Cell::Player1));
}

#[test]
fn board_from_cells_errors() {
    let empty: Vec<Vec<Cell>> = Vec::new();
    assert_eq!(Board::from_cells(&empty).unwrap_err(), "Board cannot be empty");
    let ragged = vec![vec![Cell::Empty, Cell::Empty], vec![Cell::Empty]];
    assert_eq!(Board::from_cells(&ragged).unwrap_err(), "All rows must have the same length");
}

#[test]
fn board_set_out_of_bounds_is_error() {
    let mut board = Board::new(2, 2);
    assert!(board.set_at(5, 0, Cell::Player1).is_err());
    assert!(board.is_empty_board());
}

#[test]
fn board_winning_line_counts_its_start() {
    // Four in a row along the bottom make a line of four from either end.
    let mut board = Board::new(6, 7);
    for c in 0..4 {
        board.set_at(5, c, Cell::Player1).unwrap();
    }
    assert!(board.has_line(&Position::new(5, 0), Direction::East, Cell::Player1, 4));
    assert!(!board.has_line(&Position::new(5, 0), Direction::East, Cell::Player1, 5));
    assert!(board.has_line(&Position::new(5, 3), Direction::West, Cell::Player1, 4));
    assert!(board.has_line(&Position::new(5, 2), Direction::East, Cell::Player1, 4));
    assert!(board.has_winning_line(Cell::Player1, 4));
    assert!(!board.has_winning_line(Cell::Player1, 5));
    assert!(!board.has_winning_line(Cell::Player2, 1));
}

#[test]
fn board_map_cells_rewrites_every_cell() {
    let mut board = Board::new(2, 3);
    board.set(&Position::new(1, 2), Cell::Player2).unwrap();
    board.map_cells(|pos, cell| {
        if cell == Cell::Empty && pos.col == 0 {
            Cell::Player1
        } else {
            cell
        }
    });
    assert_eq!(board.get(&Position::new(0, 0)), Some(Cell::Player1));
    assert_eq!(board.get(&Position::new(1, 0)), Some(Cell::Player1));
    assert_eq!(board.get(&Position::new(0, 1)), Some(Cell::Empty));
    assert_eq!(board.get(&Position::new(1, 2)), Some(Cell::Player2));
}

#[test]
fn board_filter_cells_keeps_row_major_order() {
    let mut board = Board::new(2, 2);
    board.set(&Position::new(1, 1), Cell::Player1).unwrap();
    board.set(&Position::new(0, 1), Cell::Player2).unwrap();
    let occupied = board.filter_cells(|entry| entry.1 != Cell::Empty);
    assert_eq!(
        occupied,
        vec![(Position::new(0, 1), Cell::Player2), (Position::new(1, 1), Cell::Player1)]
    );
    let none = board.filter_cells(|_| false);
    assert!(none.is_empty());
}

#[test]
fn board_index_reads_the_cell() {
    let mut board = Board::new(6, 7);
    board.set(&Position::new(5, 3), Cell::Player2).unwrap();
    assert_eq!(board[Position::new(5, 3)], Cell::Player2);
    assert_eq!(board[Position::new(0, 0)], Cell::Empty);
}

#[test]
fn board_positions_walk_nothing_without_columns() {
    let mut it = connect_four::board::BoardPositionIterator::new(3, 0);
    assert_eq!(it.len(), 0);
    assert!(it.next().is_none());
    assert!(it.next().is_none());
}

#[test]
fn board_piece_counts_add_up_to_the_occupied_cells() {
    let mut board = Board::new(3, 4);
    board.set_at(0, 0, Cell::Player1).unwrap();
    board.set_at(0, 1, Cell::Player2).unwrap();
    board.set_at(1, 1, Cell::Wall).unwrap();
    board.set_at(2, 3, Cell::Wild).unwrap();
    let kinds = [Cell::Player1, Cell::Player2, Cell::Blocker, Cell::Explosive, Cell::Wall, Cell::Bomb, Cell::Wild];
    let sum: usize = kinds.iter().map(|&k| board.count_cells(k)).sum();
    assert_eq!(sum, board.occupied_count());
    assert_eq!(board.occupied_count() + board.empty_count(), board.size());
    assert!(!board.is_full());
}
