use connect_four::board::Board;
use connect_four::cell::Cell;
use connect_four::endgame::{EndgameConfig, EndgameDatabase, EndgameDatabaseBuilder, EndgameResult, EndgameSolver, PerfectPlayCalculator};
use connect_four::player::Player;

#[test]
fn test_endgame_result_from_outcome() {
    assert_eq!(EndgameResult::from_outcome(Some(Player::Player1), Player::Player1), EndgameResult::Win);
    assert_eq!(EndgameResult::from_outcome(Some(Player::Player2), Player::Player1), EndgameResult::Loss);
    assert_eq!(EndgameResult::from_outcome(None, Player::Player1), EndgameResult::Draw);
}

#[test]
fn test_endgame_result_negate() {
    assert_eq!(EndgameResult::Win.negate(), EndgameResult::Loss);
    assert_eq!(EndgameResult::Loss.negate(), EndgameResult::Win);
    assert_eq!(EndgameResult::Draw.negate(), EndgameResult::Draw);
}

#[test]
fn test_endgame_config() {
    let quick = EndgameConfig::quick();
    assert_eq!(quick.max_depth, 20);
    let deep = EndgameConfig::deep();
    assert_eq!(deep.max_depth, 42);
    let tournament = EndgameConfig::tournament();
    assert_eq!(tournament.max_depth, 30);
}

#[test]
fn test_endgame_solver_creation() {
    let solver = EndgameSolver::default();
    assert_eq!(solver.stats().positions_evaluated, 0);
}

#[test]
fn test_endgame_database() {
    let mut db = EndgameDatabase::new();
    db.add_position(12345, EndgameResult::Win);
    assert_eq!(db.stats().total_positions, 1);
    assert_eq!(db.stats().winning_positions, 1);
    let result = db.lookup(12345);
    assert_eq!(result, Some(EndgameResult::Win));
}

#[test]
fn test_perfect_play_calculator() {
    let mut calc = PerfectPlayCalculator::default();
    let board = Board::new(6, 7);
    let analysis = calc.calculate(&board, Player::Player1);
    assert!(analysis.best_move.is_some() || analysis.result == EndgameResult::Draw);
}

#[test]
fn test_endgame_result_value() {
    assert_eq!(EndgameResult::Win.value(), 1);
    assert_eq!(EndgameResult::Draw.value(), 0);
    assert_eq!(EndgameResult::Loss.value(), -1);
}

#[test]
fn endgame_negate_twice_restores() {
    for r in [EndgameResult::Win, EndgameResult::Draw, EndgameResult::Loss] {
        assert_eq!(r.negate().negate(), r);
    }
}

#[test]
fn endgame_solver_finds_immediate_win() {
    // Player 1 has three in the bottom row and completes four in column 3.
    let mut board = Board::new(6, 7);
    for c in 0..3 {
        board.set_at(5, c, Cell::Player1).unwrap();
        board.set_at(4, c, Cell::Player2).unwrap();
    }
    for c in 4..7 {
        board.set_at(5, c, Cell::Player2).unwrap();
        board.set_at(4, c, Cell::Player1).unwrap();
    }
    let config = EndgameConfig { max_depth: 2, enable_transposition: false, timeout_ms: None, iterative_deepening: true, piece_threshold: 0, ..EndgameConfig::quick() };
    let mut solver = EndgameSolver::new(config);
    let (best, result) = solver.solve(&board, Player::Player1);
    assert_eq!(result, EndgameResult::Win);
    assert_eq!(best, Some(3));
}

#[test]
fn endgame_database_clear_empties() {
    let mut db = EndgameDatabase::new();
    db.add_position(1, EndgameResult::Loss);
    db.add_position(2, EndgameResult::Draw);
    assert_eq!(db.stats().total_positions, 2);
    db.clear();
    assert_eq!(db.lookup(1), None);
    assert_eq!(db.stats().total_positions, 0);
}

#[test]
fn database_lookup_gives_back_the_latest_result() {
    let mut db = EndgameDatabase::new();
    db.add_position(7, EndgameResult::Win);
    db.add_position(8, EndgameResult::Draw);
    db.add_position(7, EndgameResult::Loss);
    assert_eq!(db.lookup(7), Some(EndgameResult::Loss));
    assert_eq!(db.lookup(8), Some(EndgameResult::Draw));
    assert_eq!(db.lookup(9), None);
}

#[test]
fn database_entries_load_back_into_the_same_results() {
    let mut db = EndgameDatabase::new();
    db.add_position(1, EndgameResult::Win);
    db.add_position(2, EndgameResult::Loss);
    db.add_position(3, EndgameResult::Draw);
    db.add_position(2, EndgameResult::Win);
    let entries = db.entries();
    assert_eq!(entries.len(), 3);
    let mut copy = EndgameDatabase::new();
    copy.load_entries(&entries);
    for hash in 0..5u64 {
        assert_eq!(copy.lookup(hash), db.lookup(hash));
    }
    assert_eq!(copy.stats().total_positions, 3);
    assert_eq!(copy.stats().winning_positions, 2);
    assert_eq!(copy.stats().losing_positions, 0);
    assert_eq!(copy.stats().drawing_positions, 1);
}

#[test]
fn builder_records_every_position_two_moves_deep() {
    let mut builder = EndgameDatabaseBuilder::new(EndgameConfig::default());
    let db = builder.build(2);
    assert_eq!(db.stats().total_positions, 49);
    assert_eq!(db.entries().len(), 49);
    assert_eq!(db.stats().drawing_positions, 49);
}

#[test]
fn endgame_solve_below_threshold_leaves_counters_at_zero() {
    let board = Board::new(6, 7);
    let mut solver = EndgameSolver::new(EndgameConfig::default());
    let (best, result) = solver.solve(&board, Player::Player1);
    assert_eq!(best, None);
    assert_eq!(result, EndgameResult::Draw);
    assert_eq!(solver.stats().positions_evaluated, 0);
    assert_eq!(solver.stats().best_move, None);
    assert_eq!(solver.stats().depth_reached, 0);
}

#[test]
fn endgame_full_depth_solve_reports_no_move() {
    let mut board = Board::new(6, 7);
    for c in 0..3 {
        board.set_at(5, c, Cell::Player1).unwrap();
        board.set_at(4, c, Cell::Player2).unwrap();
    }
    let config = EndgameConfig { max_depth: 1, enable_transposition: false, timeout_ms: None, iterative_deepening: false, piece_threshold: 0, ..EndgameConfig::quick() };
    let mut solver = EndgameSolver::new(config);
    let (best, result) = solver.solve(&board, Player::Player1);
    assert_eq!(result, EndgameResult::Win);
    assert_eq!(best, None);
    assert!(solver.stats().depth_reached <= 1);
}

#[test]
fn endgame_all_moves_with_deepening_marks_the_losing_replies() {
    // Player 1 to move; Player 2 threatens four in the bottom row at column 3.
    let mut board = Board::new(6, 7);
    for c in 0..3 {
        board.set_at(5, c, Cell::Player2).unwrap();
    }
    board.set_at(5, 6, Cell::Player1).unwrap();
    board.set_at(4, 6, Cell::Player1).unwrap();
    let config = EndgameConfig { max_depth: 2, enable_transposition: false, timeout_ms: None, iterative_deepening: true, piece_threshold: 0, ..EndgameConfig::quick() };
    let mut calc = PerfectPlayCalculator::new(config);
    let outcomes = calc.calculate_all_moves(&board, Player::Player1);
    assert_eq!(outcomes.len(), 7);
    for o in &outcomes {
        if o.column == 3 {
            assert_ne!(o.result, EndgameResult::Loss);
        } else {
            assert_eq!(o.result, EndgameResult::Loss);
        }
    }
}

fn double_threat_board() -> Board {
    // Player 2 threatens the bottom row at column 3 and column 6 upwards:
    // whatever player 1 plays, player 2 wins next.
    let mut board = Board::new(6, 7);
    for c in 0..3 {
        board.set_at(5, c, Cell::Player2).unwrap();
        board.set_at(4, c, Cell::Player1).unwrap();
    }
    for r in 3..6 {
        board.set_at(r, 6, Cell::Player2).unwrap();
    }
    board
}

#[test]
fn endgame_every_move_losing_is_a_loss() {
    let board = double_threat_board();
    let config = EndgameConfig { max_depth: 2, enable_transposition: false, timeout_ms: None, iterative_deepening: true, piece_threshold: 0, ..EndgameConfig::quick() };
    let mut solver = EndgameSolver::new(config);
    let (_, result) = solver.solve(&board, Player::Player1);
    assert_eq!(result, EndgameResult::Loss);
}

#[test]
fn endgame_with_table_finds_the_same_loss() {
    let board = double_threat_board();
    let config = EndgameConfig { max_depth: 2, timeout_ms: None, piece_threshold: 0, ..EndgameConfig::default() };
    let mut solver = EndgameSolver::new(config);
    let (_, result) = solver.solve(&board, Player::Player1);
    assert_eq!(result, EndgameResult::Loss);
    let config = EndgameConfig { max_depth: 1, timeout_ms: None, piece_threshold: 0, iterative_deepening: false, ..EndgameConfig::default() };
    let mut solver = EndgameSolver::new(config);
    assert_eq!(solver.solve(&board, Player::Player1).1, EndgameResult::Draw);
}
