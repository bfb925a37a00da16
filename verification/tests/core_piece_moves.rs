use connect_four::cell::Cell;
use connect_four::coordinates::Position;
use connect_four::move_result::{InvalidMoveReason, MoveInfo, MoveResult, MoveStats, ValidationStatus};
use connect_four::piece::{Piece, PieceInventory, PieceStack, SpecialType};
use connect_four::player::Player;

#[test]
fn test_piece_new() {
    let piece = Piece::new(Cell::Player1, 1);
    assert_eq!(piece.cell_type(), Cell::Player1);
    assert_eq!(piece.owner(), 1);
}

#[test]
fn test_piece_player1() {
    let piece = Piece::player1();
    assert_eq!(piece.cell_type(), Cell::Player1);
    assert_eq!(piece.owner(), 1);
}

#[test]
fn test_piece_is_special() {
    let regular = Piece::player1();
    let special = Piece::explosive(1);
    assert!(!regular.is_special());
    assert!(special.is_special());
}

#[test]
fn test_special_type_name() {
    assert_eq!(SpecialType::Regular.name(), "None");
    assert_eq!(SpecialType::Explosive.name(), "Explosive");
}

#[test]
fn test_piece_stack() {
    let mut stack = PieceStack::new(6);
    assert!(stack.is_empty());
    assert!(!stack.is_full());

    stack.push(Piece::player1()).unwrap();
    assert_eq!(stack.height(), 1);
    assert!(!stack.is_empty());

    let top = stack.top();
    assert!(top.is_some());
}

#[test]
fn test_piece_stack_full() {
    let mut stack = PieceStack::new(2);
    stack.push(Piece::player1()).unwrap();
    stack.push(Piece::player2()).unwrap();
    assert!(stack.is_full());

    let result = stack.push(Piece::player1());
    assert!(result.is_err());
}

#[test]
fn test_piece_inventory() {
    let inventory = PieceInventory::with_limited(3, 2, 1, 0);
    assert_eq!(inventory.blockers(), 3);
    assert_eq!(inventory.explosives(), 2);
}

#[test]
fn test_piece_inventory_use_special() {
    let mut inventory = PieceInventory::with_limited(3, 2, 1, 0);
    let piece = inventory.use_special(SpecialType::Blocker, 1);
    assert!(piece.is_some());
    assert_eq!(inventory.blockers(), 2);
}

#[test]
fn test_piece_inventory_use_special_none() {
    let mut inventory = PieceInventory::new();
    let piece = inventory.use_special(SpecialType::Blocker, 1);
    assert!(piece.is_none());
}

#[test]
fn piece_stack_push_then_pop_restores() {
    let mut stack = PieceStack::new(3);
    stack.push(Piece::player1()).unwrap();
    stack.push(Piece::player2()).unwrap();
    let popped = stack.pop();
    assert_eq!(popped.map(|p| p.cell_type()), Some(Cell::Player2));
    assert_eq!(stack.height(), 1);
}

#[test]
fn test_move_result_success() {
    let pos = Position::new(5, 3);
    let result = MoveResult::success(pos);
    assert!(result.is_success());
    assert_eq!(result.position(), Some(pos));
    assert!(!result.is_win());
}

#[test]
fn test_move_result_winning() {
    let pos = Position::new(5, 3);
    let result = MoveResult::winning_move(pos);
    assert!(result.is_success());
    assert!(result.is_win());
}

#[test]
fn test_move_result_invalid() {
    let result = MoveResult::invalid(InvalidMoveReason::ColumnFull);
    assert!(result.is_invalid());
    assert_eq!(result.invalid_reason(), Some(InvalidMoveReason::ColumnFull));
}

#[test]
fn test_invalid_move_reason_description() {
    assert_eq!(InvalidMoveReason::ColumnOutOfBounds.description(), "Column is out of bounds");
}

#[test]
fn test_move_info() {
    let info = MoveInfo::new(Player::Player1, 3, 5, Cell::Player1, 12345);
    assert_eq!(info.player, Player::Player1);
    assert_eq!(info.column, 3);
    assert_eq!(info.row, 5);
}

#[test]
fn test_move_stats() {
    let mut stats = MoveStats::new();
    stats.set_time(1000);
    stats.add_positions(100);
    stats.add_cutoff();
    assert_eq!(stats.time_ms, 1000);
    assert_eq!(stats.positions_considered, 100);
    assert_eq!(stats.cutoffs, 1);
}

#[test]
fn test_validation_status() {
    let valid = ValidationStatus::Valid;
    assert!(valid.is_valid());
    assert!(!valid.is_invalid());

    let invalid = ValidationStatus::Invalid(InvalidMoveReason::Invalid);
    assert!(invalid.is_invalid());
}

#[test]
fn move_result_text() {
    assert_eq!(MoveResult::invalid(InvalidMoveReason::ColumnFull).to_string(), "Invalid move: Column is full");
    assert_eq!(MoveResult::game_over(None).to_string(), "Game over. It's a draw!");
}

#[test]
fn move_stats_add_positions_saturates() {
    let mut stats = MoveStats::new();
    stats.add_positions(u32::MAX);
    stats.add_positions(5);
    assert_eq!(stats.positions_considered, u32::MAX);
}
