use connect_four::board::Board;
use connect_four::cell::Cell;
use connect_four::coordinates::Position;
use connect_four::engine::GameEngine;
use connect_four::game_config::{GameConfig, GameVariant};
use connect_four::game_state::{GameMove, GamePhase, GameState};
use connect_four::move_result::{InvalidMoveReason, ValidationStatus};
use connect_four::player::Player;
use connect_four::validation::{GameValidator, PositionValidator, ValidationReport};
use connect_four::variant::{GomokuVariant, StandardVariant, Variant, VariantFactory};

#[test]
fn test_standard_variant() {
    let variant = StandardVariant;
    assert_eq!(variant.board_dimensions(), (6, 7));
    assert_eq!(variant.win_length(), 4);
    assert_eq!(variant.name(), "Standard Connect Four");
}

#[test]
fn test_gomoku_variant() {
    let variant = GomokuVariant;
    assert_eq!(variant.board_dimensions(), (10, 10));
    assert_eq!(variant.win_length(), 5);
    assert_eq!(variant.name(), "Gomoku");
}

#[test]
fn test_create_board() {
    let board = StandardVariant.create_board();
    assert_eq!(board.rows(), 6);
    assert_eq!(board.cols(), 7);
}

#[test]
fn test_variant_factory() {
    let variant = VariantFactory::create(GameVariant::Gomoku);
    assert_eq!(variant.name(), "Gomoku");
}

#[test]
fn test_game_state_new() {
    let state = GameState::standard();
    assert!(!state.is_game_over());
    assert_eq!(state.current_player(), Player::Player1);
    assert_eq!(state.turn_number(), 1);
}

#[test]
fn test_game_state_advance_turn() {
    let mut state = GameState::standard();
    state.advance_turn();
    assert_eq!(state.current_player(), Player::Player2);
    assert_eq!(state.turn_number(), 2);
}

#[test]
fn test_game_state_end_with_winner() {
    let mut state = GameState::standard();
    state.end_with_winner(Player::Player1);
    assert!(state.is_game_over());
    assert_eq!(state.winner(), Some(Player::Player1));
    assert!(!state.is_draw());
}

#[test]
fn test_game_state_end_as_draw() {
    let mut state = GameState::standard();
    state.end_as_draw();
    assert!(state.is_game_over());
    assert!(state.winner().is_none());
    assert!(state.is_draw());
}

#[test]
fn test_game_move_new() {
    let game_move = GameMove::new(1, Player::Player1, 3, 5);
    assert_eq!(game_move.number(), 1);
    assert_eq!(game_move.player(), Player::Player1);
    assert_eq!(game_move.column(), 3);
    assert_eq!(game_move.row(), 5);
}

#[test]
fn test_game_phase_can_play() {
    assert!(GamePhase::Playing.can_play());
    assert!(!GamePhase::Waiting.can_play());
    assert!(!GamePhase::Ended.can_play());
}

#[test]
fn game_state_snapshot_restore_round_trip() {
    let mut state = GameState::standard();
    state.record_move(GameMove::new(1, Player::Player1, 3, 5));
    let snap = state.snapshot();
    state.record_move(GameMove::new(2, Player::Player2, 4, 5));
    state.advance_turn();
    state.end_as_draw();
    state.restore(snap);
    assert_eq!(state.move_count(), 1);
    assert!(!state.is_game_over());
    assert_eq!(state.current_player(), Player::Player1);
}

#[test]
fn game_state_check_win_row() {
    let mut board = Board::new(6, 7);
    for c in 0..3 {
        board.set_at(5, c, Cell::Player2).unwrap();
    }
    let state = GameState::new(board.clone(), Player::Player1);
    assert!(!state.check_win(Player::Player2));
    board.set_at(5, 3, Cell::Player2).unwrap();
    let state = GameState::new(board, Player::Player1);
    assert!(state.check_win(Player::Player2));
    assert!(!state.check_win(Player::Player1));
}

#[test]
fn test_validator_new() {
    let validator = GameValidator::new();
    assert_eq!(validator.config().rows, 6);
    assert_eq!(validator.config().cols, 7);
}

#[test]
fn test_validate_move_valid() {
    let validator = GameValidator::new();
    let state = GameState::standard();
    let status = validator.validate_move(&state, 3, Player::Player1);
    assert!(status.is_valid());
}

#[test]
fn test_validate_move_invalid_column() {
    let validator = GameValidator::new();
    let state = GameState::standard();
    let status = validator.validate_move(&state, 10, Player::Player1);
    assert!(status.is_invalid());
}

#[test]
fn test_validate_config() {
    let validator = GameValidator::new();
    let config = GameConfig::standard();
    let report = validator.validate_config(&config);
    assert!(report.is_ok());
}

#[test]
fn test_validation_report() {
    let mut report = ValidationReport::new();
    report.add_error("Test error");
    report.add_warning("Test warning");

    assert_eq!(report.error_count(), 1);
    assert_eq!(report.warning_count(), 1);
    assert!(!report.is_valid());
    assert!(report.has_warnings());
}

#[test]
fn test_position_validator() {
    let validator = PositionValidator::new(6, 7);
    let pos = Position::new(3, 4);
    assert!(validator.is_valid(&pos));

    let invalid_pos = Position::new(10, 4);
    assert!(!validator.is_valid(&invalid_pos));
}

#[test]
fn validate_move_reasons() {
    let validator = GameValidator::new();
    let state = GameState::standard();
    assert_eq!(validator.validate_move(&state, 3, Player::Player2), ValidationStatus::Invalid(InvalidMoveReason::NotYourTurn));
    let mut over = GameState::standard();
    over.end_as_draw();
    assert_eq!(validator.validate_move(&over, 3, Player::Player1), ValidationStatus::Invalid(InvalidMoveReason::GameOver));
}

#[test]
fn validate_move_sequence_reports_full_column() {
    let validator = GameValidator::new();
    let config = GameConfig::standard();
    let report = validator.validate_move_sequence(&[0, 0, 0, 0, 0, 0, 0, 9], &config);
    assert_eq!(report.errors().to_vec(), vec!["Move 7: Column 0 is full".to_string(), "Move 8: Column 9 out of bounds".to_string()]);
}

#[test]
fn position_validator_messages() {
    let validator = PositionValidator::new(6, 7);
    assert_eq!(validator.validate(&Position::new(6, 0)).unwrap_err(), "Row 6 exceeds maximum of 6");
    assert_eq!(validator.validate(&Position::new(0, 7)).unwrap_err(), "Column 7 exceeds maximum of 7");
}

#[test]
fn test_engine_new() {
    let config = GameConfig::standard();
    let engine = GameEngine::new(config).unwrap();
    assert_eq!(engine.current_player(), Player::Player1);
}

#[test]
fn test_engine_make_move() {
    let config = GameConfig::standard();
    let mut engine = GameEngine::new(config).unwrap();
    let result = engine.make_move(3, Player::Player1).unwrap();
    assert!(result.is_success());
}

#[test]
fn test_engine_valid_moves() {
    let config = GameConfig::standard();
    let engine = GameEngine::new(config).unwrap();
    let moves = engine.valid_moves();
    assert_eq!(moves.len(), 7);
}

#[test]
fn engine_move_lands_at_bottom_and_wins() {
    let mut engine = GameEngine::new(GameConfig::standard()).unwrap();
    let r = engine.make_move(3, Player::Player1).unwrap();
    assert_eq!(r.position(), Some(Position::new(5, 3)));
    assert_eq!(engine.current_player(), Player::Player2);
    let r = engine.make_move(3, Player::Player2).unwrap();
    assert_eq!(r.position(), Some(Position::new(4, 3)));
    let mut p = Player::Player1;
    let cols = [0, 6, 1, 6, 2];
    let mut last = None;
    for c in cols {
        last = Some(engine.make_move(c, p).unwrap());
        p = p.opponent();
    }
    assert!(last.unwrap().is_win());
    assert!(engine.is_game_over());
    assert_eq!(engine.winner(), Some(Player::Player1));
}

#[test]
fn engine_rejects_wrong_player() {
    let mut engine = GameEngine::new(GameConfig::standard()).unwrap();
    let r = engine.make_move(3, Player::Player2).unwrap();
    assert!(r.is_invalid());
}

#[test]
fn engine_restoring_a_snapshot_gives_the_state_back() {
    let mut engine = GameEngine::new(GameConfig::standard()).unwrap();
    engine.make_move(3, Player::Player1).unwrap();
    engine.make_move(4, Player::Player2).unwrap();
    let snapshot = engine.get_snapshot();
    let before = engine.get_state();
    engine.make_move(3, Player::Player1).unwrap();
    engine.make_move(2, Player::Player2).unwrap();
    assert_ne!(engine.get_state().board(), before.board());
    engine.restore_snapshot(snapshot).unwrap();
    let after = engine.get_state();
    assert_eq!(after.board(), before.board());
    assert_eq!(after.moves(), before.moves());
    assert_eq!(after.current_player(), Player::Player1);
    assert_eq!(after.turn_number(), before.turn_number());
    assert_eq!(after.game_id(), before.game_id());
}
