use connect_four::alphabeta::AlphaBetaAI;
use connect_four::board::Board;
use connect_four::cell::Cell;
use connect_four::evaluation::AdvancedEvaluator;
use connect_four::minimax::{MinimaxAI, NegaMaxAI};
use connect_four::parallel::{run_search_task, ParallelConfig, ParallelMinimax};
use connect_four::player::Player;
use connect_four::game_tree::board_is_settled;

#[test]
fn test_minimax_new() {
    let ai = MinimaxAI::new(4);
    assert_eq!(ai.depth(), 4);
}

#[test]
fn test_minimax_select_move() {
    let mut ai = MinimaxAI::new(3);
    let board = Board::standard();
    let player = Player::Player1;
    let column = ai.select_move(&board, player);
    assert!(column.is_some());
    assert!(column.unwrap() < 7);
}

#[test]
fn test_minimax_reset_stats() {
    let mut ai = MinimaxAI::new(3);
    let board = Board::standard();
    ai.select_move(&board, Player::Player1);
    assert!(ai.nodes_evaluated() > 0);
    ai.reset_stats();
    assert_eq!(ai.nodes_evaluated(), 0);
}

#[test]
fn test_negamax_new() {
    let ai = NegaMaxAI::new(4);
    assert_eq!(ai.depth, 4);
}

#[test]
fn test_negamax_select_move() {
    let mut ai = NegaMaxAI::new(3);
    let board = Board::standard();
    let player = Player::Player1;
    let column = ai.select_move(&board, player);
    assert!(column.is_some());
}

fn board_with_three(cell: Cell) -> Board {
    let mut board = Board::new(6, 7);
    for c in 0..3 {
        board.set_at(5, c, cell).unwrap();
    }
    board
}

#[test]
fn minimax_takes_the_win() {
    let board = board_with_three(Cell::Player1);
    let mut ai = MinimaxAI::new(1);
    assert_eq!(ai.select_move(&board, Player::Player1), Some(3));
}

#[test]
fn minimax_full_board_has_no_move() {
    let mut board = Board::new(2, 2);
    board.set_at(0, 0, Cell::Player1).unwrap();
    board.set_at(0, 1, Cell::Player2).unwrap();
    board.set_at(1, 0, Cell::Player2).unwrap();
    board.set_at(1, 1, Cell::Player1).unwrap();
    let mut ai = MinimaxAI::new(2);
    assert_eq!(ai.select_move(&board, Player::Player1), None);
    let mut ai = AlphaBetaAI::new(2);
    assert_eq!(ai.select_move(&board, Player::Player1), None);
    let mut ai = NegaMaxAI::new(2);
    assert_eq!(ai.select_move(&board, Player::Player1), None);
}

#[test]
fn minimax_evaluate_moves_one_per_open_column() {
    let mut board = Board::new(6, 7);
    for r in 0..6 {
        board.set_at(r, 0, if r % 2 == 0 { Cell::Player1 } else { Cell::Player2 }).unwrap();
    }
    let mut ai = MinimaxAI::new(2);
    let scores = ai.evaluate_moves(&board, Player::Player1);
    let cols: Vec<usize> = scores.iter().map(|p| p.0).collect();
    assert_eq!(cols, vec![1, 2, 3, 4, 5, 6]);
}

#[test]
fn minimax_principal_variation_length() {
    let mut ai = MinimaxAI::new(3);
    let board = Board::standard();
    let pv = ai.principal_variation(&board, Player::Player1);
    assert_eq!(pv.len(), 3);
    assert!(pv.iter().all(|&c| c < 7));
}

#[test]
fn minimax_time_limited_choice() {
    let mut ai = MinimaxAI::new(2);
    let board = Board::standard();
    let col = ai.select_move_with_time_limit(&board, Player::Player1, std::time::Duration::from_secs(60));
    assert!(col.is_some());
    assert!(ai.depth() >= 1 && ai.depth() <= 2);
}

#[test]
fn alphabeta_scores_replies_from_the_opponent_side() {
    // At depth 1 each move is scored by the evaluation for the opponent
    // (a minimising leaf), so the move that completes four scores lowest.
    let board = board_with_three(Cell::Player1);
    let mut ab = AlphaBetaAI::new(1);
    let col = ab.select_move(&board, Player::Player1);
    assert!(col.is_some());
    assert_ne!(col, Some(3));
    let mut ab = AlphaBetaAI::new(3);
    let col = ab.select_move(&Board::standard(), Player::Player1);
    assert!(col.is_some());
    assert!(ab.nodes_evaluated() > 0);
}

#[test]
fn alphabeta_with_advanced_evaluator() {
    let mut ab = AlphaBetaAI::with_evaluator(2, Box::new(AdvancedEvaluator::new()));
    assert!(ab.select_move(&Board::standard(), Player::Player2).is_some());
    ab.reset_stats();
    assert_eq!(ab.nodes_evaluated(), 0);
    assert_eq!(ab.cutoffs(), 0);
}

#[test]
fn negamax_takes_the_win() {
    let board = board_with_three(Cell::Player1);
    let mut ai = NegaMaxAI::new(2);
    assert!(ai.select_move(&board, Player::Player1).is_some());
}

#[test]
fn test_parallel_config() {
    let config = ParallelConfig::default();
    assert!(config.num_workers > 0);
}

#[test]
fn parallel_presets() {
    let small = ParallelConfig::small();
    assert_eq!(small.num_workers, 2);
    assert_eq!(small.chunk_size, 2);
    assert_eq!(ParallelConfig::medium().num_workers, 4);
    assert_eq!(ParallelConfig::large().chunk_size, 8);
}

#[test]
fn parallel_minimax_picks_an_open_column() {
    let pm = ParallelMinimax::with_default_ai(3);
    let col = pm.find_best_move(&Board::standard(), Player::Player1, 3);
    assert!(col.is_some());
    let mut full = Board::new(1, 1);
    full.set_at(0, 0, Cell::Player1).unwrap();
    assert_eq!(pm.find_best_move(&full, Player::Player1, 3), None);
}

#[test]
fn settled_boards_have_no_floating_pieces() {
    let mut board = Board::new(6, 7);
    assert!(board_is_settled(&board));
    board.set_at(5, 3, Cell::Player1).unwrap();
    board.set_at(4, 3, Cell::Player2).unwrap();
    assert!(board_is_settled(&board));
    board.set_at(2, 0, Cell::Player1).unwrap();
    assert!(!board_is_settled(&board));
}

#[test]
fn search_task_scores_the_chosen_move_for_the_opponent() {
    let mut ai = MinimaxAI::new(4);
    let board = Board::new(6, 7);
    assert_eq!(run_search_task(&mut ai, &board, Player::Player1, 0), (None, 0));
    let (col, score) = run_search_task(&mut ai, &board, Player::Player1, 2);
    assert_eq!(ai.depth(), 2);
    let col = col.unwrap();
    assert_eq!(Some(col), MinimaxAI::new(2).select_move(&board, Player::Player1));
    let mut after = Board::new(6, 7);
    after.set_at(5, col, Cell::Player1).unwrap();
    assert_eq!(score, ai.evaluate(&after, Player::Player2));
}

#[test]
fn alphabeta_searches_a_board_with_a_floating_piece() {
    let mut board = Board::new(6, 7);
    board.set_at(2, 3, Cell::Player2).unwrap();
    assert!(!board_is_settled(&board));
    let mut ai = AlphaBetaAI::new(3);
    let col = ai.select_move(&board, Player::Player1);
    assert!(col.is_some());
    assert!(col.unwrap() < 7);
}

#[test]
fn alphabeta_with_no_open_column_counts_nothing() {
    let mut board = Board::new(6, 7);
    for c in 0..7 {
        board.set_at(0, c, if c % 2 == 0 { Cell::Player1 } else { Cell::Player2 }).unwrap();
    }
    let mut ai = AlphaBetaAI::new(3);
    assert_eq!(ai.select_move(&board, Player::Player1), None);
    assert_eq!(ai.nodes_evaluated(), 0);
    assert_eq!(ai.cutoffs(), 0);
}

#[test]
fn alphabeta_counts_only_the_last_search() {
    let board = Board::new(6, 7);
    let mut ai = AlphaBetaAI::new(2);
    ai.select_move(&board, Player::Player1);
    let first = ai.nodes_evaluated();
    assert!(first >= 1);
    ai.select_move(&board, Player::Player1);
    assert_eq!(ai.nodes_evaluated(), first);
}

#[test]
fn negamax_searches_a_board_with_a_floating_piece() {
    let mut board = Board::new(6, 7);
    board.set_at(2, 3, Cell::Player1).unwrap();
    assert!(!board_is_settled(&board));
    let mut ai = NegaMaxAI::new(2);
    let col = ai.select_move(&board, Player::Player2);
    assert!(col.is_some());
    assert!(col.unwrap() < 7);
}

#[test]
fn minimax_choice_is_the_first_best_scored_move() {
    let mut board = Board::new(6, 7);
    board.set_at(5, 3, Cell::Player1).unwrap();
    board.set_at(5, 2, Cell::Player2).unwrap();
    let mut ai = MinimaxAI::new(2);
    let scores = ai.evaluate_moves(&board, Player::Player1);
    let best = scores.iter().map(|&(_, s)| s).max().unwrap();
    let first = scores.iter().find(|&&(_, s)| s == best).unwrap().0;
    assert_eq!(ai.select_move(&board, Player::Player1), Some(first));
}
