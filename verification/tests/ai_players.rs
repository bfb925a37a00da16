use connect_four::ai_player::{AIPlayerConfig, GameOutcome, ThinkingMode};
use connect_four::board::Board;
use connect_four::cell::Cell;
use connect_four::direction::Direction;
use connect_four::heuristic::{analyze_threats, board_hash, find_best_block, find_threats, PatternType, Threat, ThreatLevel, ThreatReport};
use connect_four::opening_book::{lessons_fit, opening_lessons, OpeningLesson, RandomOpeningGenerator};
use connect_four::zobrist::ZobristKeys;
use connect_four::player::Player;
use connect_four::strategy::{AIPlayer, AIStrategy, DifficultyLevel, StrategySelector};
use connect_four::time_management::{TimeControl, TimeTracker};

#[test]
fn test_ai_player_config_default() {
    let config = AIPlayerConfig::default();
    assert_eq!(config.name, "AI Player");
    assert_eq!(config.depth, 6);
}

#[test]
fn test_ai_player_config_difficulties() {
    let easy = AIPlayerConfig::easy();
    assert_eq!(easy.depth, 3);
    let medium = AIPlayerConfig::medium();
    assert_eq!(medium.depth, 6);
    let hard = AIPlayerConfig::hard();
    assert_eq!(hard.depth, 10);
}

#[test]
fn ai_player_config_levels() {
    assert_eq!(AIPlayerConfig::expert().difficulty, DifficultyLevel::Expert);
    assert_eq!(AIPlayerConfig::master().depth, 18);
    assert_eq!(AIPlayerConfig::easy().time_limit, Some(5000));
    assert_eq!(ThinkingMode::Normal, ThinkingMode::Normal);
    assert_ne!(GameOutcome::Win(Player::Player1), GameOutcome::Draw);
}

#[test]
fn test_strategy_name() {
    let strategy = AIStrategy::Minimax { depth: 5 };
    assert_eq!(strategy.name(), "Minimax");
}

#[test]
fn test_ai_player() {
    let strategy = AIStrategy::Random;
    let player = AIPlayer::new("Bot 1".to_string(), strategy);
    assert_eq!(player.name(), "Bot 1");
}

#[test]
fn test_difficulty_level() {
    assert_eq!(DifficultyLevel::Easy.as_str(), "Easy");
    assert_eq!(DifficultyLevel::Master.as_str(), "Master");
}

#[test]
fn strategy_selector_by_difficulty() {
    let sel = StrategySelector::new();
    assert!(matches!(sel.select_by_difficulty(DifficultyLevel::Easy), Some(AIStrategy::Minimax { depth: 3 })));
    assert!(matches!(sel.select_by_difficulty(DifficultyLevel::Medium), Some(AIStrategy::AlphaBeta { depth: 4 })));
    assert!(matches!(sel.select_by_difficulty(DifficultyLevel::Expert), Some(AIStrategy::MCTS { iterations: 10000 })));
    assert!(sel.select_by_difficulty(DifficultyLevel::Master).is_none());
}

#[test]
fn test_threat_properties() {
    let threat = Threat { count: 3, start: (0, 0), direction: Direction::East };
    assert!(!threat.is_winning());
    assert!(threat.is_critical());
}

#[test]
fn test_threat_report() {
    let report = ThreatReport { total_threats: 5, winning_threats: 0, critical_threats: 2, most_dangerous: None };
    assert_eq!(report.total_threats, 5);
    assert_eq!(report.threat_level(), ThreatLevel::Critical);
    assert!(!report.is_critical());
}

#[test]
fn pattern_lengths() {
    assert_eq!(PatternType::TwoGap.length(), 2);
    assert_eq!(PatternType::ThreeInRow.length(), 3);
    assert_eq!(PatternType::FourGap.length(), 4);
}

#[test]
fn threats_found_on_a_row_of_three() {
    let mut board = Board::new(6, 7);
    for c in 1..4 {
        board.set_at(5, c, Cell::Player2).unwrap();
    }
    let threats = find_threats(&board, Player::Player2);
    assert!(threats.iter().any(|t| t.count == 3 && t.start == (5, 1) && t.direction == Direction::East));
    let report = analyze_threats(&board, Player::Player2);
    assert_eq!(report.threat_level(), ThreatLevel::Critical);
    assert_eq!(report.most_dangerous.unwrap().count, 3);
    assert_eq!(find_best_block(&board, Player::Player2), Some(4));
    assert_eq!(analyze_threats(&board, Player::Player1).threat_level(), ThreatLevel::NoThreat);
}

#[test]
fn heuristic_board_hash_of_empty_board() {
    let board = Board::new(1, 2);
    assert_eq!(board_hash(&board, Player::Player1), 0);
    assert_eq!(board_hash(&board, Player::Player2), 31 * 31);
}

#[test]
fn test_time_control_fixed() {
    let tc = TimeControl::fixed(1000);
    assert_eq!(tc.initial_budget(), Some(1000));
}

#[test]
fn test_time_control_tournament() {
    let tc = TimeControl::tournament(40, 300, 10);
    assert_eq!(tc.increment(), 10_000);
}

#[test]
fn time_control_budgets() {
    assert_eq!(TimeControl::sudden_death(5).initial_budget(), Some(5000));
    assert_eq!(TimeControl::Unlimited.initial_budget(), None);
    assert_eq!(TimeControl::fixed(7).increment(), 0);
}

#[test]
fn time_tracker_records_stopped_timers() {
    let mut tracker = TimeTracker::new();
    tracker.start("test");
    assert!(tracker.stop("other").is_none());
    assert!(tracker.stop("test").is_some());
    assert!(tracker.stop("test").is_none());
    let durations = tracker.durations();
    assert_eq!(durations.len(), 1);
    assert_eq!(durations[0].0, "test");
}

#[test]
fn test_random_opening_generator() {
    let generator = RandomOpeningGenerator::new();
    let opening = generator.generate(5);
    assert_eq!(opening.len(), 5);
}

#[test]
fn test_random_opening_generator_batch() {
    let generator = RandomOpeningGenerator::new();
    let openings = generator.generate_batch(10, 5);
    assert_eq!(openings.len(), 10);
    assert!(openings.iter().all(|o| o.len() == 5));
}

#[test]
fn random_openings_are_legal_and_alternate() {
    let generator = RandomOpeningGenerator::new();
    let opening = generator.generate(50);
    assert_eq!(opening.len(), 42);
    let mut board = Board::new(6, 7);
    for (i, &(col, player)) in opening.iter().enumerate() {
        assert_eq!(player, if i % 2 == 0 { Player::Player1 } else { Player::Player2 });
        let row = board.lowest_empty_row(col).unwrap();
        board.set_at(row, col, player.cell()).unwrap();
    }
    assert!(board.is_full());
}

#[test]
fn opening_lessons_replay_the_landing_moves() {
    let keys = ZobristKeys::new();
    let moves = vec![
        (3, Player::Player1),
        (3, Player::Player2),
        (9, Player::Player1),
        (4, Player::Player1),
    ];
    let lessons = opening_lessons(&keys, &moves, GameOutcome::Win(Player::Player1), 4, 10);

    let mut board = Board::new(6, 7);
    board.set_at(5, 3, Cell::Player1).unwrap();
    let first = keys.hash(&board, Player::Player1);
    board.set_at(4, 3, Cell::Player2).unwrap();
    let second = keys.hash(&board, Player::Player2);
    board.set_at(5, 4, Cell::Player1).unwrap();
    let fourth = keys.hash(&board, Player::Player2);

    assert_eq!(
        lessons,
        vec![
            OpeningLesson { hash: first, column: 3, win_halves: 2, remaining: 4 },
            OpeningLesson { hash: second, column: 3, win_halves: 0, remaining: 3 },
            OpeningLesson { hash: fourth, column: 4, win_halves: 2, remaining: 1 },
        ]
    );
}

#[test]
fn opening_lessons_stop_at_the_depth_and_halve_draws() {
    let keys = ZobristKeys::new();
    let moves = vec![(0, Player::Player1), (1, Player::Player2), (2, Player::Player1)];
    let lessons = opening_lessons(&keys, &moves, GameOutcome::Draw, 3, 2);
    assert_eq!(lessons.len(), 2);
    assert!(lessons.iter().all(|l| l.win_halves == 1));
    assert_eq!(lessons[1].column, 1);
    assert_eq!(lessons[1].remaining, 2);
    assert!(opening_lessons(&keys, &moves, GameOutcome::Draw, 3, 0).is_empty());
}

#[test]
fn opening_lessons_fit_only_landing_moves_within_the_game() {
    let moves = vec![(3, Player::Player1), (3, Player::Player2), (9, Player::Player1), (4, Player::Player1)];
    assert!(lessons_fit(&moves, 3, 10));
    assert!(!lessons_fit(&moves, 2, 10));
    assert!(lessons_fit(&moves, 2, 3));
    assert!(lessons_fit(&moves, 0, 1));
    assert!(!lessons_fit(&moves, 0, 2));
}
