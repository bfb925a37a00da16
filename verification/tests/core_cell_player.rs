use connect_four::cell::Cell;
use connect_four::player::{Player, PlayerInfo, PlayerType, Turn, TurnOrder};

#[test]
fn test_cell_default() {
    assert_eq!(Cell::default(), Cell::Empty);
}

#[test]
fn test_cell_display() {
    assert_eq!(Cell::Empty.to_string(), " ");
    assert_eq!(Cell::Player1.to_string(), "●");
    assert_eq!(Cell::Player2.to_string(), "●");
}

#[test]
fn test_cell_from_str() {
    assert_eq!(Cell::from_str(" ").unwrap(), Cell::Empty);
    assert_eq!(Cell::from_str("1").unwrap(), Cell::Player1);
    assert_eq!(Cell::from_str("2").unwrap(), Cell::Player2);
    assert!(Cell::from_str("invalid").is_err());
}

#[test]
fn test_cell_is_empty() {
    assert!(Cell::Empty.is_empty());
    assert!(!Cell::Player1.is_empty());
}

#[test]
fn test_cell_is_player() {
    assert!(Cell::Player1.is_player());
    assert!(Cell::Player2.is_player());
    assert!(!Cell::Empty.is_player());
    assert!(!Cell::Blocker.is_player());
}

#[test]
fn test_cell_is_special() {
    assert!(Cell::Blocker.is_special());
    assert!(Cell::Explosive.is_special());
    assert!(!Cell::Player1.is_special());
}

#[test]
fn test_cell_can_win() {
    assert!(Cell::Player1.can_win());
    assert!(Cell::Wild.can_win());
    assert!(!Cell::Blocker.can_win());
}

#[test]
fn test_cell_from_player_number() {
    assert_eq!(Cell::from_player_number(1), Some(Cell::Player1));
    assert_eq!(Cell::from_player_number(2), Some(Cell::Player2));
    assert_eq!(Cell::from_player_number(3), None);
}

#[test]
fn test_cell_player_number() {
    assert_eq!(Cell::Player1.player_number(), Some(1));
    assert_eq!(Cell::Player2.player_number(), Some(2));
    assert_eq!(Cell::Empty.player_number(), None);
}

#[test]
fn test_cell_opponent() {
    assert_eq!(Cell::Player1.opponent(), Some(Cell::Player2));
    assert_eq!(Cell::Player2.opponent(), Some(Cell::Player1));
    assert_eq!(Cell::Empty.opponent(), None);
}

#[test]
fn test_cell_matches_player() {
    assert!(Cell::Player1.matches_player(Cell::Player1));
    assert!(Cell::Wild.matches_player(Cell::Player1));
    assert!(Cell::Player1.matches_player(Cell::Wild));
    assert!(!Cell::Player1.matches_player(Cell::Player2));
}

#[test]
fn test_cell_symbols() {
    assert_eq!(Cell::Empty.symbol(), " ");
    assert_eq!(Cell::Player1.symbol(), "●");
    assert_eq!(Cell::Blocker.symbol(), "█");

    assert_eq!(Cell::Empty.ascii_symbol(), " ");
    assert_eq!(Cell::Player1.ascii_symbol(), "O");
    assert_eq!(Cell::Player2.ascii_symbol(), "X");

    assert_eq!(Cell::Player1.unicode_symbol(), "●");
    assert_eq!(Cell::Player2.unicode_symbol(), "○");
}

#[test]
fn test_cell_descriptions() {
    assert_eq!(Cell::Empty.description(), "empty cell");
    assert_eq!(Cell::Player1.description(), "player 1 piece");
    assert_eq!(Cell::Blocker.description(), "blocker piece");
}

#[test]
fn cell_opponent_twice_restores() {
    for c in [Cell::Player1, Cell::Player2] {
        assert_eq!(c.opponent().unwrap().opponent(), Some(c));
    }
}

#[test]
fn test_player_opponent() {
    assert_eq!(Player::Player1.opponent(), Player::Player2);
    assert_eq!(Player::Player2.opponent(), Player::Player1);
}

#[test]
fn test_player_cell() {
    assert_eq!(Player::Player1.cell(), Cell::Player1);
    assert_eq!(Player::Player2.cell(), Cell::Player2);
}

#[test]
fn test_player_number() {
    assert_eq!(Player::Player1.number(), 1);
    assert_eq!(Player::Player2.number(), 2);
}

#[test]
fn test_player_from_number() {
    assert_eq!(Player::from_number(1), Some(Player::Player1));
    assert_eq!(Player::from_number(2), Some(Player::Player2));
    assert_eq!(Player::from_number(3), None);
}

#[test]
fn test_player_from_cell() {
    assert_eq!(Player::from_cell(Cell::Player1), Some(Player::Player1));
    assert_eq!(Player::from_cell(Cell::Player2), Some(Player::Player2));
    assert_eq!(Player::from_cell(Cell::Empty), None);
}

#[test]
fn test_player_type_is_human() {
    assert!(PlayerType::Human.is_human());
    assert!(!PlayerType::AI.is_human());
}

#[test]
fn test_player_type_is_computer() {
    assert!(PlayerType::AI.is_computer());
    assert!(PlayerType::CPU.is_computer());
    assert!(!PlayerType::Human.is_computer());
}

#[test]
fn test_player_info_display() {
    let info = PlayerInfo::human_player1();
    assert!(info.display().contains("Player 1"));
    assert!(info.display().contains("Human"));
}

#[test]
fn test_turn_next() {
    let turn = Turn::first(Player::Player1);
    let next = turn.next();
    assert_eq!(next.player(), Player::Player2);
    assert_eq!(next.number(), 2);
}

#[test]
fn test_player_from_str() {
    assert_eq!(Player::from_str("1").unwrap(), Player::Player1);
    assert_eq!(Player::from_str("p2").unwrap(), Player::Player2);
    assert!(Player::from_str("invalid").is_err());
}

#[test]
fn player_opponent_twice_restores() {
    assert_eq!(Player::Player1.opponent().opponent(), Player::Player1);
    assert_eq!(Player::Player2.opponent().opponent(), Player::Player2);
}

#[test]
fn player_from_str_error_message() {
    assert_eq!(Player::from_str("zz").unwrap_err(), "Invalid player: zz");
    assert_eq!(Player::from_str("RED").unwrap(), Player::Player1);
}

#[test]
fn turn_order_fixed_first_players() {
    assert_eq!(TurnOrder::Player1First.first_player(), Player::Player1);
    assert_eq!(TurnOrder::Player2First.first_player(), Player::Player2);
    let p = TurnOrder::Random.first_player();
    assert!(p == Player::Player1 || p == Player::Player2);
}
