use connect_four::game_config::{GameConfig, GameMode, GameVariant};

#[test]
fn test_config_standard() {
    let config = GameConfig::standard();
    assert_eq!(config.rows, 6);
    assert_eq!(config.cols, 7);
    assert_eq!(config.win_length, 4);
}

#[test]
fn test_config_validate() {
    let config = GameConfig::standard();
    assert!(config.validate().is_ok());

    let bad_config = GameConfig { rows: 2, ..GameConfig::standard() };
    assert!(bad_config.validate().is_err());
}

#[test]
fn test_variant_config() {
    let config = GameVariant::Gomoku.config();
    assert_eq!(config.rows, 10);
    assert_eq!(config.cols, 10);
    assert_eq!(config.win_length, 5);
}

#[test]
fn test_mode_config() {
    let config = GameMode::Blitz.config();
    assert_eq!(config.time_limit, Some(3));
}

#[test]
fn config_validate_messages() {
    let c = GameConfig { cols: 3, ..GameConfig::standard() };
    assert_eq!(c.validate().unwrap_err(), "Board must have at least 4 columns");
    let c = GameConfig { win_length: 2, ..GameConfig::standard() };
    assert_eq!(c.validate().unwrap_err(), "Win length must be at least 3");
    let c = GameConfig { win_length: 9, ..GameConfig::standard() };
    assert_eq!(c.validate().unwrap_err(), "Win length cannot exceed board dimensions");
    let c = GameConfig { volume: 101, ..GameConfig::standard() };
    assert_eq!(c.validate().unwrap_err(), "Volume must be between 0 and 100");
}

#[test]
fn config_presets_are_valid() {
    for c in [GameConfig::standard(), GameConfig::rapid(), GameConfig::blitz(), GameConfig::advanced(), GameConfig::tournament()] {
        assert!(c.validate().is_ok());
    }
}

#[test]
fn config_to_variant() {
    assert_eq!(GameConfig::standard().to_variant(), GameVariant::Standard);
    assert_eq!(GameConfig::custom(10, 10, 5).to_variant(), GameVariant::Gomoku);
    assert_eq!(GameConfig::custom(5, 5, 4).to_variant(), GameVariant::ConnectFourFive);
    assert_eq!(GameConfig::custom(7, 9, 4).to_variant(), GameVariant::Custom);
    assert_eq!(GameConfig::standard().total_cells(), 42);
}
