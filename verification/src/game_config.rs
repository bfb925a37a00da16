//! Game configuration: board size, win length, optional rules and presets.

use vstd::prelude::*;
use crate::text::{decimal, spec_decimal};

verus! {

/// Configuration for a game of Connect Four.
#[derive(Clone, Copy, PartialEq, Eq, Debug, Structural)]
pub struct GameConfig {
    /// Number of rows on the board.
    pub rows: usize,
    /// Number of columns on the board.
    pub cols: usize,
    /// Number of pieces in a row needed to win.
    pub win_length: usize,
    /// Whether special pieces are enabled.
    pub enable_special_pieces: bool,
    /// Whether power-ups are enabled.
    pub enable_powerups: bool,
    /// Time limit per move in seconds (`None` for unlimited).
    pub time_limit: Option<u64>,
    /// Total time limit for each player in seconds (`None` for unlimited).
    pub total_time_limit: Option<u64>,
    /// Number of blockers per player.
    pub blockers_per_player: u32,
    /// Number of bombs per player.
    pub bombs_per_player: u32,
    /// Whether moves can be taken back.
    pub allow_undo: bool,
    /// Maximum number of undos (`None` for unlimited).
    pub max_undos: Option<u32>,
    /// Whether the traditional rules apply.
    pub traditional_rules: bool,
    /// Whether pieces fall to the lowest free row.
    pub gravity_enabled: bool,
    /// Whether pieces can be stacked.
    pub allow_stacking: bool,
    /// Minimum number of players.
    pub min_players: u32,
    /// Maximum number of players.
    pub max_players: u32,
    /// Whether the move history is recorded.
    pub record_history: bool,
    /// Whether animations are shown.
    pub enable_animations: bool,
    /// Animation speed in milliseconds.
    pub animation_speed: u32,
    /// Whether sound effects are played.
    pub enable_sound: bool,
    /// Volume level (0-100).
    pub volume: u32,
}

/// The standard configuration: a 6x7 board, four in a row, traditional rules.
pub open spec fn spec_standard() -> GameConfig {
    GameConfig {
        rows: 6,
        cols: 7,
        win_length: 4,
        enable_special_pieces: false,
        enable_powerups: false,
        time_limit: None,
        total_time_limit: None,
        blockers_per_player: 0,
        bombs_per_player: 0,
        allow_undo: false,
        max_undos: None,
        traditional_rules: true,
        gravity_enabled: true,
        allow_stacking: false,
        min_players: 2,
        max_players: 2,
        record_history: true,
        enable_animations: true,
        animation_speed: 200,
        enable_sound: false,
        volume: 50,
    }
}

/// The standard configuration with another board size and win length.
pub open spec fn spec_custom(rows: usize, cols: usize, win_length: usize) -> GameConfig {
    GameConfig { rows, cols, win_length, ..spec_standard() }
}

/// The blitz configuration: three seconds a move, no animations.
pub open spec fn spec_blitz() -> GameConfig {
    GameConfig { time_limit: Some(3), enable_animations: false, ..spec_standard() }
}

/// The tournament configuration: ten minutes for each player, no undo, no animations.
pub open spec fn spec_tournament() -> GameConfig {
    GameConfig {
        total_time_limit: Some(600),
        allow_undo: false,
        traditional_rules: true,
        enable_animations: false,
        ..spec_standard()
    }
}

/// The first rule that a configuration breaks, if any.
pub open spec fn spec_config_error(c: GameConfig) -> Option<&'static str> {
    if c.rows < 4 {
        Some("Board must have at least 4 rows")
    } else if c.cols < 4 {
        Some("Board must have at least 4 columns")
    } else if c.win_length < 3 {
        Some("Win length must be at least 3")
    } else if c.win_length > c.rows && c.win_length > c.cols {
        Some("Win length cannot exceed board dimensions")
    } else if c.min_players < 2 {
        Some("At least 2 players are required")
    } else if c.max_players < c.min_players {
        Some("Max players must be at least min players")
    } else if c.volume > 100 {
        Some("Volume must be between 0 and 100")
    } else {
        None
    }
}

/// The preset that a configuration matches.
pub open spec fn spec_to_variant(c: GameConfig) -> GameVariant {
    if c.traditional_rules && c.rows == 6 && c.cols == 7 && c.win_length == 4 {
        GameVariant::Standard
    } else if c.rows == 8 && c.cols == 8 {
        GameVariant::EightByEight
    } else if c.rows == 10 && c.cols == 10 && c.win_length == 5 {
        GameVariant::Gomoku
    } else if c.rows == 5 && c.cols == 5 && c.win_length == 4 {
        GameVariant::ConnectFourFive
    } else {
        GameVariant::Custom
    }
}

/// The text of a boolean, as `{}` writes it.
pub open spec fn spec_bool_text(b: bool) -> Seq<char> {
    if b { "true"@ } else { "false"@ }
}

/// The debug text of an optional number, as `{:?}` writes it.
pub open spec fn spec_option_text(o: Option<u64>) -> Seq<char> {
    match o {
        Some(v) => "Some("@ + spec_decimal(v as nat) + ")"@,
        None => "None"@,
    }
}

/// The multi-line description of a configuration.
pub open spec fn spec_config_text(c: GameConfig) -> Seq<char> {
    "Game Configuration:\n"@
    + "  Board: "@ + spec_decimal(c.rows as nat) + "x"@ + spec_decimal(c.cols as nat) + "\n"@
    + "  Win Length: "@ + spec_decimal(c.win_length as nat) + "\n"@
    + "  Special Pieces: "@ + spec_bool_text(c.enable_special_pieces) + "\n"@
    + "  Time Limit: "@ + spec_option_text(c.time_limit) + "\n"@
    + "  Total Time: "@ + spec_option_text(c.total_time_limit) + "\n"@
    + "  Blockers per Player: "@ + spec_decimal(c.blockers_per_player as nat) + "\n"@
    + "  Bombs per Player: "@ + spec_decimal(c.bombs_per_player as nat) + "\n"@
    + "  Allow Undo: "@ + spec_bool_text(c.allow_undo) + "\n"@
    + "  Max Undos: "@ + spec_option_text(
        match c.max_undos { Some(v) => Some(v as u64), None => None },
    ) + "\n"@
    + "  Gravity: "@ + spec_bool_text(c.gravity_enabled) + "\n"@
    + "  Min Players: "@ + spec_decimal(c.min_players as nat) + "\n"@
    + "  Max Players: "@ + spec_decimal(c.max_players as nat) + "\n"@
    + "  Animations: "@ + spec_bool_text(c.enable_animations) + "\n"@
    + "  Sound: "@ + spec_bool_text(c.enable_sound) + "\n"@
}

fn bool_text(b: bool) -> (r: &'static str)
    ensures
        r@ == spec_bool_text(b),
{
    if b { "true" } else { "false" }
}

fn option_text(o: Option<u64>) -> (r: String)
    ensures
        r@ == spec_option_text(o),
{
    match o {
        Some(v) => {
            let mut s = String::from_str("Some(");
            let d = decimal(v);
            s.append(d.as_str());
            s.append(")");
            s
        },
        None => String::from_str("None"),
    }
}

/// Appends a labelled line: the label, the value and a line break.
fn push_line(s: &mut String, label: &str, value: &str)
    ensures
        final(s)@ == old(s)@ + label@ + value@ + "\n"@,
{
    s.append(label);
    s.append(value);
    s.append("\n");
}

impl GameConfig {
    /// The standard Connect Four configuration.
    pub fn standard() -> (r: Self)
        ensures
            r == spec_standard(),
    {
        GameConfig {
            rows: 6,
            cols: 7,
            win_length: 4,
            enable_special_pieces: false,
            enable_powerups: false,
            time_limit: None,
            total_time_limit: None,
            blockers_per_player: 0,
            bombs_per_player: 0,
            allow_undo: false,
            max_undos: None,
            traditional_rules: true,
            gravity_enabled: true,
            allow_stacking: false,
            min_players: 2,
            max_players: 2,
            record_history: true,
            enable_animations: true,
            animation_speed: 200,
            enable_sound: false,
            volume: 50,
        }
    }

    /// Rapid play: ten seconds a move, no animations.
    pub fn rapid() -> (r: Self)
        ensures
            r == (GameConfig { time_limit: Some(10), enable_animations: false, ..spec_standard() }),
    {
        GameConfig { time_limit: Some(10), enable_animations: false, ..GameConfig::standard() }
    }

    /// Blitz: three seconds a move, no animations.
    pub fn blitz() -> (r: Self)
        ensures
            r == spec_blitz(),
    {
        GameConfig { time_limit: Some(3), enable_animations: false, ..GameConfig::standard() }
    }

    /// Special pieces and power-ups, two blockers and one bomb each, three undos.
    pub fn advanced() -> (r: Self)
        ensures
            r == (GameConfig {
                enable_special_pieces: true,
                enable_powerups: true,
                blockers_per_player: 2,
                bombs_per_player: 1,
                allow_undo: true,
                max_undos: Some(3),
                ..spec_standard()
            }),
    {
        GameConfig {
            enable_special_pieces: true,
            enable_powerups: true,
            blockers_per_player: 2,
            bombs_per_player: 1,
            allow_undo: true,
            max_undos: Some(3),
            ..GameConfig::standard()
        }
    }

    /// Tournament play: ten minutes for each player, no undo, no animations.
    pub fn tournament() -> (r: Self)
        ensures
            r == spec_tournament(),
    {
        GameConfig {
            total_time_limit: Some(600),
            allow_undo: false,
            traditional_rules: true,
            enable_animations: false,
            ..GameConfig::standard()
        }
    }

    /// The standard configuration with the given board size and win length.
    pub fn custom(rows: usize, cols: usize, win_length: usize) -> (r: Self)
        ensures
            r == spec_custom(rows, cols, win_length),
    {
        GameConfig { rows, cols, win_length, ..GameConfig::standard() }
    }

    /// The number of cells on the board.
    pub fn total_cells(&self) -> (r: usize)
        requires
            self.rows * self.cols <= usize::MAX,
        ensures
            r == self.rows * self.cols,
    {
        self.rows * self.cols
    }

    /// Returns true if this configuration uses special pieces.
    pub fn has_special_pieces(&self) -> (r: bool)
        ensures
            r == (self.enable_special_pieces || self.blockers_per_player > 0
                || self.bombs_per_player > 0),
    {
        self.enable_special_pieces || self.blockers_per_player > 0 || self.bombs_per_player > 0
    }

    /// Returns true if some time limit is set.
    pub fn has_time_limits(&self) -> (r: bool)
        ensures
            r == (self.time_limit is Some || self.total_time_limit is Some),
    {
        self.time_limit.is_some() || self.total_time_limit.is_some()
    }

    /// Returns true if undo is allowed.
    pub fn has_undo(&self) -> (r: bool)
        ensures
            r == self.allow_undo,
    {
        self.allow_undo
    }

    /// Returns true if animations are shown.
    pub fn has_animations(&self) -> (r: bool)
        ensures
            r == self.enable_animations,
    {
        self.enable_animations
    }

    /// Returns true if sound is on.
    pub fn has_sound(&self) -> (r: bool)
        ensures
            r == self.enable_sound,
    {
        self.enable_sound
    }

    /// Checks the configuration; the error names the first rule it breaks.
    pub fn validate(&self) -> (r: Result<(), String>)
        ensures
            spec_config_error(*self) is None <==> r is Ok,
            spec_config_error(*self) is Some ==> r is Err && r->Err_0@
                == spec_config_error(*self).unwrap()@,
    {
        if self.rows < 4 {
            return Err(String::from_str("Board must have at least 4 rows"));
        }
        if self.cols < 4 {
            return Err(String::from_str("Board must have at least 4 columns"));
        }
        if self.win_length < 3 {
            return Err(String::from_str("Win length must be at least 3"));
        }
        if self.win_length > self.rows && self.win_length > self.cols {
            return Err(String::from_str("Win length cannot exceed board dimensions"));
        }
        if self.min_players < 2 {
            return Err(String::from_str("At least 2 players are required"));
        }
        if self.max_players < self.min_players {
            return Err(String::from_str("Max players must be at least min players"));
        }
        if self.volume > 100 {
            return Err(String::from_str("Volume must be between 0 and 100"));
        }
        Ok(())
    }

    /// The preset that this configuration matches, or `Custom`.
    pub fn to_variant(&self) -> (r: GameVariant)
        ensures
            r == spec_to_variant(*self),
    {
        if self.traditional_rules && self.rows == 6 && self.cols == 7 && self.win_length == 4 {
            GameVariant::Standard
        } else if self.rows == 8 && self.cols == 8 {
            GameVariant::EightByEight
        } else if self.rows == 10 && self.cols == 10 && self.win_length == 5 {
            GameVariant::Gomoku
        } else if self.rows == 5 && self.cols == 5 && self.win_length == 4 {
            GameVariant::ConnectFourFive
        } else {
            GameVariant::Custom
        }
    }

    /// The multi-line description of this configuration.
    pub fn to_string(&self) -> (r: String)
        ensures
            r@ == spec_config_text(*self),
    {
        let mut s = String::from_str("Game Configuration:\n");
        let rows = decimal(self.rows as u64);
        let cols = decimal(self.cols as u64);
        s.append("  Board: ");
        s.append(rows.as_str());
        s.append("x");
        push_line(&mut s, cols.as_str(), "");
        let w = decimal(self.win_length as u64);
        push_line(&mut s, "  Win Length: ", w.as_str());
        push_line(&mut s, "  Special Pieces: ", bool_text(self.enable_special_pieces));
        let t = option_text(self.time_limit);
        push_line(&mut s, "  Time Limit: ", t.as_str());
        let tt = option_text(self.total_time_limit);
        push_line(&mut s, "  Total Time: ", tt.as_str());
        let b = decimal(self.blockers_per_player as u64);
        push_line(&mut s, "  Blockers per Player: ", b.as_str());
        let bo = decimal(self.bombs_per_player as u64);
        push_line(&mut s, "  Bombs per Player: ", bo.as_str());
        push_line(&mut s, "  Allow Undo: ", bool_text(self.allow_undo));
        let mu = match self.max_undos {
            Some(v) => Some(v as u64),
            None => None,
        };
        let m = option_text(mu);
        push_line(&mut s, "  Max Undos: ", m.as_str());
        push_line(&mut s, "  Gravity: ", bool_text(self.gravity_enabled));
        let mn = decimal(self.min_players as u64);
        push_line(&mut s, "  Min Players: ", mn.as_str());
        let mx = decimal(self.max_players as u64);
        push_line(&mut s, "  Max Players: ", mx.as_str());
        push_line(&mut s, "  Animations: ", bool_text(self.enable_animations));
        push_line(&mut s, "  Sound: ", bool_text(self.enable_sound));
        proof {
            reveal_strlit("");
        }
        s
    }
}

impl Default for GameConfig {
    fn default() -> (r: Self)
        ensures
            r == spec_standard(),
    {
        GameConfig::standard()
    }
}

/// Preset game variants.
#[derive(Clone, Copy, PartialEq, Eq, Debug, Hash, Structural)]
pub enum GameVariant {
    /// Standard 6x7 Connect Four, connect 4 to win.
    Standard,
    /// 8x8 board, connect 4 to win.
    EightByEight,
    /// 10x10 board, connect 5 to win.
    Gomoku,
    /// 5x5 board, connect 4 to win.
    ConnectFourFive,
    /// 7x7 board, connect 4 to win.
    SevenBySeven,
    /// 9x6 board (taller), connect 4 to win.
    NineBySix,
    /// 8x10 board (wider), connect 5 to win.
    WideBoard,
    /// A configuration of the user's own.
    Custom,
}

/// The configuration of each preset.
pub open spec fn spec_variant_config(v: GameVariant) -> GameConfig {
    match v {
        GameVariant::Standard => spec_standard(),
        GameVariant::EightByEight => spec_custom(8, 8, 4),
        GameVariant::Gomoku => spec_custom(10, 10, 5),
        GameVariant::ConnectFourFive => spec_custom(5, 5, 4),
        GameVariant::SevenBySeven => spec_custom(7, 7, 4),
        GameVariant::NineBySix => spec_custom(9, 6, 4),
        GameVariant::WideBoard => spec_custom(8, 10, 5),
        GameVariant::Custom => spec_custom(6, 7, 4),
    }
}

/// The name of each preset.
pub open spec fn spec_variant_name(v: GameVariant) -> &'static str {
    match v {
        GameVariant::Standard => "Standard",
        GameVariant::EightByEight => "8x8",
        GameVariant::Gomoku => "Gomoku",
        GameVariant::ConnectFourFive => "5x5",
        GameVariant::SevenBySeven => "7x7",
        GameVariant::NineBySix => "9x6",
        GameVariant::WideBoard => "Wide",
        GameVariant::Custom => "Custom",
    }
}

/// The description of each preset.
pub open spec fn spec_variant_description(v: GameVariant) -> &'static str {
    match v {
        GameVariant::Standard => "Classic Connect Four: 6x7 board, connect 4",
        GameVariant::EightByEight => "8x8 board with connect 4 rules",
        GameVariant::Gomoku => "10x10 board, connect 5 to win",
        GameVariant::ConnectFourFive => "Quick game on 5x5 board, connect 4",
        GameVariant::SevenBySeven => "7x7 square board, connect 4",
        GameVariant::NineBySix => "9x6 taller board, connect 4",
        GameVariant::WideBoard => "8x10 wider board, connect 5",
        GameVariant::Custom => "Custom game configuration",
    }
}

impl GameVariant {
    /// The configuration of this preset.
    pub fn config(&self) -> (r: GameConfig)
        ensures
            r == spec_variant_config(*self),
    {
        match self {
            GameVariant::Standard => GameConfig::standard(),
            GameVariant::EightByEight => GameConfig::custom(8, 8, 4),
            GameVariant::Gomoku => GameConfig::custom(10, 10, 5),
            GameVariant::ConnectFourFive => GameConfig::custom(5, 5, 4),
            GameVariant::SevenBySeven => GameConfig::custom(7, 7, 4),
            GameVariant::NineBySix => GameConfig::custom(9, 6, 4),
            GameVariant::WideBoard => GameConfig::custom(8, 10, 5),
            GameVariant::Custom => GameConfig::custom(6, 7, 4),
        }
    }

    /// The name of this preset.
    pub fn name(&self) -> (r: &'static str)
        ensures
            r@ == spec_variant_name(*self)@,
    {
        match self {
            GameVariant::Standard => "Standard",
            GameVariant::EightByEight => "8x8",
            GameVariant::Gomoku => "Gomoku",
            GameVariant::ConnectFourFive => "5x5",
            GameVariant::SevenBySeven => "7x7",
            GameVariant::NineBySix => "9x6",
            GameVariant::WideBoard => "Wide",
            GameVariant::Custom => "Custom",
        }
    }

    /// A description of this preset.
    pub fn description(&self) -> (r: &'static str)
        ensures
            r@ == spec_variant_description(*self)@,
    {
        match self {
            GameVariant::Standard => "Classic Connect Four: 6x7 board, connect 4",
            GameVariant::EightByEight => "8x8 board with connect 4 rules",
            GameVariant::Gomoku => "10x10 board, connect 5 to win",
            GameVariant::ConnectFourFive => "Quick game on 5x5 board, connect 4",
            GameVariant::SevenBySeven => "7x7 square board, connect 4",
            GameVariant::NineBySix => "9x6 taller board, connect 4",
            GameVariant::WideBoard => "8x10 wider board, connect 5",
            GameVariant::Custom => "Custom game configuration",
        }
    }

    /// All presets, in declaration order.
    pub fn all() -> (r: [GameVariant; 8])
        ensures
            r@ == seq![
                GameVariant::Standard,
                GameVariant::EightByEight,
                GameVariant::Gomoku,
                GameVariant::ConnectFourFive,
                GameVariant::SevenBySeven,
                GameVariant::NineBySix,
                GameVariant::WideBoard,
                GameVariant::Custom,
            ],
    {
        [
            GameVariant::Standard,
            GameVariant::EightByEight,
            GameVariant::Gomoku,
            GameVariant::ConnectFourFive,
            GameVariant::SevenBySeven,
            GameVariant::NineBySix,
            GameVariant::WideBoard,
            GameVariant::Custom,
        ]
    }

    /// The text shown for this preset: its name.
    pub fn to_string(&self) -> (r: String)
        ensures
            r@ == spec_variant_name(*self)@,
    {
        String::from_str(self.name())
    }
}

/// Game modes.
#[derive(Clone, Copy, PartialEq, Eq, Debug, Hash, Structural)]
pub enum GameMode {
    /// Standard turn-based play.
    Standard,
    /// Thirty seconds a move.
    Timed,
    /// Fast time limits.
    Blitz,
    /// Tournament style.
    Tournament,
    /// Practice with undo.
    Practice,
    /// Puzzles with unlimited undo.
    Puzzle,
    /// Campaign with special pieces.
    Campaign,
}

/// The configuration of each mode.
pub open spec fn spec_mode_config(m: GameMode) -> GameConfig {
    match m {
        GameMode::Standard => spec_standard(),
        GameMode::Timed => GameConfig { time_limit: Some(30), ..spec_standard() },
        GameMode::Blitz => spec_blitz(),
        GameMode::Tournament => spec_tournament(),
        GameMode::Practice => GameConfig {
            allow_undo: true,
            max_undos: Some(10),
            time_limit: None,
            ..spec_standard()
        },
        GameMode::Puzzle => GameConfig { allow_undo: true, max_undos: None, ..spec_standard() },
        GameMode::Campaign => GameConfig {
            enable_special_pieces: true,
            enable_powerups: true,
            ..spec_standard()
        },
    }
}

/// The name of each mode.
pub open spec fn spec_mode_name(m: GameMode) -> &'static str {
    match m {
        GameMode::Standard => "Standard",
        GameMode::Timed => "Timed",
        GameMode::Blitz => "Blitz",
        GameMode::Tournament => "Tournament",
        GameMode::Practice => "Practice",
        GameMode::Puzzle => "Puzzle",
        GameMode::Campaign => "Campaign",
    }
}

impl GameMode {
    /// The configuration of this mode.
    pub fn config(&self) -> (r: GameConfig)
        ensures
            r == spec_mode_config(*self),
    {
        match self {
            GameMode::Standard => GameConfig::standard(),
            GameMode::Timed => GameConfig { time_limit: Some(30), ..GameConfig::standard() },
            GameMode::Blitz => GameConfig::blitz(),
            GameMode::Tournament => GameConfig::tournament(),
            GameMode::Practice => GameConfig {
                allow_undo: true,
                max_undos: Some(10),
                time_limit: None,
                ..GameConfig::standard()
            },
            GameMode::Puzzle => GameConfig {
                allow_undo: true,
                max_undos: None,
                ..GameConfig::standard()
            },
            GameMode::Campaign => GameConfig {
                enable_special_pieces: true,
                enable_powerups: true,
                ..GameConfig::standard()
            },
        }
    }

    /// The name of this mode.
    pub fn name(&self) -> (r: &'static str)
        ensures
            r@ == spec_mode_name(*self)@,
    {
        match self {
            GameMode::Standard => "Standard",
            GameMode::Timed => "Timed",
            GameMode::Blitz => "Blitz",
            GameMode::Tournament => "Tournament",
            GameMode::Practice => "Practice",
            GameMode::Puzzle => "Puzzle",
            GameMode::Campaign => "Campaign",
        }
    }

    /// The text shown for this mode: its name.
    pub fn to_string(&self) -> (r: String)
        ensures
            r@ == spec_mode_name(*self)@,
    {
        String::from_str(self.name())
    }
}

/// Every preset's configuration passes validation, and the standard, 8x8,
/// Gomoku and 5x5 presets are recognised again from their configuration.
pub proof fn lemma_presets_valid(v: GameVariant)
    ensures
        spec_config_error(spec_variant_config(v)) is None,
        v != GameVariant::Custom && v != GameVariant::SevenBySeven && v != GameVariant::NineBySix
            && v != GameVariant::WideBoard ==> spec_to_variant(spec_variant_config(v)) == v,
{
}

} // verus!
