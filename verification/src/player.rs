//! Players, player kinds and turn tracking.

use vstd::prelude::*;
use crate::cell::Cell;
use crate::text::{str_eq, concat, to_lowercase, spec_to_lowercase};
use crate::chance::random_bool;

verus! {

/// A player in the game.
#[derive(Clone, Copy, PartialEq, Eq, Debug, Hash, Structural)]
pub enum Player {
    /// Player 1 (first player, typically uses red pieces)
    Player1,
    /// Player 2 (second player, typically uses yellow pieces)
    Player2,
}

/// The other player.
pub open spec fn spec_opponent(p: Player) -> Player {
    match p {
        Player::Player1 => Player::Player2,
        Player::Player2 => Player::Player1,
    }
}

/// The piece each player places.
pub open spec fn spec_cell(p: Player) -> Cell {
    match p {
        Player::Player1 => Cell::Player1,
        Player::Player2 => Cell::Player2,
    }
}

/// Each player's number.
pub open spec fn spec_number(p: Player) -> u8 {
    match p {
        Player::Player1 => 1,
        Player::Player2 => 2,
    }
}

/// Each player's display name.
pub open spec fn spec_player_str(p: Player) -> &'static str {
    match p {
        Player::Player1 => "Player 1",
        Player::Player2 => "Player 2",
    }
}

/// The player that a (lowercased) token names, if any.
pub open spec fn spec_parse_player(lower: Seq<char>) -> Option<Player> {
    if lower == "1"@ || lower == "p1"@ || lower == "player1"@ || lower == "player 1"@ || lower == "red"@ {
        Some(Player::Player1)
    } else if lower == "2"@ || lower == "p2"@ || lower == "player2"@ || lower == "player 2"@ || lower == "yellow"@ {
        Some(Player::Player2)
    } else {
        None
    }
}

impl Player {
    /// Returns the opponent player.
    pub fn opponent(&self) -> (r: Self)
        ensures
            r == spec_opponent(*self),
    {
        match self {
            Player::Player1 => Player::Player2,
            Player::Player2 => Player::Player1,
        }
    }

    /// Returns the cell type associated with this player.
    pub fn cell(&self) -> (r: Cell)
        ensures
            r == spec_cell(*self),
    {
        match self {
            Player::Player1 => Cell::Player1,
            Player::Player2 => Cell::Player2,
        }
    }

    /// Returns the player number (1 or 2).
    pub fn number(&self) -> (r: u8)
        ensures
            r == spec_number(*self),
    {
        match self {
            Player::Player1 => 1,
            Player::Player2 => 2,
        }
    }

    /// Creates a player from a cell type.
    pub fn from_cell(cell: Cell) -> (r: Option<Self>)
        ensures
            r == (match cell {
                Cell::Player1 => Some(Player::Player1),
                Cell::Player2 => Some(Player::Player2),
                _ => None::<Player>,
            }),
    {
        match cell {
            Cell::Player1 => Some(Player::Player1),
            Cell::Player2 => Some(Player::Player2),
            _ => None,
        }
    }

    /// Creates a player from a player number (1 or 2).
    pub fn from_number(n: u8) -> (r: Option<Self>)
        ensures
            r == (if n == 1 {
                Some(Player::Player1)
            } else if n == 2 {
                Some(Player::Player2)
            } else {
                None::<Player>
            }),
    {
        match n {
            1 => Some(Player::Player1),
            2 => Some(Player::Player2),
            _ => None,
        }
    }

    /// Returns the default player (Player 1).
    pub fn default() -> (r: Self)
        ensures
            r == Player::Player1,
    {
        Player::Player1
    }

    /// Returns the color name for this player.
    pub fn color_name(&self) -> (r: &'static str)
        ensures
            r@ == (match *self {
                Player::Player1 => "red",
                Player::Player2 => "yellow",
            })@,
    {
        match self {
            Player::Player1 => "red",
            Player::Player2 => "yellow",
        }
    }

    /// Returns the player as a string.
    pub fn as_str(&self) -> (r: &'static str)
        ensures
            r@ == spec_player_str(*self)@,
    {
        match self {
            Player::Player1 => "Player 1",
            Player::Player2 => "Player 2",
        }
    }

    /// Returns a short identifier ('P1' or 'P2').
    pub fn short_id(&self) -> (r: &'static str)
        ensures
            r@ == (match *self {
                Player::Player1 => "P1",
                Player::Player2 => "P2",
            })@,
    {
        match self {
            Player::Player1 => "P1",
            Player::Player2 => "P2",
        }
    }

    /// Returns an icon for this player.
    pub fn icon(&self) -> (r: char)
        ensures
            r == (match *self {
                Player::Player1 => '●',
                Player::Player2 => '○',
            }),
    {
        match self {
            Player::Player1 => '●',
            Player::Player2 => '○',
        }
    }

    /// The text shown for this player: its name.
    pub fn to_string(&self) -> (r: String)
        ensures
            r@ == spec_player_str(*self)@,
    {
        String::from_str(self.as_str())
    }

    /// Parses a player from a case-insensitive alias; any other text is an
    /// error that names it.
    pub fn from_str(s: &str) -> (r: Result<Player, String>)
        ensures
            spec_parse_player(spec_to_lowercase(s@)) is Some ==> r == Ok::<Player, String>(
                spec_parse_player(spec_to_lowercase(s@)).unwrap(),
            ),
            spec_parse_player(spec_to_lowercase(s@)) is None ==> r is Err && r->Err_0@
                == "Invalid player: "@ + s@,
    {
        let lower = to_lowercase(s);
        let l = lower.as_str();
        if str_eq(l, "1") || str_eq(l, "p1") || str_eq(l, "player1") || str_eq(l, "player 1") || str_eq(l, "red") {
            Ok(Player::Player1)
        } else if str_eq(l, "2") || str_eq(l, "p2") || str_eq(l, "player2") || str_eq(l, "player 2") || str_eq(l, "yellow") {
            Ok(Player::Player2)
        } else {
            Err(concat("Invalid player: ", s))
        }
    }
}

/// Taking the opponent twice gives the player back, and no player is its own
/// opponent.
pub proof fn lemma_opponent_involutive(p: Player)
    ensures
        spec_opponent(spec_opponent(p)) == p,
        spec_opponent(p) != p,
        spec_cell(spec_opponent(p)) != spec_cell(p),
{
}

/// A player's number, piece and identity determine each other.
pub proof fn lemma_player_number_roundtrip(p: Player)
    ensures
        spec_number(p) == 1 || spec_number(p) == 2,
        (spec_number(p) == 1) == (p == Player::Player1),
        spec_cell(p) == Cell::Player1 || spec_cell(p) == Cell::Player2,
        (spec_cell(p) == Cell::Player1) == (p == Player::Player1),
{
}

/// Player type for different game modes.
#[derive(Clone, Copy, PartialEq, Eq, Debug, Hash, Structural)]
pub enum PlayerType {
    /// Human player
    Human,
    /// AI player
    AI,
    /// Remote/network player
    Remote,
    /// CPU player (simple random moves)
    CPU,
}

/// Each player type's name.
pub open spec fn spec_player_type_str(t: PlayerType) -> &'static str {
    match t {
        PlayerType::Human => "Human",
        PlayerType::AI => "AI",
        PlayerType::Remote => "Remote",
        PlayerType::CPU => "CPU",
    }
}

impl PlayerType {
    /// Returns true if this is a human player.
    pub fn is_human(&self) -> (r: bool)
        ensures
            r == (*self == PlayerType::Human),
    {
        matches!(self, PlayerType::Human)
    }

    /// Returns true if this is an AI or CPU player.
    pub fn is_computer(&self) -> (r: bool)
        ensures
            r == (*self == PlayerType::AI || *self == PlayerType::CPU),
    {
        matches!(self, PlayerType::AI | PlayerType::CPU)
    }

    /// Returns true if this is a remote player.
    pub fn is_remote(&self) -> (r: bool)
        ensures
            r == (*self == PlayerType::Remote),
    {
        matches!(self, PlayerType::Remote)
    }

    /// Returns the type as a string.
    pub fn as_str(&self) -> (r: &'static str)
        ensures
            r@ == spec_player_type_str(*self)@,
    {
        match self {
            PlayerType::Human => "Human",
            PlayerType::AI => "AI",
            PlayerType::Remote => "Remote",
            PlayerType::CPU => "CPU",
        }
    }
}

/// Player information including name and type.
#[derive(Clone, PartialEq, Eq, Debug, Hash)]
pub struct PlayerInfo {
    pub player: Player,
    pub player_type: PlayerType,
    pub name: String,
}

impl PlayerInfo {
    /// Creates a new player info.
    pub fn new(player: Player, player_type: PlayerType, name: String) -> (r: Self)
        ensures
            r.player == player,
            r.player_type == player_type,
            r.name@ == name@,
    {
        PlayerInfo { player, player_type, name }
    }

    /// Creates a default human player 1 info.
    pub fn human_player1() -> (r: Self)
        ensures
            r.player == Player::Player1,
            r.player_type == PlayerType::Human,
            r.name@ == "Player 1"@,
    {
        PlayerInfo { player: Player::Player1, player_type: PlayerType::Human, name: String::from_str("Player 1") }
    }

    /// Creates a default human player 2 info.
    pub fn human_player2() -> (r: Self)
        ensures
            r.player == Player::Player2,
            r.player_type == PlayerType::Human,
            r.name@ == "Player 2"@,
    {
        PlayerInfo { player: Player::Player2, player_type: PlayerType::Human, name: String::from_str("Player 2") }
    }

    /// Creates a default AI player 1 info.
    pub fn ai_player1() -> (r: Self)
        ensures
            r.player == Player::Player1,
            r.player_type == PlayerType::AI,
            r.name@ == "AI 1"@,
    {
        PlayerInfo { player: Player::Player1, player_type: PlayerType::AI, name: String::from_str("AI 1") }
    }

    /// Creates a default AI player 2 info.
    pub fn ai_player2() -> (r: Self)
        ensures
            r.player == Player::Player2,
            r.player_type == PlayerType::AI,
            r.name@ == "AI 2"@,
    {
        PlayerInfo { player: Player::Player2, player_type: PlayerType::AI, name: String::from_str("AI 2") }
    }

    /// Returns the cell type for this player.
    pub fn cell(&self) -> (r: Cell)
        ensures
            r == spec_cell(self.player),
    {
        self.player.cell()
    }

    /// Returns the player number.
    pub fn number(&self) -> (r: u8)
        ensures
            r == spec_number(self.player),
    {
        self.player.number()
    }

    /// Returns a display string: the name followed by the player type in
    /// parentheses.
    pub fn display(&self) -> (r: String)
        ensures
            r@ == self.name@ + " ("@ + spec_player_type_str(self.player_type)@ + ")"@,
    {
        let mut s = concat(self.name.as_str(), " (");
        s.append(self.player_type.as_str());
        s.append(")");
        s
    }
}

/// Turn order for games.
#[derive(Clone, Copy, PartialEq, Eq, Debug, Hash, Structural)]
pub enum TurnOrder {
    /// Player 1 goes first
    Player1First,
    /// Player 2 goes first
    Player2First,
    /// Random first player
    Random,
}

impl TurnOrder {
    /// Returns the first player; a random order flips a coin.
    pub fn first_player(&self) -> (r: Player)
        ensures
            *self == TurnOrder::Player1First ==> r == Player::Player1,
            *self == TurnOrder::Player2First ==> r == Player::Player2,
    {
        match self {
            TurnOrder::Player1First => Player::Player1,
            TurnOrder::Player2First => Player::Player2,
            TurnOrder::Random => {
                let coin = random_bool();
                Self::player_for_coin(coin)
            },
        }
    }

    /// The first player of a random order, given the coin that was flipped:
    /// heads (true) means player 1.
    pub fn player_for_coin(coin: bool) -> (r: Player)
        ensures
            r == (if coin { Player::Player1 } else { Player::Player2 }),
    {
        if coin {
            Player::Player1
        } else {
            Player::Player2
        }
    }
}

/// Player turn tracking.
#[derive(Clone, Copy, PartialEq, Eq, Debug, Structural)]
pub struct Turn {
    pub current_player: Player,
    pub turn_number: u32,
}

impl Turn {
    /// Creates a new turn.
    pub fn new(current_player: Player, turn_number: u32) -> (r: Self)
        ensures
            r == (Turn { current_player, turn_number }),
    {
        Turn { current_player, turn_number }
    }

    /// Creates the first turn.
    pub fn first(player: Player) -> (r: Self)
        ensures
            r == (Turn { current_player: player, turn_number: 1 }),
    {
        Turn::new(player, 1)
    }

    /// Moves to the next turn: the opponent plays, and the number goes up by one.
    pub fn next(&self) -> (r: Self)
        requires
            self.turn_number < u32::MAX,
        ensures
            r.current_player == spec_opponent(self.current_player),
            r.turn_number == self.turn_number + 1,
    {
        Turn { current_player: self.current_player.opponent(), turn_number: self.turn_number + 1 }
    }

    /// Returns the current player.
    pub fn player(&self) -> (r: Player)
        ensures
            r == self.current_player,
    {
        self.current_player
    }

    /// Returns the turn number.
    pub fn number(&self) -> (r: u32)
        ensures
            r == self.turn_number,
    {
        self.turn_number
    }

    /// Returns true if it's player 1's turn.
    pub fn is_player1_turn(&self) -> (r: bool)
        ensures
            r == (self.current_player == Player::Player1),
    {
        self.current_player == Player::Player1
    }

    /// Returns true if it's player 2's turn.
    pub fn is_player2_turn(&self) -> (r: bool)
        ensures
            r == (self.current_player == Player::Player2),
    {
        self.current_player == Player::Player2
    }

    /// The text shown for a turn: "Turn <n>: <player name>".
    pub fn to_string(&self) -> (r: String)
        ensures
            r@ == "Turn "@ + crate::text::spec_decimal(self.turn_number as nat) + ": "@
                + spec_player_str(self.current_player)@,
    {
        let mut s = String::from_str("Turn ");
        let n = crate::text::decimal(self.turn_number as u64);
        s.append(n.as_str());
        s.append(": ");
        s.append(self.current_player.as_str());
        s
    }
}

/// Two turns later the same player is to move again.
pub proof fn lemma_turns_alternate(t: Turn)
    requires
        t.turn_number < u32::MAX - 1,
    ensures
        spec_opponent(spec_opponent(t.current_player)) == t.current_player,
{
}

} // verus!
