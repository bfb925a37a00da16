//! The content of a single board cell.

use vstd::prelude::*;
use crate::text::{str_eq, concat};

verus! {

/// The content of a single cell on the game board.
#[derive(Clone, Copy, PartialEq, Eq, Debug, Hash, Structural)]
pub enum Cell {
    /// Empty cell with no piece
    Empty,
    /// A piece of player 1 (typically red)
    Player1,
    /// A piece of player 2 (typically yellow)
    Player2,
    /// A blocker piece that cannot be used in a win
    Blocker,
    /// An explosive piece that clears adjacent pieces
    Explosive,
    /// A wall piece that cannot be passed through
    Wall,
    /// A bomb piece that destroys pieces in a column
    Bomb,
    /// A wild piece that can count for either player
    Wild,
}

impl Default for Cell {
    fn default() -> (r: Self)
        ensures
            r == Cell::Empty,
    {
        Cell::Empty
    }
}

/// The display symbol of each cell.
pub open spec fn spec_symbol(c: Cell) -> &'static str {
    match c {
        Cell::Empty => " ",
        Cell::Player1 => "●",
        Cell::Player2 => "●",
        Cell::Blocker => "█",
        Cell::Explosive => "✷",
        Cell::Wall => "▓",
        Cell::Bomb => "💣",
        Cell::Wild => "★",
    }
}

/// The ASCII symbol of each cell.
pub open spec fn spec_ascii_symbol(c: Cell) -> &'static str {
    match c {
        Cell::Empty => " ",
        Cell::Player1 => "O",
        Cell::Player2 => "X",
        Cell::Blocker => "#",
        Cell::Explosive => "*",
        Cell::Wall => "+",
        Cell::Bomb => "@",
        Cell::Wild => "?",
    }
}

/// The Unicode symbol of each cell.
pub open spec fn spec_unicode_symbol(c: Cell) -> &'static str {
    match c {
        Cell::Empty => " ",
        Cell::Player1 => "●",
        Cell::Player2 => "○",
        Cell::Blocker => "█",
        Cell::Explosive => "✷",
        Cell::Wall => "▓",
        Cell::Bomb => "💣",
        Cell::Wild => "★",
    }
}

/// The display color name of each cell.
pub open spec fn spec_color_name(c: Cell) -> &'static str {
    match c {
        Cell::Empty => "reset",
        Cell::Player1 => "red",
        Cell::Player2 => "yellow",
        Cell::Blocker => "gray",
        Cell::Explosive => "orange",
        Cell::Wall => "blue",
        Cell::Bomb => "magenta",
        Cell::Wild => "cyan",
    }
}

/// The description of each cell.
pub open spec fn spec_description(c: Cell) -> &'static str {
    match c {
        Cell::Empty => "empty cell",
        Cell::Player1 => "player 1 piece",
        Cell::Player2 => "player 2 piece",
        Cell::Blocker => "blocker piece",
        Cell::Explosive => "explosive piece",
        Cell::Wall => "wall piece",
        Cell::Bomb => "bomb piece",
        Cell::Wild => "wild piece",
    }
}

/// A player piece.
pub open spec fn is_player_cell(c: Cell) -> bool {
    c == Cell::Player1 || c == Cell::Player2
}

/// The other player's piece, for a player piece.
pub open spec fn spec_opponent(c: Cell) -> Option<Cell> {
    match c {
        Cell::Player1 => Some(Cell::Player2),
        Cell::Player2 => Some(Cell::Player1),
        _ => None,
    }
}

/// Whether a cell counts for `player`: wild pieces count for everyone and a
/// wild player matches every cell; otherwise the two must be equal.
pub open spec fn spec_matches_player(c: Cell, player: Cell) -> bool {
    c == Cell::Wild || player == Cell::Wild || c == player
}

/// The cell that a textual token names, if any. The first alias listed wins,
/// so "●" names a player 1 piece.
pub open spec fn spec_parse_cell(s: Seq<char>) -> Option<Cell> {
    if s == " "@ || s == "0"@ || s == "empty"@ || s == "e"@ {
        Some(Cell::Empty)
    } else if s == "●"@ || s == "1"@ || s == "red"@ || s == "p1"@ {
        Some(Cell::Player1)
    } else if s == "2"@ || s == "yellow"@ || s == "p2"@ {
        Some(Cell::Player2)
    } else if s == "█"@ || s == "b"@ || s == "blocker"@ {
        Some(Cell::Blocker)
    } else if s == "✷"@ || s == "x"@ || s == "explosive"@ {
        Some(Cell::Explosive)
    } else if s == "▓"@ || s == "w"@ || s == "wall"@ {
        Some(Cell::Wall)
    } else if s == "💣"@ || s == "!"@ || s == "bomb"@ {
        Some(Cell::Bomb)
    } else if s == "★"@ || s == "*"@ || s == "wild"@ {
        Some(Cell::Wild)
    } else {
        None
    }
}

impl Cell {
    /// Parses a cell from one of its textual aliases; any other text is an
    /// error that names it.
    pub fn from_str(s: &str) -> (r: Result<Cell, String>)
        ensures
            spec_parse_cell(s@) is Some ==> r == Ok::<Cell, String>(spec_parse_cell(s@).unwrap()),
            spec_parse_cell(s@) is None ==> r is Err && r->Err_0@ == "Invalid cell value: "@ + s@,
    {
        if str_eq(s, " ") || str_eq(s, "0") || str_eq(s, "empty") || str_eq(s, "e") {
            Ok(Cell::Empty)
        } else if str_eq(s, "●") || str_eq(s, "1") || str_eq(s, "red") || str_eq(s, "p1") {
            Ok(Cell::Player1)
        } else if str_eq(s, "2") || str_eq(s, "yellow") || str_eq(s, "p2") {
            Ok(Cell::Player2)
        } else if str_eq(s, "█") || str_eq(s, "b") || str_eq(s, "blocker") {
            Ok(Cell::Blocker)
        } else if str_eq(s, "✷") || str_eq(s, "x") || str_eq(s, "explosive") {
            Ok(Cell::Explosive)
        } else if str_eq(s, "▓") || str_eq(s, "w") || str_eq(s, "wall") {
            Ok(Cell::Wall)
        } else if str_eq(s, "💣") || str_eq(s, "!") || str_eq(s, "bomb") {
            Ok(Cell::Bomb)
        } else if str_eq(s, "★") || str_eq(s, "*") || str_eq(s, "wild") {
            Ok(Cell::Wild)
        } else {
            Err(concat("Invalid cell value: ", s))
        }
    }

    /// The text shown for this cell: its display symbol.
    pub fn to_string(&self) -> (r: String)
        ensures
            r@ == spec_symbol(*self)@,
    {
        String::from_str(self.symbol())
    }

    /// Returns the symbol used to display this cell.
    pub fn symbol(&self) -> (r: &'static str)
        ensures
            r@ == spec_symbol(*self)@,
    {
        match self {
            Cell::Empty => " ",
            Cell::Player1 => "●",
            Cell::Player2 => "●",
            Cell::Blocker => "█",
            Cell::Explosive => "✷",
            Cell::Wall => "▓",
            Cell::Bomb => "💣",
            Cell::Wild => "★",
        }
    }

    /// Returns the ASCII symbol used to display this cell.
    pub fn ascii_symbol(&self) -> (r: &'static str)
        ensures
            r@ == spec_ascii_symbol(*self)@,
    {
        match self {
            Cell::Empty => " ",
            Cell::Player1 => "O",
            Cell::Player2 => "X",
            Cell::Blocker => "#",
            Cell::Explosive => "*",
            Cell::Wall => "+",
            Cell::Bomb => "@",
            Cell::Wild => "?",
        }
    }

    /// Returns the Unicode symbol used to display this cell.
    pub fn unicode_symbol(&self) -> (r: &'static str)
        ensures
            r@ == spec_unicode_symbol(*self)@,
    {
        match self {
            Cell::Empty => " ",
            Cell::Player1 => "●",
            Cell::Player2 => "○",
            Cell::Blocker => "█",
            Cell::Explosive => "✷",
            Cell::Wall => "▓",
            Cell::Bomb => "💣",
            Cell::Wild => "★",
        }
    }

    /// Returns true if the cell is empty.
    pub fn is_empty(&self) -> (r: bool)
        ensures
            r == (*self == Cell::Empty),
    {
        matches!(self, Cell::Empty)
    }

    /// Returns true if the cell contains a player piece.
    pub fn is_player(&self) -> (r: bool)
        ensures
            r == is_player_cell(*self),
    {
        matches!(self, Cell::Player1 | Cell::Player2)
    }

    /// Returns true if the cell contains a special piece.
    pub fn is_special(&self) -> (r: bool)
        ensures
            r == (*self != Cell::Empty && !is_player_cell(*self)),
    {
        matches!(self, Cell::Blocker | Cell::Explosive | Cell::Wall | Cell::Bomb | Cell::Wild)
    }

    /// Returns true if the cell can participate in a win.
    pub fn can_win(&self) -> (r: bool)
        ensures
            r == (is_player_cell(*self) || *self == Cell::Wild),
    {
        matches!(self, Cell::Player1 | Cell::Player2 | Cell::Wild)
    }

    /// Returns the color associated with this cell for display purposes.
    pub fn color_name(&self) -> (r: &'static str)
        ensures
            r@ == spec_color_name(*self)@,
    {
        match self {
            Cell::Empty => "reset",
            Cell::Player1 => "red",
            Cell::Player2 => "yellow",
            Cell::Blocker => "gray",
            Cell::Explosive => "orange",
            Cell::Wall => "blue",
            Cell::Bomb => "magenta",
            Cell::Wild => "cyan",
        }
    }

    /// Converts a player number to a cell (1 -> Player1, 2 -> Player2).
    pub fn from_player_number(n: u8) -> (r: Option<Self>)
        ensures
            r == (if n == 1 {
                Some(Cell::Player1)
            } else if n == 2 {
                Some(Cell::Player2)
            } else {
                None::<Cell>
            }),
    {
        match n {
            1 => Some(Cell::Player1),
            2 => Some(Cell::Player2),
            _ => None,
        }
    }

    /// Returns the player number if this is a player cell.
    pub fn player_number(&self) -> (r: Option<u8>)
        ensures
            r == (match *self {
                Cell::Player1 => Some(1u8),
                Cell::Player2 => Some(2u8),
                _ => None::<u8>,
            }),
    {
        match self {
            Cell::Player1 => Some(1),
            Cell::Player2 => Some(2),
            _ => None,
        }
    }

    /// Returns the opponent cell if this is a player cell.
    pub fn opponent(&self) -> (r: Option<Self>)
        ensures
            r == spec_opponent(*self),
    {
        match self {
            Cell::Player1 => Some(Cell::Player2),
            Cell::Player2 => Some(Cell::Player1),
            _ => None,
        }
    }

    /// Returns a descriptive string of this cell.
    pub fn description(&self) -> (r: &'static str)
        ensures
            r@ == spec_description(*self)@,
    {
        match self {
            Cell::Empty => "empty cell",
            Cell::Player1 => "player 1 piece",
            Cell::Player2 => "player 2 piece",
            Cell::Blocker => "blocker piece",
            Cell::Explosive => "explosive piece",
            Cell::Wall => "wall piece",
            Cell::Bomb => "bomb piece",
            Cell::Wild => "wild piece",
        }
    }

    /// Creates a copy of this cell as the opposite player.
    pub fn as_opponent(&self) -> (r: Option<Cell>)
        ensures
            r == spec_opponent(*self),
    {
        match self {
            Cell::Player1 => Some(Cell::Player2),
            Cell::Player2 => Some(Cell::Player1),
            _ => None,
        }
    }

    /// Checks if this cell matches the given player cell (including wild cards).
    pub fn matches_player(&self, player: Cell) -> (r: bool)
        ensures
            r == spec_matches_player(*self, player),
    {
        match (self, player) {
            (Cell::Wild, _) => true,
            (_, Cell::Wild) => true,
            _ => *self == player,
        }
    }
}

/// The opponent of a player piece is a player piece, and taking the opponent
/// twice gives the piece back; other cells have no opponent.
pub proof fn lemma_cell_opponent_involutive(c: Cell)
    ensures
        is_player_cell(c) ==> spec_opponent(c) is Some && is_player_cell(spec_opponent(c).unwrap())
            && spec_opponent(spec_opponent(c).unwrap()) == Some(c) && spec_opponent(c).unwrap() != c,
        !is_player_cell(c) ==> spec_opponent(c) is None,
{
}

/// Matching a player is symmetric.
pub proof fn lemma_matches_player_symmetric(a: Cell, b: Cell)
    ensures
        spec_matches_player(a, b) == spec_matches_player(b, a),
{
}

} // verus!
