//! What comes of a move: its outcome, the reason it was refused, its record
//! and the statistics gathered while choosing it.

use vstd::prelude::*;
use crate::cell::Cell;
use crate::coordinates::Position;
use crate::player::{Player, spec_player_str};
use crate::text::{decimal, spec_decimal};

verus! {

/// The result of attempting to make a move.
#[derive(Clone, Copy, PartialEq, Eq, Debug, Structural)]
pub enum MoveResult {
    /// The move was made.
    Success {
        /// The position where the piece landed.
        position: Position,
        /// Whether this move won the game.
        is_win: bool,
        /// Whether the board is now full.
        is_draw: bool,
    },
    /// The move was refused.
    Invalid {
        /// Why it was refused.
        reason: InvalidMoveReason,
    },
    /// The game is over and no more moves can be made.
    GameOver {
        /// The winner, if any.
        winner: Option<Player>,
    },
}

/// The debug text of a position, as `{:?}` writes it.
pub open spec fn spec_position_debug(p: Position) -> Seq<char> {
    "Position { row: "@ + spec_decimal(p.row as nat) + ", col: "@ + spec_decimal(p.col as nat)
        + " }"@
}

/// The text shown for a move result.
pub open spec fn spec_move_result_text(m: MoveResult) -> Seq<char> {
    match m {
        MoveResult::Success { position, is_win, is_draw } => {
            if is_win {
                "Winning move at position "@ + spec_position_debug(position)
            } else if is_draw {
                "Draw at position "@ + spec_position_debug(position)
            } else {
                "Move successful at position "@ + spec_position_debug(position)
            }
        },
        MoveResult::Invalid { reason } => "Invalid move: "@ + spec_reason_description(reason)@,
        MoveResult::GameOver { winner } => match winner {
            Some(w) => "Game over. "@ + spec_player_str(w)@ + " wins!"@,
            None => "Game over. It's a draw!"@,
        },
    }
}

fn position_debug(p: Position) -> (r: String)
    ensures
        r@ == spec_position_debug(p),
{
    let mut s = String::from_str("Position { row: ");
    let a = decimal(p.row as u64);
    s.append(a.as_str());
    s.append(", col: ");
    let b = decimal(p.col as u64);
    s.append(b.as_str());
    s.append(" }");
    s
}

impl MoveResult {
    /// A successful move that neither wins nor fills the board.
    pub fn success(position: Position) -> (r: Self)
        ensures
            r == (MoveResult::Success { position, is_win: false, is_draw: false }),
    {
        MoveResult::Success { position, is_win: false, is_draw: false }
    }

    /// A successful move that wins the game.
    pub fn winning_move(position: Position) -> (r: Self)
        ensures
            r == (MoveResult::Success { position, is_win: true, is_draw: false }),
    {
        MoveResult::Success { position, is_win: true, is_draw: false }
    }

    /// A successful move that fills the board without a winner.
    pub fn draw_move(position: Position) -> (r: Self)
        ensures
            r == (MoveResult::Success { position, is_win: false, is_draw: true }),
    {
        MoveResult::Success { position, is_win: false, is_draw: true }
    }

    /// A refused move.
    pub fn invalid(reason: InvalidMoveReason) -> (r: Self)
        ensures
            r == (MoveResult::Invalid { reason }),
    {
        MoveResult::Invalid { reason }
    }

    /// The answer once the game is over.
    pub fn game_over(winner: Option<Player>) -> (r: Self)
        ensures
            r == (MoveResult::GameOver { winner }),
    {
        MoveResult::GameOver { winner }
    }

    /// Returns true if the move was made.
    pub fn is_success(&self) -> (r: bool)
        ensures
            r == (*self is Success),
    {
        matches!(self, MoveResult::Success { .. })
    }

    /// Returns true if the move was refused.
    pub fn is_invalid(&self) -> (r: bool)
        ensures
            r == (*self is Invalid),
    {
        matches!(self, MoveResult::Invalid { .. })
    }

    /// Returns true if the game was already over.
    pub fn is_game_over(&self) -> (r: bool)
        ensures
            r == (*self is GameOver),
    {
        matches!(self, MoveResult::GameOver { .. })
    }

    /// Returns true if the move won the game.
    pub fn is_win(&self) -> (r: bool)
        ensures
            r == (*self is Success && self->is_win),
    {
        match self {
            MoveResult::Success { is_win, .. } => *is_win,
            _ => false,
        }
    }

    /// Returns true if the move filled the board.
    pub fn is_draw(&self) -> (r: bool)
        ensures
            r == (*self is Success && self->is_draw),
    {
        match self {
            MoveResult::Success { is_draw, .. } => *is_draw,
            _ => false,
        }
    }

    /// The position where the piece landed, for a successful move.
    pub fn position(&self) -> (r: Option<Position>)
        ensures
            r == (if *self is Success { Some(self->position) } else { None::<Position> }),
    {
        match self {
            MoveResult::Success { position, .. } => Some(*position),
            _ => None,
        }
    }

    /// Why the move was refused, for a refused move.
    pub fn invalid_reason(&self) -> (r: Option<InvalidMoveReason>)
        ensures
            r == (if *self is Invalid { Some(self->reason) } else { None::<InvalidMoveReason> }),
    {
        match self {
            MoveResult::Invalid { reason } => Some(*reason),
            _ => None,
        }
    }

    /// The text shown for this result.
    pub fn to_string(&self) -> (r: String)
        ensures
            r@ == spec_move_result_text(*self),
    {
        match self {
            MoveResult::Success { position, is_win, is_draw } => {
                let mut s = if *is_win {
                    String::from_str("Winning move at position ")
                } else if *is_draw {
                    String::from_str("Draw at position ")
                } else {
                    String::from_str("Move successful at position ")
                };
                let p = position_debug(*position);
                s.append(p.as_str());
                s
            },
            MoveResult::Invalid { reason } => {
                let mut s = String::from_str("Invalid move: ");
                s.append(reason.description());
                s
            },
            MoveResult::GameOver { winner } => match winner {
                Some(w) => {
                    let mut s = String::from_str("Game over. ");
                    s.append(w.as_str());
                    s.append(" wins!");
                    s
                },
                None => String::from_str("Game over. It's a draw!"),
            },
        }
    }
}

/// Reasons why a move might be refused.
#[derive(Clone, Copy, PartialEq, Eq, Debug, Hash, Structural)]
pub enum InvalidMoveReason {
    /// The column is out of bounds.
    ColumnOutOfBounds,
    /// The column is full.
    ColumnFull,
    /// The game is over.
    GameOver,
    /// It is not this player's turn.
    NotYourTurn,
    /// The move is blocked by another piece.
    Blocked,
    /// The special piece is not available.
    SpecialNotAvailable,
    /// The move is malformed.
    InvalidFormat,
    /// The game has not started.
    TooEarly,
    /// Any other refusal.
    Invalid,
}

/// The description of each refusal reason.
pub open spec fn spec_reason_description(r: InvalidMoveReason) -> &'static str {
    match r {
        InvalidMoveReason::ColumnOutOfBounds => "Column is out of bounds",
        InvalidMoveReason::ColumnFull => "Column is full",
        InvalidMoveReason::GameOver => "Game is already over",
        InvalidMoveReason::NotYourTurn => "It's not your turn",
        InvalidMoveReason::Blocked => "Move is blocked by another piece",
        InvalidMoveReason::SpecialNotAvailable => "Special piece not available",
        InvalidMoveReason::InvalidFormat => "Invalid move format",
        InvalidMoveReason::TooEarly => "Cannot make a move yet",
        InvalidMoveReason::Invalid => "Invalid move",
    }
}

impl InvalidMoveReason {
    /// A description of this reason.
    pub fn description(&self) -> (r: &'static str)
        ensures
            r@ == spec_reason_description(*self)@,
    {
        match self {
            InvalidMoveReason::ColumnOutOfBounds => "Column is out of bounds",
            InvalidMoveReason::ColumnFull => "Column is full",
            InvalidMoveReason::GameOver => "Game is already over",
            InvalidMoveReason::NotYourTurn => "It's not your turn",
            InvalidMoveReason::Blocked => "Move is blocked by another piece",
            InvalidMoveReason::SpecialNotAvailable => "Special piece not available",
            InvalidMoveReason::InvalidFormat => "Invalid move format",
            InvalidMoveReason::TooEarly => "Cannot make a move yet",
            InvalidMoveReason::Invalid => "Invalid move",
        }
    }

    /// The text shown for this reason: its description.
    pub fn to_string(&self) -> (r: String)
        ensures
            r@ == spec_reason_description(*self)@,
    {
        String::from_str(self.description())
    }
}

/// The record of one move.
#[derive(Clone, Copy, PartialEq, Eq, Debug, Structural)]
pub struct MoveInfo {
    /// The player who made the move.
    pub player: Player,
    /// The column chosen.
    pub column: usize,
    /// The row where the piece landed.
    pub row: usize,
    /// The position where the piece landed.
    pub position: Position,
    /// The cell placed.
    pub cell: Cell,
    /// Whether this move won the game.
    pub is_winning_move: bool,
    /// Whether this move filled the board.
    pub is_final_move: bool,
    /// The hash of the board after the move.
    pub board_hash: u64,
}

impl MoveInfo {
    /// A record of a move that is neither winning nor final.
    pub fn new(player: Player, column: usize, row: usize, cell: Cell, board_hash: u64) -> (r: Self)
        ensures
            r == (MoveInfo {
                player,
                column,
                row,
                position: Position { row, col: column },
                cell,
                is_winning_move: false,
                is_final_move: false,
                board_hash,
            }),
    {
        MoveInfo {
            player,
            column,
            row,
            position: Position::new(row, column),
            cell,
            is_winning_move: false,
            is_final_move: false,
            board_hash,
        }
    }

    /// Marks this move as a winning move.
    pub fn set_winning(&mut self)
        ensures
            *final(self) == (MoveInfo { is_winning_move: true, ..*old(self) }),
    {
        self.is_winning_move = true;
    }

    /// Marks this move as the one that filled the board.
    pub fn set_final(&mut self)
        ensures
            *final(self) == (MoveInfo { is_final_move: true, ..*old(self) }),
    {
        self.is_final_move = true;
    }
}

/// Statistics gathered while choosing a move.
#[derive(Clone, Copy, PartialEq, Eq, Debug, Structural)]
pub struct MoveStats {
    /// Time taken, in milliseconds.
    pub time_ms: u64,
    /// Number of positions considered.
    pub positions_considered: u32,
    /// Depth of the search.
    pub search_depth: u32,
    /// Number of alpha-beta cutoffs.
    pub cutoffs: u32,
    /// Number of transposition table hits.
    pub transposition_hits: u32,
    /// Memory used, in bytes.
    pub memory_used: u64,
}

/// The statistics of a move before anything was counted.
pub open spec fn spec_zero_stats() -> MoveStats {
    MoveStats {
        time_ms: 0,
        positions_considered: 0,
        search_depth: 0,
        cutoffs: 0,
        transposition_hits: 0,
        memory_used: 0,
    }
}

/// `a + b`, held at `u32::MAX`.
pub open spec fn saturating_sum(a: u32, b: u32) -> u32 {
    if a + b > u32::MAX { u32::MAX } else { (a + b) as u32 }
}

impl MoveStats {
    /// All counters at zero.
    pub fn new() -> (r: Self)
        ensures
            r == spec_zero_stats(),
    {
        MoveStats {
            time_ms: 0,
            positions_considered: 0,
            search_depth: 0,
            cutoffs: 0,
            transposition_hits: 0,
            memory_used: 0,
        }
    }

    /// All counters at zero but the time taken.
    pub fn with_timing(time_ms: u64) -> (r: Self)
        ensures
            r == (MoveStats { time_ms, ..spec_zero_stats() }),
    {
        MoveStats { time_ms, ..MoveStats::new() }
    }

    /// Sets the time taken.
    pub fn set_time(&mut self, time_ms: u64)
        ensures
            *final(self) == (MoveStats { time_ms, ..*old(self) }),
    {
        self.time_ms = time_ms;
    }

    /// Adds to the positions considered, holding at `u32::MAX`.
    pub fn add_positions(&mut self, count: u32)
        ensures
            *final(self) == (MoveStats {
                positions_considered: saturating_sum(old(self).positions_considered, count),
                ..*old(self)
            }),
    {
        self.positions_considered = self.positions_considered.saturating_add(count);
    }

    /// Counts one more cutoff, holding at `u32::MAX`.
    pub fn add_cutoff(&mut self)
        ensures
            *final(self) == (MoveStats { cutoffs: saturating_sum(old(self).cutoffs, 1), ..*old(self) }),
    {
        self.cutoffs = self.cutoffs.saturating_add(1);
    }

    /// Counts one more transposition table hit, holding at `u32::MAX`.
    pub fn add_transposition_hit(&mut self)
        ensures
            *final(self) == (MoveStats {
                transposition_hits: saturating_sum(old(self).transposition_hits, 1),
                ..*old(self)
            }),
    {
        self.transposition_hits = self.transposition_hits.saturating_add(1);
    }
}

impl Default for MoveStats {
    fn default() -> (r: Self)
        ensures
            r == spec_zero_stats(),
    {
        MoveStats::new()
    }
}

/// The verdict of a move check.
#[derive(Clone, Copy, PartialEq, Eq, Debug, Structural)]
pub enum ValidationStatus {
    /// The move can be made.
    Valid,
    /// The move is refused.
    Invalid(InvalidMoveReason),
    /// The move can be made once confirmed.
    RequiresConfirmation,
}

impl ValidationStatus {
    /// Returns true if the move can be made.
    pub fn is_valid(&self) -> (r: bool)
        ensures
            r == (*self is Valid),
    {
        matches!(self, ValidationStatus::Valid)
    }

    /// Returns true if the move is refused.
    pub fn is_invalid(&self) -> (r: bool)
        ensures
            r == (*self is Invalid),
    {
        matches!(self, ValidationStatus::Invalid(_))
    }

    /// Returns true if the move needs confirmation.
    pub fn requires_confirmation(&self) -> (r: bool)
        ensures
            r == (*self is RequiresConfirmation),
    {
        matches!(self, ValidationStatus::RequiresConfirmation)
    }

    /// The reason for a refusal.
    pub fn invalid_reason(&self) -> (r: Option<InvalidMoveReason>)
        ensures
            r == (if *self is Invalid { Some(self->Invalid_0) } else { None::<InvalidMoveReason> }),
    {
        match self {
            ValidationStatus::Invalid(reason) => Some(*reason),
            _ => None,
        }
    }
}

} // verus!
