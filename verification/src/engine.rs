//! The game engine: holds the state of one game and applies moves to it
//! under the standard rules.

use vstd::prelude::*;
use crate::board::Board;
use crate::cell::Cell;
use crate::coordinates::Position;
use crate::game_config::{GameConfig, spec_config_error};
use crate::game_state::{GamePhase, GameSnapshot, GameState, times_in_range, spec_is_snapshot, spec_restored};
use crate::move_result::{InvalidMoveReason, MoveResult, ValidationStatus};
use crate::player::{Player, Turn, TurnOrder, spec_cell, spec_opponent};
use crate::validation::{GameValidator, spec_move_status};

verus! {

/// Every cell of the board is occupied.
pub open spec fn spec_board_full(b: &Board) -> bool {
    forall|i: int, j: int| b.in_bounds(i, j) ==> #[trigger] b.at(i, j) != Cell::Empty
}

/// The number of connected cells in a line that the engine counts as a win.
pub const WIN_LENGTH: usize = 4;

/// The columns below `n` that can take a piece, in increasing order.
pub open spec fn spec_valid_columns(b: &Board, n: int) -> Seq<usize>
    decreases n,
{
    if n <= 0 {
        Seq::empty()
    } else if !b.spec_column_full(n - 1) {
        spec_valid_columns(b, n - 1).push((n - 1) as usize)
    } else {
        spec_valid_columns(b, n - 1)
    }
}

/// The outcome of a move that passed validation: the piece lands in the
/// lowest empty row, and the move wins if the player then has a winning line,
/// or draws if the board is then full.
pub open spec fn spec_landing(before: &Board, after: &Board, column: usize, player: Player) -> MoveResult {
    let row = before.spec_lowest_empty_row(column as int).unwrap();
    let is_win = after.spec_has_winning_line(spec_cell(player), WIN_LENGTH as int);
    MoveResult::Success {
        position: Position { row, col: column },
        is_win,
        is_draw: spec_board_full(after) && !is_win,
    }
}

/// Runs one game.
pub struct GameEngine {
    state: GameState,
    config: GameConfig,
    validator: GameValidator,
}

impl GameEngine {
    /// The state of the game.
    pub closed spec fn spec_state(&self) -> GameState {
        self.state
    }

    /// The configuration the game was made with.
    pub closed spec fn spec_config(&self) -> GameConfig {
        self.config
    }

    /// The engine's invariant: its board is well formed and has rows when it
    /// has columns, moves are checked against its configuration with no
    /// variant, and a board of the configured size fits in memory.
    pub closed spec fn wf(&self) -> bool {
        &&& self.state.board.wf()
        &&& self.state.board.spec_cols() > 0 ==> self.state.board.spec_rows() > 0
        &&& times_in_range(&self.state)
        &&& self.validator.spec_config() == self.config
        &&& self.validator.spec_variant() is None
        &&& self.config.rows <= isize::MAX
        &&& self.config.cols <= isize::MAX
        &&& self.config.rows * self.config.cols <= isize::MAX
        &&& self.config.cols > 0 ==> self.config.rows > 0
    }

    /// A new game for a configuration: refused with the message of the first
    /// rule the configuration breaks; otherwise an empty board of the
    /// configured size, player 1 to move.
    pub fn new(config: GameConfig) -> (r: Result<Self, String>)
        requires
            config.rows * config.cols <= isize::MAX,
        ensures
            spec_config_error(config) is Some ==> r is Err && r->Err_0@ == spec_config_error(config).unwrap()@,
            spec_config_error(config) is None ==> r is Ok && r->Ok_0.wf() && r->Ok_0.spec_config() == config
                && r->Ok_0.spec_state().board.spec_rows() == config.rows
                && r->Ok_0.spec_state().board.spec_cols() == config.cols
                && r->Ok_0.spec_state().board.all_cells(Cell::Empty)
                && r->Ok_0.spec_state().turn == (Turn { current_player: Player::Player1, turn_number: 1 })
                && !r->Ok_0.spec_state().game_over && r->Ok_0.spec_state().winner is None
                && !r->Ok_0.spec_state().is_draw && r->Ok_0.spec_state().moves@.len() == 0
                && r->Ok_0.spec_state().phase == GamePhase::Playing,
    {
        match config.validate() {
            Err(e) => {
                return Err(e);
            },
            Ok(()) => {},
        }
        proof {
            assert(config.rows <= isize::MAX) by (nonlinear_arith)
                requires config.rows * config.cols <= isize::MAX, config.cols >= 4;
            assert(config.cols <= isize::MAX) by (nonlinear_arith)
                requires config.rows * config.cols <= isize::MAX, config.rows >= 4;
        }
        let validator = GameValidator::with_config(config);
        let board = Board::new(config.rows, config.cols);
        let state = GameState::new(board, Player::Player1);
        Ok(GameEngine { state, config, validator })
    }

    /// A new game whose first player is chosen by a turn order (a random
    /// order flips a coin).
    pub fn with_turn_order(config: GameConfig, turn_order: TurnOrder) -> (r: Result<Self, String>)
        requires
            config.rows * config.cols <= isize::MAX,
        ensures
            spec_config_error(config) is Some ==> r is Err && r->Err_0@ == spec_config_error(config).unwrap()@,
            spec_config_error(config) is None ==> r is Ok && r->Ok_0.wf() && r->Ok_0.spec_config() == config
                && r->Ok_0.spec_state().board.spec_rows() == config.rows
                && r->Ok_0.spec_state().board.spec_cols() == config.cols
                && r->Ok_0.spec_state().board.all_cells(Cell::Empty)
                && r->Ok_0.spec_state().turn.turn_number == 1
                && (turn_order == TurnOrder::Player1First ==> r->Ok_0.spec_state().turn.current_player
                    == Player::Player1)
                && (turn_order == TurnOrder::Player2First ==> r->Ok_0.spec_state().turn.current_player
                    == Player::Player2)
                && !r->Ok_0.spec_state().game_over && r->Ok_0.spec_state().moves@.len() == 0
                && r->Ok_0.spec_state().phase == GamePhase::Playing,
    {
        let mut engine = match Self::new(config) {
            Ok(e) => e,
            Err(e) => {
                return Err(e);
            },
        };
        let starting_player = turn_order.first_player();
        engine.state.turn = Turn::first(starting_player);
        Ok(engine)
    }

    /// Plays `column` for `player`. Once the game is over the answer says so;
    /// a move that fails validation is refused with its reason and changes
    /// nothing; any other move drops a piece into the lowest empty row of the
    /// column, then ends the game on a win or a full board, or passes the turn.
    pub fn make_move(&mut self, column: usize, player: Player) -> (r: Result<MoveResult, String>)
        requires
            old(self).wf(),
            old(self).spec_state().turn.turn_number < u32::MAX,
        ensures
            final(self).wf(),
            final(self).spec_config() == old(self).spec_config(),
            r is Ok,
            ({
                let s = old(self).spec_state();
                let t = final(self).spec_state();
                let status = spec_move_status(None, &s, column, player);
                if s.game_over {
                    r->Ok_0 == MoveResult::GameOver { winner: s.winner } && t == s
                } else if status != ValidationStatus::Valid {
                    r->Ok_0 == MoveResult::Invalid { reason: status->Invalid_0 } && t == s
                } else {
                    let row = s.board.spec_lowest_empty_row(column as int).unwrap();
                    &&& s.board.updated(&t.board, row as int, column as int, spec_cell(player))
                    &&& r->Ok_0 == spec_landing(&s.board, &t.board, column, player)
                    &&& t.moves@ == s.moves@
                    &&& t.game_id == s.game_id
                    &&& t.start_time == s.start_time
                    &&& if r->Ok_0->is_win {
                        &&& t.game_over && t.winner == Some(player) && !t.is_draw
                        &&& t.phase == GamePhase::Ended && t.turn == s.turn && t.end_time is Some
                    } else if r->Ok_0->is_draw {
                        &&& t.game_over && t.winner is None && t.is_draw
                        &&& t.phase == GamePhase::Ended && t.turn == s.turn && t.end_time is Some
                    } else {
                        &&& !t.game_over && t.winner == s.winner && t.is_draw == s.is_draw
                        &&& t.phase == s.phase && t.end_time == s.end_time
                        &&& t.turn == (Turn {
                            current_player: spec_opponent(s.turn.current_player),
                            turn_number: (s.turn.turn_number + 1) as u32,
                        })
                    }
                }
            }),
    {
        if self.state.is_game_over() {
            return Ok(MoveResult::game_over(self.state.winner()));
        }
        let validation = self.validator.validate_move(&self.state, column, player);
        if !validation.is_valid() {
            let reason = match validation.invalid_reason() {
                Some(reason) => reason,
                None => InvalidMoveReason::Invalid,
            };
            return Ok(MoveResult::invalid(reason));
        }
        let ghost before = self.state.board;
        proof {
            assert(before.at(0, column as int) == Cell::Empty);
            before.lemma_lowest_empty(column as int, 0);
        }
        let row = match self.state.board.lowest_empty_row(column) {
            Some(row) => row,
            None => {
                return Err(String::from_str("Column is full"));
            },
        };
        proof {
            assert(before.at(row as int, column as int) == Cell::Empty);
        }
        let _ = self.state.board.set_at(row, column, player.cell());
        let position = Position::new(row, column);
        let is_win = self.state.board.has_winning_line(player.cell(), WIN_LENGTH);
        let is_draw = self.state.board.is_full() && !is_win;
        if is_win {
            self.state.end_with_winner(player);
        } else if is_draw {
            self.state.end_as_draw();
        } else {
            self.state.advance_turn();
        }
        proof {
            assert(self.state.board.spec_cols() == before.spec_cols());
        }
        if is_win {
            Ok(MoveResult::winning_move(position))
        } else if is_draw {
            Ok(MoveResult::draw_move(position))
        } else {
            Ok(MoveResult::success(position))
        }
    }

    /// A copy of the state of the game.
    pub fn get_state(&self) -> (r: GameState)
        ensures
            r.game_id == self.spec_state().game_id,
            r.board@ == self.spec_state().board@,
            r.board.spec_rows() == self.spec_state().board.spec_rows(),
            r.board.spec_cols() == self.spec_state().board.spec_cols(),
            r.turn == self.spec_state().turn,
            r.game_over == self.spec_state().game_over,
            r.winner == self.spec_state().winner,
            r.is_draw == self.spec_state().is_draw,
            r.start_time == self.spec_state().start_time,
            r.end_time == self.spec_state().end_time,
            r.moves@ == self.spec_state().moves@,
            r.phase == self.spec_state().phase,
    {
        self.state.clone()
    }

    /// A snapshot of the state of the game.
    pub fn get_snapshot(&self) -> (r: GameSnapshot)
        ensures
            spec_is_snapshot(r, self.spec_state()),
    {
        self.state.snapshot()
    }

    /// Returns the game to a snapshot.
    pub fn restore_snapshot(&mut self, snapshot: GameSnapshot) -> (r: Result<(), String>)
        requires
            old(self).wf(),
            snapshot.board.wf(),
            snapshot.board.spec_cols() > 0 ==> snapshot.board.spec_rows() > 0,
        ensures
            r is Ok,
            final(self).wf(),
            final(self).spec_config() == old(self).spec_config(),
            spec_restored(final(self).spec_state(), old(self).spec_state(), snapshot),
    {
        self.state.restore(snapshot);
        Ok(())
    }

    /// Starts the game again on an empty board of the configured size, player
    /// 1 to move.
    pub fn reset(&mut self) -> (r: Result<(), String>)
        requires
            old(self).wf(),
        ensures
            r is Ok,
            final(self).wf(),
            final(self).spec_config() == old(self).spec_config(),
            final(self).spec_state().board.spec_rows() == old(self).spec_config().rows,
            final(self).spec_state().board.spec_cols() == old(self).spec_config().cols,
            final(self).spec_state().board.all_cells(Cell::Empty),
            final(self).spec_state().turn == (Turn { current_player: Player::Player1, turn_number: 1 }),
            !final(self).spec_state().game_over,
            final(self).spec_state().winner is None,
            !final(self).spec_state().is_draw,
            final(self).spec_state().moves@.len() == 0,
            final(self).spec_state().phase == GamePhase::Playing,
    {
        let board = Board::new(self.config.rows, self.config.cols);
        self.state = GameState::new(board, Player::Player1);
        Ok(())
    }

    /// Pauses the game.
    pub fn pause(&mut self)
        requires
            old(self).wf(),
        ensures
            final(self).wf(),
            final(self).spec_config() == old(self).spec_config(),
            final(self).spec_state() == (GameState { phase: GamePhase::Paused, ..old(self).spec_state() }),
    {
        self.state.set_phase(GamePhase::Paused);
    }

    /// Resumes the game.
    pub fn resume(&mut self)
        requires
            old(self).wf(),
        ensures
            final(self).wf(),
            final(self).spec_config() == old(self).spec_config(),
            final(self).spec_state() == (GameState { phase: GamePhase::Playing, ..old(self).spec_state() }),
    {
        self.state.set_phase(GamePhase::Playing);
    }

    /// Returns true if the game is paused.
    pub fn is_paused(&self) -> (r: bool)
        ensures
            r == (self.spec_state().phase == GamePhase::Paused),
    {
        self.state.phase().is_paused()
    }

    /// The player to move.
    pub fn current_player(&self) -> (r: Player)
        ensures
            r == self.spec_state().turn.current_player,
    {
        self.state.current_player()
    }

    /// The number of the current turn.
    pub fn turn_number(&self) -> (r: u32)
        ensures
            r == self.spec_state().turn.turn_number,
    {
        self.state.turn_number()
    }

    /// Returns true if the game is over.
    pub fn is_game_over(&self) -> (r: bool)
        ensures
            r == self.spec_state().game_over,
    {
        self.state.is_game_over()
    }

    /// The winner, if the game was won.
    pub fn winner(&self) -> (r: Option<Player>)
        ensures
            r == self.spec_state().winner,
    {
        self.state.winner()
    }

    /// Returns true if the game ended in a draw.
    pub fn is_draw(&self) -> (r: bool)
        ensures
            r == self.spec_state().is_draw,
    {
        self.state.is_draw()
    }

    /// The columns that can take a piece, in increasing order.
    pub fn valid_moves(&self) -> (r: Vec<usize>)
        requires
            self.wf(),
        ensures
            r@ == spec_valid_columns(&self.spec_state().board, self.spec_state().board.spec_cols() as int),
    {
        let board = self.state.board();
        let mut out: Vec<usize> = Vec::new();
        let mut col: usize = 0;
        while col < board.cols()
            invariant
                board.wf(),
                board.spec_cols() > 0 ==> board.spec_rows() > 0,
                *board == self.spec_state().board,
                col <= board.spec_cols(),
                out@ == spec_valid_columns(board, col as int),
            decreases board.spec_cols() - col,
        {
            if !board.is_column_full(col) {
                out.push(col);
            }
            col = col + 1;
        }
        out
    }
}

/// A move read back: after a successful move, the cell where the piece
/// landed holds the player's piece, every other cell is as it was, and the
/// cell was the lowest empty one of the column.
pub proof fn lemma_move_lands(before: &Board, after: &Board, column: usize, player: Player)
    requires
        before.wf(),
        0 <= column < before.spec_cols(),
        before.spec_rows() > 0,
        !before.spec_column_full(column as int),
        before.updated(after, before.spec_lowest_empty_row(column as int).unwrap() as int, column as int, spec_cell(player)),
    ensures
        ({
            let row = before.spec_lowest_empty_row(column as int).unwrap() as int;
            &&& 0 <= row < before.spec_rows()
            &&& before.at(row, column as int) == Cell::Empty
            &&& forall|k: int| row < k < before.spec_rows() ==> #[trigger] before.at(k, column as int) != Cell::Empty
            &&& after.at(row, column as int) == spec_cell(player)
            &&& forall|i: int, j: int| after.in_bounds(i, j) && (i != row || j != column) ==> #[trigger] after.at(i, j)
                == before.at(i, j)
        }),
{
    assert(before.at(0, column as int) == Cell::Empty);
    before.lemma_lowest_empty(column as int, 0);
    let row = before.spec_lowest_empty_row(column as int).unwrap() as int;
    before.lemma_updated_at(after, row, column as int, spec_cell(player));
}

} // verus!
