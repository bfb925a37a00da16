//! The state of a game: board, turn, outcome, history and phase.

use vstd::prelude::*;
use crate::board::{Board, render};
use crate::cell::Cell;
use crate::clock::{now_millis, TIMESTAMP_BOUND};
use crate::coordinates::{Position, Direction};
use crate::game_id::{new_game_id, game_id_text, spec_game_id_text};
use crate::player::{Player, Turn, spec_cell, spec_opponent, spec_player_str};
use crate::text::{decimal, spec_decimal};

verus! {

/// The state of a game. Times are milliseconds since the Unix epoch.
#[derive(PartialEq, Eq, Debug)]
pub struct GameState {
    /// Unique game identifier: the value of a random UUID.
    pub game_id: u128,
    /// The game board.
    pub board: Board,
    /// Whose turn it is, and its number.
    pub turn: Turn,
    /// Whether the game is over.
    pub game_over: bool,
    /// The winner, if any.
    pub winner: Option<Player>,
    /// Whether the game ended in a draw.
    pub is_draw: bool,
    /// When the game started.
    pub start_time: i64,
    /// When the game ended, once it has.
    pub end_time: Option<i64>,
    /// The moves made, in order.
    pub moves: Vec<GameMove>,
    /// The phase of the game.
    pub phase: GamePhase,
}

/// The times a state holds lie in the clock's range.
pub open spec fn times_in_range(s: &GameState) -> bool {
    &&& -TIMESTAMP_BOUND < s.start_time < TIMESTAMP_BOUND
    &&& s.end_time matches Some(e) ==> -TIMESTAMP_BOUND < e < TIMESTAMP_BOUND
}

/// The win condition of a state: a run through one of the player's cells,
/// along one of the four line directions, with four more matching cells.
pub open spec fn spec_four_way_win(b: &Board, cell: Cell, length: int) -> bool {
    exists|r: int, c: int|
        b.in_bounds(r, c) && b.at(r, c) == cell && #[trigger] four_way_line(b, r, c, cell, length)
}

/// `snap` records `s`: all of it but the move list, of which it keeps the
/// length.
pub open spec fn spec_is_snapshot(snap: GameSnapshot, s: GameState) -> bool {
    &&& snap.game_id == s.game_id
    &&& snap.board@ == s.board@
    &&& snap.board.spec_rows() == s.board.spec_rows()
    &&& snap.board.spec_cols() == s.board.spec_cols()
    &&& snap.turn == s.turn
    &&& snap.game_over == s.game_over
    &&& snap.winner == s.winner
    &&& snap.is_draw == s.is_draw
    &&& snap.move_count == s.moves@.len()
    &&& snap.phase == s.phase
}

/// `after` is `before` returned to `snap`: the snapshot's fields are taken,
/// the move list is cut back to the snapshot's length (a longer length
/// leaves it as it is), and the times stay.
pub open spec fn spec_restored(after: GameState, before: GameState, snap: GameSnapshot) -> bool {
    &&& after.game_id == snap.game_id
    &&& after.board == snap.board
    &&& after.turn == snap.turn
    &&& after.game_over == snap.game_over
    &&& after.winner == snap.winner
    &&& after.is_draw == snap.is_draw
    &&& after.phase == snap.phase
    &&& snap.move_count <= before.moves@.len() ==> after.moves@ == before.moves@.subrange(
        0,
        snap.move_count as int,
    )
    &&& snap.move_count > before.moves@.len() ==> after.moves@ == before.moves@
    &&& after.start_time == before.start_time
    &&& after.end_time == before.end_time
}

/// Restoring a state's own snapshot gives the state back: the same board,
/// turn, outcome, phase, identifier, times and moves.
pub proof fn lemma_snapshot_restore(s: GameState, snap: GameSnapshot, t: GameState)
    requires
        spec_is_snapshot(snap, s),
        spec_restored(t, s, snap),
    ensures
        t.game_id == s.game_id,
        t.board@ == s.board@,
        t.board.spec_rows() == s.board.spec_rows(),
        t.board.spec_cols() == s.board.spec_cols(),
        t.turn == s.turn,
        t.game_over == s.game_over,
        t.winner == s.winner,
        t.is_draw == s.is_draw,
        t.phase == s.phase,
        t.moves@ == s.moves@,
        t.start_time == s.start_time,
        t.end_time == s.end_time,
{
    assert(s.moves@.subrange(0, s.moves@.len() as int) =~= s.moves@);
}

/// A line through (`r`, `c`) east-west, north-south or along a diagonal.
pub open spec fn four_way_line(b: &Board, r: int, c: int, cell: Cell, length: int) -> bool {
    ||| b.spec_line_at(r, c, Direction::East, cell, length)
    ||| b.spec_line_at(r, c, Direction::South, cell, length)
    ||| b.spec_line_at(r, c, Direction::Southeast, cell, length)
    ||| b.spec_line_at(r, c, Direction::Southwest, cell, length)
}

/// Checking the four line directions finds the same wins as checking all
/// eight, since a line read one way is the line read the other way.
pub proof fn lemma_four_way_win(b: &Board, cell: Cell, length: int)
    ensures
        spec_four_way_win(b, cell, length) == b.spec_has_winning_line(cell, length),
{
    if b.spec_has_winning_line(cell, length) {
        let (r, c, d) = choose|r: int, c: int, d: Direction|
            b.in_bounds(r, c) && b.at(r, c) == cell && #[trigger] b.spec_line_at(r, c, d, cell, length);
        b.lemma_line_at_opposite(r, c, d, cell, length);
        assert(four_way_line(b, r, c, cell, length));
    }
    if spec_four_way_win(b, cell, length) {
        let (r, c) = choose|r: int, c: int|
            b.in_bounds(r, c) && b.at(r, c) == cell && #[trigger] four_way_line(b, r, c, cell, length);
        if b.spec_line_at(r, c, Direction::East, cell, length) {
            assert(b.spec_line_at(r, c, Direction::East, cell, length));
        } else if b.spec_line_at(r, c, Direction::South, cell, length) {
            assert(b.spec_line_at(r, c, Direction::South, cell, length));
        } else if b.spec_line_at(r, c, Direction::Southeast, cell, length) {
            assert(b.spec_line_at(r, c, Direction::Southeast, cell, length));
        } else {
            assert(b.spec_line_at(r, c, Direction::Southwest, cell, length));
        }
    }
}

/// The text shown for a phase, as `{:?}` writes it.
pub open spec fn spec_phase_debug(p: GamePhase) -> &'static str {
    match p {
        GamePhase::Waiting => "Waiting",
        GamePhase::Playing => "Playing",
        GamePhase::Paused => "Paused",
        GamePhase::Ended => "Ended",
    }
}

impl GameState {
    /// A new game on `board`, `starting_player` to move first, started now.
    pub fn new(board: Board, starting_player: Player) -> (r: Self)
        ensures
            r.board == board,
            r.turn == (Turn { current_player: starting_player, turn_number: 1 }),
            !r.game_over,
            r.winner is None,
            !r.is_draw,
            r.end_time is None,
            r.moves@ == Seq::<GameMove>::empty(),
            r.phase == GamePhase::Playing,
            times_in_range(&r),
    {
        let now = now_millis();
        GameState {
            game_id: new_game_id(),
            board,
            turn: Turn::first(starting_player),
            game_over: false,
            winner: None,
            is_draw: false,
            start_time: now,
            end_time: None,
            moves: Vec::new(),
            phase: GamePhase::Playing,
        }
    }

    /// A new standard game: an empty 6x7 board, player 1 to move.
    pub fn standard() -> (r: Self)
        ensures
            r.board.wf(),
            r.board.spec_rows() == 6,
            r.board.spec_cols() == 7,
            r.board.all_cells(Cell::Empty),
            r.turn == (Turn { current_player: Player::Player1, turn_number: 1 }),
            !r.game_over,
            r.winner is None,
            !r.is_draw,
            r.end_time is None,
            r.moves@ == Seq::<GameMove>::empty(),
            r.phase == GamePhase::Playing,
            times_in_range(&r),
    {
        Self::new(Board::standard(), Player::Player1)
    }

    /// The game identifier.
    pub fn game_id(&self) -> (r: u128)
        ensures
            r == self.game_id,
    {
        self.game_id
    }

    /// The board.
    pub fn board(&self) -> (r: &Board)
        ensures
            *r == self.board,
    {
        &self.board
    }

    /// The current turn.
    pub fn turn(&self) -> (r: &Turn)
        ensures
            *r == self.turn,
    {
        &self.turn
    }

    /// The player to move.
    pub fn current_player(&self) -> (r: Player)
        ensures
            r == self.turn.current_player,
    {
        self.turn.current_player
    }

    /// The number of the current turn.
    pub fn turn_number(&self) -> (r: u32)
        ensures
            r == self.turn.turn_number,
    {
        self.turn.turn_number
    }

    /// Returns true if the game is over.
    pub fn is_game_over(&self) -> (r: bool)
        ensures
            r == self.game_over,
    {
        self.game_over
    }

    /// The winner, if the game was won.
    pub fn winner(&self) -> (r: Option<Player>)
        ensures
            r == self.winner,
    {
        self.winner
    }

    /// Returns true if the game ended in a draw.
    pub fn is_draw(&self) -> (r: bool)
        ensures
            r == self.is_draw,
    {
        self.is_draw
    }

    /// The moves made, in order.
    pub fn moves(&self) -> (r: &[GameMove])
        ensures
            r@ == self.moves@,
    {
        self.moves.as_slice()
    }

    /// The number of moves made.
    pub fn move_count(&self) -> (r: usize)
        ensures
            r == self.moves@.len(),
    {
        self.moves.len()
    }

    /// The last move made, if any.
    pub fn last_move(&self) -> (r: Option<&GameMove>)
        ensures
            self.moves@.len() == 0 ==> r is None,
            self.moves@.len() > 0 ==> r is Some && *r.unwrap() == self.moves@.last(),
    {
        let n = self.moves.len();
        if n == 0 {
            None
        } else {
            Some(&self.moves[n - 1])
        }
    }

    /// The phase of the game.
    pub fn phase(&self) -> (r: GamePhase)
        ensures
            r == self.phase,
    {
        self.phase
    }

    /// How long the game has lasted, in milliseconds: until its end, or
    /// until now while it goes on.
    pub fn duration(&self) -> (r: i64)
        requires
            times_in_range(self),
        ensures
            self.end_time matches Some(e) ==> r == e - self.start_time,
            self.end_time is None ==> -TIMESTAMP_BOUND < r + self.start_time < TIMESTAMP_BOUND,
    {
        let end = match self.end_time {
            Some(e) => e,
            None => now_millis(),
        };
        end - self.start_time
    }

    /// Checks whether `player` has four more matching cells in a line through
    /// one of their cells.
    pub fn check_win(&self, player: Player) -> (r: bool)
        requires
            self.board.wf(),
        ensures
            r == self.board.spec_has_winning_line(spec_cell(player), 4),
    {
        proof {
            lemma_four_way_win(&self.board, spec_cell(player), 4);
        }
        self.check_win_for_player(player)
    }

    fn check_win_for_player(&self, player: Player) -> (r: bool)
        requires
            self.board.wf(),
        ensures
            r == spec_four_way_win(&self.board, spec_cell(player), 4),
    {
        let cell = player.cell();
        let mut row: usize = 0;
        while row < self.board.rows()
            invariant
                self.board.wf(),
                cell == spec_cell(player),
                row <= self.board.spec_rows(),
                forall|r: int, c: int|
                    0 <= r < row && 0 <= c < self.board.spec_cols() && self.board.at(r, c) == cell
                        ==> !#[trigger] four_way_line(&self.board, r, c, cell, 4),
            decreases self.board.spec_rows() - row,
        {
            let mut col: usize = 0;
            while col < self.board.cols()
                invariant
                    self.board.wf(),
                    cell == spec_cell(player),
                    row < self.board.spec_rows(),
                    col <= self.board.spec_cols(),
                    forall|r: int, c: int|
                        0 <= r < row && 0 <= c < self.board.spec_cols() && self.board.at(r, c) == cell
                            ==> !#[trigger] four_way_line(&self.board, r, c, cell, 4),
                    forall|c: int|
                        0 <= c < col && self.board.at(row as int, c) == cell
                            ==> !#[trigger] four_way_line(&self.board, row as int, c, cell, 4),
                decreases self.board.spec_cols() - col,
            {
                let pos = Position::new(row, col);
                if self.board.get(&pos) == Some(cell) {
                    if self.check_directional_win(&pos, player, 4) {
                        assert(self.board.in_bounds(row as int, col as int));
                        assert(four_way_line(&self.board, row as int, col as int, cell, 4));
                        return true;
                    }
                }
                col = col + 1;
            }
            row = row + 1;
        }
        false
    }

    fn check_directional_win(&self, pos: &Position, player: Player, length: usize) -> (r: bool)
        requires
            self.board.wf(),
            self.board.in_bounds(pos.row as int, pos.col as int),
        ensures
            r == four_way_line(&self.board, pos.row as int, pos.col as int, spec_cell(player), length as int),
    {
        let cell = player.cell();
        let directions = [Direction::East, Direction::South, Direction::Southeast, Direction::Southwest];
        let mut k: usize = 0;
        while k < 4
            invariant
                self.board.wf(),
                self.board.in_bounds(pos.row as int, pos.col as int),
                cell == spec_cell(player),
                directions@ == seq![Direction::East, Direction::South, Direction::Southeast, Direction::Southwest],
                k <= 4,
                forall|j: int| 0 <= j < k ==> !#[trigger] self.board.spec_line_at(
                    pos.row as int,
                    pos.col as int,
                    directions@[j],
                    cell,
                    length as int,
                ),
            decreases 4 - k,
        {
            let d = directions[k];
            proof {
                crate::coordinates::lemma_opposite_negates(d);
            }
            if self.board.has_line(pos, d, cell, length) {
                return true;
            }
            k = k + 1;
        }
        assert(!self.board.spec_line_at(pos.row as int, pos.col as int, directions@[0], cell, length as int));
        assert(!self.board.spec_line_at(pos.row as int, pos.col as int, directions@[1], cell, length as int));
        assert(!self.board.spec_line_at(pos.row as int, pos.col as int, directions@[2], cell, length as int));
        assert(!self.board.spec_line_at(pos.row as int, pos.col as int, directions@[3], cell, length as int));
        false
    }

    /// Returns true if no cell of the board is empty.
    pub fn is_board_full(&self) -> (r: bool)
        requires
            self.board.wf(),
        ensures
            r == (forall|i: int, j: int| self.board.in_bounds(i, j) ==> #[trigger] self.board.at(i, j) != Cell::Empty),
    {
        self.board.is_full()
    }

    /// Appends a move to the history.
    pub fn record_move(&mut self, game_move: GameMove)
        ensures
            final(self).moves@ == old(self).moves@.push(game_move),
            final(self).board == old(self).board,
            final(self).turn == old(self).turn,
            final(self).game_over == old(self).game_over,
            final(self).winner == old(self).winner,
            final(self).is_draw == old(self).is_draw,
            final(self).start_time == old(self).start_time,
            final(self).end_time == old(self).end_time,
            final(self).phase == old(self).phase,
            final(self).game_id == old(self).game_id,
    {
        self.moves.push(game_move);
    }

    /// Passes the turn to the other player.
    pub fn advance_turn(&mut self)
        requires
            old(self).turn.turn_number < u32::MAX,
        ensures
            final(self).turn == (Turn {
                current_player: spec_opponent(old(self).turn.current_player),
                turn_number: (old(self).turn.turn_number + 1) as u32,
            }),
            final(self).board == old(self).board,
            final(self).moves@ == old(self).moves@,
            final(self).game_over == old(self).game_over,
            final(self).winner == old(self).winner,
            final(self).is_draw == old(self).is_draw,
            final(self).start_time == old(self).start_time,
            final(self).end_time == old(self).end_time,
            final(self).phase == old(self).phase,
            final(self).game_id == old(self).game_id,
    {
        self.turn = self.turn.next();
    }

    /// Ends the game with a winner, now.
    pub fn end_with_winner(&mut self, winner: Player)
        ensures
            final(self).game_over,
            final(self).winner == Some(winner),
            !final(self).is_draw,
            final(self).end_time matches Some(e) && -TIMESTAMP_BOUND < e < TIMESTAMP_BOUND,
            final(self).phase == GamePhase::Ended,
            final(self).board == old(self).board,
            final(self).turn == old(self).turn,
            final(self).moves@ == old(self).moves@,
            final(self).start_time == old(self).start_time,
            final(self).game_id == old(self).game_id,
    {
        self.game_over = true;
        self.winner = Some(winner);
        self.is_draw = false;
        self.end_time = Some(now_millis());
        self.phase = GamePhase::Ended;
    }

    /// Ends the game in a draw, now.
    pub fn end_as_draw(&mut self)
        ensures
            final(self).game_over,
            final(self).winner is None,
            final(self).is_draw,
            final(self).end_time matches Some(e) && -TIMESTAMP_BOUND < e < TIMESTAMP_BOUND,
            final(self).phase == GamePhase::Ended,
            final(self).board == old(self).board,
            final(self).turn == old(self).turn,
            final(self).moves@ == old(self).moves@,
            final(self).start_time == old(self).start_time,
            final(self).game_id == old(self).game_id,
    {
        self.game_over = true;
        self.winner = None;
        self.is_draw = true;
        self.end_time = Some(now_millis());
        self.phase = GamePhase::Ended;
    }

    /// Sets the phase.
    pub fn set_phase(&mut self, phase: GamePhase)
        ensures
            *final(self) == (GameState { phase, ..*old(self) }),
    {
        self.phase = phase;
    }

    /// A compact copy of the state: everything but the move list, of which
    /// only the length is kept.
    pub fn snapshot(&self) -> (r: GameSnapshot)
        ensures
            spec_is_snapshot(r, *self),
    {
        GameSnapshot {
            game_id: self.game_id,
            board: self.board.clone(),
            turn: self.turn,
            game_over: self.game_over,
            winner: self.winner,
            is_draw: self.is_draw,
            move_count: self.moves.len(),
            phase: self.phase,
        }
    }

    /// Returns to a snapshot: its fields are taken, and the move list is cut
    /// back to the snapshot's length (a longer length leaves it as it is).
    pub fn restore(&mut self, snapshot: GameSnapshot)
        ensures
            spec_restored(*final(self), *old(self), snapshot),
    {
        self.game_id = snapshot.game_id;
        self.board = snapshot.board;
        self.turn = snapshot.turn;
        self.game_over = snapshot.game_over;
        self.winner = snapshot.winner;
        self.is_draw = snapshot.is_draw;
        self.moves.truncate(snapshot.move_count);
        self.phase = snapshot.phase;
    }

    /// The text shown for a state: its identifier, turn, phase, move count
    /// and board.
    pub fn to_string(&self) -> (r: String)
        requires
            self.board.wf(),
        ensures
            r@ == "Game ID: "@ + spec_game_id_text(self.game_id) + "\nTurn: "@ + "Turn "@ + spec_decimal(
                    self.turn.turn_number as nat,
                ) + ": "@ + spec_player_str(self.turn.current_player)@ + "\nPhase: "@
                    + spec_phase_debug(self.phase)@ + "\nMoves: "@ + spec_decimal(self.moves@.len())
                    + "\n"@ + render(&self.board, false),
    {
        let id = game_id_text(self.game_id);
        let mut s = String::from_str("Game ID: ");
        s.append(id.as_str());
        s.append("\nTurn: ");
        let t = self.turn.to_string();
        s.append(t.as_str());
        s.append("\nPhase: ");
        s.append(self.phase.debug_name());
        s.append("\nMoves: ");
        let m = decimal(self.moves.len() as u64);
        s.append(m.as_str());
        s.append("\n");
        let b = self.board.to_string();
        s.append(b.as_str());
        s
    }
}

impl Clone for GameState {
    /// A copy of the state, with a copy of its board and move list.
    fn clone(&self) -> (r: Self)
        ensures
            r.game_id == self.game_id,
            r.board@ == self.board@,
            r.board.spec_rows() == self.board.spec_rows(),
            r.board.spec_cols() == self.board.spec_cols(),
            r.turn == self.turn,
            r.game_over == self.game_over,
            r.winner == self.winner,
            r.is_draw == self.is_draw,
            r.start_time == self.start_time,
            r.end_time == self.end_time,
            r.moves@ == self.moves@,
            r.phase == self.phase,
    {
        let mut moves: Vec<GameMove> = Vec::new();
        let mut i: usize = 0;
        while i < self.moves.len()
            invariant
                i <= self.moves@.len(),
                moves@ == self.moves@.subrange(0, i as int),
            decreases self.moves@.len() - i,
        {
            moves.push(self.moves[i]);
            i = i + 1;
            assert(moves@ =~= self.moves@.subrange(0, i as int));
        }
        assert(moves@ =~= self.moves@);
        GameState {
            game_id: self.game_id,
            board: self.board.clone(),
            turn: self.turn,
            game_over: self.game_over,
            winner: self.winner,
            is_draw: self.is_draw,
            start_time: self.start_time,
            end_time: self.end_time,
            moves,
            phase: self.phase,
        }
    }
}

/// A move made in the game.
#[derive(Clone, Copy, PartialEq, Eq, Debug, Structural)]
pub struct GameMove {
    /// Move number, from 1.
    pub move_number: u32,
    /// The player who made the move.
    pub player: Player,
    /// The column where the piece was dropped.
    pub column: usize,
    /// The row where the piece landed.
    pub row: usize,
    /// The position where the piece landed.
    pub position: Position,
    /// When the move was made, in milliseconds since the epoch.
    pub timestamp: i64,
    /// Time taken to make the move, in milliseconds.
    pub time_taken_ms: Option<u64>,
    /// Whether the move won the game.
    pub is_winning_move: bool,
}

impl GameMove {
    /// A move made now, not timed and not winning.
    pub fn new(move_number: u32, player: Player, column: usize, row: usize) -> (r: Self)
        ensures
            r.move_number == move_number,
            r.player == player,
            r.column == column,
            r.row == row,
            r.position == (Position { row, col: column }),
            -TIMESTAMP_BOUND < r.timestamp < TIMESTAMP_BOUND,
            r.time_taken_ms is None,
            !r.is_winning_move,
    {
        GameMove {
            move_number,
            player,
            column,
            row,
            position: Position::new(row, column),
            timestamp: now_millis(),
            time_taken_ms: None,
            is_winning_move: false,
        }
    }

    /// The move number.
    pub fn number(&self) -> (r: u32)
        ensures
            r == self.move_number,
    {
        self.move_number
    }

    /// The player who made the move.
    pub fn player(&self) -> (r: Player)
        ensures
            r == self.player,
    {
        self.player
    }

    /// The column.
    pub fn column(&self) -> (r: usize)
        ensures
            r == self.column,
    {
        self.column
    }

    /// The row.
    pub fn row(&self) -> (r: usize)
        ensures
            r == self.row,
    {
        self.row
    }

    /// The position.
    pub fn position(&self) -> (r: Position)
        ensures
            r == self.position,
    {
        self.position
    }
}

/// Game phases.
#[derive(Clone, Copy, PartialEq, Eq, Debug, Hash, Structural)]
pub enum GamePhase {
    /// Waiting to start.
    Waiting,
    /// In progress.
    Playing,
    /// Paused.
    Paused,
    /// Over.
    Ended,
}

impl GamePhase {
    /// Returns true if moves can be made.
    pub fn can_play(&self) -> (r: bool)
        ensures
            r == (*self == GamePhase::Playing),
    {
        matches!(self, GamePhase::Playing)
    }

    /// Returns true if the game is paused.
    pub fn is_paused(&self) -> (r: bool)
        ensures
            r == (*self == GamePhase::Paused),
    {
        matches!(self, GamePhase::Paused)
    }

    /// Returns true if the game is over.
    pub fn is_over(&self) -> (r: bool)
        ensures
            r == (*self == GamePhase::Ended),
    {
        matches!(self, GamePhase::Ended)
    }

    /// The name of the phase, as `{:?}` writes it.
    fn debug_name(&self) -> (r: &'static str)
        ensures
            r@ == spec_phase_debug(*self)@,
    {
        match self {
            GamePhase::Waiting => "Waiting",
            GamePhase::Playing => "Playing",
            GamePhase::Paused => "Paused",
            GamePhase::Ended => "Ended",
        }
    }
}

/// A compact copy of a game state.
#[derive(Clone, PartialEq, Eq, Debug)]
pub struct GameSnapshot {
    pub game_id: u128,
    pub board: Board,
    pub turn: Turn,
    pub game_over: bool,
    pub winner: Option<Player>,
    pub is_draw: bool,
    pub move_count: usize,
    pub phase: GamePhase,
}

} // verus!
