//! Checks on moves, configurations, game states and move sequences, and the
//! reports they produce.

use vstd::prelude::*;
use crate::board::Board;
use crate::cell::Cell;
use crate::coordinates::Position;
use crate::game_config::{GameConfig, spec_standard};
use crate::game_state::GameState;
use crate::move_result::{InvalidMoveReason, ValidationStatus};
use crate::player::{Player, spec_cell, spec_opponent};
use crate::text::{decimal, spec_decimal};
use crate::variant::{AnyVariant, Variant};

verus! {

/// The messages of a report, in the order they were added: errors,
/// warnings and notes.
pub struct ReportView {
    pub errors: Seq<Seq<char>>,
    pub warnings: Seq<Seq<char>>,
    pub infos: Seq<Seq<char>>,
}

/// Messages gathered by a check.
#[derive(Clone, PartialEq, Eq, Debug)]
pub struct ValidationReport {
    errors: Vec<String>,
    warnings: Vec<String>,
    infos: Vec<String>,
}

/// The texts of a list of strings.
pub open spec fn texts(v: Seq<String>) -> Seq<Seq<char>> {
    v.map_values(|s: String| s@)
}

impl View for ValidationReport {
    type V = ReportView;

    closed spec fn view(&self) -> ReportView {
        ReportView { errors: texts(self.errors@), warnings: texts(self.warnings@), infos: texts(self.infos@) }
    }
}

/// A one-message list when `b` holds, else an empty one.
pub open spec fn message_if(b: bool, m: Seq<char>) -> Seq<Seq<char>> {
    if b { seq![m] } else { Seq::empty() }
}

impl ValidationReport {
    /// An empty report.
    pub fn new() -> (r: Self)
        ensures
            r@.errors == Seq::<Seq<char>>::empty(),
            r@.warnings == Seq::<Seq<char>>::empty(),
            r@.infos == Seq::<Seq<char>>::empty(),
    {
        let r = ValidationReport { errors: Vec::new(), warnings: Vec::new(), infos: Vec::new() };
        assert(texts(r.errors@) =~= Seq::<Seq<char>>::empty());
        assert(texts(r.warnings@) =~= Seq::<Seq<char>>::empty());
        assert(texts(r.infos@) =~= Seq::<Seq<char>>::empty());
        r
    }

    /// Adds an error.
    pub fn add_error(&mut self, message: &str)
        ensures
            final(self)@.errors == old(self)@.errors.push(message@),
            final(self)@.warnings == old(self)@.warnings,
            final(self)@.infos == old(self)@.infos,
    {
        self.errors.push(String::from_str(message));
        assert(texts(self.errors@) =~= texts(old(self).errors@).push(message@));
    }

    /// Adds a warning.
    pub fn add_warning(&mut self, message: &str)
        ensures
            final(self)@.warnings == old(self)@.warnings.push(message@),
            final(self)@.errors == old(self)@.errors,
            final(self)@.infos == old(self)@.infos,
    {
        self.warnings.push(String::from_str(message));
        assert(texts(self.warnings@) =~= texts(old(self).warnings@).push(message@));
    }

    /// Adds a note.
    pub fn add_info(&mut self, message: &str)
        ensures
            final(self)@.infos == old(self)@.infos.push(message@),
            final(self)@.errors == old(self)@.errors,
            final(self)@.warnings == old(self)@.warnings,
    {
        self.infos.push(String::from_str(message));
        assert(texts(self.infos@) =~= texts(old(self).infos@).push(message@));
    }

    /// The errors.
    pub fn errors(&self) -> (r: &[String])
        ensures
            texts(r@) == self@.errors,
    {
        self.errors.as_slice()
    }

    /// The warnings.
    pub fn warnings(&self) -> (r: &[String])
        ensures
            texts(r@) == self@.warnings,
    {
        self.warnings.as_slice()
    }

    /// The notes.
    pub fn infos(&self) -> (r: &[String])
        ensures
            texts(r@) == self@.infos,
    {
        self.infos.as_slice()
    }

    /// The number of errors.
    pub fn error_count(&self) -> (r: usize)
        ensures
            r == self@.errors.len(),
    {
        self.errors.len()
    }

    /// The number of warnings.
    pub fn warning_count(&self) -> (r: usize)
        ensures
            r == self@.warnings.len(),
    {
        self.warnings.len()
    }

    /// Returns true if there is no error.
    pub fn is_valid(&self) -> (r: bool)
        ensures
            r == (self@.errors.len() == 0),
    {
        self.errors.len() == 0
    }

    /// Returns true if there is a warning.
    pub fn has_warnings(&self) -> (r: bool)
        ensures
            r == (self@.warnings.len() > 0),
    {
        self.warnings.len() > 0
    }

    /// Appends the messages of another report, each list after its own kind.
    pub fn merge(&mut self, other: ValidationReport)
        ensures
            final(self)@.errors == old(self)@.errors + other@.errors,
            final(self)@.warnings == old(self)@.warnings + other@.warnings,
            final(self)@.infos == old(self)@.infos + other@.infos,
    {
        let mut other = other;
        let ghost o = other@;
        self.errors.append(&mut other.errors);
        self.warnings.append(&mut other.warnings);
        self.infos.append(&mut other.infos);
        assert(texts(self.errors@) =~= texts(old(self).errors@) + o.errors);
        assert(texts(self.warnings@) =~= texts(old(self).warnings@) + o.warnings);
        assert(texts(self.infos@) =~= texts(old(self).infos@) + o.infos);
    }

    /// The text shown for a report: each non-empty list under its heading,
    /// one "  - " line per message, or a line saying there is nothing.
    pub fn to_string(&self) -> (r: String)
        ensures
            r@ == spec_report_text(self@),
    {
        let mut s = String::new();
        if self.errors.len() > 0 {
            s.append("Errors:\n");
            append_items(&mut s, &self.errors);
        }
        if self.warnings.len() > 0 {
            s.append("Warnings:\n");
            append_items(&mut s, &self.warnings);
        }
        if self.infos.len() > 0 {
            s.append("Info:\n");
            append_items(&mut s, &self.infos);
        }
        if self.errors.len() == 0 && self.warnings.len() == 0 && self.infos.len() == 0 {
            s.append("No validation messages");
        }
        proof {
            reveal_strlit("");
        }
        s
    }
}

/// The lines "  - <message>" of a list of messages.
pub open spec fn item_lines(ms: Seq<Seq<char>>) -> Seq<char>
    decreases ms.len(),
{
    if ms.len() == 0 {
        Seq::empty()
    } else {
        item_lines(ms.drop_last()) + "  - "@ + ms.last() + "\n"@
    }
}

/// A heading and its lines, for a non-empty list.
pub open spec fn section(heading: Seq<char>, ms: Seq<Seq<char>>) -> Seq<char> {
    if ms.len() > 0 { heading + item_lines(ms) } else { Seq::empty() }
}

/// The text of a report.
pub open spec fn spec_report_text(v: ReportView) -> Seq<char> {
    section("Errors:\n"@, v.errors) + section("Warnings:\n"@, v.warnings) + section("Info:\n"@, v.infos)
        + if v.errors.len() == 0 && v.warnings.len() == 0 && v.infos.len() == 0 {
        "No validation messages"@
    } else {
        Seq::empty()
    }
}

fn append_items(s: &mut String, items: &Vec<String>)
    ensures
        final(s)@ == old(s)@ + item_lines(texts(items@)),
{
    let mut i: usize = 0;
    while i < items.len()
        invariant
            i <= items@.len(),
            s@ == old(s)@ + item_lines(texts(items@.subrange(0, i as int))),
        decreases items@.len() - i,
    {
        s.append("  - ");
        s.append(items[i].as_str());
        s.append("\n");
        proof {
            let prev = texts(items@.subrange(0, i as int));
            let next = texts(items@.subrange(0, i + 1));
            assert(next.drop_last() =~= prev);
            assert(next.last() == items@[i as int]@);
        }
        i = i + 1;
    }
    assert(items@.subrange(0, items@.len() as int) =~= items@);
}

impl Default for ValidationReport {
    fn default() -> (r: Self)
        ensures
            r@.errors == Seq::<Seq<char>>::empty(),
            r@.warnings == Seq::<Seq<char>>::empty(),
            r@.infos == Seq::<Seq<char>>::empty(),
    {
        ValidationReport::new()
    }
}

/// The messages, in order, for the rules a configuration breaks.
pub open spec fn spec_config_messages(c: GameConfig) -> Seq<Seq<char>> {
    message_if(c.rows < 4, "Board must have at least 4 rows"@)
    + message_if(c.cols < 4, "Board must have at least 4 columns"@)
    + message_if(c.win_length < 3, "Win length must be at least 3"@)
    + message_if(c.win_length > c.rows && c.win_length > c.cols, "Win length cannot exceed board dimensions"@)
    + message_if(c.min_players < 2, "At least 2 players are required"@)
    + message_if(c.max_players < c.min_players, "Max players must be at least min players"@)
    + message_if(c.volume > 100, "Volume must be between 0 and 100"@)
}

/// The errors a state check reports.
pub open spec fn spec_state_errors(config: GameConfig, s: &GameState) -> Seq<Seq<char>> {
    message_if(s.board.spec_rows() != config.rows, "Board rows don't match config"@)
    + message_if(s.board.spec_cols() != config.cols, "Board columns don't match config"@)
    + message_if(s.game_over && s.winner is Some && s.is_draw, "Game has both winner and draw"@)
}

/// The warnings a state check reports.
pub open spec fn spec_state_warnings(s: &GameState) -> Seq<Seq<char>> {
    let p1 = s.board.spec_count(Cell::Player1) as int;
    let p2 = s.board.spec_count(Cell::Player2) as int;
    message_if(
        s.moves@.len() > 0 && s.turn.turn_number != s.moves@.len() + 1,
        "Turn number doesn't match move count"@,
    ) + message_if(s.game_over && s.end_time is None, "Game over but no end time"@)
    + message_if(p1 - p2 > 1 || p2 - p1 > 1, "Large piece count imbalance"@)
}

/// The verdict on a move: the game must go on, it must be the player's turn,
/// the column must be on the board and not full, and the variant, if any,
/// must allow it.
pub open spec fn spec_move_status(
    variant: Option<AnyVariant>,
    s: &GameState,
    column: usize,
    player: Player,
) -> ValidationStatus {
    if s.game_over {
        ValidationStatus::Invalid(InvalidMoveReason::GameOver)
    } else if s.turn.current_player != player {
        ValidationStatus::Invalid(InvalidMoveReason::NotYourTurn)
    } else if column >= s.board.spec_cols() {
        ValidationStatus::Invalid(InvalidMoveReason::ColumnOutOfBounds)
    } else if s.board.spec_column_full(column as int) {
        ValidationStatus::Invalid(InvalidMoveReason::ColumnFull)
    } else if variant matches Some(v) && !v.spec_valid_move(&s.board, column, player) {
        ValidationStatus::Invalid(InvalidMoveReason::Invalid)
    } else {
        ValidationStatus::Valid
    }
}

/// Every column of the board is filled from the bottom: below an empty cell
/// (towards higher rows, as this check reads the board) there is no piece.
pub open spec fn spec_reachable(b: &Board) -> bool {
    forall|c: int, r1: int, r2: int|
        0 <= c < b.spec_cols() && 0 <= r1 < r2 < b.spec_rows() && #[trigger] b.at(r1, c) == Cell::Empty
            ==> #[trigger] b.at(r2, c) == Cell::Empty
}

/// Move `i` of a replay is placed: its column is on the board and not yet
/// full.
pub open spec fn spec_placed(moves: Seq<usize>, i: int, rows: int, ncols: int) -> bool
    decreases i, 1int,
{
    if i < 0 {
        false
    } else {
        moves[i] < ncols && spec_fill_before(moves, i, moves[i] as int, rows, ncols) < rows
    }
}

/// Replaying moves on an empty board of `rows` rows and `ncols` columns: the
/// number of moves before move `i` that were placed in column `c`.
pub open spec fn spec_fill_before(moves: Seq<usize>, i: int, c: int, rows: int, ncols: int) -> int
    decreases i, 0int,
{
    if i <= 0 {
        0
    } else {
        spec_fill_before(moves, i - 1, c, rows, ncols) + if moves[i - 1] == c && spec_placed(
            moves,
            i - 1,
            rows,
            ncols,
        ) {
            1int
        } else {
            0int
        }
    }
}

/// The errors of a replay of the first `n` moves: one for each move whose
/// column is off the board or full, numbered from 1.
pub open spec fn spec_sequence_errors(moves: Seq<usize>, n: int, rows: int, ncols: int) -> Seq<Seq<char>>
    decreases n,
{
    if n <= 0 {
        Seq::empty()
    } else {
        let i = n - 1;
        let prefix = spec_sequence_errors(moves, i, rows, ncols);
        if moves[i] >= ncols {
            prefix.push(
                "Move "@ + spec_decimal((i + 1) as nat) + ": Column "@ + spec_decimal(moves[i] as nat)
                    + " out of bounds"@,
            )
        } else if !spec_placed(moves, i, rows, ncols) {
            prefix.push(
                "Move "@ + spec_decimal((i + 1) as nat) + ": Column "@ + spec_decimal(moves[i] as nat)
                    + " is full"@,
            )
        } else {
            prefix
        }
    }
}

/// When `cond` holds, adds `message` to `errors` and `short` to the report's
/// errors.
fn record_if(errors: &mut Vec<String>, report: &mut ValidationReport, cond: bool, message: &str, short: &str)
    ensures
        texts(final(errors)@) == texts(old(errors)@) + message_if(cond, message@),
        final(report)@.errors.len() == old(report)@.errors.len() + (if cond { 1int } else { 0int }),
        final(report)@.warnings == old(report)@.warnings,
        final(report)@.infos == old(report)@.infos,
{
    if cond {
        errors.push(String::from_str(message));
        report.add_error(short);
        assert(texts(errors@) =~= texts(old(errors)@) + message_if(cond, message@));
    } else {
        assert(texts(errors@) =~= texts(old(errors)@) + message_if(cond, message@));
    }
}

/// Checks for game operations, under a configuration and an optional variant.
#[derive(Clone, Debug)]
pub struct GameValidator {
    config: GameConfig,
    variant: Option<AnyVariant>,
}

impl GameValidator {
    /// The configuration checked against.
    pub closed spec fn spec_config(&self) -> GameConfig {
        self.config
    }

    /// The variant whose rules apply, if any.
    pub closed spec fn spec_variant(&self) -> Option<AnyVariant> {
        self.variant
    }

    /// A validator for the standard configuration, with no variant.
    pub fn new() -> (r: Self)
        ensures
            r.spec_config() == spec_standard(),
            r.spec_variant() is None,
    {
        GameValidator { config: GameConfig::standard(), variant: None }
    }

    /// A validator for a configuration, with no variant.
    pub fn with_config(config: GameConfig) -> (r: Self)
        ensures
            r.spec_config() == config,
            r.spec_variant() is None,
    {
        GameValidator { config, variant: None }
    }

    /// A validator for a variant, with the standard configuration.
    pub fn with_variant(variant: AnyVariant) -> (r: Self)
        ensures
            r.spec_config() == spec_standard(),
            r.spec_variant() == Some(variant),
    {
        GameValidator { config: GameConfig::standard(), variant: Some(variant) }
    }

    /// The configuration checked against.
    pub fn config(&self) -> (r: GameConfig)
        ensures
            r == self.spec_config(),
    {
        self.config
    }

    /// Checks whether `player` may play `column` now.
    pub fn validate_move(&self, state: &GameState, column: usize, player: Player) -> (r: ValidationStatus)
        requires
            state.board.wf(),
            state.board.spec_cols() > 0 ==> state.board.spec_rows() > 0,
        ensures
            r == spec_move_status(self.spec_variant(), state, column, player),
    {
        if state.is_game_over() {
            return ValidationStatus::Invalid(InvalidMoveReason::GameOver);
        }
        if state.current_player() != player {
            return ValidationStatus::Invalid(InvalidMoveReason::NotYourTurn);
        }
        if column >= state.board().cols() {
            return ValidationStatus::Invalid(InvalidMoveReason::ColumnOutOfBounds);
        }
        if state.board().is_column_full(column) {
            return ValidationStatus::Invalid(InvalidMoveReason::ColumnFull);
        }
        if let Some(variant) = &self.variant {
            if !variant.is_valid_move(state.board(), column, player) {
                return ValidationStatus::Invalid(InvalidMoveReason::Invalid);
            }
        }
        ValidationStatus::Valid
    }

    /// Checks a configuration: the messages of all the rules it breaks, in
    /// order, or an empty report when it breaks none.
    #[verifier::spinoff_prover]
    #[verifier::rlimit(60)]
    pub fn validate_config(&self, config: &GameConfig) -> (r: Result<ValidationReport, Vec<String>>)
        ensures
            spec_config_messages(*config).len() == 0 ==> r is Ok && r->Ok_0@.errors.len() == 0
                && r->Ok_0@.warnings.len() == 0 && r->Ok_0@.infos.len() == 0,
            spec_config_messages(*config).len() > 0 ==> r is Err && texts(r->Err_0@) == spec_config_messages(
                *config,
            ),
    {
        let mut report = ValidationReport::new();
        let mut errors: Vec<String> = Vec::new();
        let ghost c = *config;
        record_if(&mut errors, &mut report, config.rows < 4, "Board must have at least 4 rows", "Board rows too small");
        record_if(&mut errors, &mut report, config.cols < 4, "Board must have at least 4 columns", "Board columns too small");
        record_if(&mut errors, &mut report, config.win_length < 3, "Win length must be at least 3", "Win length too small");
        record_if(
            &mut errors,
            &mut report,
            config.win_length > config.rows && config.win_length > config.cols,
            "Win length cannot exceed board dimensions",
            "Win length exceeds board",
        );
        record_if(&mut errors, &mut report, config.min_players < 2, "At least 2 players are required", "Not enough players");
        record_if(
            &mut errors,
            &mut report,
            config.max_players < config.min_players,
            "Max players must be at least min players",
            "Invalid player range",
        );
        record_if(&mut errors, &mut report, config.volume > 100, "Volume must be between 0 and 100", "Invalid volume");
        assert(texts(errors@) =~= spec_config_messages(c));
        if errors.len() == 0 {
            Ok(report)
        } else {
            Err(errors)
        }
    }

    /// Checks a state against the configuration and for consistency.
    pub fn validate_state(&self, state: &GameState) -> (r: ValidationReport)
        requires
            state.board.wf(),
        ensures
            r@.errors == spec_state_errors(self.spec_config(), state),
            r@.warnings == spec_state_warnings(state),
            r@.infos.len() == 0,
    {
        let mut report = ValidationReport::new();
        if state.board().rows() != self.config.rows {
            report.add_error("Board rows don't match config");
        }
        if state.board().cols() != self.config.cols {
            report.add_error("Board columns don't match config");
        }
        let n = state.move_count();
        let t = state.turn_number() as usize;
        if n > 0 && (t == 0 || t - 1 != n) {
            report.add_warning("Turn number doesn't match move count");
        }
        if state.is_game_over() {
            if state.winner().is_some() && state.is_draw() {
                report.add_error("Game has both winner and draw");
            }
            if state.end_time.is_none() {
                report.add_warning("Game over but no end time");
            }
        }
        let p1 = state.board().count_cells(Cell::Player1);
        let p2 = state.board().count_cells(Cell::Player2);
        let diff = if p1 > p2 { p1 - p2 } else { p2 - p1 };
        if diff > 1 {
            report.add_warning("Large piece count imbalance");
        }
        proof {
            assert(report@.errors =~= spec_state_errors(self.spec_config(), state));
            assert(report@.warnings =~= spec_state_warnings(state));
        }
        report
    }

    /// Checks whether `player` has a winning run: by the variant's rule if
    /// there is a variant, else with the configured win length.
    pub fn validate_win_detection(&self, state: &GameState, player: Player) -> (r: bool)
        requires
            state.board.wf(),
        ensures
            r == (match self.spec_variant() {
                Some(v) => state.board.spec_has_winning_line(spec_cell(player), v.spec_win_length() as int),
                None => state.board.spec_has_winning_line(spec_cell(player), self.spec_config().win_length as int),
            }),
    {
        if let Some(variant) = &self.variant {
            return variant.check_win(state.board(), player);
        }
        state.board().has_winning_line(player.cell(), self.config.win_length)
    }

    /// Checks that no column has a piece below an empty cell.
    pub fn validate_reachability(&self, state: &GameState) -> (r: bool)
        requires
            state.board.wf(),
        ensures
            r == spec_reachable(&state.board),
    {
        let board = state.board();
        let mut col: usize = 0;
        while col < board.cols()
            invariant
                board.wf(),
                *board == state.board,
                col <= board.spec_cols(),
                forall|c: int, r1: int, r2: int|
                    0 <= c < col && 0 <= r1 < r2 < board.spec_rows() && #[trigger] board.at(r1, c)
                        == Cell::Empty ==> #[trigger] board.at(r2, c) == Cell::Empty,
            decreases board.spec_cols() - col,
        {
            let mut found_empty = false;
            let mut row: usize = 0;
            while row < board.rows()
                invariant
                    board.wf(),
                    *board == state.board,
                    col < board.spec_cols(),
                    row <= board.spec_rows(),
                    forall|c: int, r1: int, r2: int|
                        0 <= c < col && 0 <= r1 < r2 < board.spec_rows() && #[trigger] board.at(r1, c)
                            == Cell::Empty ==> #[trigger] board.at(r2, c) == Cell::Empty,
                    found_empty == exists|k: int| 0 <= k < row && #[trigger] board.at(k, col as int) == Cell::Empty,
                    forall|r1: int, r2: int|
                        0 <= r1 < r2 < row && #[trigger] board.at(r1, col as int) == Cell::Empty
                            ==> #[trigger] board.at(r2, col as int) == Cell::Empty,
                decreases board.spec_rows() - row,
            {
                if board.is_empty_at(row, col) {
                    found_empty = true;
                } else if found_empty {
                    proof {
                        let k = choose|k: int| 0 <= k < row && #[trigger] board.at(k, col as int) == Cell::Empty;
                        assert(board.at(k, col as int) == Cell::Empty);
                        assert(board.at(row as int, col as int) != Cell::Empty);
                    }
                    return false;
                }
                proof {
                    if board.at(row as int, col as int) != Cell::Empty {
                        assert forall|r1: int, r2: int|
                            0 <= r1 < r2 < row + 1 && #[trigger] board.at(r1, col as int) == Cell::Empty
                                implies #[trigger] board.at(r2, col as int) == Cell::Empty by {
                            if r2 == row {
                                assert(exists|k: int| 0 <= k < row && #[trigger] board.at(k, col as int) == Cell::Empty);
                            }
                        }
                    }
                }
                row = row + 1;
            }
            col = col + 1;
        }
        true
    }
}

/// Column `c` of the board holds its first `fill` pieces at the bottom:
/// exactly the rows from `rows - fill` on are occupied.
pub open spec fn stacked(b: &Board, c: int, fill: int) -> bool {
    forall|r: int| 0 <= r < b.spec_rows() ==> (#[trigger] b.at(r, c) == Cell::Empty) == (r < b.spec_rows() - fill)
}

/// The board after replaying the first `i` moves: every column holds its
/// placed pieces at the bottom.
pub open spec fn replayed(b: &Board, moves: Seq<usize>, i: int) -> bool {
    forall|c: int|
        0 <= c < b.spec_cols() ==> 0 <= #[trigger] spec_fill_before(moves, i, c, b.spec_rows() as int, b.spec_cols() as int)
            <= b.spec_rows() && stacked(b, c, spec_fill_before(moves, i, c, b.spec_rows() as int, b.spec_cols() as int))
}

impl GameValidator {
    /// Replays moves on an empty board of the configured size: a move whose
    /// column is off the board or full is reported and skipped, any other
    /// drops a piece of the player to move, and the turn passes.
    pub fn validate_move_sequence(&self, columns: &[usize], config: &GameConfig) -> (r: ValidationReport)
        requires
            config.rows <= isize::MAX,
            config.cols <= isize::MAX,
            config.rows * config.cols <= isize::MAX,
            config.rows == 0 ==> forall|i: int| 0 <= i < columns@.len() ==> columns@[i] >= config.cols,
        ensures
            r@.errors == spec_sequence_errors(columns@, columns@.len() as int, config.rows as int, config.cols as int),
            r@.warnings.len() == 0,
            r@.infos.len() == 0,
    {
        let mut report = ValidationReport::new();
        let mut board = Board::new(config.rows, config.cols);
        let mut player = Player::Player1;
        let ghost moves = columns@;
        let ghost rows = config.rows as int;
        let ghost ncols = config.cols as int;
        assert forall|c: int| 0 <= c < board.spec_cols() implies 0 <= #[trigger] spec_fill_before(
            moves,
            0,
            c,
            rows,
            ncols,
        ) <= board.spec_rows() && stacked(&board, c, spec_fill_before(moves, 0, c, rows, ncols)) by {
            assert forall|r: int| 0 <= r < board.spec_rows() implies (#[trigger] board.at(r, c) == Cell::Empty) == (r
                < board.spec_rows() - 0) by {
                assert(board.in_bounds(r, c));
            }
        }
        let mut i: usize = 0;
        while i < columns.len()
            invariant
                i <= columns@.len(),
                moves == columns@,
                rows == config.rows,
                ncols == config.cols,
                config.rows == 0 ==> forall|k: int| 0 <= k < columns@.len() ==> columns@[k] >= config.cols,
                board.wf(),
                board.spec_rows() == rows,
                board.spec_cols() == ncols,
                replayed(&board, moves, i as int),
                report@.errors == spec_sequence_errors(moves, i as int, rows, ncols),
                report@.warnings.len() == 0,
                report@.infos.len() == 0,
            decreases columns@.len() - i,
        {
            let col = columns[i];
            let ghost n = i as int;
            assert forall|c: int| 0 <= c < ncols && c != col implies #[trigger] spec_fill_before(
                moves,
                n + 1,
                c,
                rows,
                ncols,
            ) == spec_fill_before(moves, n, c, rows, ncols) by {}
            if col >= board.cols() {
                let mut m = String::from_str("Move ");
                let a = decimal((i as u64) + 1);
                m.append(a.as_str());
                m.append(": Column ");
                let b = decimal(col as u64);
                m.append(b.as_str());
                m.append(" out of bounds");
                report.add_error(m.as_str());
                proof {
                    assert(!spec_placed(moves, n, rows, ncols));
                }
            } else {
                let ghost fill = spec_fill_before(moves, n, col as int, rows, ncols);
                assert(0 <= fill <= rows && stacked(&board, col as int, fill));
                assert(rows > 0);
                let full = board.is_column_full(col);
                proof {
                    assert((board.at(0, col as int) == Cell::Empty) == (0 < rows - fill));
                }
                if full {
                    let mut m = String::from_str("Move ");
                    let a = decimal((i as u64) + 1);
                    m.append(a.as_str());
                    m.append(": Column ");
                    let b = decimal(col as u64);
                    m.append(b.as_str());
                    m.append(" is full");
                    report.add_error(m.as_str());
                    proof {
                        assert(!spec_placed(moves, n, rows, ncols));
                    }
                } else {
                    proof {
                        assert(spec_placed(moves, n, rows, ncols));
                        assert(board.at(rows - fill - 1, col as int) == Cell::Empty);
                    }
                    match board.lowest_empty_row(col) {
                        Some(row) => {
                            proof {
                                assert(board.at(row as int, col as int) == Cell::Empty);
                                if row < rows - fill - 1 {
                                    assert(board.at(rows - fill - 1, col as int) != Cell::Empty);
                                }
                                assert(row == rows - fill - 1);
                            }
                            let ghost before = board;
                            let _ = board.set_at(row, col, player.cell());
                            proof {
                                before.lemma_updated_at(&board, row as int, col as int, spec_cell(player));
                                assert(spec_fill_before(moves, n + 1, col as int, rows, ncols) == fill + 1);
                                assert forall|c: int| 0 <= c < board.spec_cols() implies 0 <= #[trigger] spec_fill_before(
                                    moves,
                                    n + 1,
                                    c,
                                    rows,
                                    ncols,
                                ) <= board.spec_rows() && stacked(
                                    &board,
                                    c,
                                    spec_fill_before(moves, n + 1, c, rows, ncols),
                                ) by {
                                    let f = spec_fill_before(moves, n, c, rows, ncols);
                                    assert(0 <= f <= rows && stacked(&before, c, f));
                                    assert forall|r: int| 0 <= r < board.spec_rows() implies (#[trigger] board.at(r, c)
                                        == Cell::Empty) == (r < board.spec_rows() - spec_fill_before(
                                        moves,
                                        n + 1,
                                        c,
                                        rows,
                                        ncols,
                                    )) by {
                                        assert(board.in_bounds(r, c));
                                        assert(before.at(r, c) == Cell::Empty <==> r < rows - f);
                                    }
                                }
                            }
                            player = player.opponent();
                        },
                        None => {
                            proof {
                                assert(false);
                            }
                        },
                    }
                }
            }
            proof {
                assert(report@.errors =~= spec_sequence_errors(moves, n + 1, rows, ncols));
            }
            i = i + 1;
        }
        proof {
            assert(moves.len() == columns@.len());
        }
        report
    }
}

impl Default for GameValidator {
    fn default() -> (r: Self)
        ensures
            r.spec_config() == spec_standard(),
            r.spec_variant() is None,
    {
        GameValidator::new()
    }
}

/// Checks positions against a board size.
#[derive(Clone, Copy, Debug)]
pub struct PositionValidator {
    rows: usize,
    cols: usize,
}

/// The complaint about a position off a board of the given size, if any.
pub open spec fn spec_position_error(rows: usize, cols: usize, pos: Position) -> Option<Seq<char>> {
    if pos.row >= rows {
        Some("Row "@ + spec_decimal(pos.row as nat) + " exceeds maximum of "@ + spec_decimal(rows as nat))
    } else if pos.col >= cols {
        Some("Column "@ + spec_decimal(pos.col as nat) + " exceeds maximum of "@ + spec_decimal(cols as nat))
    } else {
        None
    }
}

/// The complaints about the first `n` positions of a list, in order.
pub open spec fn spec_range_errors(rows: usize, cols: usize, ps: Seq<Position>, n: int) -> Seq<Seq<char>>
    decreases n,
{
    if n <= 0 {
        Seq::empty()
    } else {
        let prefix = spec_range_errors(rows, cols, ps, n - 1);
        match spec_position_error(rows, cols, ps[n - 1]) {
            Some(e) => prefix.push(e),
            None => prefix,
        }
    }
}

impl PositionValidator {
    /// The number of rows.
    pub closed spec fn spec_rows(&self) -> usize {
        self.rows
    }

    /// The number of columns.
    pub closed spec fn spec_cols(&self) -> usize {
        self.cols
    }

    /// A validator for a board of the given size.
    pub fn new(rows: usize, cols: usize) -> (r: Self)
        ensures
            r.spec_rows() == rows,
            r.spec_cols() == cols,
    {
        PositionValidator { rows, cols }
    }

    /// Returns true if the position is on the board.
    pub fn is_valid(&self, pos: &Position) -> (r: bool)
        ensures
            r == (pos.row < self.spec_rows() && pos.col < self.spec_cols()),
    {
        pos.row < self.rows && pos.col < self.cols
    }

    /// Checks a position: the row is checked first, then the column.
    pub fn validate(&self, pos: &Position) -> (r: Result<(), String>)
        ensures
            spec_position_error(self.spec_rows(), self.spec_cols(), *pos) is None ==> r is Ok,
            spec_position_error(self.spec_rows(), self.spec_cols(), *pos) is Some ==> r is Err && r->Err_0@
                == spec_position_error(self.spec_rows(), self.spec_cols(), *pos).unwrap(),
    {
        if pos.row >= self.rows {
            let mut s = String::from_str("Row ");
            let a = decimal(pos.row as u64);
            s.append(a.as_str());
            s.append(" exceeds maximum of ");
            let b = decimal(self.rows as u64);
            s.append(b.as_str());
            return Err(s);
        }
        if pos.col >= self.cols {
            let mut s = String::from_str("Column ");
            let a = decimal(pos.col as u64);
            s.append(a.as_str());
            s.append(" exceeds maximum of ");
            let b = decimal(self.cols as u64);
            s.append(b.as_str());
            return Err(s);
        }
        Ok(())
    }

    /// Checks a list of positions: the complaints about all those off the
    /// board, in order, or `Ok` when there are none.
    pub fn validate_range(&self, positions: &[Position]) -> (r: Result<(), Vec<String>>)
        ensures
            spec_range_errors(self.spec_rows(), self.spec_cols(), positions@, positions@.len() as int).len() == 0
                ==> r is Ok,
            spec_range_errors(self.spec_rows(), self.spec_cols(), positions@, positions@.len() as int).len() > 0
                ==> r is Err && texts(r->Err_0@) == spec_range_errors(
                self.spec_rows(),
                self.spec_cols(),
                positions@,
                positions@.len() as int,
            ),
    {
        let mut errors: Vec<String> = Vec::new();
        let mut i: usize = 0;
        while i < positions.len()
            invariant
                i <= positions@.len(),
                texts(errors@) == spec_range_errors(self.spec_rows(), self.spec_cols(), positions@, i as int),
            decreases positions@.len() - i,
        {
            match self.validate(&positions[i]) {
                Err(e) => {
                    errors.push(e);
                    assert(texts(errors@) =~= spec_range_errors(
                        self.spec_rows(),
                        self.spec_cols(),
                        positions@,
                        i as int,
                    ).push(spec_position_error(self.spec_rows(), self.spec_cols(), positions@[i as int]).unwrap()));
                },
                Ok(()) => {},
            }
            i = i + 1;
        }
        if errors.len() == 0 {
            Ok(())
        } else {
            Err(errors)
        }
    }
}

} // verus!
