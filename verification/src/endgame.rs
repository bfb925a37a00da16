//! The endgame solver: an exhaustive win/draw/loss search of positions near
//! the end of a game, with an optional transposition table and time limit,
//! and a database of solved positions.

use vstd::prelude::*;
use crate::board::{Board, grid_has_win, count_in_grid};
use crate::cell::Cell;
use crate::game_tree::{grid_column_full, grid_drop, grid_full, play, board_full, can_play};
use crate::player::{Player, spec_cell, spec_opponent};
use crate::zobrist::{ZobristKeys, KEY_ROWS, KEY_COLS, grid_hash};
use crate::opening_book::empty_grid;
use crate::timing::{instant_now, elapsed_millis};
use std::collections::HashMap;
use vstd::std_specs::iter::IteratorSpec;

verus! {

/// The result of a position for the player to move.
#[derive(Debug, Clone, Copy, PartialEq, Eq, Structural)]
pub enum EndgameResult {
    Win,
    Loss,
    Draw,
}

/// The result for the other player.
pub open spec fn spec_negate(r: EndgameResult) -> EndgameResult {
    match r {
        EndgameResult::Win => EndgameResult::Loss,
        EndgameResult::Loss => EndgameResult::Win,
        EndgameResult::Draw => EndgameResult::Draw,
    }
}

/// The number of a result: 1 for a win, 0 for a draw, -1 for a loss.
pub open spec fn spec_result_value(r: EndgameResult) -> int {
    match r {
        EndgameResult::Win => 1,
        EndgameResult::Draw => 0,
        EndgameResult::Loss => -1,
    }
}

impl EndgameResult {
    /// The result of a finished game for `player`: a win if they won, a loss
    /// if the other player won, a draw otherwise.
    pub fn from_outcome(outcome: Option<Player>, player: Player) -> (r: Self)
        ensures
            r == (match outcome {
                Some(w) => if w == player { EndgameResult::Win } else { EndgameResult::Loss },
                None => EndgameResult::Draw,
            }),
    {
        match outcome {
            Some(winner) => {
                if winner == player {
                    EndgameResult::Win
                } else {
                    EndgameResult::Loss
                }
            },
            None => EndgameResult::Draw,
        }
    }

    /// The result for the other player.
    pub fn negate(&self) -> (r: Self)
        ensures
            r == spec_negate(*self),
    {
        match self {
            EndgameResult::Win => EndgameResult::Loss,
            EndgameResult::Loss => EndgameResult::Win,
            EndgameResult::Draw => EndgameResult::Draw,
        }
    }

    /// The number of the result.
    pub fn value(&self) -> (r: i32)
        ensures
            r == spec_result_value(*self),
    {
        match self {
            EndgameResult::Win => 1,
            EndgameResult::Draw => 0,
            EndgameResult::Loss => -1,
        }
    }
}

/// Seen from the other side a result is negated, twice it is the same, and
/// its number changes sign.
pub proof fn lemma_negate(r: EndgameResult)
    ensures
        spec_negate(spec_negate(r)) == r,
        spec_result_value(spec_negate(r)) == -spec_result_value(r),
{
}

/// Settings of the endgame solver.
#[derive(Debug, Clone, Copy, PartialEq, Eq, Structural)]
pub struct EndgameConfig {
    /// Greatest search depth.
    pub max_depth: usize,
    /// Search depth 1, 2, ... in turn.
    pub iterative_deepening: bool,
    /// Try columns near the centre first.
    pub move_ordering: bool,
    /// Remember searched positions.
    pub enable_transposition: bool,
    /// Time limit in milliseconds (`None`: no limit).
    pub timeout_ms: Option<u64>,
    /// The number of pieces from which a position counts as an endgame.
    pub piece_threshold: usize,
}

/// The default settings.
pub open spec fn spec_default_config() -> EndgameConfig {
    EndgameConfig {
        max_depth: 42,
        iterative_deepening: true,
        move_ordering: true,
        enable_transposition: true,
        timeout_ms: None,
        piece_threshold: 8,
    }
}

impl Default for EndgameConfig {
    fn default() -> (r: Self)
        ensures
            r == spec_default_config(),
    {
        EndgameConfig {
            max_depth: 42,
            iterative_deepening: true,
            move_ordering: true,
            enable_transposition: true,
            timeout_ms: None,
            piece_threshold: 8,
        }
    }
}

impl EndgameConfig {
    /// A shallow search.
    pub fn quick() -> (r: Self)
        ensures
            r == (EndgameConfig { max_depth: 20, ..spec_default_config() }),
    {
        EndgameConfig { max_depth: 20, ..EndgameConfig::default() }
    }

    /// A full-depth search.
    pub fn deep() -> (r: Self)
        ensures
            r == (EndgameConfig { max_depth: 42, ..spec_default_config() }),
    {
        EndgameConfig { max_depth: 42, ..EndgameConfig::default() }
    }

    /// A balanced search with a five-second limit.
    pub fn tournament() -> (r: Self)
        ensures
            r == (EndgameConfig { max_depth: 30, timeout_ms: Some(5000), ..spec_default_config() }),
    {
        EndgameConfig { max_depth: 30, timeout_ms: Some(5000), ..EndgameConfig::default() }
    }

    /// The search visits no clock and no table: its answers are exact.
    pub open spec fn exact(&self) -> bool {
        self.timeout_ms is None && !self.enable_transposition
    }
}

/// Counters of a search.
#[derive(Debug, Clone, Copy, PartialEq, Eq, Structural)]
pub struct EndgameStats {
    pub positions_evaluated: usize,
    pub cutoffs: usize,
    pub transposition_hits: usize,
    pub search_time_ms: u64,
    pub depth_reached: usize,
    pub best_move: Option<usize>,
}

/// Counters at zero.
pub open spec fn spec_zero_stats() -> EndgameStats {
    EndgameStats {
        positions_evaluated: 0,
        cutoffs: 0,
        transposition_hits: 0,
        search_time_ms: 0,
        depth_reached: 0,
        best_move: None,
    }
}

impl Default for EndgameStats {
    fn default() -> (r: Self)
        ensures
            r == spec_zero_stats(),
    {
        EndgameStats {
            positions_evaluated: 0,
            cutoffs: 0,
            transposition_hits: 0,
            search_time_ms: 0,
            depth_reached: 0,
            best_move: None,
        }
    }
}

/// A remembered search result.
#[derive(Debug, Clone, Copy)]
struct EndgameEntry {
    result: EndgameResult,
    depth: usize,
    best_move: Option<usize>,
}

/// The number of connected cells in a line that the solver counts as a win.
pub const LINE: usize = 4;

/// The exact result of a position for `player` (to move), searching `depth`
/// moves ahead: a player with a winning line has won (player 1's line is
/// looked at first); a full board or an exhausted depth is a draw; else the
/// best result of the player's moves.
pub open spec fn endgame_value(g: Seq<Seq<Cell>>, rows: int, cols: int, player: Player, depth: nat) -> EndgameResult
    decreases depth, 1int, 0int,
{
    if grid_has_win(g, rows, cols, Cell::Player1, LINE as int) {
        if player == Player::Player1 { EndgameResult::Win } else { EndgameResult::Loss }
    } else if grid_has_win(g, rows, cols, Cell::Player2, LINE as int) {
        if player == Player::Player2 { EndgameResult::Win } else { EndgameResult::Loss }
    } else if grid_full(g, rows, cols) || depth == 0 {
        EndgameResult::Draw
    } else {
        best_reply(g, rows, cols, player, depth, cols)
    }
}

/// The better of two results: a win over a draw over a loss.
pub open spec fn better(a: EndgameResult, b: EndgameResult) -> EndgameResult {
    if a == EndgameResult::Win || b == EndgameResult::Win {
        EndgameResult::Win
    } else if a == EndgameResult::Draw || b == EndgameResult::Draw {
        EndgameResult::Draw
    } else {
        EndgameResult::Loss
    }
}

/// The best result `player` gets from a move into one of the first `n`
/// columns: the opponent's result after the move, seen from the other side;
/// a loss when no such column can take a piece.
pub open spec fn best_reply(g: Seq<Seq<Cell>>, rows: int, cols: int, player: Player, depth: nat, n: int) -> EndgameResult
    decreases depth, 0int, n,
{
    if n <= 0 || depth == 0 {
        EndgameResult::Loss
    } else {
        let prev = best_reply(g, rows, cols, player, depth, n - 1);
        if grid_column_full(g, cols, n - 1) {
            prev
        } else {
            better(
                prev,
                spec_negate(
                    endgame_value(
                        grid_drop(g, rows, n - 1, spec_cell(player)),
                        rows,
                        cols,
                        spec_opponent(player),
                        (depth - 1) as nat,
                    ),
                ),
            )
        }
    }
}

/// The opponent's result after `player` drops into column `c`.
pub open spec fn reply_value(g: Seq<Seq<Cell>>, rows: int, cols: int, player: Player, depth: nat, c: int) -> EndgameResult {
    endgame_value(grid_drop(g, rows, c, spec_cell(player)), rows, cols, spec_opponent(player), (depth - 1) as nat)
}

/// The best reply is a win exactly when some move leaves the opponent lost,
/// and a draw exactly when none does but some move leaves a draw.
pub proof fn lemma_best_reply(g: Seq<Seq<Cell>>, rows: int, cols: int, player: Player, depth: nat, n: int)
    requires
        depth > 0,
    ensures
        (best_reply(g, rows, cols, player, depth, n) == EndgameResult::Win) <==> exists|c: int|
            0 <= c < n && !grid_column_full(g, cols, c) && #[trigger] reply_value(g, rows, cols, player, depth, c)
                == EndgameResult::Loss,
        (best_reply(g, rows, cols, player, depth, n) == EndgameResult::Draw) <==> (!(exists|c: int|
            0 <= c < n && !grid_column_full(g, cols, c) && #[trigger] reply_value(g, rows, cols, player, depth, c)
                == EndgameResult::Loss) && exists|c: int|
            0 <= c < n && !grid_column_full(g, cols, c) && #[trigger] reply_value(g, rows, cols, player, depth, c)
                == EndgameResult::Draw),
    decreases n,
{
    if n > 0 {
        lemma_best_reply(g, rows, cols, player, depth, n - 1);
        let v = reply_value(g, rows, cols, player, depth, n - 1);
        if !grid_column_full(g, cols, n - 1) {
            if v == EndgameResult::Loss {
                assert(reply_value(g, rows, cols, player, depth, n - 1) == EndgameResult::Loss);
            }
            if v == EndgameResult::Draw {
                assert(reply_value(g, rows, cols, player, depth, n - 1) == EndgameResult::Draw);
            }
        }
    }
}

/// The distance of a column from the centre column.
pub open spec fn center_distance(cols: int, c: int) -> int {
    let center = cols / 2;
    if c >= center { c - center } else { center - c }
}

/// `a` comes before `b` in the search order: nearer the centre, or as near
/// and further left when moves are ordered; further left otherwise.
pub open spec fn move_before(ordering: bool, cols: int, a: int, b: int) -> bool {
    if ordering {
        center_distance(cols, a) < center_distance(cols, b) || (center_distance(cols, a) == center_distance(
            cols,
            b,
        ) && a < b)
    } else {
        a < b
    }
}

/// `moves` lists exactly the columns that can take a piece, in search order.
pub open spec fn search_order(g: Seq<Seq<Cell>>, cols: int, ordering: bool, moves: Seq<usize>) -> bool {
    &&& forall|i: int, j: int| 0 <= i < j < moves.len() ==> move_before(ordering, cols, #[trigger] moves[i] as int, #[trigger] moves[j] as int)
    &&& forall|i: int| 0 <= i < moves.len() ==> #[trigger] moves[i] < cols && !grid_column_full(g, cols, moves[i] as int)
    &&& forall|c: int| 0 <= c < cols && !grid_column_full(g, cols, c) ==> moves.contains(c as usize)
}

/// A search of `depth` plies finds a win for `player`: some move that can
/// be made either completes a line at once or leaves the opponent lost at
/// one ply less.
pub open spec fn depth_win(g: Seq<Seq<Cell>>, rows: int, cols: int, player: Player, depth: nat) -> bool {
    exists|c: int|
        0 <= c < cols && !grid_column_full(g, cols, c) && (grid_has_win(
            grid_drop(g, rows, c, spec_cell(player)),
            rows,
            cols,
            spec_cell(player),
            LINE as int,
        ) || #[trigger] endgame_value(
            grid_drop(g, rows, c, spec_cell(player)),
            rows,
            cols,
            spec_opponent(player),
            (depth - 1) as nat,
        ) == EndgameResult::Loss)
}

/// Column `m` is a winning move for `player` in a search of `depth` plies:
/// it can take a piece, and the piece either completes a line or leaves
/// the opponent lost at one ply less.
pub open spec fn winning_move(g: Seq<Seq<Cell>>, rows: int, cols: int, player: Player, depth: nat, m: int) -> bool {
    &&& 0 <= m < cols
    &&& !grid_column_full(g, cols, m)
    &&& (grid_has_win(grid_drop(g, rows, m, spec_cell(player)), rows, cols, spec_cell(player), LINE as int)
        || endgame_value(grid_drop(g, rows, m, spec_cell(player)), rows, cols, spec_opponent(player), (depth - 1) as nat)
        == EndgameResult::Loss)
}

/// A search finds a win exactly when it has a winning move: the move it
/// reports is a witness.
pub proof fn lemma_winning_move_witness(g: Seq<Seq<Cell>>, rows: int, cols: int, player: Player, depth: nat, m: int)
    requires
        winning_move(g, rows, cols, player, depth, m),
    ensures
        depth_win(g, rows, cols, player, depth),
{
    assert(endgame_value(grid_drop(g, rows, m, spec_cell(player)), rows, cols, spec_opponent(player), (depth - 1) as nat)
        == endgame_value(grid_drop(g, rows, m, spec_cell(player)), rows, cols, spec_opponent(player), (depth - 1) as nat));
}

/// A search of `depth` plies finds a draw for `player`: some move that can
/// be made leaves the opponent drawn at one ply less.
pub open spec fn depth_draw(g: Seq<Seq<Cell>>, rows: int, cols: int, player: Player, depth: nat) -> bool {
    exists|c: int|
        0 <= c < cols && !grid_column_full(g, cols, c) && #[trigger] endgame_value(
            grid_drop(g, rows, c, spec_cell(player)),
            rows,
            cols,
            spec_opponent(player),
            (depth - 1) as nat,
        ) == EndgameResult::Draw
}

/// How a search with a table of remembered results came to its result.
pub enum SearchTrace {
    /// The result remembered for a position with the same hash, searched at
    /// least as deep.
    Remembered { grid: Seq<Seq<Cell>>, rows: int, cols: int, player: Player, depth: nat, inner: Box<SearchTrace> },
    /// A win through the move into `col`, after which the opponent loses.
    WinBy { col: int, inner: Box<SearchTrace> },
    /// The search of every move: the opponent's result after the move into
    /// each column, and how it came about.
    Replies { results: Seq<EndgameResult>, traces: Seq<SearchTrace> },
    /// A position decided without looking further: a line on the board, a
    /// full board or no depth left.
    Settled,
}

/// The result of the replies to the moves into the first `n` columns: the
/// better of the results left to the player, a loss when there is no move.
pub open spec fn scan_result(g: Seq<Seq<Cell>>, cols: int, results: Seq<EndgameResult>, n: int) -> EndgameResult
    decreases n,
{
    if n <= 0 {
        EndgameResult::Loss
    } else if grid_column_full(g, cols, n - 1) {
        scan_result(g, cols, results, n - 1)
    } else {
        better(scan_result(g, cols, results, n - 1), spec_negate(results[n - 1]))
    }
}

/// `r` is a result a search of position `g` for `player`, `depth` moves
/// ahead, can give when it may take, for any position, the result of an
/// earlier search of a position with the same hash under `keys` at least as
/// deep: `t` says how. Without such a result the search is `endgame_value`'s.
pub open spec fn trace_ok(
    keys: ZobristKeys,
    g: Seq<Seq<Cell>>,
    rows: int,
    cols: int,
    player: Player,
    depth: nat,
    r: EndgameResult,
    t: SearchTrace,
) -> bool
    decreases t, 1int, 0int,
{
    match t {
        SearchTrace::Remembered { grid, rows: rows2, cols: cols2, player: player2, depth: depth2, inner } => {
            &&& depth2 >= depth
            &&& grid_hash(&keys, grid, rows2, cols2, player2) == grid_hash(&keys, g, rows, cols, player)
            &&& trace_ok(keys, grid, rows2, cols2, player2, depth2, r, *inner)
        },
        _ => {
            if grid_has_win(g, rows, cols, Cell::Player1, LINE as int) {
                r == (if player == Player::Player1 { EndgameResult::Win } else { EndgameResult::Loss })
            } else if grid_has_win(g, rows, cols, Cell::Player2, LINE as int) {
                r == (if player == Player::Player2 { EndgameResult::Win } else { EndgameResult::Loss })
            } else if grid_full(g, rows, cols) || depth == 0 {
                r == EndgameResult::Draw
            } else {
                match t {
                    SearchTrace::WinBy { col, inner } => {
                        &&& r == EndgameResult::Win
                        &&& 0 <= col < cols && !grid_column_full(g, cols, col)
                        &&& trace_ok(
                            keys,
                            grid_drop(g, rows, col, spec_cell(player)),
                            rows,
                            cols,
                            spec_opponent(player),
                            (depth - 1) as nat,
                            EndgameResult::Loss,
                            *inner,
                        )
                    },
                    SearchTrace::Replies { results, traces } => {
                        &&& results.len() == cols && traces.len() == cols
                        &&& replies_ok(keys, g, rows, cols, player, depth, t, cols)
                        &&& r == scan_result(g, cols, results, cols)
                    },
                    _ => false,
                }
            }
        },
    }
}

/// `r` is a result the search of every move of `player` at `depth` can give,
/// as `t` says: a win through a move that completes a line or leaves the
/// opponent lost, or the better of the replies to all moves, each a result
/// a search with remembered results can give.
pub open spec fn root_ok(
    keys: ZobristKeys,
    g: Seq<Seq<Cell>>,
    rows: int,
    cols: int,
    player: Player,
    depth: nat,
    r: EndgameResult,
    t: SearchTrace,
) -> bool {
    match t {
        SearchTrace::WinBy { col, inner } => {
            &&& r == EndgameResult::Win
            &&& 0 <= col < cols && !grid_column_full(g, cols, col)
            &&& (grid_has_win(grid_drop(g, rows, col, spec_cell(player)), rows, cols, spec_cell(player), LINE as int)
                || trace_ok(
                keys,
                grid_drop(g, rows, col, spec_cell(player)),
                rows,
                cols,
                spec_opponent(player),
                (depth - 1) as nat,
                EndgameResult::Loss,
                *inner,
            ))
        },
        SearchTrace::Replies { results, traces } => {
            &&& results.len() == cols && traces.len() == cols
            &&& replies_ok(keys, g, rows, cols, player, depth, t, cols)
            &&& r == scan_result(g, cols, results, cols)
        },
        _ => false,
    }
}

/// `r` is a result a solve with settings `config` and keys `keys` can give
/// for `player` to move on grid `g`, with no time limit: a search at the full
/// depth, or, deepening step by step, a win found at some depth or the
/// result at the maximum depth.
pub open spec fn solved_as(
    keys: ZobristKeys,
    config: EndgameConfig,
    g: Seq<Seq<Cell>>,
    rows: int,
    cols: int,
    player: Player,
    r: EndgameResult,
) -> bool {
    &&& !config.iterative_deepening ==> exists|t: SearchTrace|
        #[trigger] trace_ok(keys, g, rows, cols, player, config.max_depth as nat, r, t)
    &&& config.iterative_deepening && r == EndgameResult::Win ==> exists|d: nat, t: SearchTrace|
        1 <= d <= config.max_depth && #[trigger] root_ok(keys, g, rows, cols, player, d, r, t)
    &&& config.iterative_deepening && config.max_depth >= 1 && r != EndgameResult::Win ==> exists|t: SearchTrace|
        #[trigger] root_ok(keys, g, rows, cols, player, config.max_depth as nat, r, t)
}

/// Some position with hash `h` under `keys` can be given result `r` by a
/// search `depth` moves ahead.
pub open spec fn remembered_ok(keys: ZobristKeys, h: u64, depth: nat, r: EndgameResult) -> bool {
    exists|g: Seq<Seq<Cell>>, rows: int, cols: int, p: Player, t: SearchTrace|
        #![trigger trace_ok(keys, g, rows, cols, p, depth, r, t)]
        grid_hash(&keys, g, rows, cols, p) == h && trace_ok(keys, g, rows, cols, p, depth, r, t)
}

/// The replies of a full search make up its trace, once each move that can
/// be made has a reply.
pub proof fn lemma_replies_ok(
    keys: ZobristKeys,
    g: Seq<Seq<Cell>>,
    rows: int,
    cols: int,
    player: Player,
    depth: nat,
    t: SearchTrace,
    n: int,
)
    requires
        t is Replies,
        0 <= n <= t->results.len(),
        n <= t->traces.len(),
        forall|c: int|
            0 <= c < n && !grid_column_full(g, cols, c) ==> #[trigger] trace_ok(
                keys,
                grid_drop(g, rows, c, spec_cell(player)),
                rows,
                cols,
                spec_opponent(player),
                (depth - 1) as nat,
                t->results[c],
                t->traces[c],
            ),
    ensures
        replies_ok(keys, g, rows, cols, player, depth, t, n),
    decreases n,
{
    if n > 0 {
        lemma_replies_ok(keys, g, rows, cols, player, depth, t, n - 1);
        if !grid_column_full(g, cols, n - 1) {
            assert(trace_ok(
                keys,
                grid_drop(g, rows, n - 1, spec_cell(player)),
                rows,
                cols,
                spec_opponent(player),
                (depth - 1) as nat,
                t->results[n - 1],
                t->traces[n - 1],
            ));
        }
    }
}

/// A result with a trace is a result some trace gives.
proof fn lemma_traced(
    keys: ZobristKeys,
    g: Seq<Seq<Cell>>,
    rows: int,
    cols: int,
    player: Player,
    depth: nat,
    r: EndgameResult,
    t: SearchTrace,
)
    requires
        trace_ok(keys, g, rows, cols, player, depth, r, t),
    ensures
        exists|t2: SearchTrace| #[trigger] trace_ok(keys, g, rows, cols, player, depth, r, t2),
{
}

/// A result with a root trace is a result some root trace gives.
proof fn lemma_root_traced(
    keys: ZobristKeys,
    g: Seq<Seq<Cell>>,
    rows: int,
    cols: int,
    player: Player,
    depth: nat,
    r: EndgameResult,
    t: SearchTrace,
)
    requires
        root_ok(keys, g, rows, cols, player, depth, r, t),
    ensures
        exists|t2: SearchTrace| #[trigger] root_ok(keys, g, rows, cols, player, depth, r, t2),
{
}

/// When no reply is a loss for the opponent, the replies give a draw exactly
/// when one of them is a draw, and a loss otherwise.
pub proof fn lemma_scan_result(g: Seq<Seq<Cell>>, cols: int, results: Seq<EndgameResult>, n: int)
    requires
        forall|c: int| 0 <= c < n && !grid_column_full(g, cols, c) ==> #[trigger] results[c] != EndgameResult::Loss,
    ensures
        scan_result(g, cols, results, n) == (if exists|c: int|
            0 <= c < n && !grid_column_full(g, cols, c) && #[trigger] results[c] == EndgameResult::Draw {
            EndgameResult::Draw
        } else {
            EndgameResult::Loss
        }),
    decreases n,
{
    if n > 0 {
        lemma_scan_result(g, cols, results, n - 1);
        if !grid_column_full(g, cols, n - 1) {
            assert(results[n - 1] != EndgameResult::Loss);
        }
        assert((exists|c: int| 0 <= c < n && !grid_column_full(g, cols, c) && #[trigger] results[c] == EndgameResult::Draw)
            <==> ((exists|c: int| 0 <= c < n - 1 && !grid_column_full(g, cols, c) && #[trigger] results[c]
            == EndgameResult::Draw) || (!grid_column_full(g, cols, n - 1) && results[n - 1] == EndgameResult::Draw)));
    }
}

/// Each reply of `t` to a move into one of the first `n` columns that can
/// take a piece is a result a search of the position after the move can
/// give, as its trace says.
pub open spec fn replies_ok(
    keys: ZobristKeys,
    g: Seq<Seq<Cell>>,
    rows: int,
    cols: int,
    player: Player,
    depth: nat,
    t: SearchTrace,
    n: int,
) -> bool
    decreases t, 0int, n,
{
    match t {
        SearchTrace::Replies { results, traces } => {
            if n <= 0 || n > traces.len() || n > results.len() {
                n <= 0
            } else {
                &&& replies_ok(keys, g, rows, cols, player, depth, t, n - 1)
                &&& (grid_column_full(g, cols, n - 1) || trace_ok(
                    keys,
                    grid_drop(g, rows, n - 1, spec_cell(player)),
                    rows,
                    cols,
                    spec_opponent(player),
                    (depth - 1) as nat,
                    results[n - 1],
                    traces[n - 1],
                ))
            }
        },
        _ => false,
    }
}

/// A board fits what a search with these settings needs: rows when it has
/// columns, columns numbered within `i32`, and, with a table, the size the
/// hash keys cover.
pub open spec fn searchable_for(config: EndgameConfig, board: &Board) -> bool {
    &&& board.wf()
    &&& board.spec_cols() > 0 ==> board.spec_rows() > 0
    &&& board.spec_cols() <= i32::MAX
    &&& config.enable_transposition ==> board.spec_rows() <= KEY_ROWS && board.spec_cols() <= KEY_COLS
}

/// The solver's tables: remembered results by position hash.
pub struct EndgameSolver {
    zobrist: ZobristKeys,
    config: EndgameConfig,
    stats: EndgameStats,
    transposition: HashMap<u64, EndgameEntry>,
    position_cache: HashMap<u64, EndgameResult>,
    start_time: std::time::Instant,
}

impl EndgameSolver {
    /// The settings.
    pub closed spec fn spec_config(&self) -> EndgameConfig {
        self.config
    }

    /// The counters.
    pub closed spec fn spec_stats(&self) -> EndgameStats {
        self.stats
    }

    /// The hash keys.
    pub closed spec fn spec_keys(&self) -> ZobristKeys {
        self.zobrist
    }

    /// Every remembered result is one a search of a position with its hash
    /// can give at its depth.
    pub closed spec fn table_sound(&self) -> bool {
        forall|h: u64|
            #[trigger] self.transposition@.contains_key(h) ==> remembered_ok(
                self.zobrist,
                h,
                self.transposition@[h].depth as nat,
                self.transposition@[h].result,
            )
    }

    /// The solver's invariant: its hash keys cover a 6x7 board, and without
    /// a time limit its remembered results are sound.
    pub closed spec fn wf(&self) -> bool {
        &&& self.zobrist.wf()
        &&& self.config.timeout_ms is None ==> self.table_sound()
    }

    /// The number of remembered results.
    pub closed spec fn spec_table_size(&self) -> nat {
        self.transposition@.len() + self.position_cache@.len()
    }

    /// A solver with the given settings, keys drawn from the clock, zero
    /// counters and empty tables.
    pub fn new(config: EndgameConfig) -> (r: Self)
        ensures
            r.wf(),
            r.spec_config() == config,
            r.spec_stats() == spec_zero_stats(),
            r.spec_table_size() == 0,
    {
        EndgameSolver {
            zobrist: ZobristKeys::new(),
            config,
            stats: EndgameStats::default(),
            transposition: HashMap::new(),
            position_cache: HashMap::new(),
            start_time: instant_now(),
        }
    }

    /// A solver with the default settings.
    pub fn default() -> (r: Self)
        ensures
            r.wf(),
            r.spec_config() == spec_default_config(),
            r.spec_stats() == spec_zero_stats(),
            r.spec_table_size() == 0,
    {
        Self::new(EndgameConfig::default())
    }

    /// The board fits what a search needs: rows when it has columns,
    /// columns numbered within `i32`, and, with a table, the size the keys
    /// cover.
    pub open spec fn searchable(&self, board: &Board) -> bool {
        searchable_for(self.spec_config(), board)
    }

    /// Solves a position: `(None, Draw)` when it holds fewer pieces than the
    /// endgame threshold; else the search by increasing depth (or at full
    /// depth) and the best move found. Without a time limit the result is one
    /// the settings can give (`solved_as`), whether or not a table is used.
    pub fn solve(&mut self, board: &Board, player: Player) -> (r: (Option<usize>, EndgameResult))
        requires
            old(self).wf(),
            old(self).searchable(board),
        ensures
            final(self).wf(),
            final(self).spec_config() == old(self).spec_config(),
            board.spec_rows() * board.spec_cols() - board.spec_count(Cell::Empty) < old(self).spec_config().piece_threshold
                ==> r == (None::<usize>, EndgameResult::Draw),
            r.0 == final(self).spec_stats().best_move,
            board.spec_rows() * board.spec_cols() - board.spec_count(Cell::Empty) >= old(self).spec_config().piece_threshold
                && !old(self).spec_config().iterative_deepening && old(self).spec_config().exact() ==> r.1
                == endgame_value(board@, board.spec_rows() as int, board.spec_cols() as int, player, old(self).spec_config().max_depth as nat),
            board.spec_rows() * board.spec_cols() - board.spec_count(Cell::Empty) >= old(self).spec_config().piece_threshold
                && old(self).spec_config().iterative_deepening && old(self).spec_config().exact() ==> (r.1
                == EndgameResult::Win <==> exists|d: nat|
                1 <= d <= old(self).spec_config().max_depth && #[trigger] depth_win(
                    board@,
                    board.spec_rows() as int,
                    board.spec_cols() as int,
                    player,
                    d,
                )),
            board.spec_rows() * board.spec_cols() - board.spec_count(Cell::Empty) >= old(self).spec_config().piece_threshold
                && old(self).spec_config().iterative_deepening && old(self).spec_config().exact()
                && old(self).spec_config().max_depth >= 1 && r.1 != EndgameResult::Win ==> (r.1 == EndgameResult::Draw
                <==> depth_draw(
                board@,
                board.spec_rows() as int,
                board.spec_cols() as int,
                player,
                old(self).spec_config().max_depth as nat,
            )),
            old(self).spec_config().iterative_deepening && old(self).spec_config().max_depth == 0 ==> r.1
                == EndgameResult::Draw,
            old(self).spec_config().iterative_deepening && r.1 == EndgameResult::Win ==> r.0 is Some,
            old(self).spec_config().iterative_deepening && old(self).spec_config().exact() && r.1 == EndgameResult::Win
                ==> (r.0 matches Some(m) && exists|d: nat|
                1 <= d <= old(self).spec_config().max_depth && #[trigger] winning_move(
                    board@,
                    board.spec_rows() as int,
                    board.spec_cols() as int,
                    player,
                    d,
                    m as int,
                )),
            !old(self).spec_config().iterative_deepening ==> r.0 is None,
            board.spec_rows() * board.spec_cols() - board.spec_count(Cell::Empty) < old(self).spec_config().piece_threshold
                ==> final(self).spec_stats() == spec_zero_stats(),
            final(self).spec_stats().depth_reached <= old(self).spec_config().max_depth,
            final(self).spec_keys() == old(self).spec_keys(),
            board.spec_rows() * board.spec_cols() - board.spec_count(Cell::Empty) >= old(self).spec_config().piece_threshold
                && old(self).spec_config().timeout_ms is None ==> solved_as(
                old(self).spec_keys(),
                old(self).spec_config(),
                board@,
                board.spec_rows() as int,
                board.spec_cols() as int,
                player,
                r.1,
            ),
    {
        self.start_time = instant_now();
        self.stats = EndgameStats::default();
        if !self.is_endgame_position(board) {
            return (None, EndgameResult::Draw);
        }
        let result = if self.config.iterative_deepening {
            self.solve_iterative_deepening(board, player)
        } else {
            self.solve_full(board, player)
        };
        self.stats.search_time_ms = elapsed_millis(&self.start_time);
        (self.stats.best_move, result)
    }

    /// The position holds at least the threshold number of pieces.
    fn is_endgame_position(&self, board: &Board) -> (r: bool)
        requires
            board.wf(),
        ensures
            r == (board.spec_rows() * board.spec_cols() - board.spec_count(Cell::Empty) >= self.config.piece_threshold),
    {
        let piece_count = board.rows() * board.cols() - board.empty_count();
        piece_count >= self.config.piece_threshold
    }

    /// Searches depth 1, 2, ... up to the maximum, until time runs out or a
    /// win is found; the result of the last depth searched (a draw if none).
    fn solve_iterative_deepening(&mut self, board: &Board, player: Player) -> (r: EndgameResult)
        requires
            old(self).wf(),
            old(self).searchable(board),
        ensures
            final(self).wf(),
            final(self).spec_config() == old(self).spec_config(),
            final(self).spec_stats().best_move == old(self).spec_stats().best_move || final(self).spec_stats().best_move is Some,
            final(self).spec_stats().depth_reached == old(self).spec_stats().depth_reached || final(self).spec_stats().depth_reached <= old(self).spec_config().max_depth,
            old(self).spec_config().max_depth == 0 ==> r == EndgameResult::Draw,
            r == EndgameResult::Win ==> final(self).spec_stats().best_move is Some,
            old(self).spec_config().exact() && r == EndgameResult::Win ==> (final(self).spec_stats().best_move matches Some(
                m,
            ) && exists|d: nat|
                1 <= d <= old(self).spec_config().max_depth && #[trigger] winning_move(
                    board@,
                    board.spec_rows() as int,
                    board.spec_cols() as int,
                    player,
                    d,
                    m as int,
                )),
            old(self).spec_config().exact() ==> (r == EndgameResult::Win <==> exists|d: nat|
                1 <= d <= old(self).spec_config().max_depth && #[trigger] depth_win(
                    board@,
                    board.spec_rows() as int,
                    board.spec_cols() as int,
                    player,
                    d,
                )),
            old(self).spec_config().exact() && old(self).spec_config().max_depth >= 1 && r != EndgameResult::Win
                ==> (r == EndgameResult::Draw <==> depth_draw(
                board@,
                board.spec_rows() as int,
                board.spec_cols() as int,
                player,
                old(self).spec_config().max_depth as nat,
            )),
            final(self).spec_keys() == old(self).spec_keys(),
            old(self).spec_config().timeout_ms is None && r == EndgameResult::Win ==> exists|d: nat, t: SearchTrace|
                1 <= d <= old(self).spec_config().max_depth && #[trigger] root_ok(
                    old(self).spec_keys(),
                    board@,
                    board.spec_rows() as int,
                    board.spec_cols() as int,
                    player,
                    d,
                    r,
                    t,
                ),
            old(self).spec_config().timeout_ms is None && old(self).spec_config().max_depth >= 1 && r
                != EndgameResult::Win ==> exists|t: SearchTrace|
                #[trigger] root_ok(
                    old(self).spec_keys(),
                    board@,
                    board.spec_rows() as int,
                    board.spec_cols() as int,
                    player,
                    old(self).spec_config().max_depth as nat,
                    r,
                    t,
                ),
    {
        let ghost keys = old(self).spec_keys();
        let ghost tn = old(self).spec_config().timeout_ms is None;
        let ghost g = board@;
        let ghost rows = board.spec_rows() as int;
        let ghost cols = board.spec_cols() as int;
        let ghost exact = self.spec_config().exact();
        let mut best_result = EndgameResult::Draw;
        let max_depth = self.config.max_depth;
        let ghost mut searched: nat = 0;
        let mut depth: usize = 1;
        while depth <= max_depth
            invariant_except_break
                searched == depth - 1,
                best_result != EndgameResult::Win,
            invariant
                self.wf(),
                self.spec_config() == old(self).spec_config(),
                self.searchable(board),
                g == board@,
                rows == board.spec_rows(),
                cols == board.spec_cols(),
                exact == self.spec_config().exact(),
                max_depth == self.config.max_depth,
                depth >= 1,
                searched <= max_depth,
                searched == 0 ==> best_result == EndgameResult::Draw,
                self.spec_stats().best_move == old(self).spec_stats().best_move || self.spec_stats().best_move is Some,
                self.spec_stats().depth_reached == old(self).spec_stats().depth_reached || self.spec_stats().depth_reached <= max_depth,
                best_result == EndgameResult::Win ==> self.spec_stats().best_move is Some,
                exact && best_result == EndgameResult::Win ==> (self.spec_stats().best_move matches Some(m)
                    && searched >= 1 && winning_move(g, rows, cols, player, searched, m as int)),
                exact ==> forall|d: nat| 1 <= d < searched ==> !#[trigger] depth_win(g, rows, cols, player, d),
                exact ==> (best_result == EndgameResult::Win <==> searched >= 1 && depth_win(g, rows, cols, player, searched)),
                exact && searched >= 1 && best_result != EndgameResult::Win ==> (best_result == EndgameResult::Draw
                    <==> depth_draw(g, rows, cols, player, searched)),
                keys == self.spec_keys(),
                tn == (self.spec_config().timeout_ms is None),
                tn && searched >= 1 ==> exists|t: SearchTrace| #[trigger] root_ok(keys, g, rows, cols, player, searched, best_result, t),
            ensures
                exact ==> best_result == EndgameResult::Win || searched == max_depth,
                tn ==> best_result == EndgameResult::Win || searched == max_depth,
                max_depth == 0 ==> searched == 0,
            decreases max_depth + 1 - depth,
        {
            if self.check_timeout() {
                break;
            }
            let (best_move, result) = self.solve_depth(board, player, depth);
            self.stats.depth_reached = depth;
            if best_move.is_some() {
                self.stats.best_move = best_move;
            }
            best_result = result;
            proof {
                if exact && searched >= 1 {
                    assert(!depth_win(g, rows, cols, player, searched));
                }
                searched = depth as nat;
            }
            if result == EndgameResult::Win {
                break;
            }
            if depth == usize::MAX {
                break;
            }
            depth = depth + 1;
        }
        proof {
            if exact && best_result != EndgameResult::Win {
                assert forall|d: nat| 1 <= d <= max_depth implies !#[trigger] depth_win(g, rows, cols, player, d) by {
                    if d < searched {
                    } else {
                        assert(d == searched);
                    }
                }
            }
        }
        best_result
    }

    /// Searches every move at one depth: a move that wins at once or leaves
    /// the opponent lost is returned as a win; otherwise the result is a draw
    /// (with the last drawing move) if some move draws, and a loss (with the
    /// first move) if none does.
    fn solve_depth(&mut self, board: &Board, player: Player, depth: usize) -> (r: (Option<usize>, EndgameResult))
        requires
            old(self).wf(),
            old(self).searchable(board),
            depth >= 1,
        ensures
            final(self).wf(),
            final(self).spec_config() == old(self).spec_config(),
            final(self).spec_stats().best_move == old(self).spec_stats().best_move,
            final(self).spec_stats().depth_reached == old(self).spec_stats().depth_reached,
            r.1 == EndgameResult::Win ==> r.0 is Some,
            old(self).spec_config().exact() && r.1 == EndgameResult::Win ==> (r.0 matches Some(m) && winning_move(
                board@,
                board.spec_rows() as int,
                board.spec_cols() as int,
                player,
                depth as nat,
                m as int,
            )),
            old(self).spec_config().exact() ==> (r.1 == EndgameResult::Win <==> depth_win(
                board@,
                board.spec_rows() as int,
                board.spec_cols() as int,
                player,
                depth as nat,
            )),
            old(self).spec_config().exact() ==> (r.1 == EndgameResult::Draw <==> !depth_win(
                board@,
                board.spec_rows() as int,
                board.spec_cols() as int,
                player,
                depth as nat,
            ) && depth_draw(board@, board.spec_rows() as int, board.spec_cols() as int, player, depth as nat)),
            final(self).spec_keys() == old(self).spec_keys(),
            old(self).spec_config().timeout_ms is None ==> exists|t: SearchTrace|
                #[trigger] root_ok(
                    old(self).spec_keys(),
                    board@,
                    board.spec_rows() as int,
                    board.spec_cols() as int,
                    player,
                    depth as nat,
                    r.1,
                    t,
                ),
    {
        let ghost keys = old(self).spec_keys();
        let ghost tn = old(self).spec_config().timeout_ms is None;
        let mut best_move: Option<usize> = None;
        let mut best_result = EndgameResult::Loss;
        let moves = self.get_ordered_moves(board);
        let ghost g = board@;
        let ghost rows = board.spec_rows() as int;
        let ghost cols = board.spec_cols() as int;
        let ghost mut results: Seq<EndgameResult> = Seq::new(cols as nat, |c: int| EndgameResult::Loss);
        let ghost mut traces: Seq<SearchTrace> = Seq::new(cols as nat, |c: int| SearchTrace::Settled);
        let mut i: usize = 0;
        while i < moves.len()
            invariant
                self.wf(),
                self.spec_config() == old(self).spec_config(),
                self.spec_stats().best_move == old(self).spec_stats().best_move,
                self.spec_stats().depth_reached == old(self).spec_stats().depth_reached,
                self.searchable(board),
                depth >= 1,
                g == board@,
                rows == board.spec_rows(),
                cols == board.spec_cols(),
                search_order(g, cols, self.spec_config().move_ordering, moves@),
                i <= moves@.len(),
                best_result != EndgameResult::Win,
                self.spec_config().exact() ==> forall|j: int| 0 <= j < i ==> !grid_has_win(
                    grid_drop(g, rows, moves@[j] as int, spec_cell(player)),
                    rows,
                    cols,
                    spec_cell(player),
                    LINE as int,
                ) && #[trigger] endgame_value(
                    grid_drop(g, rows, moves@[j] as int, spec_cell(player)),
                    rows,
                    cols,
                    spec_opponent(player),
                    (depth - 1) as nat,
                ) != EndgameResult::Loss,
                self.spec_config().exact() ==> (best_result == EndgameResult::Draw <==> exists|j: int|
                    0 <= j < i && #[trigger] endgame_value(
                        grid_drop(g, rows, moves@[j] as int, spec_cell(player)),
                        rows,
                        cols,
                        spec_opponent(player),
                        (depth - 1) as nat,
                    ) == EndgameResult::Draw),
                keys == self.spec_keys(),
                keys == old(self).spec_keys(),
                tn == (self.spec_config().timeout_ms is None),
                results.len() == cols,
                traces.len() == cols,
                tn ==> forall|j: int| 0 <= j < i ==> #[trigger] trace_ok(
                    keys,
                    grid_drop(g, rows, moves@[j] as int, spec_cell(player)),
                    rows,
                    cols,
                    spec_opponent(player),
                    (depth - 1) as nat,
                    results[moves@[j] as int],
                    traces[moves@[j] as int],
                ),
                tn ==> forall|j: int| 0 <= j < i ==> #[trigger] results[moves@[j] as int] != EndgameResult::Loss,
                tn ==> (best_result == EndgameResult::Draw <==> exists|j: int|
                    0 <= j < i && #[trigger] results[moves@[j] as int] == EndgameResult::Draw),
            ensures
                i == moves@.len() || !self.spec_config().exact(),
                i == moves@.len() || !tn,
            decreases moves@.len() - i,
        {
            if self.check_timeout() {
                break;
            }
            let col = moves[i];
            let new_board = play(board, col, player.cell());
            let ghost child = grid_drop(g, rows, col as int, spec_cell(player));
            proof {
                assert(col < cols && !grid_column_full(g, cols, col as int));
                assert(endgame_value(child, rows, cols, spec_opponent(player), (depth - 1) as nat) == endgame_value(
                    child,
                    rows,
                    cols,
                    spec_opponent(player),
                    (depth - 1) as nat,
                ));
            }
            if new_board.has_winning_line(player.cell(), LINE) {
                proof {
                    assert(new_board@ == child);
                    assert(grid_has_win(child, rows, cols, spec_cell(player), LINE as int));
                    assert(0 <= col < cols && !grid_column_full(g, cols, col as int) && (grid_has_win(
                        child,
                        rows,
                        cols,
                        spec_cell(player),
                        LINE as int,
                    ) || endgame_value(child, rows, cols, spec_opponent(player), (depth - 1) as nat) == EndgameResult::Loss));
                    let wt = SearchTrace::WinBy { col: col as int, inner: Box::new(SearchTrace::Settled) };
                    assert(root_ok(keys, g, rows, cols, player, depth as nat, EndgameResult::Win, wt));
                    lemma_root_traced(keys, g, rows, cols, player, depth as nat, EndgameResult::Win, wt);
                }
                return (Some(col), EndgameResult::Win);
            }
            let opponent = player.opponent();
            let ghost old_draw = best_result == EndgameResult::Draw;
            let result = self.search(&new_board, opponent, depth - 1);
            proof {
                assert(moves@[i as int] == col);
                assert forall|j: int| 0 <= j < i implies #[trigger] moves@[j] != col by {
                    assert(move_before(self.spec_config().move_ordering, cols, moves@[j] as int, moves@[i as int] as int));
                }
                if tn {
                    let tc = choose|t: SearchTrace| #[trigger] trace_ok(
                        keys,
                        new_board@,
                        rows,
                        cols,
                        opponent,
                        (depth - 1) as nat,
                        result,
                        t,
                    );
                    if result == EndgameResult::Loss {
                        let wt = SearchTrace::WinBy { col: col as int, inner: Box::new(tc) };
                        assert(root_ok(keys, g, rows, cols, player, depth as nat, EndgameResult::Win, wt));
                        lemma_root_traced(keys, g, rows, cols, player, depth as nat, EndgameResult::Win, wt);
                    }
                    let ghost old_results = results;
                    let ghost old_traces = traces;
                    results = results.update(col as int, result);
                    traces = traces.update(col as int, tc);
                    assert forall|j: int|
                        #![trigger results[moves@[j] as int]]
                        #![trigger old_results[moves@[j] as int]]
                        0 <= j < i implies results[moves@[j] as int] == old_results[moves@[j] as int]
                        && traces[moves@[j] as int] == old_traces[moves@[j] as int] by {
                        assert(moves@[j] != col);
                    }
                    assert(old_draw <==> exists|j: int| 0 <= j < i && #[trigger] results[moves@[j] as int] == EndgameResult::Draw);
                    assert(results[moves@[i as int] as int] == result);
                    assert((exists|j: int| 0 <= j < i + 1 && #[trigger] results[moves@[j] as int] == EndgameResult::Draw)
                        <==> ((exists|j: int| 0 <= j < i && #[trigger] results[moves@[j] as int] == EndgameResult::Draw)
                        || results[moves@[i as int] as int] == EndgameResult::Draw));
                }
            }
            if result == EndgameResult::Loss {
                return (Some(col), EndgameResult::Win);
            } else if result == EndgameResult::Draw {
                best_result = EndgameResult::Draw;
                best_move = Some(col);
            }
            if best_result == EndgameResult::Loss && best_move.is_none() {
                best_move = Some(col);
            }
            proof {
                if self.spec_config().exact() {
                    assert(moves@[i as int] == col);
                    if result == EndgameResult::Draw {
                        assert(endgame_value(
                            grid_drop(g, rows, moves@[i as int] as int, spec_cell(player)),
                            rows,
                            cols,
                            spec_opponent(player),
                            (depth - 1) as nat,
                        ) == EndgameResult::Draw);
                    }
                    assert((exists|j: int|
                        0 <= j < i + 1 && #[trigger] endgame_value(
                            grid_drop(g, rows, moves@[j] as int, spec_cell(player)),
                            rows,
                            cols,
                            spec_opponent(player),
                            (depth - 1) as nat,
                        ) == EndgameResult::Draw) <==> ((exists|j: int|
                        0 <= j < i && #[trigger] endgame_value(
                            grid_drop(g, rows, moves@[j] as int, spec_cell(player)),
                            rows,
                            cols,
                            spec_opponent(player),
                            (depth - 1) as nat,
                        ) == EndgameResult::Draw) || endgame_value(
                        grid_drop(g, rows, moves@[i as int] as int, spec_cell(player)),
                        rows,
                        cols,
                        spec_opponent(player),
                        (depth - 1) as nat,
                    ) == EndgameResult::Draw));
                }
            }
            i = i + 1;
        }
        proof {
            if self.spec_config().exact() {
                assert forall|c: int|
                    0 <= c < cols && !grid_column_full(g, cols, c) implies !(grid_has_win(
                        grid_drop(g, rows, c, spec_cell(player)),
                        rows,
                        cols,
                        spec_cell(player),
                        LINE as int,
                    ) || #[trigger] endgame_value(
                        grid_drop(g, rows, c, spec_cell(player)),
                        rows,
                        cols,
                        spec_opponent(player),
                        (depth - 1) as nat,
                    ) == EndgameResult::Loss) by {
                    assert(moves@.contains(c as usize));
                    let j = choose|j: int| 0 <= j < moves@.len() && moves@[j] == c as usize;
                    assert(endgame_value(
                        grid_drop(g, rows, moves@[j] as int, spec_cell(player)),
                        rows,
                        cols,
                        spec_opponent(player),
                        (depth - 1) as nat,
                    ) != EndgameResult::Loss);
                }
                if best_result == EndgameResult::Draw {
                    let j = choose|j: int|
                        0 <= j < moves@.len() && #[trigger] endgame_value(
                            grid_drop(g, rows, moves@[j] as int, spec_cell(player)),
                            rows,
                            cols,
                            spec_opponent(player),
                            (depth - 1) as nat,
                        ) == EndgameResult::Draw;
                    assert(0 <= moves@[j] < cols && !grid_column_full(g, cols, moves@[j] as int));
                    assert(depth_draw(g, rows, cols, player, depth as nat));
                }
                if depth_draw(g, rows, cols, player, depth as nat) {
                    let c = choose|c: int|
                        0 <= c < cols && !grid_column_full(g, cols, c) && #[trigger] endgame_value(
                            grid_drop(g, rows, c, spec_cell(player)),
                            rows,
                            cols,
                            spec_opponent(player),
                            (depth - 1) as nat,
                        ) == EndgameResult::Draw;
                    assert(moves@.contains(c as usize));
                    let j = choose|j: int| 0 <= j < moves@.len() && moves@[j] == c as usize;
                    assert(endgame_value(
                        grid_drop(g, rows, moves@[j] as int, spec_cell(player)),
                        rows,
                        cols,
                        spec_opponent(player),
                        (depth - 1) as nat,
                    ) == EndgameResult::Draw);
                }
            }
        }
        proof {
            if tn {
                let t = SearchTrace::Replies { results, traces };
                assert forall|c: int| 0 <= c < cols && !grid_column_full(g, cols, c) implies #[trigger] trace_ok(
                    keys,
                    grid_drop(g, rows, c, spec_cell(player)),
                    rows,
                    cols,
                    spec_opponent(player),
                    (depth - 1) as nat,
                    t->results[c],
                    t->traces[c],
                ) && results[c] != EndgameResult::Loss by {
                    assert(moves@.contains(c as usize));
                    let j = choose|j: int| 0 <= j < moves@.len() && moves@[j] == c as usize;
                    assert(results[moves@[j] as int] != EndgameResult::Loss);
                }
                lemma_replies_ok(keys, g, rows, cols, player, depth as nat, t, cols);
                lemma_scan_result(g, cols, results, cols);
                if best_result == EndgameResult::Draw {
                    let j = choose|j: int| 0 <= j < moves@.len() && #[trigger] results[moves@[j] as int] == EndgameResult::Draw;
                    let c = moves@[j] as int;
                    assert(0 <= c < cols && !grid_column_full(g, cols, c) && results[c] == EndgameResult::Draw);
                } else {
                    assert forall|c: int| 0 <= c < cols && !grid_column_full(g, cols, c) implies #[trigger] results[c]
                        != EndgameResult::Draw by {
                        assert(moves@.contains(c as usize));
                        let j = choose|j: int| 0 <= j < moves@.len() && moves@[j] == c as usize;
                        assert(results[moves@[j] as int] != EndgameResult::Draw);
                    }
                }
                assert(root_ok(keys, g, rows, cols, player, depth as nat, best_result, t));
                lemma_root_traced(keys, g, rows, cols, player, depth as nat, best_result, t);
            }
        }
        (best_move, best_result)
    }

    /// The result of a position for `player` to move, `depth` moves ahead,
    /// counting the position. With no time limit and no table it is exactly
    /// `endgame_value`; with a limit it may be cut short as a draw, and with a
    /// table a remembered result of the same hash, searched at least as deep,
    /// is taken instead. Without a time limit the result always has a trace
    /// (`trace_ok`), and is remembered under the position's hash with one.
    #[verifier::rlimit(100)]
    fn search(&mut self, board: &Board, player: Player, depth: usize) -> (r: EndgameResult)
        requires
            old(self).wf(),
            old(self).searchable(board),
        ensures
            final(self).wf(),
            final(self).spec_config() == old(self).spec_config(),
            final(self).spec_stats().best_move == old(self).spec_stats().best_move,
            final(self).spec_stats().depth_reached == old(self).spec_stats().depth_reached,
            final(self).spec_keys() == old(self).spec_keys(),
            old(self).spec_config().exact() ==> r == endgame_value(
                board@,
                board.spec_rows() as int,
                board.spec_cols() as int,
                player,
                depth as nat,
            ),
            old(self).spec_config().timeout_ms is None ==> exists|t: SearchTrace|
                #[trigger] trace_ok(
                    old(self).spec_keys(),
                    board@,
                    board.spec_rows() as int,
                    board.spec_cols() as int,
                    player,
                    depth as nat,
                    r,
                    t,
                ),
        decreases depth,
    {
        let ghost keys = old(self).spec_keys();
        let ghost tn = old(self).spec_config().timeout_ms is None;
        let ghost g = board@;
        let ghost rows = board.spec_rows() as int;
        let ghost cols = board.spec_cols() as int;
        self.stats.positions_evaluated = self.stats.positions_evaluated.saturating_add(1);
        if self.check_timeout() {
            return EndgameResult::Draw;
        }
        if self.config.enable_transposition {
            let hash = self.zobrist.hash(board, player);
            let hit = match self.transposition.get(&hash) {
                Some(entry) => {
                    if entry.depth >= depth {
                        Some(entry.result)
                    } else {
                        None
                    }
                },
                None => None,
            };
            match hit {
                Some(result) => {
                    proof {
                        if tn {
                            let e = self.transposition@[hash];
                            assert(self.transposition@.contains_key(hash));
                            assert(remembered_ok(keys, hash, e.depth as nat, e.result));
                            let (g2, rows2, cols2, p2, t2) = choose|g2: Seq<Seq<Cell>>, rows2: int, cols2: int, p2: Player, t2: SearchTrace|
                                #![trigger trace_ok(keys, g2, rows2, cols2, p2, e.depth as nat, e.result, t2)]
                                grid_hash(&keys, g2, rows2, cols2, p2) == hash && trace_ok(keys, g2, rows2, cols2, p2, e.depth as nat, e.result, t2);
                            let t = SearchTrace::Remembered {
                                grid: g2,
                                rows: rows2,
                                cols: cols2,
                                player: p2,
                                depth: e.depth as nat,
                                inner: Box::new(t2),
                            };
                            lemma_traced(keys, g, rows, cols, player, depth as nat, result, t);
                        }
                    }
                    self.stats.transposition_hits = self.stats.transposition_hits.saturating_add(1);
                    return result;
                },
                None => {},
            }
        }
        if board.has_winning_line(Cell::Player1, LINE) {
            proof {
                lemma_traced(keys, g, rows, cols, player, depth as nat, if player == Player::Player1 {
                EndgameResult::Win
            } else {
                EndgameResult::Loss
            }, SearchTrace::Settled);
            }
            return if player == Player::Player1 {
                EndgameResult::Win
            } else {
                EndgameResult::Loss
            };
        }
        if board.has_winning_line(Cell::Player2, LINE) {
            proof {
                lemma_traced(keys, g, rows, cols, player, depth as nat, if player == Player::Player2 {
                EndgameResult::Win
            } else {
                EndgameResult::Loss
            }, SearchTrace::Settled);
            }
            return if player == Player::Player2 {
                EndgameResult::Win
            } else {
                EndgameResult::Loss
            };
        }
        if board_full(board) || depth == 0 {
            proof {
                lemma_traced(keys, g, rows, cols, player, depth as nat, EndgameResult::Draw, SearchTrace::Settled);
            }
            return EndgameResult::Draw;
        }
        let opponent = player.opponent();
        let mut best_result = EndgameResult::Loss;
        let mut found_winning_move = false;
        let moves = self.get_ordered_moves(board);
        let ghost mut results: Seq<EndgameResult> = Seq::new(cols as nat, |c: int| EndgameResult::Loss);
        let ghost mut traces: Seq<SearchTrace> = Seq::new(cols as nat, |c: int| SearchTrace::Settled);
        let ghost mut wt = SearchTrace::Settled;
        let mut i: usize = 0;
        while i < moves.len()
            invariant_except_break
                !found_winning_move,
                best_result != EndgameResult::Win,
                tn ==> forall|j: int| 0 <= j < i ==> #[trigger] results[moves@[j] as int] != EndgameResult::Loss,
                tn ==> (best_result == EndgameResult::Draw <==> exists|j: int|
                    0 <= j < i && #[trigger] results[moves@[j] as int] == EndgameResult::Draw),
                self.spec_config().exact() ==> (best_result == EndgameResult::Draw <==> exists|j: int| 0 <= j < i && #[trigger] endgame_value(
                    grid_drop(g, rows, moves@[j] as int, spec_cell(player)),
                    rows,
                    cols,
                    opponent,
                    (depth - 1) as nat,
                ) == EndgameResult::Draw),
            invariant
                self.wf(),
                self.spec_config() == old(self).spec_config(),
                self.spec_stats().best_move == old(self).spec_stats().best_move,
                self.spec_stats().depth_reached == old(self).spec_stats().depth_reached,
                self.searchable(board),
                depth >= 1,
                g == board@,
                rows == board.spec_rows(),
                cols == board.spec_cols(),
                opponent == spec_opponent(player),
                search_order(g, cols, self.spec_config().move_ordering, moves@),
                i <= moves@.len(),
                keys == self.spec_keys(),
                tn == (self.spec_config().timeout_ms is None),
                !grid_has_win(g, rows, cols, Cell::Player1, LINE as int),
                !grid_has_win(g, rows, cols, Cell::Player2, LINE as int),
                !grid_full(g, rows, cols),
                results.len() == cols,
                traces.len() == cols,
                tn ==> forall|j: int| 0 <= j < i ==> #[trigger] trace_ok(
                    keys,
                    grid_drop(g, rows, moves@[j] as int, spec_cell(player)),
                    rows,
                    cols,
                    opponent,
                    (depth - 1) as nat,
                    results[moves@[j] as int],
                    traces[moves@[j] as int],
                ),
                self.spec_config().exact() ==> forall|j: int| 0 <= j < i ==> #[trigger] endgame_value(
                    grid_drop(g, rows, moves@[j] as int, spec_cell(player)),
                    rows,
                    cols,
                    opponent,
                    (depth - 1) as nat,
                ) != EndgameResult::Loss,
            ensures
                found_winning_move && tn ==> trace_ok(keys, g, rows, cols, player, depth as nat, EndgameResult::Win, wt),
                !found_winning_move && tn ==> forall|j: int| 0 <= j < moves@.len() ==> #[trigger] results[moves@[j] as int]
                    != EndgameResult::Loss,
                !found_winning_move && tn ==> (best_result == EndgameResult::Draw <==> exists|j: int|
                    0 <= j < moves@.len() && #[trigger] results[moves@[j] as int] == EndgameResult::Draw),
                found_winning_move ==> best_result == EndgameResult::Win && (self.spec_config().exact() ==> exists|j: int|
                    0 <= j < moves@.len() && #[trigger] endgame_value(
                        grid_drop(g, rows, moves@[j] as int, spec_cell(player)),
                        rows,
                        cols,
                        opponent,
                        (depth - 1) as nat,
                    ) == EndgameResult::Loss),
                !found_winning_move ==> i == moves@.len() && best_result != EndgameResult::Win && (self.spec_config().exact() ==> (best_result == EndgameResult::Draw <==> exists|j: int| 0 <= j < i && #[trigger] endgame_value(
                    grid_drop(g, rows, moves@[j] as int, spec_cell(player)),
                    rows,
                    cols,
                    opponent,
                    (depth - 1) as nat,
                ) == EndgameResult::Draw)),
            decreases moves@.len() - i,
        {
            let col = moves[i];
            let ghost old_draw = best_result == EndgameResult::Draw;
            let new_board = play(board, col, player.cell());
            let result = self.search(&new_board, opponent, depth - 1);
            proof {
                assert(moves@[i as int] == col);
                assert(col < cols && !grid_column_full(g, cols, col as int));
                assert forall|j: int| 0 <= j < i implies #[trigger] moves@[j] != col by {
                    assert(move_before(self.spec_config().move_ordering, cols, moves@[j] as int, moves@[i as int] as int));
                }
                if tn {
                    let tc = choose|t: SearchTrace| #[trigger] trace_ok(
                        keys,
                        new_board@,
                        rows,
                        cols,
                        opponent,
                        (depth - 1) as nat,
                        result,
                        t,
                    );
                    let ghost old_results = results;
                    let ghost old_traces = traces;
                    results = results.update(col as int, result);
                    traces = traces.update(col as int, tc);
                    assert forall|j: int|
                        #![trigger results[moves@[j] as int]]
                        #![trigger old_results[moves@[j] as int]]
                        0 <= j < i implies results[moves@[j] as int] == old_results[moves@[j] as int]
                        && traces[moves@[j] as int] == old_traces[moves@[j] as int] by {
                        assert(moves@[j] != col);
                    }
                    assert(old_draw <==> exists|j: int| 0 <= j < i && #[trigger] results[moves@[j] as int] == EndgameResult::Draw);
                    if result == EndgameResult::Loss {
                        wt = SearchTrace::WinBy { col: col as int, inner: Box::new(tc) };
                        assert(trace_ok(keys, g, rows, cols, player, depth as nat, EndgameResult::Win, wt));
                    }
                }
            }
            if result == EndgameResult::Loss {
                best_result = EndgameResult::Win;
                found_winning_move = true;
                self.stats.cutoffs = self.stats.cutoffs.saturating_add(1);
                break;
            } else if result == EndgameResult::Draw && !found_winning_move {
                best_result = EndgameResult::Draw;
            }
            proof {
                if tn {
                    assert(results[moves@[i as int] as int] == result);
                    assert(best_result == EndgameResult::Draw <==> (old_draw || result == EndgameResult::Draw));
                    assert((exists|j: int| 0 <= j < i + 1 && #[trigger] results[moves@[j] as int] == EndgameResult::Draw)
                        <==> ((exists|j: int| 0 <= j < i && #[trigger] results[moves@[j] as int] == EndgameResult::Draw)
                        || results[moves@[i as int] as int] == EndgameResult::Draw));
                }
            }
            i = i + 1;
        }
        let ghost final_trace = if found_winning_move {
            wt
        } else {
            SearchTrace::Replies { results, traces }
        };
        proof {
            if tn && !found_winning_move {
                assert forall|c: int| 0 <= c < cols && !grid_column_full(g, cols, c) implies #[trigger] trace_ok(
                    keys,
                    grid_drop(g, rows, c, spec_cell(player)),
                    rows,
                    cols,
                    spec_opponent(player),
                    (depth - 1) as nat,
                    final_trace->results[c],
                    final_trace->traces[c],
                ) && results[c] != EndgameResult::Loss by {
                    assert(moves@.contains(c as usize));
                    let j = choose|j: int| 0 <= j < moves@.len() && moves@[j] == c as usize;
                    assert(results[moves@[j] as int] != EndgameResult::Loss);
                }
                lemma_replies_ok(keys, g, rows, cols, player, depth as nat, final_trace, cols);
                lemma_scan_result(g, cols, results, cols);
                if best_result == EndgameResult::Draw {
                    let j = choose|j: int| 0 <= j < moves@.len() && #[trigger] results[moves@[j] as int] == EndgameResult::Draw;
                    let c = moves@[j] as int;
                    assert(0 <= c < cols && !grid_column_full(g, cols, c) && results[c] == EndgameResult::Draw);
                } else {
                    assert forall|c: int| 0 <= c < cols && !grid_column_full(g, cols, c) implies #[trigger] results[c]
                        != EndgameResult::Draw by {
                        assert(moves@.contains(c as usize));
                        let j = choose|j: int| 0 <= j < moves@.len() && moves@[j] == c as usize;
                        assert(results[moves@[j] as int] != EndgameResult::Draw);
                    }
                }
                assert(trace_ok(keys, g, rows, cols, player, depth as nat, best_result, final_trace));
            }
            if tn && found_winning_move {
                assert(trace_ok(keys, g, rows, cols, player, depth as nat, best_result, final_trace));
            }
        }
        if self.config.enable_transposition {
            let hash = self.zobrist.hash(board, player);
            let ghost before = self.transposition@;
            self.transposition.insert(hash, EndgameEntry { result: best_result, depth, best_move: None });
            proof {
                if tn {
                    assert forall|h: u64| #[trigger] self.transposition@.contains_key(h) implies remembered_ok(
                        self.zobrist,
                        h,
                        self.transposition@[h].depth as nat,
                        self.transposition@[h].result,
                    ) by {
                        if h == hash {
                            assert(grid_hash(&keys, g, rows, cols, player) == hash);
                            assert(trace_ok(keys, g, rows, cols, player, depth as nat, best_result, final_trace));
                        } else {
                            assert(before.contains_key(h));
                        }
                    }
                }
            }
        }
        proof {
            if self.spec_config().exact() {
                let dn = depth as nat;
                lemma_best_reply(g, rows, cols, player, dn, cols);
                assert(endgame_value(g, rows, cols, player, dn) == best_reply(g, rows, cols, player, dn, cols));
                if found_winning_move {
                    let j = choose|j: int| 0 <= j < moves@.len() && #[trigger] endgame_value(
                        grid_drop(g, rows, moves@[j] as int, spec_cell(player)),
                        rows,
                        cols,
                        opponent,
                        (depth - 1) as nat,
                    ) == EndgameResult::Loss;
                    let c = moves@[j] as int;
                    assert(0 <= c < cols && !grid_column_full(g, cols, c));
                    assert(reply_value(g, rows, cols, player, dn, c) == EndgameResult::Loss);
                } else {
                    assert forall|c: int| 0 <= c < cols && !grid_column_full(g, cols, c) implies #[trigger] reply_value(
                        g,
                        rows,
                        cols,
                        player,
                        dn,
                        c,
                    ) != EndgameResult::Loss by {
                        assert(moves@.contains(c as usize));
                        let j = choose|j: int| 0 <= j < moves@.len() && moves@[j] == c as usize;
                        assert(endgame_value(
                            grid_drop(g, rows, moves@[j] as int, spec_cell(player)),
                            rows,
                            cols,
                            opponent,
                            (depth - 1) as nat,
                        ) != EndgameResult::Loss);
                    }
                    if best_result == EndgameResult::Draw {
                        let j = choose|j: int| 0 <= j < i && #[trigger] endgame_value(
                            grid_drop(g, rows, moves@[j] as int, spec_cell(player)),
                            rows,
                            cols,
                            opponent,
                            (depth - 1) as nat,
                        ) == EndgameResult::Draw;
                        let c = moves@[j] as int;
                        assert(0 <= c < cols && !grid_column_full(g, cols, c));
                        assert(reply_value(g, rows, cols, player, dn, c) == EndgameResult::Draw);
                    } else {
                        assert forall|c: int| 0 <= c < cols && !grid_column_full(g, cols, c) implies #[trigger] reply_value(
                            g,
                            rows,
                            cols,
                            player,
                            dn,
                            c,
                        ) != EndgameResult::Draw by {
                            assert(moves@.contains(c as usize));
                            let j = choose|j: int| 0 <= j < moves@.len() && moves@[j] == c as usize;
                            assert(endgame_value(
                                grid_drop(g, rows, moves@[j] as int, spec_cell(player)),
                                rows,
                                cols,
                                opponent,
                                (depth - 1) as nat,
                            ) != EndgameResult::Draw);
                        }
                    }
                }
            }
        }
        proof {
            if tn {
                lemma_traced(keys, g, rows, cols, player, depth as nat, best_result, final_trace);
            }
        }
        best_result
    }

    /// Searches at the full depth.
    fn solve_full(&mut self, board: &Board, player: Player) -> (r: EndgameResult)
        requires
            old(self).wf(),
            old(self).searchable(board),
        ensures
            final(self).wf(),
            final(self).spec_config() == old(self).spec_config(),
            final(self).spec_stats().best_move == old(self).spec_stats().best_move,
            final(self).spec_stats().depth_reached == old(self).spec_stats().depth_reached,
            old(self).spec_config().exact() ==> r == endgame_value(
                board@,
                board.spec_rows() as int,
                board.spec_cols() as int,
                player,
                old(self).spec_config().max_depth as nat,
            ),
            final(self).spec_keys() == old(self).spec_keys(),
            old(self).spec_config().timeout_ms is None ==> exists|t: SearchTrace|
                #[trigger] trace_ok(
                    old(self).spec_keys(),
                    board@,
                    board.spec_rows() as int,
                    board.spec_cols() as int,
                    player,
                    old(self).spec_config().max_depth as nat,
                    r,
                    t,
                ),
    {
        let d = self.config.max_depth;
        self.search(board, player, d)
    }

    /// The columns that can take a piece, in search order.
    fn get_ordered_moves(&self, board: &Board) -> (r: Vec<usize>)
        requires
            board.wf(),
            board.spec_cols() > 0 ==> board.spec_rows() > 0,
            board.spec_cols() <= i32::MAX,
        ensures
            search_order(board@, board.spec_cols() as int, self.config.move_ordering, r@),
    {
        ordered_moves(board, self.config.move_ordering)
    }

    /// Returns true once the time limit, if any, has passed.
    fn check_timeout(&self) -> (r: bool)
        ensures
            self.config.timeout_ms is None ==> !r,
    {
        match self.config.timeout_ms {
            Some(timeout_ms) => elapsed_millis(&self.start_time) >= timeout_ms,
            None => false,
        }
    }

    /// The counters.
    pub fn stats(&self) -> (r: &EndgameStats)
        ensures
            *r == self.spec_stats(),
    {
        &self.stats
    }

    /// Forgets all remembered results.
    pub fn clear_caches(&mut self)
        requires
            old(self).wf(),
        ensures
            final(self).wf(),
            final(self).spec_config() == old(self).spec_config(),
            final(self).spec_stats() == old(self).spec_stats(),
            final(self).spec_table_size() == 0,
    {
        self.transposition.clear();
        self.position_cache.clear();
    }
}

/// The columns that can take a piece, in search order: nearest the centre
/// first (ties to the left) when `ordering`, else left to right.
fn ordered_moves(board: &Board, ordering: bool) -> (r: Vec<usize>)
    requires
        board.wf(),
        board.spec_cols() > 0 ==> board.spec_rows() > 0,
        board.spec_cols() <= i32::MAX,
    ensures
        search_order(board@, board.spec_cols() as int, ordering, r@),
{
    let ghost g = board@;
    let ghost cols = board.spec_cols() as int;
    let mut valid: Vec<usize> = Vec::new();
    let mut c: usize = 0;
    while c < board.cols()
        invariant
            board.wf(),
            board.spec_cols() > 0 ==> board.spec_rows() > 0,
            g == board@,
            cols == board.spec_cols(),
            c <= cols,
            forall|i: int, j: int| 0 <= i < j < valid@.len() ==> #[trigger] valid@[i] < #[trigger] valid@[j],
            forall|i: int| 0 <= i < valid@.len() ==> #[trigger] valid@[i] < c && !grid_column_full(g, cols, valid@[i] as int),
            forall|k: int| 0 <= k < c && !grid_column_full(g, cols, k) ==> valid@.contains(k as usize),
        decreases cols - c,
    {
        if can_play(board, c) {
            let ghost old_valid = valid@;
            valid.push(c);
            proof {
                assert(valid@[valid@.len() - 1] == c);
                assert forall|k: int| 0 <= k < c + 1 && !grid_column_full(g, cols, k) implies valid@.contains(k as usize) by {
                    if k < c {
                        assert(old_valid.contains(k as usize));
                        let j = choose|j: int| 0 <= j < old_valid.len() && old_valid[j] == k as usize;
                        assert(valid@[j] == k as usize);
                    } else {
                        assert(valid@[valid@.len() - 1] == k as usize);
                    }
                }
            }
        }
        c = c + 1;
    }
    if !ordering {
        return valid;
    }
    let center = board.cols() / 2;
    let mut out: Vec<usize> = Vec::new();
    let mut d: usize = 0;
    while d <= center || d < board.cols() - center
        invariant
            board.wf(),
            g == board@,
            cols == board.spec_cols(),
            center == cols / 2,
            forall|i: int, j: int| 0 <= i < j < valid@.len() ==> #[trigger] valid@[i] < #[trigger] valid@[j],
            forall|i: int| 0 <= i < valid@.len() ==> #[trigger] valid@[i] < cols && !grid_column_full(g, cols, valid@[i] as int),
            forall|k: int| 0 <= k < cols && !grid_column_full(g, cols, k) ==> valid@.contains(k as usize),
            d <= cols + 1,
            forall|i: int, j: int| 0 <= i < j < out@.len() ==> move_before(true, cols, #[trigger] out@[i] as int, #[trigger] out@[j] as int),
            forall|i: int| 0 <= i < out@.len() ==> #[trigger] out@[i] < cols && !grid_column_full(g, cols, out@[i] as int)
                && center_distance(cols, out@[i] as int) < d,
            forall|k: int| 0 <= k < cols && !grid_column_full(g, cols, k) && center_distance(cols, k) < d ==> out@.contains(k as usize),
        decreases cols + 1 - d,
    {
        if d <= center {
            let left = center - d;
            if valid_contains(&valid, left) {
                let ghost before = out@;
                out.push(left);
                proof {
                    assert(out@[out@.len() - 1] == left);
                    assert forall|k: int| 0 <= k < cols && !grid_column_full(g, cols, k) && center_distance(cols, k) < d
                        implies out@.contains(k as usize) by {
                        let j = choose|j: int| 0 <= j < before.len() && before[j] == k as usize;
                        assert(out@[j] == k as usize);
                    }
                }
            }
        }
        if d > 0 && center + d < board.cols() {
            let right = center + d;
            if valid_contains(&valid, right) {
                let ghost before = out@;
                out.push(right);
                proof {
                    assert(out@[out@.len() - 1] == right);
                    assert forall|k: int| 0 <= k < cols && !grid_column_full(g, cols, k) && (center_distance(cols, k) < d || k
                        == center - d) implies out@.contains(k as usize) by {
                        if before.contains(k as usize) {
                            let j = choose|j: int| 0 <= j < before.len() && before[j] == k as usize;
                            assert(out@[j] == k as usize);
                        }
                    }
                }
            }
        }
        proof {
            assert forall|k: int| 0 <= k < cols && !grid_column_full(g, cols, k) && center_distance(cols, k) < d + 1
                implies out@.contains(k as usize) by {
                if center_distance(cols, k) == d {
                    if k < center {
                        assert(k == center - d);
                    } else if k > center {
                        assert(k == center + d);
                    } else {
                        assert(k == center - d);
                    }
                }
            }
        }
        d = d + 1;
    }
    proof {
        assert forall|k: int| 0 <= k < cols && !grid_column_full(g, cols, k) implies out@.contains(k as usize) by {
            assert(center_distance(cols, k) < d);
        }
    }
    out
}

/// Checks whether a sorted list of columns contains `c`.
fn valid_contains(valid: &Vec<usize>, c: usize) -> (r: bool)
    ensures
        r == valid@.contains(c),
{
    let mut i: usize = 0;
    while i < valid.len()
        invariant
            i <= valid@.len(),
            forall|j: int| 0 <= j < i ==> valid@[j] != c,
        decreases valid@.len() - i,
    {
        if valid[i] == c {
            assert(valid@[i as int] == c);
            return true;
        }
        i = i + 1;
    }
    false
}

} // verus!

verus! {

/// Solves positions and reports the analysis.
pub struct PerfectPlayCalculator {
    solver: EndgameSolver,
}

/// The analysis of a position.
#[derive(Debug, Clone, Copy, PartialEq, Eq, Structural)]
pub struct PerfectPlayAnalysis {
    pub best_move: Option<usize>,
    pub result: EndgameResult,
    pub positions_evaluated: usize,
    pub search_time_ms: u64,
    pub depth_reached: usize,
}

/// The result of one move.
#[derive(Debug, Clone, Copy, PartialEq, Eq, Structural)]
pub struct MoveOutcome {
    pub column: usize,
    pub result: EndgameResult,
}

impl PerfectPlayCalculator {
    /// The solver's settings.
    pub closed spec fn spec_config(&self) -> EndgameConfig {
        self.solver.spec_config()
    }

    /// The calculator's invariant.
    pub closed spec fn wf(&self) -> bool {
        self.solver.wf()
    }

    /// The solver's hash keys.
    pub closed spec fn spec_keys(&self) -> ZobristKeys {
        self.solver.spec_keys()
    }

    /// A calculator with the given settings.
    pub fn new(config: EndgameConfig) -> (r: Self)
        ensures
            r.wf(),
            r.spec_config() == config,
    {
        PerfectPlayCalculator { solver: EndgameSolver::new(config) }
    }

    /// A calculator with the default settings.
    pub fn default() -> (r: Self)
        ensures
            r.wf(),
            r.spec_config() == spec_default_config(),
    {
        Self::new(EndgameConfig::default())
    }

    /// Solves a position and reports the move, result and counters.
    pub fn calculate(&mut self, board: &Board, player: Player) -> (r: PerfectPlayAnalysis)
        requires
            old(self).wf(),
            searchable_for(old(self).spec_config(), board),
        ensures
            final(self).wf(),
            final(self).spec_config() == old(self).spec_config(),
            board.spec_rows() * board.spec_cols() - board.spec_count(Cell::Empty) < old(self).spec_config().piece_threshold
                ==> r.best_move is None && r.result == EndgameResult::Draw,
            board.spec_rows() * board.spec_cols() - board.spec_count(Cell::Empty) >= old(self).spec_config().piece_threshold
                && !old(self).spec_config().iterative_deepening && old(self).spec_config().exact() ==> r.result
                == endgame_value(board@, board.spec_rows() as int, board.spec_cols() as int, player, old(self).spec_config().max_depth as nat),
            board.spec_rows() * board.spec_cols() - board.spec_count(Cell::Empty) >= old(self).spec_config().piece_threshold
                && old(self).spec_config().iterative_deepening && old(self).spec_config().exact() ==> (r.result
                == EndgameResult::Win <==> exists|d: nat|
                1 <= d <= old(self).spec_config().max_depth && #[trigger] depth_win(
                    board@,
                    board.spec_rows() as int,
                    board.spec_cols() as int,
                    player,
                    d,
                )),
            board.spec_rows() * board.spec_cols() - board.spec_count(Cell::Empty) >= old(self).spec_config().piece_threshold
                && old(self).spec_config().iterative_deepening && old(self).spec_config().exact()
                && old(self).spec_config().max_depth >= 1 && r.result != EndgameResult::Win ==> (r.result
                == EndgameResult::Draw <==> depth_draw(
                board@,
                board.spec_rows() as int,
                board.spec_cols() as int,
                player,
                old(self).spec_config().max_depth as nat,
            )),
            old(self).spec_config().iterative_deepening && old(self).spec_config().max_depth == 0 ==> r.result
                == EndgameResult::Draw,
            old(self).spec_config().iterative_deepening && r.result == EndgameResult::Win ==> r.best_move is Some,
            old(self).spec_config().iterative_deepening && old(self).spec_config().exact() && r.result
                == EndgameResult::Win ==> (r.best_move matches Some(m) && exists|d: nat|
                1 <= d <= old(self).spec_config().max_depth && #[trigger] winning_move(
                    board@,
                    board.spec_rows() as int,
                    board.spec_cols() as int,
                    player,
                    d,
                    m as int,
                )),
            !old(self).spec_config().iterative_deepening ==> r.best_move is None,
            board.spec_rows() * board.spec_cols() - board.spec_count(Cell::Empty) < old(self).spec_config().piece_threshold
                ==> r.positions_evaluated == 0 && r.search_time_ms == 0 && r.depth_reached == 0,
            r.depth_reached <= old(self).spec_config().max_depth,
            final(self).spec_keys() == old(self).spec_keys(),
            board.spec_rows() * board.spec_cols() - board.spec_count(Cell::Empty) >= old(self).spec_config().piece_threshold
                && old(self).spec_config().timeout_ms is None ==> solved_as(
                old(self).spec_keys(),
                old(self).spec_config(),
                board@,
                board.spec_rows() as int,
                board.spec_cols() as int,
                player,
                r.result,
            ),
    {
        let (best_move, result) = self.solver.solve(board, player);
        let stats = self.solver.stats();
        PerfectPlayAnalysis {
            best_move,
            result,
            positions_evaluated: stats.positions_evaluated,
            search_time_ms: stats.search_time_ms,
            depth_reached: stats.depth_reached,
        }
    }

    /// Solves the position after each move that can be made, left to right,
    /// and reports each move with its result for `player`.
    pub fn calculate_all_moves(&mut self, board: &Board, player: Player) -> (r: Vec<MoveOutcome>)
        requires
            old(self).wf(),
            searchable_for(old(self).spec_config(), board),
        ensures
            final(self).wf(),
            final(self).spec_config() == old(self).spec_config(),
            forall|i: int, j: int| 0 <= i < j < r@.len() ==> #[trigger] r@[i].column < #[trigger] r@[j].column,
            forall|i: int| 0 <= i < r@.len() ==> #[trigger] r@[i].column < board.spec_cols() && !board.spec_column_full(r@[i].column as int),
            forall|c: int| 0 <= c < board.spec_cols() && !board.spec_column_full(c) ==> exists|i: int| 0 <= i < r@.len() && #[trigger] r@[i].column == c,
            forall|i: int| 0 <= i < r@.len() ==> move_result_holds(
                old(self).spec_keys(),
                old(self).spec_config(),
                board@,
                board.spec_rows() as int,
                board.spec_cols() as int,
                (#[trigger] r@[i]).column as int,
                player,
                r@[i].result,
            ),
    {
        let mut outcomes: Vec<MoveOutcome> = Vec::new();
        let mut col: usize = 0;
        while col < board.cols()
            invariant
                self.wf(),
                self.spec_config() == old(self).spec_config(),
                self.spec_keys() == old(self).spec_keys(),
                searchable_for(self.spec_config(), board),
                col <= board.spec_cols(),
                forall|i: int, j: int| 0 <= i < j < outcomes@.len() ==> #[trigger] outcomes@[i].column < #[trigger] outcomes@[j].column,
                forall|i: int| 0 <= i < outcomes@.len() ==> #[trigger] outcomes@[i].column < col && !board.spec_column_full(outcomes@[i].column as int),
                forall|c: int| 0 <= c < col && !board.spec_column_full(c) ==> exists|i: int| 0 <= i < outcomes@.len() && #[trigger] outcomes@[i].column == c,
                forall|i: int| 0 <= i < outcomes@.len() ==> move_result_holds(
                    old(self).spec_keys(),
                    old(self).spec_config(),
                    board@,
                    board.spec_rows() as int,
                    board.spec_cols() as int,
                    (#[trigger] outcomes@[i]).column as int,
                    player,
                    outcomes@[i].result,
                ),
            decreases board.spec_cols() - col,
        {
            if can_play(board, col) {
                let new_board = play(board, col, player.cell());
                let opponent = player.opponent();
                let (_, result) = self.solver.solve(&new_board, opponent);
                proof {
                    assert(spec_negate(spec_negate(result)) == result);
                }
                let ghost before = outcomes@;
                outcomes.push(MoveOutcome { column: col, result: result.negate() });
                proof {
                    assert(outcomes@[outcomes@.len() - 1].column == col);
                    assert forall|c: int| 0 <= c < col + 1 && !board.spec_column_full(c) implies exists|i: int| 0 <= i < outcomes@.len() && #[trigger] outcomes@[i].column == c by {
                        if c < col {
                            let i = choose|i: int| 0 <= i < before.len() && #[trigger] before[i].column == c;
                            assert(outcomes@[i].column == c);
                        } else {
                            assert(outcomes@[outcomes@.len() - 1].column == c);
                        }
                    }
                }
            }
            col = col + 1;
        }
        outcomes
    }
}

/// What an exact solve tells of the move of `player` into `col` on grid
/// `g`: a position after it with fewer pieces than the settings' threshold
/// is a draw; otherwise, when the search runs at full depth without a
/// table or time limit, the move's result is the opposite of the
/// opponent's value of the position after it; when the search deepens step
/// by step without a table or time limit, the move loses exactly when the
/// opponent wins the position after it at some depth up to the maximum,
/// and otherwise draws exactly when the opponent's search at the maximum
/// depth finds a draw; with a maximum depth of 0 it is a draw.
pub open spec fn move_result_holds(
    keys: ZobristKeys,
    config: EndgameConfig,
    g: Seq<Seq<Cell>>,
    rows: int,
    cols: int,
    col: int,
    player: Player,
    result: EndgameResult,
) -> bool {
    let after = grid_drop(g, rows, col, spec_cell(player));
    let pieces = rows * cols - count_in_grid(after, Cell::Empty, rows);
    &&& pieces < config.piece_threshold ==> result == EndgameResult::Draw
    &&& pieces >= config.piece_threshold && !config.iterative_deepening && config.exact() ==> result == spec_negate(
        endgame_value(after, rows, cols, spec_opponent(player), config.max_depth as nat),
    )
    &&& pieces >= config.piece_threshold && config.iterative_deepening && config.exact() ==> (result
        == EndgameResult::Loss <==> exists|d: nat|
        1 <= d <= config.max_depth && #[trigger] depth_win(after, rows, cols, spec_opponent(player), d))
    &&& pieces >= config.piece_threshold && config.iterative_deepening && config.exact() && config.max_depth >= 1
        && result != EndgameResult::Loss ==> (result == EndgameResult::Draw <==> depth_draw(
        after,
        rows,
        cols,
        spec_opponent(player),
        config.max_depth as nat,
    ))
    &&& config.iterative_deepening && config.max_depth == 0 ==> result == EndgameResult::Draw
    &&& pieces >= config.piece_threshold && config.timeout_ms is None ==> solved_as(
        keys,
        config,
        after,
        rows,
        cols,
        spec_opponent(player),
        spec_negate(result),
    )
}

/// The number of moves still to play from `current` pieces up to `max`.
pub open spec fn plies_left(max: usize, current: usize) -> nat {
    if current >= max { 0 } else { (max - current) as nat }
}

/// Every move of `moves`, played in turn from the standard grid `g` with `p`
/// to move, goes into a column that can take a piece.
pub open spec fn legal_moves(g: Seq<Seq<Cell>>, p: Player, moves: Seq<int>) -> bool
    decreases moves.len(),
{
    moves.len() == 0 || (0 <= moves[0] < 7 && !grid_column_full(g, 7, moves[0]) && legal_moves(
        grid_drop(g, 6, moves[0], spec_cell(p)),
        spec_opponent(p),
        moves.drop_first(),
    ))
}

/// The grid and the player to move after `moves` are played in turn from
/// the standard grid `g` with `p` to move.
pub open spec fn after_moves(g: Seq<Seq<Cell>>, p: Player, moves: Seq<int>) -> (Seq<Seq<Cell>>, Player)
    decreases moves.len(),
{
    if moves.len() == 0 {
        (g, p)
    } else {
        after_moves(grid_drop(g, 6, moves[0], spec_cell(p)), spec_opponent(p), moves.drop_first())
    }
}

/// Grid `h` with `q` to move is reached from the standard grid `g` with `p`
/// to move by `k` moves in turn, each into a column that can take a piece.
pub open spec fn reached(g: Seq<Seq<Cell>>, p: Player, k: nat, h: Seq<Seq<Cell>>, q: Player) -> bool {
    exists|moves: Seq<int>| moves.len() == k && legal_moves(g, p, moves) && #[trigger] after_moves(g, p, moves) == (h, q)
}

/// The position (grid `h` of the standard size, `q` to move) is in the
/// database under its hash, or the database's count of positions has
/// reached its largest value.
pub open spec fn recorded(db: EndgameDatabase, keys: ZobristKeys, h: Seq<Seq<Cell>>, q: Player) -> bool {
    db.spec_positions().contains_key(grid_hash(&keys, h, 6, 7, q)) || db.spec_stats().total_positions == usize::MAX
}

/// A position reached by some moves is reached from the position after the
/// first of them.
proof fn lemma_reached_step(g: Seq<Seq<Cell>>, p: Player, k: nat, h: Seq<Seq<Cell>>, q: Player) -> (c: int)
    requires
        k > 0,
        reached(g, p, k, h, q),
    ensures
        0 <= c < 7,
        !grid_column_full(g, 7, c),
        reached(grid_drop(g, 6, c, spec_cell(p)), spec_opponent(p), (k - 1) as nat, h, q),
{
    let moves = choose|moves: Seq<int>| moves.len() == k && legal_moves(g, p, moves) && #[trigger] after_moves(g, p, moves) == (h, q);
    let rest = moves.drop_first();
    assert(after_moves(grid_drop(g, 6, moves[0], spec_cell(p)), spec_opponent(p), rest) == (h, q));
    moves[0]
}

/// With no moves left, only the position itself is reached.
proof fn lemma_reached_none(g: Seq<Seq<Cell>>, p: Player, h: Seq<Seq<Cell>>, q: Player)
    requires
        reached(g, p, 0, h, q),
    ensures
        h == g && q == p,
{
    let moves = choose|moves: Seq<int>| moves.len() == 0 && legal_moves(g, p, moves) && #[trigger] after_moves(g, p, moves) == (h, q);
    assert(after_moves(g, p, moves) == (g, p));
}

/// A recorded position stays recorded while the database only grows.
proof fn lemma_recorded_stays(a: EndgameDatabase, b: EndgameDatabase, keys: ZobristKeys, h: Seq<Seq<Cell>>, q: Player)
    requires
        recorded(a, keys, h, q),
        a.spec_positions().dom().subset_of(b.spec_positions().dom()),
        b.spec_stats().total_positions >= a.spec_stats().total_positions,
    ensures
        recorded(b, keys, h, q),
{
}

/// Counts of a database's positions.
#[derive(Debug, Clone, Copy, PartialEq, Eq, Structural)]
pub struct DatabaseStats {
    pub total_positions: usize,
    pub winning_positions: usize,
    pub losing_positions: usize,
    pub drawing_positions: usize,
}

impl Default for DatabaseStats {
    fn default() -> (r: Self)
        ensures
            r == (DatabaseStats { total_positions: 0, winning_positions: 0, losing_positions: 0, drawing_positions: 0 }),
    {
        DatabaseStats { total_positions: 0, winning_positions: 0, losing_positions: 0, drawing_positions: 0 }
    }
}

/// Solved positions by hash.
pub struct EndgameDatabase {
    positions: HashMap<u64, EndgameResult>,
    stats: DatabaseStats,
}

/// The results of the first `n` entries, a later entry for a hash replacing
/// an earlier one.
pub open spec fn entries_map(entries: Seq<(u64, EndgameResult)>, n: int) -> Map<u64, EndgameResult>
    decreases n,
{
    if n <= 0 {
        Map::empty()
    } else {
        entries_map(entries, n - 1).insert(entries[n - 1].0, entries[n - 1].1)
    }
}

/// How many of the first `n` entries have the result `r`.
pub open spec fn result_count(entries: Seq<(u64, EndgameResult)>, r: EndgameResult, n: int) -> nat
    decreases n,
{
    if n <= 0 {
        0
    } else {
        result_count(entries, r, n - 1) + if entries[n - 1].1 == r { 1nat } else { 0nat }
    }
}

/// No more of the first `n` entries have a result than there are entries.
proof fn lemma_result_count_bound(entries: Seq<(u64, EndgameResult)>, r: EndgameResult, n: int)
    requires
        n >= 0,
    ensures
        result_count(entries, r, n) <= n,
    decreases n,
{
    if n > 0 {
        lemma_result_count_bound(entries, r, n - 1);
    }
}

/// `e` lists the results of `positions`, each hash once: as many entries as
/// hashes, each entry a hash with its result, no hash twice, every hash
/// listed.
pub open spec fn lists_entries(positions: Map<u64, EndgameResult>, e: Seq<(u64, EndgameResult)>) -> bool {
    &&& e.len() == positions.dom().len()
    &&& forall|i: int| 0 <= i < e.len() ==> positions.contains_key(#[trigger] e[i].0) && positions[e[i].0] == e[i].1
    &&& forall|i: int, j: int| 0 <= i < e.len() && 0 <= j < e.len() && i != j ==> #[trigger] e[i].0 != #[trigger] e[j].0
    &&& forall|h: u64| #[trigger] positions.contains_key(h) ==> exists|i: int| 0 <= i < e.len() && #[trigger] e[i].0 == h
}

/// Loading the entries a database lists gives back its results.
pub proof fn lemma_reload_entries(positions: Map<u64, EndgameResult>, e: Seq<(u64, EndgameResult)>)
    requires
        lists_entries(positions, e),
    ensures
        entries_map(e, e.len() as int) == positions,
{
    lemma_entries_map(e, e.len() as int);
    assert forall|h: u64| #[trigger] entries_map(e, e.len() as int).contains_key(h) <==> positions.contains_key(h) by {
        if positions.contains_key(h) {
            let i = choose|i: int| 0 <= i < e.len() && #[trigger] e[i].0 == h;
            assert(e[i].0 == h);
        }
        if entries_map(e, e.len() as int).contains_key(h) {
            let i = choose|i: int| 0 <= i < e.len() && #[trigger] e[i].0 == h;
            assert(positions.contains_key(e[i].0));
        }
    }
    assert forall|h: u64| #[trigger] positions.contains_key(h) implies entries_map(e, e.len() as int)[h] == positions[h] by {
        let i = choose|i: int| 0 <= i < e.len() && #[trigger] e[i].0 == h;
        assert(entries_map(e, e.len() as int)[e[i].0] == e[i].1);
    }
    assert(entries_map(e, e.len() as int) =~= positions);
}

/// With no hash listed twice, the first `n` entries give exactly their
/// hashes, each with its result.
proof fn lemma_entries_map(e: Seq<(u64, EndgameResult)>, n: int)
    requires
        0 <= n <= e.len(),
        forall|i: int, j: int| 0 <= i < e.len() && 0 <= j < e.len() && i != j ==> #[trigger] e[i].0 != #[trigger] e[j].0,
    ensures
        forall|h: u64| #[trigger] entries_map(e, n).contains_key(h) <==> exists|i: int| 0 <= i < n && #[trigger] e[i].0 == h,
        forall|i: int| 0 <= i < n ==> entries_map(e, n)[#[trigger] e[i].0] == e[i].1,
    decreases n,
{
    if n > 0 {
        lemma_entries_map(e, n - 1);
        let m = entries_map(e, n - 1);
        assert forall|h: u64| #[trigger] entries_map(e, n).contains_key(h) <==> exists|i: int| 0 <= i < n && #[trigger] e[i].0 == h by {
            if h == e[n - 1].0 {
                assert(e[n - 1].0 == h);
            } else if m.contains_key(h) {
                let i = choose|i: int| 0 <= i < n - 1 && #[trigger] e[i].0 == h;
                assert(e[i].0 == h);
            }
        }
        assert forall|i: int| 0 <= i < n implies entries_map(e, n)[#[trigger] e[i].0] == e[i].1 by {
            if i < n - 1 {
                assert(e[i].0 != e[n - 1].0);
            }
        }
    }
}

/// The result recorded for a hash, if any.
pub open spec fn spec_lookup(positions: Map<u64, EndgameResult>, hash: u64) -> Option<EndgameResult> {
    if positions.contains_key(hash) {
        Some(positions[hash])
    } else {
        None
    }
}

/// After a result is recorded for a hash, looking the hash up gives that
/// result, and looking up any other hash gives what it gave before.
pub proof fn lemma_lookup_after_add(positions: Map<u64, EndgameResult>, hash: u64, result: EndgameResult, other: u64)
    ensures
        spec_lookup(positions.insert(hash, result), hash) == Some(result),
        other != hash ==> spec_lookup(positions.insert(hash, result), other) == spec_lookup(positions, other),
{
}

impl EndgameDatabase {
    /// The results by hash.
    pub closed spec fn spec_positions(&self) -> Map<u64, EndgameResult> {
        self.positions@
    }

    /// The counts.
    pub closed spec fn spec_stats(&self) -> DatabaseStats {
        self.stats
    }

    /// The counts add up: every addition is counted once under its result.
    pub closed spec fn wf(&self) -> bool {
        self.stats.winning_positions + self.stats.losing_positions + self.stats.drawing_positions
            == self.stats.total_positions
    }

    /// An empty database.
    pub fn new() -> (r: Self)
        ensures
            r.wf(),
            r.spec_positions() == Map::<u64, EndgameResult>::empty(),
            r.spec_stats() == (DatabaseStats { total_positions: 0, winning_positions: 0, losing_positions: 0, drawing_positions: 0 }),
    {
        EndgameDatabase { positions: HashMap::new(), stats: DatabaseStats::default() }
    }

    /// Records a result for a hash (replacing any earlier one) and counts it.
    pub fn add_position(&mut self, hash: u64, result: EndgameResult)
        requires
            old(self).wf(),
            old(self).spec_stats().total_positions < usize::MAX,
        ensures
            final(self).wf(),
            final(self).spec_positions() == old(self).spec_positions().insert(hash, result),
            final(self).spec_stats().total_positions == old(self).spec_stats().total_positions + 1,
            final(self).spec_stats().winning_positions == old(self).spec_stats().winning_positions
                + (if result == EndgameResult::Win { 1int } else { 0int }),
            final(self).spec_stats().losing_positions == old(self).spec_stats().losing_positions
                + (if result == EndgameResult::Loss { 1int } else { 0int }),
            final(self).spec_stats().drawing_positions == old(self).spec_stats().drawing_positions
                + (if result == EndgameResult::Draw { 1int } else { 0int }),
    {
        broadcast use vstd::std_specs::hash::group_hash_axioms;
        self.positions.insert(hash, result);
        match result {
            EndgameResult::Win => self.stats.winning_positions = self.stats.winning_positions + 1,
            EndgameResult::Loss => self.stats.losing_positions = self.stats.losing_positions + 1,
            EndgameResult::Draw => self.stats.drawing_positions = self.stats.drawing_positions + 1,
        }
        self.stats.total_positions = self.stats.total_positions + 1;
    }

    /// The result recorded for a hash.
    pub fn lookup(&self, hash: u64) -> (r: Option<EndgameResult>)
        ensures
            r == spec_lookup(self.spec_positions(), hash),
    {
        broadcast use vstd::std_specs::hash::group_hash_axioms;
        match self.positions.get(&hash) {
            Some(r) => Some(*r),
            None => None,
        }
    }

    /// The counts.
    pub fn stats(&self) -> (r: &DatabaseStats)
        ensures
            *r == self.spec_stats(),
    {
        &self.stats
    }

    /// Empties the database.
    pub fn clear(&mut self)
        ensures
            final(self).wf(),
            final(self).spec_positions() == Map::<u64, EndgameResult>::empty(),
            final(self).spec_stats() == (DatabaseStats { total_positions: 0, winning_positions: 0, losing_positions: 0, drawing_positions: 0 }),
    {
        self.positions.clear();
        self.stats = DatabaseStats::default();
    }

    /// Replaces the contents with the given results (a later result for a
    /// hash replacing an earlier one) and counts every entry by its result.
    pub fn load_entries(&mut self, entries: &[(u64, EndgameResult)])
        requires
            entries@.len() < usize::MAX,
        ensures
            final(self).wf(),
            final(self).spec_positions() == entries_map(entries@, entries@.len() as int),
            final(self).spec_stats() == (DatabaseStats {
                total_positions: entries@.len() as usize,
                winning_positions: result_count(entries@, EndgameResult::Win, entries@.len() as int) as usize,
                losing_positions: result_count(entries@, EndgameResult::Loss, entries@.len() as int) as usize,
                drawing_positions: result_count(entries@, EndgameResult::Draw, entries@.len() as int) as usize,
            }),
    {
        self.clear();
        let mut i: usize = 0;
        while i < entries.len()
            invariant
                self.wf(),
                i <= entries@.len(),
                entries@.len() < usize::MAX,
                self.spec_positions() == entries_map(entries@, i as int),
                self.spec_stats() == (DatabaseStats {
                    total_positions: i,
                    winning_positions: result_count(entries@, EndgameResult::Win, i as int) as usize,
                    losing_positions: result_count(entries@, EndgameResult::Loss, i as int) as usize,
                    drawing_positions: result_count(entries@, EndgameResult::Draw, i as int) as usize,
                }),
            decreases entries@.len() - i,
        {
            proof {
                lemma_result_count_bound(entries@, EndgameResult::Win, i as int);
                lemma_result_count_bound(entries@, EndgameResult::Loss, i as int);
                lemma_result_count_bound(entries@, EndgameResult::Draw, i as int);
            }
            let (hash, result) = entries[i];
            self.add_position(hash, result);
            i = i + 1;
        }
    }

    /// The recorded results, each hash once, in the map's own order.
    pub fn entries(&self) -> (r: Vec<(u64, EndgameResult)>)
        ensures
            lists_entries(self.spec_positions(), r@),
    {
        broadcast use vstd::std_specs::hash::group_hash_axioms;
        let mut out: Vec<(u64, EndgameResult)> = Vec::new();
        let keys = self.keys_of();
        let mut i: usize = 0;
        while i < keys.len()
            invariant
                i <= keys@.len(),
                keys@.to_set() == self.spec_positions().dom(),
                keys@.no_duplicates(),
                keys@.len() == self.spec_positions().dom().len(),
                out@.len() == i,
                forall|k: int| 0 <= k < i ==> (#[trigger] out@[k]).0 == keys@[k],
                forall|k: int| 0 <= k < out@.len() ==> self.spec_positions().contains_key(#[trigger] out@[k].0)
                    && self.spec_positions()[out@[k].0] == out@[k].1,
            decreases keys@.len() - i,
        {
            let h = keys[i];
            proof {
                assert(keys@.to_set().contains(h));
            }
            match self.positions.get(&h) {
                Some(r) => {
                    out.push((h, *r));
                },
                None => {
                    proof {
                        assert(false);
                    }
                },
            }
            i = i + 1;
        }
        proof {
            assert forall|a: int, b: int| 0 <= a < out@.len() && 0 <= b < out@.len() && a != b implies #[trigger] out@[a].0 != #[trigger] out@[b].0 by {
                assert(out@[a].0 == keys@[a]);
                assert(out@[b].0 == keys@[b]);
            }
            assert forall|h: u64| #[trigger] self.spec_positions().contains_key(h) implies exists|k: int| 0 <= k < out@.len() && #[trigger] out@[k].0 == h by {
                assert(keys@.to_set().contains(h));
                let k = choose|k: int| 0 <= k < keys@.len() && keys@[k] == h;
                assert(out@[k].0 == h);
            }
        }
        out
    }

    /// The hashes recorded, each once, in the map's own order.
    fn keys_of(&self) -> (r: Vec<u64>)
        ensures
            r@.to_set() == self.spec_positions().dom(),
            r@.no_duplicates(),
            r@.len() == self.spec_positions().dom().len(),
    {
        broadcast use vstd::std_specs::hash::group_hash_axioms;
        let mut out: Vec<u64> = Vec::new();
        let keys = self.positions.keys();
        proof {
            vstd::std_specs::hash::axiom_spec_keys_iter(&self.positions);
        }
        let ghost dom = self.positions@.dom();
        for h in it: keys
            invariant
                dom == self.positions@.dom(),
                it.seq().unref().to_set() == dom,
                it.seq().no_duplicates(),
                it.seq().len() == dom.len(),
                out@ == it.seq().unref().take(it.index() as int),
                out@.no_duplicates(),
                forall|k: u64| #[trigger] dom.contains(k) ==> out@.contains(k) || (exists|j: int|
                    it.index() <= j < it.seq().len() && #[trigger] it.seq().unref()[j] == k),
                forall|k: u64| out@.contains(k) ==> #[trigger] dom.contains(k),
        {
            let ghost i = it.index() as int;
            let ghost all = it.seq().unref();
            proof {
                assert(it.seq()[i] == h);
                assert(all[i] == *h);
                assert(!out@.contains(*h)) by {
                    if out@.contains(*h) {
                        let j = choose|j: int| 0 <= j < out@.len() && out@[j] == *h;
                        assert(it.seq()[j] == it.seq()[i]);
                    }
                }
                assert(all.to_set().contains(*h));
            }
            out.push(*h);
            proof {
                assert(all.take(i + 1) =~= all.take(i).push(*h));
                assert forall|k: u64| #[trigger] dom.contains(k) implies out@.contains(k) || (exists|j: int|
                    i + 1 <= j < all.len() && #[trigger] all[j] == k) by {
                    if exists|j: int| i <= j < all.len() && #[trigger] all[j] == k {
                        let j = choose|j: int| i <= j < all.len() && #[trigger] all[j] == k;
                        if j == i {
                            assert(out@[i] == k);
                        } else {
                            assert(all[j] == k);
                        }
                    } else {
                        let j = choose|j: int| 0 <= j < out@.len() - 1 && out@[j] == k;
                        assert(out@[j] == k);
                    }
                }
            }
        }
        proof {
            assert(out@.to_set() =~= dom);
        }
        out
    }
}

impl Default for EndgameDatabase {
    fn default() -> (r: Self)
        ensures
            r.wf(),
            r.spec_positions() == Map::<u64, EndgameResult>::empty(),
    {
        Self::new()
    }
}

/// Builds a database by solving every position reachable in a number of
/// moves from the empty board.
pub struct EndgameDatabaseBuilder {
    solver: EndgameSolver,
    database: EndgameDatabase,
    zobrist: ZobristKeys,
}

impl EndgameDatabaseBuilder {
    /// The builder's invariant.
    pub closed spec fn wf(&self) -> bool {
        self.solver.wf() && self.database.wf() && self.zobrist.wf()
    }

    /// The settings of the solver used.
    pub closed spec fn spec_config(&self) -> EndgameConfig {
        self.solver.spec_config()
    }

    /// A builder with the given settings and an empty database.
    pub fn new(config: EndgameConfig) -> (r: Self)
        ensures
            r.wf(),
            r.spec_config() == config,
            r.spec_database().spec_positions() == Map::<u64, EndgameResult>::empty(),
    {
        EndgameDatabaseBuilder { solver: EndgameSolver::new(config), database: EndgameDatabase::new(), zobrist: ZobristKeys::new() }
    }

    /// The database built so far.
    pub closed spec fn spec_database(&self) -> EndgameDatabase {
        self.database
    }

    /// The keys positions are recorded under.
    pub closed spec fn spec_keys(&self) -> ZobristKeys {
        self.zobrist
    }

    /// Solves every position reached by `max_pieces` moves from the empty
    /// 6x7 board, player 1 first, and records each under its hash (while the
    /// count of recorded positions is below its largest value).
    pub fn build(&mut self, max_pieces: usize) -> (r: &EndgameDatabase)
        requires
            old(self).wf(),
        ensures
            final(self).wf(),
            *r == final(self).spec_database(),
            final(self).spec_config() == old(self).spec_config(),
            old(self).spec_database().spec_positions().dom().subset_of(final(self).spec_database().spec_positions().dom()),
            forall|h: Seq<Seq<Cell>>, q: Player|
                #[trigger] reached(empty_grid(6, 7), Player::Player1, max_pieces as nat, h, q) ==> recorded(
                    final(self).spec_database(),
                    final(self).spec_keys(),
                    h,
                    q,
                ),
    {
        let board = Board::new(6, 7);
        proof {
            assert forall|i: int| 0 <= i < 6 implies #[trigger] board@[i] =~= empty_grid(6, 7)[i] by {
                assert forall|j: int| 0 <= j < 7 implies board@[i][j] == Cell::Empty by {
                    assert(board.at(i, j) == Cell::Empty);
                }
            }
            assert(board@ =~= empty_grid(6, 7));
        }
        self.generate_positions(&board, Player::Player1, max_pieces, 0);
        proof {
            assert(plies_left(max_pieces, 0) == max_pieces as nat);
            assert forall|h: Seq<Seq<Cell>>, q: Player| #[trigger] reached(
                empty_grid(6, 7),
                Player::Player1,
                max_pieces as nat,
                h,
                q,
            ) implies recorded(self.spec_database(), self.spec_keys(), h, q) by {
                assert(reached(board@, Player::Player1, plies_left(max_pieces, 0), h, q));
            }
        }
        &self.database
    }

    /// Plays every move in turn until `max_pieces` pieces are placed, then
    /// solves and records the position under its hash, as long as the count
    /// of recorded positions has not reached its largest value.
    fn generate_positions(&mut self, board: &Board, player: Player, max_pieces: usize, current_pieces: usize)
        requires
            old(self).wf(),
            board.wf(),
            board.spec_rows() == 6,
            board.spec_cols() == 7,
        ensures
            final(self).wf(),
            final(self).spec_config() == old(self).spec_config(),
            final(self).spec_keys() == old(self).spec_keys(),
            old(self).spec_database().spec_positions().dom().subset_of(final(self).spec_database().spec_positions().dom()),
            final(self).spec_database().spec_stats().total_positions >= old(self).spec_database().spec_stats().total_positions,
            forall|h: Seq<Seq<Cell>>, q: Player|
                #[trigger] reached(board@, player, plies_left(max_pieces, current_pieces), h, q) ==> recorded(
                    final(self).spec_database(),
                    final(self).spec_keys(),
                    h,
                    q,
                ),
        decreases max_pieces - current_pieces,
    {
        if current_pieces >= max_pieces {
            let (_, result) = self.solver.solve(board, player);
            let hash = self.zobrist.hash(board, player);
            if self.database.stats.total_positions < usize::MAX {
                self.database.add_position(hash, result);
            }
            proof {
                assert forall|h: Seq<Seq<Cell>>, q: Player| #[trigger] reached(
                    board@,
                    player,
                    plies_left(max_pieces, current_pieces),
                    h,
                    q,
                ) implies recorded(self.spec_database(), self.spec_keys(), h, q) by {
                    lemma_reached_none(board@, player, h, q);
                }
            }
            return;
        }
        let ghost g = board@;
        let ghost k = plies_left(max_pieces, current_pieces);
        let ghost start = *self;
        let mut col: usize = 0;
        while col < board.cols()
            invariant
                self.wf(),
                self.spec_config() == old(self).spec_config(),
                self.spec_keys() == old(self).spec_keys(),
                old(self).spec_database().spec_positions().dom().subset_of(self.spec_database().spec_positions().dom()),
                self.spec_database().spec_stats().total_positions >= old(self).spec_database().spec_stats().total_positions,
                board.wf(),
                board.spec_rows() == 6,
                board.spec_cols() == 7,
                g == board@,
                current_pieces < max_pieces,
                k == plies_left(max_pieces, current_pieces),
                k >= 1,
                col <= 7,
                forall|c: int, h: Seq<Seq<Cell>>, q: Player|
                    0 <= c < col && !grid_column_full(g, 7, c) && #[trigger] reached(
                        grid_drop(g, 6, c, spec_cell(player)),
                        spec_opponent(player),
                        (k - 1) as nat,
                        h,
                        q,
                    ) ==> recorded(self.spec_database(), self.spec_keys(), h, q),
            decreases board.spec_cols() - col,
        {
            let ghost before = *self;
            if can_play(board, col) {
                let new_board = play(board, col, player.cell());
                let opponent = player.opponent();
                assert(plies_left(max_pieces, (current_pieces + 1) as usize) == k - 1);
                self.generate_positions(&new_board, opponent, max_pieces, current_pieces + 1);
            }
            proof {
                assert forall|c: int, h: Seq<Seq<Cell>>, q: Player|
                    0 <= c < col && !grid_column_full(g, 7, c) && #[trigger] reached(
                        grid_drop(g, 6, c, spec_cell(player)),
                        spec_opponent(player),
                        (k - 1) as nat,
                        h,
                        q,
                    ) implies recorded(self.spec_database(), self.spec_keys(), h, q) by {
                    lemma_recorded_stays(before.spec_database(), self.spec_database(), self.spec_keys(), h, q);
                }
            }
            col = col + 1;
        }
        proof {
            assert forall|h: Seq<Seq<Cell>>, q: Player| #[trigger] reached(g, player, k, h, q) implies recorded(
                self.spec_database(),
                self.spec_keys(),
                h,
                q,
            ) by {
                let c = lemma_reached_step(g, player, k, h, q);
            }
        }
    }

    /// The database built so far.
    pub fn database(&self) -> (r: &EndgameDatabase)
        ensures
            *r == self.spec_database(),
    {
        &self.database
    }
}

} // verus!
