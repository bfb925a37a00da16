//! Static evaluation of positions for the search-based players.

use vstd::prelude::*;
use crate::board::{Board, grid_count_bidirectional, grid_has_win};
use crate::cell::Cell;
use crate::coordinates::{Direction, Position, lemma_opposite_negates};
use crate::game_tree::{grid_landing, grid_drop, drop_piece};
use crate::player::{Player, spec_cell, spec_opponent};

verus! {

/// The largest board side the evaluators accept. Their sums are taken in
/// `i32`, and the advanced evaluator's worst case grows with the cube of
/// the side (each piece's blocking score grows with the length of its
/// lines); up to this side it stays below `EVAL_BOUND`, which leaves the
/// searches room for their windows.
pub const EVAL_MAX_DIM: usize = 100;

/// No evaluation is larger than this in magnitude.
pub const EVAL_BOUND: i32 = 1_000_000_000;

/// The number of connected cells in a line that counts as a win for the
/// evaluators.
pub const EVAL_LINE: usize = 4;

/// An evaluation held to the range that every evaluator's scores lie in
/// (`BoardEvaluator::evaluate` returns at most `EVAL_BOUND` in magnitude).
pub open spec fn in_eval_range(v: int) -> int {
    if v < -EVAL_BOUND { -EVAL_BOUND as int } else if v > EVAL_BOUND { EVAL_BOUND as int } else { v }
}

/// A board the evaluators accept.
pub open spec fn evaluable(board: &Board) -> bool {
    board.wf() && board.spec_rows() <= EVAL_MAX_DIM && board.spec_cols() <= EVAL_MAX_DIM
}

/// Scores positions from one player's point of view.
pub trait BoardEvaluator {
    /// The score of a grid for `player`.
    spec fn spec_evaluate(&self, g: Seq<Seq<Cell>>, rows: int, cols: int, player: Player) -> int;

    /// Scores a board for `player`.
    fn evaluate(&self, board: &Board, player: Player) -> (r: i32)
        requires
            evaluable(board),
        ensures
            r == self.spec_evaluate(board@, board.spec_rows() as int, board.spec_cols() as int, player),
            -EVAL_BOUND <= r <= EVAL_BOUND,
    ;
}

/// The eight directions in the order `Direction::all` lists them.
pub open spec fn dir_at(k: int) -> Direction {
    if k == 0 {
        Direction::North
    } else if k == 1 {
        Direction::Northeast
    } else if k == 2 {
        Direction::East
    } else if k == 3 {
        Direction::Southeast
    } else if k == 4 {
        Direction::South
    } else if k == 5 {
        Direction::Southwest
    } else if k == 6 {
        Direction::West
    } else {
        Direction::Northwest
    }
}

/// The length of the run through (`r`, `c`) along direction `k`, not
/// counting (`r`, `c`).
pub open spec fn line_count(g: Seq<Seq<Cell>>, rows: int, cols: int, r: int, c: int, k: int, cell: Cell) -> int {
    grid_count_bidirectional(g, rows, cols, Position { row: r as usize, col: c as usize }, dir_at(k), cell) as int
}

/// `f(0) + ... + f(n - 1)`.
pub open spec fn sum_upto(f: spec_fn(int) -> int, n: int) -> int
    decreases n,
{
    if n <= 0 {
        0
    } else {
        sum_upto(f, n - 1) + f(n - 1)
    }
}

/// The sum of `f` over the first `c` cells of row `r`.
pub open spec fn row_sum(f: spec_fn(int, int) -> int, r: int, c: int) -> int
    decreases c,
{
    if c <= 0 {
        0
    } else {
        row_sum(f, r, c - 1) + f(r, c - 1)
    }
}

/// The sum of `f` over the first `r` rows of `cols` cells.
pub open spec fn grid_sum(f: spec_fn(int, int) -> int, cols: int, r: int) -> int
    decreases r,
{
    if r <= 0 {
        0
    } else {
        grid_sum(f, cols, r - 1) + row_sum(f, r - 1, cols)
    }
}

/// The score of a line of the simple evaluator: 1, 10 and 100 for runs of
/// one, two and three more pieces.
pub open spec fn simple_line(n: int) -> int {
    if n == 1 {
        1
    } else if n == 2 {
        10
    } else if n == 3 {
        100
    } else {
        0
    }
}

/// The simple evaluator's score of the lines through a cell.
pub open spec fn simple_position(g: Seq<Seq<Cell>>, rows: int, cols: int, r: int, c: int, cell: Cell) -> int {
    sum_upto(|k: int| simple_line(line_count(g, rows, cols, r, c, k, cell)), 8)
}

/// The simple evaluator's score of one cell for `p`: its lines when it is
/// `p`'s piece, minus the opponent's lines when it is theirs.
pub open spec fn simple_cell(g: Seq<Seq<Cell>>, rows: int, cols: int, p: Player, r: int, c: int) -> int {
    if g[r][c] == spec_cell(p) {
        simple_position(g, rows, cols, r, c, spec_cell(p))
    } else if g[r][c] == spec_cell(spec_opponent(p)) {
        -simple_position(g, rows, cols, r, c, spec_cell(spec_opponent(p)))
    } else {
        0
    }
}

/// The simple evaluator's score: 10000 for a win of `p`, -10000 for a win of
/// the opponent, else the sum of the cells' scores.
pub open spec fn simple_value(g: Seq<Seq<Cell>>, rows: int, cols: int, p: Player) -> int {
    if grid_has_win(g, rows, cols, spec_cell(p), EVAL_LINE as int) {
        10000
    } else if grid_has_win(g, rows, cols, spec_cell(spec_opponent(p)), EVAL_LINE as int) {
        -10000
    } else {
        grid_sum(|r: int, c: int| simple_cell(g, rows, cols, p, r, c), cols, rows)
    }
}

/// A sum of terms that are all at least 0 is at least 0.
pub proof fn lemma_sum_upto_nonneg(f: spec_fn(int) -> int, n: int)
    requires
        forall|k: int| 0 <= k < n ==> #[trigger] f(k) >= 0,
    ensures
        sum_upto(f, n) >= 0,
    decreases n,
{
    if n > 0 {
        lemma_sum_upto_nonneg(f, n - 1);
    }
}

/// A row sum of terms that are all at most 0 is at most 0.
proof fn lemma_row_sum_nonpos(f: spec_fn(int, int) -> int, r: int, n: int)
    requires
        forall|c: int| 0 <= c < n ==> #[trigger] f(r, c) <= 0,
    ensures
        row_sum(f, r, n) <= 0,
    decreases n,
{
    if n > 0 {
        lemma_row_sum_nonpos(f, r, n - 1);
    }
}

/// A grid sum of terms that are all at most 0 is at most 0.
proof fn lemma_grid_sum_nonpos(f: spec_fn(int, int) -> int, cols: int, n: int)
    requires
        forall|r: int, c: int| 0 <= r < n && 0 <= c < cols ==> #[trigger] f(r, c) <= 0,
    ensures
        grid_sum(f, cols, n) <= 0,
    decreases n,
{
    if n > 0 {
        lemma_grid_sum_nonpos(f, cols, n - 1);
        assert forall|c: int| 0 <= c < cols implies #[trigger] f(n - 1, c) <= 0 by {}
        lemma_row_sum_nonpos(f, n - 1, cols);
    }
}

/// Row sums of opposite terms are opposite.
proof fn lemma_row_sum_neg(f: spec_fn(int, int) -> int, h: spec_fn(int, int) -> int, r: int, n: int)
    requires
        forall|c: int| 0 <= c < n ==> #[trigger] f(r, c) == -h(r, c),
    ensures
        row_sum(f, r, n) == -row_sum(h, r, n),
    decreases n,
{
    if n > 0 {
        lemma_row_sum_neg(f, h, r, n - 1);
    }
}

/// Grid sums of opposite terms are opposite.
proof fn lemma_grid_sum_neg(f: spec_fn(int, int) -> int, h: spec_fn(int, int) -> int, cols: int, n: int)
    requires
        forall|r: int, c: int| 0 <= r < n && 0 <= c < cols ==> #[trigger] f(r, c) == -h(r, c),
    ensures
        grid_sum(f, cols, n) == -grid_sum(h, cols, n),
    decreases n,
{
    if n > 0 {
        lemma_grid_sum_neg(f, h, cols, n - 1);
        assert forall|c: int| 0 <= c < cols implies #[trigger] f(n - 1, c) == -h(n - 1, c) by {}
        lemma_row_sum_neg(f, h, n - 1, cols);
    }
}

/// The lines through a cell never score below 0.
pub proof fn lemma_simple_position_nonneg(g: Seq<Seq<Cell>>, rows: int, cols: int, r: int, c: int, cell: Cell)
    ensures
        simple_position(g, rows, cols, r, c, cell) >= 0,
{
    let f = |k: int| simple_line(line_count(g, rows, cols, r, c, k, cell));
    assert forall|k: int| 0 <= k < 8 implies #[trigger] f(k) >= 0 by {}
    lemma_sum_upto_nonneg(f, 8);
}

/// With no winning line on the board, the simple evaluator's score for one
/// player is the opposite of its score for the other: each player's pieces
/// count for that player and against the other.
pub proof fn lemma_simple_opposite(g: Seq<Seq<Cell>>, rows: int, cols: int, p: Player)
    requires
        !grid_has_win(g, rows, cols, Cell::Player1, EVAL_LINE as int),
        !grid_has_win(g, rows, cols, Cell::Player2, EVAL_LINE as int),
    ensures
        simple_value(g, rows, cols, p) == -simple_value(g, rows, cols, spec_opponent(p)),
{
    let f = |r: int, c: int| simple_cell(g, rows, cols, p, r, c);
    let h = |r: int, c: int| simple_cell(g, rows, cols, spec_opponent(p), r, c);
    assert(spec_opponent(spec_opponent(p)) == p);
    assert(spec_cell(p) != spec_cell(spec_opponent(p)));
    assert(spec_cell(p) == Cell::Player1 || spec_cell(p) == Cell::Player2);
    assert forall|r: int, c: int| 0 <= r < rows && 0 <= c < cols implies #[trigger] f(r, c) == -h(r, c) by {}
    lemma_grid_sum_neg(f, h, cols, rows);
}

/// With no winning line on the board, a player without a piece on it scores
/// at most 0: the opponent's pieces only lower the score.
pub proof fn lemma_simple_no_own_pieces(g: Seq<Seq<Cell>>, rows: int, cols: int, p: Player)
    requires
        !grid_has_win(g, rows, cols, Cell::Player1, EVAL_LINE as int),
        !grid_has_win(g, rows, cols, Cell::Player2, EVAL_LINE as int),
        forall|r: int, c: int| 0 <= r < rows && 0 <= c < cols ==> #[trigger] g[r][c] != spec_cell(p),
    ensures
        simple_value(g, rows, cols, p) <= 0,
{
    let f = |r: int, c: int| simple_cell(g, rows, cols, p, r, c);
    assert(spec_cell(p) == Cell::Player1 || spec_cell(p) == Cell::Player2);
    assert(spec_cell(spec_opponent(p)) == Cell::Player1 || spec_cell(spec_opponent(p)) == Cell::Player2);
    assert forall|r: int, c: int| 0 <= r < rows && 0 <= c < cols implies #[trigger] f(r, c) <= 0 by {
        assert(g[r][c] != spec_cell(p));
        lemma_simple_position_nonneg(g, rows, cols, r, c, spec_cell(spec_opponent(p)));
    }
    lemma_grid_sum_nonpos(f, cols, rows);
}

/// Scores each piece by the runs through it.
#[derive(Clone, Copy, Debug)]
pub struct SimpleEvaluator;

impl BoardEvaluator for SimpleEvaluator {
    open spec fn spec_evaluate(&self, g: Seq<Seq<Cell>>, rows: int, cols: int, player: Player) -> int {
        simple_value(g, rows, cols, player)
    }

    fn evaluate(&self, board: &Board, player: Player) -> (r: i32) {
        if board.has_winning_line(player.cell(), EVAL_LINE) {
            return 10000;
        }
        let opponent = player.opponent();
        if board.has_winning_line(opponent.cell(), EVAL_LINE) {
            return -10000;
        }
        let ghost g = board@;
        let ghost rows = board.spec_rows() as int;
        let ghost cols = board.spec_cols() as int;
        let ghost f = |r: int, c: int| simple_cell(g, rows, cols, player, r, c);
        let mut score: i32 = 0;
        let mut row: usize = 0;
        while row < board.rows()
            invariant
                evaluable(board),
                g == board@,
                rows == board.spec_rows(),
                cols == board.spec_cols(),
                rows <= 100,
                cols <= 100,
                opponent == spec_opponent(player),
                f == (|r: int, c: int| simple_cell(g, rows, cols, player, r, c)),
                row <= rows,
                score == grid_sum(f, cols, row as int),
                -80000 * row <= score <= 80000 * row,
            decreases rows - row,
        {
            let ghost start = score;
            let mut col: usize = 0;
            while col < board.cols()
                invariant
                    evaluable(board),
                    g == board@,
                    rows == board.spec_rows(),
                    cols == board.spec_cols(),
                    rows <= 100,
                    cols <= 100,
                    opponent == spec_opponent(player),
                    f == (|r: int, c: int| simple_cell(g, rows, cols, player, r, c)),
                    row < rows,
                    col <= cols,
                    start == grid_sum(f, cols, row as int),
                    -80000 * row <= start <= 80000 * row,
                    score == start + row_sum(f, row as int, col as int),
                    -800 * col <= score - start <= 800 * col,
                decreases cols - col,
            {
                match board.get_at(row, col) {
                    Some(cell) => {
                        if cell == player.cell() {
                            let s = simple_position_score(board, row, col, player.cell());
                            score = score + s;
                        } else if cell == opponent.cell() {
                            let s = simple_position_score(board, row, col, opponent.cell());
                            score = score - s;
                        }
                    },
                    None => {},
                }
                col = col + 1;
            }
            row = row + 1;
        }
        score
    }
}

/// Checks the direction table: `Direction::all` lists the directions as
/// `dir_at` numbers them.
proof fn lemma_dirs(dirs: [Direction; 8])
    requires
        dirs@ == seq![
            Direction::North,
            Direction::Northeast,
            Direction::East,
            Direction::Southeast,
            Direction::South,
            Direction::Southwest,
            Direction::West,
            Direction::Northwest,
        ],
    ensures
        forall|k: int| 0 <= k < 8 ==> #[trigger] dirs@[k] == dir_at(k),
{
}

/// The run length along direction `k` through an on-board cell.
fn run_through(board: &Board, row: usize, col: usize, d: Direction, cell: Cell) -> (r: usize)
    requires
        board.wf(),
        row < board.spec_rows(),
        col < board.spec_cols(),
    ensures
        r == grid_count_bidirectional(board@, board.spec_rows() as int, board.spec_cols() as int, Position { row, col }, d, cell),
        r <= 2 * (board.spec_rows() + board.spec_cols()),
{
    proof {
        lemma_opposite_negates(d);
    }
    let pos = Position::new(row, col);
    board.count_consecutive_bidirectional(&pos, d, cell)
}

/// The simple evaluator's score of the lines through a cell.
fn simple_position_score(board: &Board, row: usize, col: usize, cell: Cell) -> (r: i32)
    requires
        evaluable(board),
        row < board.spec_rows(),
        col < board.spec_cols(),
    ensures
        r == simple_position(board@, board.spec_rows() as int, board.spec_cols() as int, row as int, col as int, cell),
        0 <= r <= 800,
{
    let ghost g = board@;
    let ghost rows = board.spec_rows() as int;
    let ghost cols = board.spec_cols() as int;
    let ghost f = |k: int| simple_line(line_count(g, rows, cols, row as int, col as int, k, cell));
    let dirs = Direction::all();
    proof {
        lemma_dirs(dirs);
    }
    let mut score: i32 = 0;
    let mut k: usize = 0;
    while k < 8
        invariant
            evaluable(board),
            g == board@,
            rows == board.spec_rows(),
            cols == board.spec_cols(),
            row < rows,
            col < cols,
            forall|j: int| 0 <= j < 8 ==> #[trigger] dirs@[j] == dir_at(j),
            f == (|k: int| simple_line(line_count(g, rows, cols, row as int, col as int, k, cell))),
            k <= 8,
            score == sum_upto(f, k as int),
            0 <= score <= 100 * k,
        decreases 8 - k,
    {
        let count = run_through(board, row, col, dirs[k], cell);
        let add: i32 = if count == 1 {
            1
        } else if count == 2 {
            10
        } else if count == 3 {
            100
        } else {
            0
        };
        assert(add == f(k as int));
        score = score + add;
        k = k + 1;
    }
    score
}

/// The advanced evaluator's centre score for row `row`: the weight
/// `10 * (cols - |cols / 2 - row|)` for `p`'s piece in the centre column of
/// that row, its negation for the opponent's.
pub open spec fn center_term(g: Seq<Seq<Cell>>, cols: int, p: Player, row: int) -> int {
    let cc = cols / 2;
    let d = if cc >= row { cc - row } else { row - cc };
    let w = 10 * (cols - d);
    if cc < cols && g[row][cc] == spec_cell(p) {
        w
    } else if cc < cols && g[row][cc] == spec_cell(spec_opponent(p)) {
        -w
    } else {
        0
    }
}

/// The chain score of a line: 40 for two more pieces, 200 for three.
pub open spec fn chain_line(n: int) -> int {
    if n == 2 {
        40
    } else if n == 3 {
        200
    } else {
        0
    }
}

/// The chain score of a cell: its lines' chain scores when it holds `p`'s
/// piece.
pub open spec fn chain_cell(g: Seq<Seq<Cell>>, rows: int, cols: int, p: Player, r: int, c: int) -> int {
    if g[r][c] == spec_cell(p) {
        sum_upto(|k: int| chain_line(line_count(g, rows, cols, r, c, k, spec_cell(p))), 8)
    } else {
        0
    }
}

/// The blocking score of a line: 15 per piece for two or more.
pub open spec fn block_line(n: int) -> int {
    if n >= 2 {
        15 * n
    } else {
        0
    }
}

/// The blocking score of a cell: its lines' blocking scores when it holds
/// the opponent's piece.
pub open spec fn block_cell(g: Seq<Seq<Cell>>, rows: int, cols: int, p: Player, r: int, c: int) -> int {
    let o = spec_cell(spec_opponent(p));
    if g[r][c] == o {
        sum_upto(|k: int| block_line(line_count(g, rows, cols, r, c, k, o)), 8)
    } else {
        0
    }
}

/// The threat score of a column: 1000 when a piece of `p` dropped there
/// would give `p` a winning line.
pub open spec fn threat_term(g: Seq<Seq<Cell>>, rows: int, cols: int, p: Player, c: int) -> int {
    if grid_landing(g, c, rows) is Some && grid_has_win(grid_drop(g, rows, c, spec_cell(p)), rows, cols, spec_cell(p), EVAL_LINE as int) {
        1000
    } else {
        0
    }
}

/// The advanced evaluator's score: 100000 for a win of `p`, -100000 for a
/// win of the opponent, else the sum of the centre, chain, blocking and
/// threat scores.
pub open spec fn advanced_value(g: Seq<Seq<Cell>>, rows: int, cols: int, p: Player) -> int {
    if grid_has_win(g, rows, cols, spec_cell(p), EVAL_LINE as int) {
        100000
    } else if grid_has_win(g, rows, cols, spec_cell(spec_opponent(p)), EVAL_LINE as int) {
        -100000
    } else {
        sum_upto(|r: int| center_term(g, cols, p, r), rows)
            + grid_sum(|r: int, c: int| chain_cell(g, rows, cols, p, r, c), cols, rows)
            + grid_sum(|r: int, c: int| block_cell(g, rows, cols, p, r, c), cols, rows)
            + sum_upto(|c: int| threat_term(g, rows, cols, p, c), cols)
    }
}

/// Scores centre control, chains, blocked opponent lines and threats.
#[derive(Clone, Copy, Debug)]
pub struct AdvancedEvaluator {
    center_weight: i32,
    chain_weight: i32,
    blocking_weight: i32,
}

impl AdvancedEvaluator {
    /// The evaluator's weights are the fixed ones.
    #[verifier::type_invariant]
    spec fn weights_fixed(&self) -> bool {
        self.center_weight == 10 && self.chain_weight == 20 && self.blocking_weight == 15
    }

    /// The centre, chain and blocking weights.
    pub closed spec fn spec_weights(&self) -> (i32, i32, i32) {
        (self.center_weight, self.chain_weight, self.blocking_weight)
    }

    /// An evaluator with centre weight 10, chain weight 20 and blocking
    /// weight 15.
    pub fn new() -> (r: Self)
        ensures
            r.spec_weights() == (10i32, 20i32, 15i32),
    {
        AdvancedEvaluator { center_weight: 10, chain_weight: 20, blocking_weight: 15 }
    }

    fn evaluate_center(&self, board: &Board, player: Player) -> (r: i32)
        requires
            evaluable(board),
        ensures
            r == sum_upto(|r: int| center_term(board@, board.spec_cols() as int, player, r), board.spec_rows() as int),
            -2000 * 100 <= r <= 2000 * 100,
    {
        proof {
            use_type_invariant(self);
        }
        let ghost g = board@;
        let ghost cols = board.spec_cols() as int;
        let ghost f = |r: int| center_term(g, cols, player, r);
        let center_col = board.cols() / 2;
        let mut score: i32 = 0;
        let mut row: usize = 0;
        while row < board.rows()
            invariant
                evaluable(board),
                g == board@,
                cols == board.spec_cols(),
                center_col == cols / 2,
                self.center_weight == 10,
                f == (|r: int| center_term(g, cols, player, r)),
                row <= board.spec_rows(),
                score == sum_upto(f, row as int),
                -2000 * row <= score <= 2000 * row,
            decreases board.spec_rows() - row,
        {
            let a = center_col as i32;
            let b = row as i32;
            let distance: i32 = if a >= b { a - b } else { b - a };
            let weight: i32 = self.center_weight * (board.cols() as i32 - distance);
            let here = board.get_at(row, center_col);
            if here == Some(player.cell()) {
                score = score + weight;
            } else if here == Some(player.opponent().cell()) {
                score = score - weight;
            }
            assert(score == sum_upto(f, row + 1));
            row = row + 1;
        }
        score
    }

    fn chain_score(&self, board: &Board, row: usize, col: usize, cell: Cell) -> (r: i32)
        requires
            evaluable(board),
            row < board.spec_rows(),
            col < board.spec_cols(),
        ensures
            r == sum_upto(|k: int| chain_line(line_count(board@, board.spec_rows() as int, board.spec_cols() as int, row as int, col as int, k, cell)), 8),
            0 <= r <= 1600,
    {
        proof {
            use_type_invariant(self);
        }
        let ghost g = board@;
        let ghost rows = board.spec_rows() as int;
        let ghost cols = board.spec_cols() as int;
        let ghost f = |k: int| chain_line(line_count(g, rows, cols, row as int, col as int, k, cell));
        let dirs = Direction::all();
        proof {
            lemma_dirs(dirs);
        }
        let mut score: i32 = 0;
        let mut k: usize = 0;
        while k < 8
            invariant
                evaluable(board),
                g == board@,
                rows == board.spec_rows(),
                cols == board.spec_cols(),
                rows <= 100,
                cols <= 100,
                row < rows,
                col < cols,
                self.chain_weight == 20,
                forall|j: int| 0 <= j < 8 ==> #[trigger] dirs@[j] == dir_at(j),
                f == (|k: int| chain_line(line_count(g, rows, cols, row as int, col as int, k, cell))),
                k <= 8,
                score == sum_upto(f, k as int),
                0 <= score <= 200 * k,
            decreases 8 - k,
        {
            let count = run_through(board, row, col, dirs[k], cell);
            let add: i32 = if count == 2 {
                self.chain_weight * 2
            } else if count == 3 {
                self.chain_weight * 10
            } else {
                0
            };
            assert(add == f(k as int));
            score = score + add;
            k = k + 1;
        }
        score
    }

    fn block_score(&self, board: &Board, row: usize, col: usize, cell: Cell) -> (r: i32)
        requires
            evaluable(board),
            row < board.spec_rows(),
            col < board.spec_cols(),
        ensures
            r == sum_upto(|k: int| block_line(line_count(board@, board.spec_rows() as int, board.spec_cols() as int, row as int, col as int, k, cell)), 8),
            0 <= r <= 8 * 6000,
    {
        proof {
            use_type_invariant(self);
        }
        let ghost g = board@;
        let ghost rows = board.spec_rows() as int;
        let ghost cols = board.spec_cols() as int;
        let ghost f = |k: int| block_line(line_count(g, rows, cols, row as int, col as int, k, cell));
        let dirs = Direction::all();
        proof {
            lemma_dirs(dirs);
        }
        let mut score: i32 = 0;
        let mut k: usize = 0;
        while k < 8
            invariant
                evaluable(board),
                g == board@,
                rows == board.spec_rows(),
                cols == board.spec_cols(),
                rows <= 100,
                cols <= 100,
                row < rows,
                col < cols,
                self.blocking_weight == 15,
                forall|j: int| 0 <= j < 8 ==> #[trigger] dirs@[j] == dir_at(j),
                f == (|k: int| block_line(line_count(g, rows, cols, row as int, col as int, k, cell))),
                k <= 8,
                score == sum_upto(f, k as int),
                0 <= score <= 6000 * k,
            decreases 8 - k,
        {
            let count = run_through(board, row, col, dirs[k], cell);
            let add: i32 = if count >= 2 {
                self.blocking_weight * (count as i32)
            } else {
                0
            };
            assert(add == f(k as int));
            score = score + add;
            k = k + 1;
        }
        score
    }

    fn evaluate_chains(&self, board: &Board, player: Player) -> (r: i32)
        requires
            evaluable(board),
        ensures
            r == grid_sum(|r: int, c: int| chain_cell(board@, board.spec_rows() as int, board.spec_cols() as int, player, r, c), board.spec_cols() as int, board.spec_rows() as int),
            0 <= r <= 16000000,
    {
        let ghost g = board@;
        let ghost rows = board.spec_rows() as int;
        let ghost cols = board.spec_cols() as int;
        let ghost f = |r: int, c: int| chain_cell(g, rows, cols, player, r, c);
        let mut score: i32 = 0;
        let mut row: usize = 0;
        while row < board.rows()
            invariant
                evaluable(board),
                g == board@,
                rows == board.spec_rows(),
                cols == board.spec_cols(),
                rows <= 100,
                cols <= 100,
                f == (|r: int, c: int| chain_cell(g, rows, cols, player, r, c)),
                row <= rows,
                score == grid_sum(f, cols, row as int),
                0 <= score <= 160000 * row,
            decreases rows - row,
        {
            let ghost start = score;
            let mut col: usize = 0;
            while col < board.cols()
                invariant
                    evaluable(board),
                    g == board@,
                    rows == board.spec_rows(),
                    cols == board.spec_cols(),
                    rows <= 100,
                    cols <= 100,
                    f == (|r: int, c: int| chain_cell(g, rows, cols, player, r, c)),
                    row < rows,
                    col <= cols,
                    start == grid_sum(f, cols, row as int),
                    0 <= start <= 160000 * row,
                    score == start + row_sum(f, row as int, col as int),
                    0 <= score - start <= 1600 * col,
                decreases cols - col,
            {
                if board.get_at(row, col) == Some(player.cell()) {
                    let s = self.chain_score(board, row, col, player.cell());
                    score = score + s;
                }
                col = col + 1;
            }
            row = row + 1;
        }
        score
    }

    fn evaluate_blocking(&self, board: &Board, player: Player) -> (r: i32)
        requires
            evaluable(board),
        ensures
            r == grid_sum(|r: int, c: int| block_cell(board@, board.spec_rows() as int, board.spec_cols() as int, player, r, c), board.spec_cols() as int, board.spec_rows() as int),
            0 <= r <= 480000000,
    {
        let ghost g = board@;
        let ghost rows = board.spec_rows() as int;
        let ghost cols = board.spec_cols() as int;
        let ghost f = |r: int, c: int| block_cell(g, rows, cols, player, r, c);
        let opponent = player.opponent();
        let mut score: i32 = 0;
        let mut row: usize = 0;
        while row < board.rows()
            invariant
                evaluable(board),
                g == board@,
                rows == board.spec_rows(),
                cols == board.spec_cols(),
                rows <= 100,
                cols <= 100,
                opponent == spec_opponent(player),
                f == (|r: int, c: int| block_cell(g, rows, cols, player, r, c)),
                row <= rows,
                score == grid_sum(f, cols, row as int),
                0 <= score <= 4800000 * row,
            decreases rows - row,
        {
            let ghost start = score;
            let mut col: usize = 0;
            while col < board.cols()
                invariant
                    evaluable(board),
                    g == board@,
                    rows == board.spec_rows(),
                    cols == board.spec_cols(),
                    rows <= 100,
                    cols <= 100,
                    opponent == spec_opponent(player),
                    f == (|r: int, c: int| block_cell(g, rows, cols, player, r, c)),
                    row < rows,
                    col <= cols,
                    start == grid_sum(f, cols, row as int),
                    0 <= start <= 4800000 * row,
                    score == start + row_sum(f, row as int, col as int),
                    0 <= score - start <= 48000 * col,
                decreases cols - col,
            {
                if board.get_at(row, col) == Some(opponent.cell()) {
                    let s = self.block_score(board, row, col, opponent.cell());
                    score = score + s;
                }
                col = col + 1;
            }
            row = row + 1;
        }
        score
    }

    fn evaluate_threats(&self, board: &Board, player: Player) -> (r: i32)
        requires
            evaluable(board),
        ensures
            r == sum_upto(|c: int| threat_term(board@, board.spec_rows() as int, board.spec_cols() as int, player, c), board.spec_cols() as int),
            0 <= r <= 1000 * 100,
    {
        let ghost g = board@;
        let ghost rows = board.spec_rows() as int;
        let ghost cols = board.spec_cols() as int;
        let ghost f = |c: int| threat_term(g, rows, cols, player, c);
        let mut score: i32 = 0;
        let mut col: usize = 0;
        while col < board.cols()
            invariant
                evaluable(board),
                g == board@,
                rows == board.spec_rows(),
                cols == board.spec_cols(),
                rows <= 100,
                cols <= 100,
                f == (|c: int| threat_term(g, rows, cols, player, c)),
                col <= cols,
                score == sum_upto(f, col as int),
                0 <= score <= 1000 * col,
            decreases cols - col,
        {
            match drop_piece(board, col, player.cell()) {
                Some(test_board) => {
                    if test_board.has_winning_line(player.cell(), EVAL_LINE) {
                        score = score + 1000;
                    }
                },
                None => {},
            }
            assert(score == sum_upto(f, col + 1));
            col = col + 1;
        }
        score
    }
}

impl Default for AdvancedEvaluator {
    fn default() -> (r: Self)
        ensures
            r.spec_weights() == (10i32, 20i32, 15i32),
    {
        Self::new()
    }
}

impl BoardEvaluator for AdvancedEvaluator {
    open spec fn spec_evaluate(&self, g: Seq<Seq<Cell>>, rows: int, cols: int, player: Player) -> int {
        advanced_value(g, rows, cols, player)
    }

    fn evaluate(&self, board: &Board, player: Player) -> (r: i32) {
        if board.has_winning_line(player.cell(), EVAL_LINE) {
            return 100000;
        }
        if board.has_winning_line(player.opponent().cell(), EVAL_LINE) {
            return -100000;
        }
        let mut score: i32 = 0;
        score = score + self.evaluate_center(board, player);
        score = score + self.evaluate_chains(board, player);
        score = score + self.evaluate_blocking(board, player);
        score = score + self.evaluate_threats(board, player);
        score
    }
}

} // verus!
