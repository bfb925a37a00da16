//! Plain minimax search, and its negamax form with a pruning window.

use vstd::prelude::*;
use crate::board::Board;
use crate::cell::Cell;
use crate::evaluation::{BoardEvaluator, SimpleEvaluator, evaluable, EVAL_BOUND};
use crate::game_tree::{grid_column_full, grid_drop, grid_terminal, play, can_play, is_terminal, SEARCH_LINE, root_choice, lemma_root_choice};
use crate::player::{Player, spec_cell, spec_opponent};
use crate::timing::{instant_now, elapsed_reaches};

verus! {

/// A static evaluation: the score of a grid of the given size for a player.
pub type Eval = spec_fn(Seq<Seq<Cell>>, int, int, Player) -> int;

/// The minimax value of a grid, `depth` moves ahead, with `player` to move:
/// at depth 0 or at the end of the game the evaluation for `player` (when
/// maximising) or for the opponent (when minimising), which lies within
/// `EVAL_BOUND` as every evaluator's does; else the best value over the
/// moves, each followed by the other side's turn, `i32::MIN` or `i32::MAX`
/// where no column can take a piece.
pub open spec fn minimax_value(ev: Eval, g: Seq<Seq<Cell>>, rows: int, cols: int, depth: nat, player: Player, maxing: bool) -> int
    decreases depth, 1int, 0int,
{
    if depth == 0 || grid_terminal(g, rows, cols, SEARCH_LINE as int) {
        if maxing {
            crate::evaluation::in_eval_range(ev(g, rows, cols, player))
        } else {
            crate::evaluation::in_eval_range(ev(g, rows, cols, spec_opponent(player)))
        }
    } else {
        minimax_scan(ev, g, rows, cols, depth, player, maxing, cols)
    }
}

/// The best value over the moves into the first `n` columns: `i32::MIN`
/// (maximising) or `i32::MAX` (minimising) when there is none.
pub open spec fn minimax_scan(ev: Eval, g: Seq<Seq<Cell>>, rows: int, cols: int, depth: nat, player: Player, maxing: bool, n: int) -> int
    decreases depth, 0int, n,
{
    if n <= 0 || depth == 0 {
        if maxing { i32::MIN as int } else { i32::MAX as int }
    } else {
        let prev = minimax_scan(ev, g, rows, cols, depth, player, maxing, n - 1);
        if grid_column_full(g, cols, n - 1) {
            prev
        } else {
            let v = minimax_value(
                ev,
                grid_drop(g, rows, n - 1, spec_cell(player)),
                rows,
                cols,
                (depth - 1) as nat,
                spec_opponent(player),
                !maxing,
            );
            if maxing {
                if v > prev { v } else { prev }
            } else {
                if v < prev { v } else { prev }
            }
        }
    }
}

/// A board the searches accept: one the evaluators accept, with rows when
/// it has columns.
pub open spec fn searchable(board: &Board) -> bool {
    evaluable(board) && (board.spec_cols() > 0 ==> board.spec_rows() > 0)
}

/// The columns of a grid that can take a piece.
pub open spec fn playable(g: Seq<Seq<Cell>>, cols: int) -> spec_fn(int) -> bool {
    |c: int| 0 <= c < cols && !grid_column_full(g, cols, c)
}

/// Minimax search to a fixed depth.
pub struct MinimaxAI {
    depth: usize,
    max_depth: usize,
    nodes_evaluated: u64,
    cutoffs: u64,
    evaluator: Box<dyn BoardEvaluator>,
}

impl MinimaxAI {
    /// The evaluation used at the leaves.
    pub closed spec fn spec_ev(&self) -> Eval {
        |g: Seq<Seq<Cell>>, r: int, c: int, p: Player| self.evaluator.spec_evaluate(g, r, c, p)
    }

    /// The search depth.
    pub closed spec fn spec_depth(&self) -> usize {
        self.depth
    }

    /// The greatest depth of a search with a time limit.
    pub closed spec fn spec_max_depth(&self) -> usize {
        self.max_depth
    }

    /// The number of leaves evaluated since the counters were reset.
    pub closed spec fn spec_nodes(&self) -> u64 {
        self.nodes_evaluated
    }

    /// The number of cutoffs counted.
    pub closed spec fn spec_cutoffs(&self) -> u64 {
        self.cutoffs
    }

    /// A search of the given depth with the simple evaluator.
    pub fn new(depth: usize) -> (r: Self)
        ensures
            r.spec_depth() == depth,
            r.spec_max_depth() == depth,
            r.spec_nodes() == 0,
            r.spec_cutoffs() == 0,
    {
        MinimaxAI { depth, max_depth: depth, nodes_evaluated: 0, cutoffs: 0, evaluator: Box::new(SimpleEvaluator) }
    }

    /// A search of the given depth with the given evaluator.
    pub fn with_evaluator(depth: usize, evaluator: Box<dyn BoardEvaluator>) -> (r: Self)
        ensures
            r.spec_depth() == depth,
            r.spec_max_depth() == depth,
            r.spec_nodes() == 0,
            r.spec_cutoffs() == 0,
    {
        MinimaxAI { depth, max_depth: depth, nodes_evaluated: 0, cutoffs: 0, evaluator }
    }

    /// Sets the search depth and the greatest depth.
    pub fn set_depth(&mut self, depth: usize)
        ensures
            final(self).spec_depth() == depth,
            final(self).spec_max_depth() == depth,
            final(self).spec_ev() == old(self).spec_ev(),
            final(self).spec_nodes() == old(self).spec_nodes(),
            final(self).spec_cutoffs() == old(self).spec_cutoffs(),
    {
        self.depth = depth;
        self.max_depth = depth;
    }

    /// The search depth.
    pub fn depth(&self) -> (r: usize)
        ensures
            r == self.spec_depth(),
    {
        self.depth
    }

    /// The number of leaves evaluated.
    pub fn nodes_evaluated(&self) -> (r: u64)
        ensures
            r == self.spec_nodes(),
    {
        self.nodes_evaluated
    }

    /// The number of cutoffs.
    pub fn cutoffs(&self) -> (r: u64)
        ensures
            r == self.spec_cutoffs(),
    {
        self.cutoffs
    }

    /// The static evaluation of a position for `player`, with this
    /// search's evaluator.
    pub fn evaluate(&self, board: &Board, player: Player) -> (r: i32)
        requires
            evaluable(board),
        ensures
            r == (self.spec_ev())(board@, board.spec_rows() as int, board.spec_cols() as int, player),
            -EVAL_BOUND <= r <= EVAL_BOUND,
    {
        self.evaluator.evaluate(board, player)
    }

    /// Sets the counters to zero.
    pub fn reset_stats(&mut self)
        ensures
            final(self).spec_nodes() == 0,
            final(self).spec_cutoffs() == 0,
            final(self).spec_depth() == old(self).spec_depth(),
            final(self).spec_max_depth() == old(self).spec_max_depth(),
            final(self).spec_ev() == old(self).spec_ev(),
    {
        self.nodes_evaluated = 0;
        self.cutoffs = 0;
    }

    /// The move with the best minimax value for `player`: the first column,
    /// left to right, whose value beats all earlier ones; the first column
    /// that can take a piece when none beats `i32::MIN`; `None` when no
    /// column can take a piece.
    pub fn select_move(&mut self, board: &Board, player: Player) -> (r: Option<usize>)
        requires
            searchable(board),
            old(self).spec_depth() >= 1 || none_playable(board@, board.spec_cols() as int),
        ensures
            final(self).spec_ev() == old(self).spec_ev(),
            final(self).spec_depth() == old(self).spec_depth(),
            final(self).spec_max_depth() == old(self).spec_max_depth(),
            r == select_spec(
                old(self).spec_ev(),
                board@,
                board.spec_rows() as int,
                board.spec_cols() as int,
                (old(self).spec_depth() - 1) as nat,
                player,
            ),
    {
        self.reset_stats();
        let ghost g = board@;
        let ghost rows = board.spec_rows() as int;
        let ghost cols = board.spec_cols() as int;
        let ghost ev = self.spec_ev();
        let ghost d = (self.depth - 1) as nat;
        let ghost score = |c: int| minimax_value(ev, grid_drop(g, rows, c, spec_cell(player)), rows, cols, d, spec_opponent(player), false);
        let mut first: Option<usize> = None;
        let mut best_column: Option<usize> = None;
        let mut best_score: i32 = i32::MIN;
        let mut col: usize = 0;
        while col < board.cols()
            invariant
                searchable(board),
                g == board@,
                rows == board.spec_rows(),
                cols == board.spec_cols(),
                self.spec_ev() == ev,
                self.spec_depth() == old(self).spec_depth(),
                self.spec_max_depth() == old(self).spec_max_depth(),
                self.spec_depth() >= 1 || none_playable(g, cols),
                d == (self.spec_depth() - 1) as nat,
                score == (|c: int| minimax_value(ev, grid_drop(g, rows, c, spec_cell(player)), rows, cols, d, spec_opponent(player), false)),
                col <= cols,
                first == first_playable(g, cols, col as int),
                (match best_column { Some(c) => Some(c as int), None => None::<int> }, best_score as int)
                    == root_choice(playable(g, cols), score, col as int),
            decreases cols - col,
        {
            if can_play(board, col) {
                assert(!grid_column_full(g, cols, col as int));
                if first.is_none() {
                    first = Some(col);
                }
                let test_board = play(board, col, player.cell());
                let s = self.minimize(&test_board, self.depth - 1, player.opponent());
                if s > best_score {
                    best_score = s;
                    best_column = Some(col);
                }
            }
            col = col + 1;
        }
        match best_column {
            Some(c) => Some(c),
            None => first,
        }
    }

    /// Iterative deepening: a choice at each depth from 1 up to the greatest
    /// depth, stopping after the first search that ends once `time_limit`
    /// has passed since the start. The search depth is left at the last
    /// depth searched, and the choice made there is returned; `None` when
    /// the greatest depth is 0.
    pub fn select_move_with_time_limit(&mut self, board: &Board, player: Player, time_limit: std::time::Duration) -> (r: Option<usize>)
        requires
            searchable(board),
        ensures
            final(self).spec_ev() == old(self).spec_ev(),
            final(self).spec_max_depth() == old(self).spec_max_depth(),
            old(self).spec_max_depth() == 0 ==> r is None && final(self).spec_depth() == old(self).spec_depth(),
            old(self).spec_max_depth() >= 1 ==> 1 <= final(self).spec_depth() <= old(self).spec_max_depth() && r == select_spec(
                old(self).spec_ev(),
                board@,
                board.spec_rows() as int,
                board.spec_cols() as int,
                (final(self).spec_depth() - 1) as nat,
                player,
            ),
    {
        let start_time = instant_now();
        let max_depth = self.max_depth;
        if max_depth == 0 {
            return None;
        }
        let ghost ev = self.spec_ev();
        let mut result: Option<usize>;
        let mut depth: usize = 1;
        loop
            invariant
                searchable(board),
                self.spec_ev() == ev,
                self.spec_max_depth() == max_depth,
                max_depth == old(self).spec_max_depth(),
                1 <= depth <= max_depth,
            ensures
                1 <= self.spec_depth() <= max_depth && result == select_spec(
                    ev,
                    board@,
                    board.spec_rows() as int,
                    board.spec_cols() as int,
                    (self.spec_depth() - 1) as nat,
                    player,
                ),
                self.spec_ev() == ev,
                self.spec_max_depth() == max_depth,
            decreases max_depth - depth,
        {
            self.depth = depth;
            result = self.select_move(board, player);
            if elapsed_reaches(&start_time, &time_limit) || depth == max_depth {
                break;
            }
            depth = depth + 1;
        }
        result
    }

    /// The minimax value of each move of `player`, as (column, value),
    /// columns in increasing order, one pair per column that can take a
    /// piece.
    pub fn evaluate_moves(&mut self, board: &Board, player: Player) -> (r: Vec<(usize, i32)>)
        requires
            searchable(board),
            old(self).spec_depth() >= 1 || none_playable(board@, board.spec_cols() as int),
        ensures
            final(self).spec_ev() == old(self).spec_ev(),
            final(self).spec_depth() == old(self).spec_depth(),
            final(self).spec_max_depth() == old(self).spec_max_depth(),
            r@ == move_values(
                old(self).spec_ev(),
                board@,
                board.spec_rows() as int,
                board.spec_cols() as int,
                (old(self).spec_depth() - 1) as nat,
                player,
                board.spec_cols() as int,
            ),
    {
        let ghost g = board@;
        let ghost rows = board.spec_rows() as int;
        let ghost cols = board.spec_cols() as int;
        let ghost ev = self.spec_ev();
        let ghost d = (self.spec_depth() - 1) as nat;
        let mut move_scores: Vec<(usize, i32)> = Vec::new();
        let mut col: usize = 0;
        while col < board.cols()
            invariant
                searchable(board),
                g == board@,
                rows == board.spec_rows(),
                cols == board.spec_cols(),
                self.spec_ev() == ev,
                self.spec_depth() == old(self).spec_depth(),
                self.spec_max_depth() == old(self).spec_max_depth(),
                self.spec_depth() >= 1 || none_playable(g, cols),
                d == (self.spec_depth() - 1) as nat,
                col <= cols,
                move_scores@ == move_values(ev, g, rows, cols, d, player, col as int),
            decreases cols - col,
        {
            if can_play(board, col) {
                assert(!grid_column_full(g, cols, col as int));
                let test_board = play(board, col, player.cell());
                let score = self.minimize(&test_board, self.depth - 1, player.opponent());
                move_scores.push((col, score));
            }
            col = col + 1;
        }
        move_scores
    }

    /// The line of best play from the position: up to `depth` moves, each
    /// the choice of `select_move` for the side to move, `player` first,
    /// ending early when no column can take a piece.
    pub fn principal_variation(&mut self, board: &Board, player: Player) -> (r: Vec<usize>)
        requires
            searchable(board),
        ensures
            final(self).spec_ev() == old(self).spec_ev(),
            final(self).spec_depth() == old(self).spec_depth(),
            final(self).spec_max_depth() == old(self).spec_max_depth(),
            r@ == best_line(
                old(self).spec_ev(),
                board@,
                board.spec_rows() as int,
                board.spec_cols() as int,
                (old(self).spec_depth() - 1) as nat,
                player,
                old(self).spec_depth() as nat,
            ),
    {
        let ghost rows = board.spec_rows() as int;
        let ghost cols = board.spec_cols() as int;
        let ghost ev = self.spec_ev();
        let ghost d = (self.spec_depth() - 1) as nat;
        let ghost full_line = best_line(ev, board@, rows, cols, d, player, self.spec_depth() as nat);
        let mut pv: Vec<usize> = Vec::new();
        let mut current_board = board.clone();
        let mut current_player = player;
        let depth = self.depth;
        let mut i: usize = 0;
        while i < depth
            invariant_except_break
                pv@ + best_line(ev, current_board@, rows, cols, d, current_player, (depth - i) as nat) == full_line,
            invariant
                searchable(&current_board),
                current_board.spec_rows() == rows,
                current_board.spec_cols() == cols,
                rows == board.spec_rows(),
                cols == board.spec_cols(),
                self.spec_ev() == ev,
                self.spec_depth() == depth,
                depth == old(self).spec_depth(),
                self.spec_max_depth() == old(self).spec_max_depth(),
                d == (depth - 1) as nat,
                i <= depth,
                full_line == best_line(ev, board@, rows, cols, d, player, depth as nat),
            ensures
                pv@ == full_line,
            decreases depth - i,
        {
            let ghost g = current_board@;
            proof {
                lemma_select_playable(ev, g, rows, cols, d, current_player);
            }
            match self.select_move(&current_board, current_player) {
                Some(col) => {
                    pv.push(col);
                    let next = play(&current_board, col, current_player.cell());
                    proof {
                        assert(pv@ + best_line(ev, next@, rows, cols, d, spec_opponent(current_player), (depth - i - 1) as nat)
                            =~= full_line);
                    }
                    current_board = next;
                    current_player = current_player.opponent();
                }
                None => {
                    proof {
                        assert(pv@ =~= full_line);
                    }
                    break;
                }
            }
            i = i + 1;
        }
        pv
    }

    /// The best score for `player` to move, maximising.
    fn maximize(&mut self, board: &Board, depth: usize, player: Player) -> (r: i32)
        requires
            searchable(board),
        ensures
            r == minimax_value(old(self).spec_ev(), board@, board.spec_rows() as int, board.spec_cols() as int, depth as nat, player, true),
            final(self).spec_ev() == old(self).spec_ev(),
            final(self).spec_depth() == old(self).spec_depth(),
            final(self).spec_max_depth() == old(self).spec_max_depth(),
        decreases depth, 1int,
    {
        self.search(board, depth, player, true)
    }

    /// The best score for the opponent of `player` (`player` to move),
    /// minimising.
    fn minimize(&mut self, board: &Board, depth: usize, player: Player) -> (r: i32)
        requires
            searchable(board),
        ensures
            r == minimax_value(old(self).spec_ev(), board@, board.spec_rows() as int, board.spec_cols() as int, depth as nat, player, false),
            final(self).spec_ev() == old(self).spec_ev(),
            final(self).spec_depth() == old(self).spec_depth(),
            final(self).spec_max_depth() == old(self).spec_max_depth(),
        decreases depth, 1int,
    {
        self.search(board, depth, player, false)
    }

    /// One node of the search: a leaf is evaluated (and counted); otherwise
    /// each move is searched in turn from the other side.
    fn search(&mut self, board: &Board, depth: usize, player: Player, maxing: bool) -> (r: i32)
        requires
            searchable(board),
        ensures
            r == minimax_value(old(self).spec_ev(), board@, board.spec_rows() as int, board.spec_cols() as int, depth as nat, player, maxing),
            final(self).spec_ev() == old(self).spec_ev(),
            final(self).spec_depth() == old(self).spec_depth(),
            final(self).spec_max_depth() == old(self).spec_max_depth(),
        decreases depth, 0int,
    {
        let ghost g = board@;
        let ghost rows = board.spec_rows() as int;
        let ghost cols = board.spec_cols() as int;
        let ghost ev = self.spec_ev();
        if depth == 0 || is_terminal(board) {
            self.nodes_evaluated = self.nodes_evaluated.saturating_add(1);
            let who = if maxing { player } else { player.opponent() };
            return self.evaluator.evaluate(board, who);
        }
        let mut best: i32 = if maxing { i32::MIN } else { i32::MAX };
        let mut col: usize = 0;
        while col < board.cols()
            invariant
                searchable(board),
                g == board@,
                rows == board.spec_rows(),
                cols == board.spec_cols(),
                self.spec_ev() == ev,
                self.spec_depth() == old(self).spec_depth(),
                self.spec_max_depth() == old(self).spec_max_depth(),
                depth >= 1,
                !grid_terminal(g, rows, cols, SEARCH_LINE as int),
                col <= cols,
                best == minimax_scan(ev, g, rows, cols, depth as nat, player, maxing, col as int),
            decreases cols - col,
        {
            if can_play(board, col) {
                let test_board = play(board, col, player.cell());
                let s = if maxing {
                    self.minimize(&test_board, depth - 1, player.opponent())
                } else {
                    self.maximize(&test_board, depth - 1, player.opponent())
                };
                if maxing {
                    if s > best {
                        best = s;
                    }
                } else {
                    if s < best {
                        best = s;
                    }
                }
            }
            col = col + 1;
        }
        best
    }
}

/// The first column among the first `n` that can take a piece.
pub open spec fn first_playable(g: Seq<Seq<Cell>>, cols: int, n: int) -> Option<usize>
    decreases n,
{
    if n <= 0 {
        None
    } else {
        let prev = first_playable(g, cols, n - 1);
        if prev is None && 0 <= n - 1 < cols && !grid_column_full(g, cols, n - 1) {
            Some((n - 1) as usize)
        } else {
            prev
        }
    }
}

/// No column of the grid can take a piece.
pub open spec fn none_playable(g: Seq<Seq<Cell>>, cols: int) -> bool {
    forall|c: int| 0 <= c < cols ==> #[trigger] grid_column_full(g, cols, c)
}

/// The (column, value) pairs of the moves into the first `n` columns, in
/// column order: the minimax value of the grid after the move, `d` moves
/// ahead, with the opponent to move and minimising.
pub open spec fn move_values(ev: Eval, g: Seq<Seq<Cell>>, rows: int, cols: int, d: nat, player: Player, n: int) -> Seq<(usize, i32)>
    decreases n,
{
    if n <= 0 {
        Seq::empty()
    } else {
        let prev = move_values(ev, g, rows, cols, d, player, n - 1);
        if grid_column_full(g, cols, n - 1) {
            prev
        } else {
            prev.push(((n - 1) as usize, minimax_value(ev, grid_drop(g, rows, n - 1, spec_cell(player)), rows, cols, d, spec_opponent(player), false) as i32))
        }
    }
}

/// The line of up to `n` moves where each side in turn plays the root
/// choice of a `d`-deep minimax search.
pub open spec fn best_line(ev: Eval, g: Seq<Seq<Cell>>, rows: int, cols: int, d: nat, player: Player, n: nat) -> Seq<usize>
    decreases n,
{
    if n == 0 {
        Seq::empty()
    } else {
        match select_spec(ev, g, rows, cols, d, player) {
            Some(c) => seq![c].add(best_line(ev, grid_drop(g, rows, c as int, spec_cell(player)), rows, cols, d, spec_opponent(player), (n - 1) as nat)),
            None => Seq::empty(),
        }
    }
}

/// The first column among the first `n` that can take a piece can take a
/// piece, and there is one exactly when some column among them can.
pub proof fn lemma_first_playable(g: Seq<Seq<Cell>>, cols: int, n: int)
    requires
        n <= cols <= usize::MAX,
    ensures
        first_playable(g, cols, n) matches Some(c) ==> 0 <= c < n && !grid_column_full(g, cols, c as int),
        first_playable(g, cols, n) is None <==> forall|c: int| 0 <= c < n ==> #[trigger] grid_column_full(g, cols, c),
        first_playable(g, cols, n) matches Some(c) ==> forall|c2: int| 0 <= c2 < c ==> #[trigger] grid_column_full(
            g,
            cols,
            c2,
        ),
    decreases n,
{
    if n > 0 {
        lemma_first_playable(g, cols, n - 1);
    }
}

/// The root choice is a column that can take a piece, and there is one
/// exactly when some column can.
pub proof fn lemma_select_playable(ev: Eval, g: Seq<Seq<Cell>>, rows: int, cols: int, d: nat, player: Player)
    requires
        0 <= cols <= usize::MAX,
    ensures
        select_spec(ev, g, rows, cols, d, player) matches Some(c) ==> c < cols && !grid_column_full(g, cols, c as int),
        select_spec(ev, g, rows, cols, d, player) is None <==> none_playable(g, cols),
{
    let score = |c: int| minimax_value(ev, grid_drop(g, rows, c, spec_cell(player)), rows, cols, d, spec_opponent(player), false);
    lemma_root_choice(playable(g, cols), score, cols);
    lemma_first_playable(g, cols, cols);
}

/// The score minimax gives the move of `player` into column `c`.
pub open spec fn mm_score(ev: Eval, g: Seq<Seq<Cell>>, rows: int, cols: int, d: nat, player: Player, c: int) -> int {
    minimax_value(ev, grid_drop(g, rows, c, spec_cell(player)), rows, cols, d, spec_opponent(player), false)
}

/// Every minimax value is an evaluation, or `i32::MIN` or `i32::MAX` from a
/// position where no column can take a piece.
pub proof fn lemma_minimax_range(ev: Eval, g: Seq<Seq<Cell>>, rows: int, cols: int, depth: nat, player: Player, maxing: bool)
    ensures
        crate::alphabeta::search_range(minimax_value(ev, g, rows, cols, depth, player, maxing)),
    decreases depth, 1int, 0int,
{
    if !(depth == 0 || grid_terminal(g, rows, cols, SEARCH_LINE as int)) {
        lemma_minimax_scan_range(ev, g, rows, cols, depth, player, maxing, cols);
    }
}

/// Every minimax scan is an evaluation, `i32::MIN` or `i32::MAX`.
pub proof fn lemma_minimax_scan_range(ev: Eval, g: Seq<Seq<Cell>>, rows: int, cols: int, depth: nat, player: Player, maxing: bool, n: int)
    ensures
        crate::alphabeta::search_range(minimax_scan(ev, g, rows, cols, depth, player, maxing, n)),
    decreases depth, 0int, n,
{
    if n > 0 && depth > 0 {
        lemma_minimax_scan_range(ev, g, rows, cols, depth, player, maxing, n - 1);
        if !grid_column_full(g, cols, n - 1) {
            lemma_minimax_range(ev, grid_drop(g, rows, n - 1, spec_cell(player)), rows, cols, (depth - 1) as nat, spec_opponent(player), !maxing);
        }
    }
}

/// The root choice, when there is one, scores more than every valid column
/// to its left; without one, its best value is `i32::MIN`.
pub proof fn lemma_root_choice_leftmost(valid: spec_fn(int) -> bool, score: spec_fn(int) -> int, n: int)
    ensures
        root_choice(valid, score, n).0 matches Some(c) ==> forall|c2: int|
            0 <= c2 < c && valid(c2) ==> #[trigger] score(c2) < score(c),
        root_choice(valid, score, n).0 is None ==> root_choice(valid, score, n).1 == i32::MIN,
    decreases n,
{
    if n > 0 {
        lemma_root_choice_leftmost(valid, score, n - 1);
        crate::game_tree::lemma_root_choice(valid, score, n - 1);
    }
}

/// The scored moves of the first `n` columns: each is a column that can
/// take a piece with its minimax score, in increasing column order, and
/// every such column is among them.
pub proof fn lemma_move_values(ev: Eval, g: Seq<Seq<Cell>>, rows: int, cols: int, d: nat, player: Player, n: int)
    requires
        n <= cols <= usize::MAX,
    ensures
        ({
            let mv = move_values(ev, g, rows, cols, d, player, n);
            &&& forall|i: int|
                0 <= i < mv.len() ==> 0 <= #[trigger] mv[i].0 < n && !grid_column_full(g, cols, mv[i].0 as int)
                    && mv[i].1 as int == mm_score(ev, g, rows, cols, d, player, mv[i].0 as int)
            &&& forall|i: int, j: int| 0 <= i < j < mv.len() ==> #[trigger] mv[i].0 < #[trigger] mv[j].0
            &&& forall|c: int| 0 <= c < n && !grid_column_full(g, cols, c) ==> exists|i: int|
                0 <= i < mv.len() && #[trigger] mv[i].0 == c
        }),
    decreases n,
{
    if n > 0 {
        lemma_move_values(ev, g, rows, cols, d, player, n - 1);
        lemma_minimax_range(ev, grid_drop(g, rows, n - 1, spec_cell(player)), rows, cols, d, spec_opponent(player), false);
        let prev = move_values(ev, g, rows, cols, d, player, n - 1);
        let mv = move_values(ev, g, rows, cols, d, player, n);
        if !grid_column_full(g, cols, n - 1) {
            assert(mv[prev.len() as int].0 == n - 1);
            assert forall|c: int| 0 <= c < n && !grid_column_full(g, cols, c) implies exists|i: int|
                0 <= i < mv.len() && #[trigger] mv[i].0 == c by {
                if c < n - 1 {
                    let i = choose|i: int| 0 <= i < prev.len() && #[trigger] prev[i].0 == c;
                    assert(mv[i].0 == c);
                } else {
                    assert(mv[prev.len() as int].0 == c);
                }
            }
        }
    }
}

/// The minimax choice is the first of the scored moves (`evaluate_moves`)
/// with the highest score: there is none exactly when no column can take a
/// piece, and otherwise no scored move scores more than the chosen one and
/// every move listed before it scores less.
pub proof fn lemma_choice_is_first_best(ev: Eval, g: Seq<Seq<Cell>>, rows: int, cols: int, d: nat, player: Player)
    requires
        0 <= cols <= usize::MAX,
    ensures
        ({
            let mv = move_values(ev, g, rows, cols, d, player, cols);
            let r = select_spec(ev, g, rows, cols, d, player);
            &&& r is None <==> mv.len() == 0
            &&& r matches Some(c) ==> exists|i: int|
                0 <= i < mv.len() && #[trigger] mv[i].0 == c && (forall|j: int| 0 <= j < mv.len() ==> #[trigger] mv[j].1 <= mv[i].1)
                    && (forall|j: int| 0 <= j < i ==> #[trigger] mv[j].1 < mv[i].1)
        }),
{
    let score = |c: int| minimax_value(ev, grid_drop(g, rows, c, spec_cell(player)), rows, cols, d, spec_opponent(player), false);
    let mv = move_values(ev, g, rows, cols, d, player, cols);
    lemma_move_values(ev, g, rows, cols, d, player, cols);
    lemma_select_playable(ev, g, rows, cols, d, player);
    crate::game_tree::lemma_root_choice(playable(g, cols), score, cols);
    lemma_root_choice_leftmost(playable(g, cols), score, cols);
    lemma_first_playable(g, cols, cols);
    if mv.len() == 0 {
        assert forall|c: int| 0 <= c < cols implies #[trigger] grid_column_full(g, cols, c) by {
            if !grid_column_full(g, cols, c) {
                let i = choose|i: int| 0 <= i < mv.len() && #[trigger] mv[i].0 == c;
            }
        }
    } else {
        assert(!grid_column_full(g, cols, mv[0].0 as int));
    }
    match select_spec(ev, g, rows, cols, d, player) {
        Some(c) => {
            let i = choose|i: int| 0 <= i < mv.len() && #[trigger] mv[i].0 == c as int;
            match root_choice(playable(g, cols), score, cols).0 {
                Some(c1) => {
                    assert(c1 == c);
                    assert forall|j: int| 0 <= j < mv.len() implies #[trigger] mv[j].1 <= mv[i].1 by {
                        assert(playable(g, cols)(mv[j].0 as int));
                        assert(score(mv[j].0 as int) == mm_score(ev, g, rows, cols, d, player, mv[j].0 as int));
                    }
                    assert forall|j: int| 0 <= j < i implies #[trigger] mv[j].1 < mv[i].1 by {
                        assert(mv[j].0 < mv[i].0);
                        assert(playable(g, cols)(mv[j].0 as int));
                        assert(score(mv[j].0 as int) == mm_score(ev, g, rows, cols, d, player, mv[j].0 as int));
                    }
                },
                None => {
                    assert forall|j: int| 0 <= j < mv.len() implies #[trigger] mv[j].1 <= mv[i].1 by {
                        assert(playable(g, cols)(mv[j].0 as int));
                        assert(score(mv[j].0 as int) == mm_score(ev, g, rows, cols, d, player, mv[j].0 as int));
                        lemma_minimax_range(ev, grid_drop(g, rows, mv[j].0 as int, spec_cell(player)), rows, cols, d, spec_opponent(player), false);
                        lemma_minimax_range(ev, grid_drop(g, rows, c as int, spec_cell(player)), rows, cols, d, spec_opponent(player), false);
                        assert(playable(g, cols)(c as int));
                    }
                    assert forall|j: int| 0 <= j < i implies #[trigger] mv[j].1 < mv[i].1 by {
                        assert(mv[j].0 < mv[i].0);
                        assert(grid_column_full(g, cols, mv[j].0 as int));
                    }
                },
            }
        },
        None => {},
    }
}

/// The move minimax chooses at the root.
pub open spec fn select_spec(ev: Eval, g: Seq<Seq<Cell>>, rows: int, cols: int, d: nat, player: Player) -> Option<usize> {
    let score = |c: int| minimax_value(ev, grid_drop(g, rows, c, spec_cell(player)), rows, cols, d, spec_opponent(player), false);
    match root_choice(playable(g, cols), score, cols).0 {
        Some(c) => Some(c as usize),
        None => first_playable(g, cols, cols),
    }
}

impl Default for MinimaxAI {
    fn default() -> (r: Self)
        ensures
            r.spec_depth() == 6,
    {
        Self::new(6)
    }
}

} // verus!

verus! {

/// The sign negamax gives an evaluation for the player to move: 1 for
/// player 1, -1 for player 2.
pub open spec fn perspective(p: Player) -> int {
    if p == Player::Player1 { 1 } else { -1 }
}

/// The negamax value of a grid, `depth` moves ahead, with `player` to move:
/// at depth 0 or at the end of the game the evaluation for `player` times
/// its sign; else the best over the moves of the negated value for the
/// opponent.
pub open spec fn negamax_value(ev: Eval, g: Seq<Seq<Cell>>, rows: int, cols: int, depth: nat, player: Player) -> int
    decreases depth, 1int, 0int,
{
    if depth == 0 || grid_terminal(g, rows, cols, SEARCH_LINE as int) {
        ev(g, rows, cols, player) * perspective(player)
    } else {
        negamax_scan(ev, g, rows, cols, depth, player, cols)
    }
}

/// The best negated opponent value over moves into the first `n` columns
/// (`i32::MIN` when there is none).
pub open spec fn negamax_scan(ev: Eval, g: Seq<Seq<Cell>>, rows: int, cols: int, depth: nat, player: Player, n: int) -> int
    decreases depth, 0int, n,
{
    if n <= 0 || depth == 0 {
        i32::MIN as int
    } else {
        let prev = negamax_scan(ev, g, rows, cols, depth, player, n - 1);
        if grid_column_full(g, cols, n - 1) {
            prev
        } else {
            let s = -negamax_value(ev, grid_drop(g, rows, n - 1, spec_cell(player)), rows, cols, (depth - 1) as nat, spec_opponent(player));
            if s > prev { s } else { prev }
        }
    }
}

/// The score of one move in negamax: the opponent's value, negated.
pub open spec fn negamax_move(ev: Eval, g: Seq<Seq<Cell>>, rows: int, cols: int, depth: nat, player: Player, c: int) -> int {
    -negamax_value(ev, grid_drop(g, rows, c, spec_cell(player)), rows, cols, (depth - 1) as nat, spec_opponent(player))
}

/// The best over more columns is at least the best over fewer, and at least
/// each playable column's score.
pub proof fn lemma_negamax_scan_ge(ev: Eval, g: Seq<Seq<Cell>>, rows: int, cols: int, depth: nat, player: Player, n: int, c: int)
    requires
        depth > 0,
        0 <= c < n,
        !grid_column_full(g, cols, c),
    ensures
        negamax_scan(ev, g, rows, cols, depth, player, n) >= negamax_move(ev, g, rows, cols, depth, player, c),
    decreases n,
{
    if c < n - 1 {
        lemma_negamax_scan_ge(ev, g, rows, cols, depth, player, n - 1, c);
    }
}

/// Negamax search with a pruning window.
pub struct NegaMaxAI {
    pub depth: usize,
    pub nodes_evaluated: u64,
    pub evaluator: Box<dyn BoardEvaluator>,
}

/// Within `depth` moves, every position that is not over has a column
/// that can take a piece. Negamax negates the value of each reply; a
/// position that is not over and has no move is worth `i32::MIN`, which has
/// no negation in `i32`.
pub open spec fn no_dead_end(g: Seq<Seq<Cell>>, rows: int, cols: int, depth: nat) -> bool
    decreases depth, 1int, 0int,
{
    depth == 0 || grid_terminal(g, rows, cols, SEARCH_LINE as int) || ((exists|c: int|
        0 <= c < cols && !grid_column_full(g, cols, c)) && live_scan(g, rows, cols, depth, cols))
}

/// Each of the first `n` columns that can take a piece leads, whichever
/// player drops into it, to a position with no dead end within `depth - 1`
/// moves.
pub open spec fn live_scan(g: Seq<Seq<Cell>>, rows: int, cols: int, depth: nat, n: int) -> bool
    decreases depth, 0int, n,
{
    if n <= 0 || depth == 0 {
        true
    } else {
        live_scan(g, rows, cols, depth, n - 1) && (grid_column_full(g, cols, n - 1) || (no_dead_end(
            grid_drop(g, rows, n - 1, Cell::Player1),
            rows,
            cols,
            (depth - 1) as nat,
        ) && no_dead_end(grid_drop(g, rows, n - 1, Cell::Player2), rows, cols, (depth - 1) as nat)))
    }
}

/// A scan that holds gives every move it covers.
pub proof fn lemma_live_scan(g: Seq<Seq<Cell>>, rows: int, cols: int, depth: nat, n: int, c: int, cell: Cell)
    requires
        live_scan(g, rows, cols, depth, n),
        depth > 0,
        0 <= c < n,
        !grid_column_full(g, cols, c),
        cell == Cell::Player1 || cell == Cell::Player2,
    ensures
        no_dead_end(grid_drop(g, rows, c, cell), rows, cols, (depth - 1) as nat),
    decreases n,
{
    if c < n - 1 {
        lemma_live_scan(g, rows, cols, depth, n - 1, c, cell);
    }
}

/// Every move of `player` leads to a position with no dead end within
/// `depth` moves.
pub open spec fn moves_live(g: Seq<Seq<Cell>>, rows: int, cols: int, depth: nat, player: Player) -> bool {
    forall|c: int|
        0 <= c < cols && !grid_column_full(g, cols, c) ==> #[trigger] no_dead_end(
            grid_drop(g, rows, c, spec_cell(player)),
            rows,
            cols,
            depth,
        )
}

/// A board filled from the bottom has no dead end: a position that is not
/// full has a column that can take a piece, and dropping a piece keeps the
/// board filled from the bottom.
pub proof fn lemma_settled_no_dead_end(g: Seq<Seq<Cell>>, rows: int, cols: int, depth: nat)
    requires
        crate::game_tree::grid_shape(g, rows, cols),
        crate::game_tree::settled(g, rows, cols),
        rows > 0,
    ensures
        no_dead_end(g, rows, cols, depth),
    decreases depth, 1int, 0int,
{
    if depth > 0 && !grid_terminal(g, rows, cols, SEARCH_LINE as int) {
        crate::game_tree::lemma_settled_playable(g, rows, cols);
        lemma_settled_live_scan(g, rows, cols, depth, cols);
    }
}

/// On a board filled from the bottom every scan holds.
proof fn lemma_settled_live_scan(g: Seq<Seq<Cell>>, rows: int, cols: int, depth: nat, n: int)
    requires
        crate::game_tree::grid_shape(g, rows, cols),
        crate::game_tree::settled(g, rows, cols),
        rows > 0,
        n <= cols,
    ensures
        live_scan(g, rows, cols, depth, n),
    decreases depth, 0int, n,
{
    if n > 0 && depth > 0 {
        lemma_settled_live_scan(g, rows, cols, depth, n - 1);
        if !grid_column_full(g, cols, n - 1) {
            crate::game_tree::lemma_drop_settled(g, rows, cols, n - 1, Cell::Player1);
            crate::game_tree::lemma_drop_settled(g, rows, cols, n - 1, Cell::Player2);
            lemma_settled_no_dead_end(grid_drop(g, rows, n - 1, Cell::Player1), rows, cols, (depth - 1) as nat);
            lemma_settled_no_dead_end(grid_drop(g, rows, n - 1, Cell::Player2), rows, cols, (depth - 1) as nat);
        }
    }
}

impl NegaMaxAI {
    /// The evaluation used at the leaves.
    pub closed spec fn spec_ev(&self) -> Eval {
        |g: Seq<Seq<Cell>>, r: int, c: int, p: Player| self.evaluator.spec_evaluate(g, r, c, p)
    }

    /// The number of leaves evaluated by the last move choice.
    pub closed spec fn spec_nodes(&self) -> u64 {
        self.nodes_evaluated
    }

    /// A search of the given depth with the simple evaluator.
    pub fn new(depth: usize) -> (r: Self)
        ensures
            r.depth == depth,
            r.spec_nodes() == 0,
    {
        NegaMaxAI { depth, nodes_evaluated: 0, evaluator: Box::new(SimpleEvaluator) }
    }

    /// The move with the best negamax score for `player`: the first column,
    /// left to right, whose score beats all earlier ones; the first column
    /// that can take a piece when none beats `i32::MIN`; `None` when no
    /// column can take a piece.
    pub fn select_move(&mut self, board: &Board, player: Player) -> (r: Option<usize>)
        requires
            searchable(board),
            old(self).depth >= 1 || none_playable(board@, board.spec_cols() as int),
            old(self).depth >= 1 ==> moves_live(
                board@,
                board.spec_rows() as int,
                board.spec_cols() as int,
                (old(self).depth - 1) as nat,
                player,
            ),
        ensures
            final(self).spec_ev() == old(self).spec_ev(),
            final(self).depth == old(self).depth,
            r == negamax_choice(old(self).spec_ev(), board@, board.spec_rows() as int, board.spec_cols() as int, old(self).depth as nat, player),
    {
        self.nodes_evaluated = 0;
        let ghost g = board@;
        let ghost rows = board.spec_rows() as int;
        let ghost cols = board.spec_cols() as int;
        let ghost ev = self.spec_ev();
        let ghost d = self.depth as nat;
        let ghost score = |c: int| -negamax_value(ev, grid_drop(g, rows, c, spec_cell(player)), rows, cols, (d - 1) as nat, player);
        let mut first: Option<usize> = None;
        let mut best_column: Option<usize> = None;
        let mut best_score: i32 = i32::MIN;
        let mut col: usize = 0;
        while col < board.cols()
            invariant
                searchable(board),
                g == board@,
                rows == board.spec_rows(),
                cols == board.spec_cols(),
                self.spec_ev() == ev,
                self.depth == old(self).depth,
                self.depth >= 1 || none_playable(g, cols),
                self.depth >= 1 ==> moves_live(g, rows, cols, (self.depth - 1) as nat, player),
                d == self.depth,
                score == (|c: int| -negamax_value(ev, grid_drop(g, rows, c, spec_cell(player)), rows, cols, (d - 1) as nat, player)),
                col <= cols,
                first == first_playable(g, cols, col as int),
                (match best_column { Some(c) => Some(c as int), None => None::<int> }, best_score as int)
                    == root_choice(playable(g, cols), score, col as int),
            decreases cols - col,
        {
            if can_play(board, col) {
                assert(!grid_column_full(g, cols, col as int));
                if first.is_none() {
                    first = Some(col);
                }
                let test_board = play(board, col, player.cell());
                assert(no_dead_end(grid_drop(g, rows, col as int, spec_cell(player)), rows, cols, (d - 1) as nat));
                let v = self.negamax(&test_board, self.depth - 1, -i32::MAX, i32::MAX, player);
                proof {
                    crate::game_tree::lemma_fail_soft_exact(
                        v as int,
                        negamax_value(ev, grid_drop(g, rows, col as int, spec_cell(player)), rows, cols, (d - 1) as nat, player),
                        -i32::MAX as int,
                        i32::MAX as int,
                    );
                }
                let s = -v;
                if s > best_score {
                    best_score = s;
                    best_column = Some(col);
                }
            }
            col = col + 1;
        }
        match best_column {
            Some(c) => Some(c),
            None => first,
        }
    }

    /// The negamax search of a position with `player` to move, within the
    /// window (`alpha`, `beta`), stopping once the window closes.
    fn negamax(&mut self, board: &Board, depth: usize, alpha: i32, beta: i32, player: Player) -> (r: i32)
        requires
            searchable(board),
            no_dead_end(board@, board.spec_rows() as int, board.spec_cols() as int, depth as nat),
            -i32::MAX <= alpha < beta,
        ensures
            crate::game_tree::fail_soft(
                r as int,
                negamax_value(old(self).spec_ev(), board@, board.spec_rows() as int, board.spec_cols() as int, depth as nat, player),
                alpha as int,
                beta as int,
            ),
            -EVAL_BOUND <= r <= EVAL_BOUND,
            final(self).spec_ev() == old(self).spec_ev(),
            final(self).depth == old(self).depth,
        decreases depth,
    {
        let ghost g = board@;
        let ghost rows = board.spec_rows() as int;
        let ghost cols = board.spec_cols() as int;
        let ghost ev = self.spec_ev();
        let ghost dn = depth as nat;
        if depth == 0 || is_terminal(board) {
            self.nodes_evaluated = self.nodes_evaluated.saturating_add(1);
            let e = self.evaluator.evaluate(board, player);
            return if player == Player::Player1 { e } else { -e };
        }
        assert(exists|c: int| 0 <= c < cols && !grid_column_full(g, cols, c));
        let mut max_score: i32 = i32::MIN;
        let mut a: i32 = alpha;
        let mut col: usize = 0;
        while col < board.cols()
            invariant_except_break
                a < beta,
                a as int == (if max_score > alpha { max_score } else { alpha }),
                max_score > alpha ==> negamax_scan(ev, g, rows, cols, dn, player, col as int) == max_score,
                max_score <= alpha ==> negamax_scan(ev, g, rows, cols, dn, player, col as int) <= max_score,
                max_score == i32::MIN <==> !exists|c: int| 0 <= c < col && !grid_column_full(g, cols, c),
            invariant
                searchable(board),
                no_dead_end(g, rows, cols, dn),
                g == board@,
                rows == board.spec_rows(),
                cols == board.spec_cols(),
                self.spec_ev() == ev,
                self.depth == old(self).depth,
                depth >= 1,
                dn == depth,
                !grid_terminal(g, rows, cols, SEARCH_LINE as int),
                -i32::MAX <= alpha < beta,
                col <= cols,
                exists|c: int| 0 <= c < cols && !grid_column_full(g, cols, c),
                max_score != i32::MIN ==> -EVAL_BOUND <= max_score <= EVAL_BOUND,
            ensures
                col < cols ==> max_score >= beta && negamax_scan(ev, g, rows, cols, dn, player, cols) >= max_score,
                col >= cols ==> (max_score > alpha ==> negamax_scan(ev, g, rows, cols, dn, player, cols) == max_score)
                    && (max_score <= alpha ==> negamax_scan(ev, g, rows, cols, dn, player, cols) <= max_score)
                    && max_score < beta,
                max_score != i32::MIN,
            decreases cols - col,
        {
            if can_play(board, col) {
                let test_board = play(board, col, player.cell());
                proof {
                    lemma_live_scan(g, rows, cols, dn, cols, col as int, spec_cell(player));
                }
                let rc = self.negamax(&test_board, depth - 1, -beta, -a, player.opponent());
                let score = -rc;
                proof {
                    let sc = negamax_move(ev, g, rows, cols, dn, player, col as int);
                    assert(sc == -negamax_value(ev, grid_drop(g, rows, col as int, spec_cell(player)), rows, cols, (dn - 1) as nat, spec_opponent(player)));
                    assert(score >= beta ==> sc >= score);
                    assert(score <= a ==> sc <= score);
                    assert(a < score < beta ==> sc == score);
                    assert(negamax_scan(ev, g, rows, cols, dn, player, col + 1) == (if sc > negamax_scan(ev, g, rows, cols, dn, player, col as int) {
                        sc
                    } else {
                        negamax_scan(ev, g, rows, cols, dn, player, col as int)
                    }));
                }
                if score > max_score {
                    max_score = score;
                }
                if score > a {
                    a = score;
                }
                if a >= beta {
                    proof {
                        lemma_negamax_scan_ge(ev, g, rows, cols, dn, player, cols, col as int);
                    }
                    break;
                }
            }
            proof {
                if !grid_column_full(g, cols, col as int) {
                    assert(max_score != i32::MIN);
                }
                assert((exists|c: int| 0 <= c < col + 1 && !grid_column_full(g, cols, c)) <==> ((exists|c: int|
                    0 <= c < col && !grid_column_full(g, cols, c)) || !grid_column_full(g, cols, col as int)));
            }
            col = col + 1;
        }
        proof {
            assert(negamax_value(ev, g, rows, cols, dn, player) == negamax_scan(ev, g, rows, cols, dn, player, cols));
        }
        max_score
    }
}

/// The move negamax chooses at the root.
pub open spec fn negamax_choice(ev: Eval, g: Seq<Seq<Cell>>, rows: int, cols: int, d: nat, player: Player) -> Option<usize> {
    let score = |c: int| -negamax_value(ev, grid_drop(g, rows, c, spec_cell(player)), rows, cols, (d - 1) as nat, player);
    match root_choice(playable(g, cols), score, cols).0 {
        Some(c) => Some(c as usize),
        None => first_playable(g, cols, cols),
    }
}

} // verus!
