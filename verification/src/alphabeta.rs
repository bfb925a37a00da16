//! Minimax with alpha-beta pruning, from the point of view of one player.

use vstd::prelude::*;
use crate::board::Board;
use crate::cell::Cell;
use crate::evaluation::{BoardEvaluator, SimpleEvaluator, EVAL_BOUND, in_eval_range};
use crate::game_tree::{grid_column_full, grid_drop, grid_terminal, play, can_play, is_terminal, SEARCH_LINE, root_choice, fail_soft, settled};
use crate::minimax::{Eval, playable, searchable};
use crate::player::{Player, spec_cell, spec_opponent};

verus! {

/// The value of a grid in the search of `player`, `depth` moves ahead: at
/// depth 0 or at the end of the game the evaluation for `player` at a
/// maximising node and for the opponent at a minimising one; else the best
/// (maximising: `player` moves) or worst (minimising: the opponent moves)
/// value over the moves, `i32::MIN` or `i32::MAX` where no column can take
/// a piece.
pub open spec fn ab_value(ev: Eval, g: Seq<Seq<Cell>>, rows: int, cols: int, depth: nat, player: Player, maxing: bool) -> int
    decreases depth, 1int, 0int,
{
    if depth == 0 || grid_terminal(g, rows, cols, SEARCH_LINE as int) {
        if maxing { in_eval_range(ev(g, rows, cols, player)) } else { in_eval_range(ev(g, rows, cols, spec_opponent(player))) }
    } else {
        ab_scan(ev, g, rows, cols, depth, player, maxing, cols)
    }
}

/// The piece put down at a node: `player`'s when maximising, the
/// opponent's when minimising.
pub open spec fn mover_cell(player: Player, maxing: bool) -> Cell {
    if maxing { spec_cell(player) } else { spec_cell(spec_opponent(player)) }
}

/// The value of the move into column `c` at a node.
pub open spec fn ab_move(ev: Eval, g: Seq<Seq<Cell>>, rows: int, cols: int, depth: nat, player: Player, maxing: bool, c: int) -> int {
    ab_value(ev, grid_drop(g, rows, c, mover_cell(player, maxing)), rows, cols, (depth - 1) as nat, player, !maxing)
}

/// The best (maximising) or worst (minimising) value over the moves into
/// the first `n` columns: `i32::MIN` or `i32::MAX` when there is none.
pub open spec fn ab_scan(ev: Eval, g: Seq<Seq<Cell>>, rows: int, cols: int, depth: nat, player: Player, maxing: bool, n: int) -> int
    decreases depth, 0int, n,
{
    if n <= 0 || depth == 0 {
        if maxing { i32::MIN as int } else { i32::MAX as int }
    } else {
        let prev = ab_scan(ev, g, rows, cols, depth, player, maxing, n - 1);
        if grid_column_full(g, cols, n - 1) {
            prev
        } else {
            let v = ab_value(
                ev,
                grid_drop(g, rows, n - 1, mover_cell(player, maxing)),
                rows,
                cols,
                (depth - 1) as nat,
                player,
                !maxing,
            );
            if maxing {
                if v > prev { v } else { prev }
            } else {
                if v < prev { v } else { prev }
            }
        }
    }
}

/// A maximising scan is at least each move's value, and a minimising one
/// at most.
pub proof fn lemma_ab_scan_bound(ev: Eval, g: Seq<Seq<Cell>>, rows: int, cols: int, depth: nat, player: Player, maxing: bool, n: int, c: int)
    requires
        depth > 0,
        0 <= c < n,
        !grid_column_full(g, cols, c),
    ensures
        maxing ==> ab_scan(ev, g, rows, cols, depth, player, maxing, n) >= ab_move(ev, g, rows, cols, depth, player, maxing, c),
        !maxing ==> ab_scan(ev, g, rows, cols, depth, player, maxing, n) <= ab_move(ev, g, rows, cols, depth, player, maxing, c),
    decreases n,
{
    if c < n - 1 {
        lemma_ab_scan_bound(ev, g, rows, cols, depth, player, maxing, n - 1, c);
    }
}

/// A search value is an evaluation, or `i32::MIN` or `i32::MAX` from a node
/// where no column can take a piece.
pub open spec fn search_range(v: int) -> bool {
    (-EVAL_BOUND <= v <= EVAL_BOUND) || v == i32::MIN || v == i32::MAX
}

/// Every value of the search lies in `search_range`.
pub proof fn lemma_ab_range(ev: Eval, g: Seq<Seq<Cell>>, rows: int, cols: int, depth: nat, player: Player, maxing: bool)
    ensures
        search_range(ab_value(ev, g, rows, cols, depth, player, maxing)),
    decreases depth, 1int, 0int,
{
    if !(depth == 0 || grid_terminal(g, rows, cols, SEARCH_LINE as int)) {
        lemma_ab_scan_range(ev, g, rows, cols, depth, player, maxing, cols);
    }
}

/// Every scan of the search lies in `search_range`.
pub proof fn lemma_ab_scan_range(ev: Eval, g: Seq<Seq<Cell>>, rows: int, cols: int, depth: nat, player: Player, maxing: bool, n: int)
    ensures
        search_range(ab_scan(ev, g, rows, cols, depth, player, maxing, n)),
    decreases depth, 0int, n,
{
    if n > 0 && depth > 0 {
        lemma_ab_scan_range(ev, g, rows, cols, depth, player, maxing, n - 1);
        if !grid_column_full(g, cols, n - 1) {
            lemma_ab_range(ev, grid_drop(g, rows, n - 1, mover_cell(player, maxing)), rows, cols, (depth - 1) as nat, player, !maxing);
        }
    }
}

/// The score of the move into column `c` at the root of a search of depth
/// `d`: the value of the position after it, the opponent to reply.
pub open spec fn ab_root_score(ev: Eval, g: Seq<Seq<Cell>>, rows: int, cols: int, d: nat, player: Player) -> spec_fn(int) -> int {
    |c: int| ab_value(ev, grid_drop(g, rows, c, spec_cell(player)), rows, cols, (d - 1) as nat, player, false)
}

/// The move alpha-beta chooses: the first column, left to right, whose
/// score beats all earlier ones and `i32::MIN`.
pub open spec fn ab_choice(ev: Eval, g: Seq<Seq<Cell>>, rows: int, cols: int, d: nat, player: Player) -> Option<usize> {
    match root_choice(playable(g, cols), ab_root_score(ev, g, rows, cols, d, player), cols).0 {
        Some(c) => Some(c as usize),
        None => None,
    }
}

/// Minimax search with alpha-beta pruning.
pub struct AlphaBetaAI {
    depth: usize,
    max_depth: usize,
    nodes_evaluated: u64,
    cutoffs: u64,
    evaluator: Box<dyn BoardEvaluator>,
    use_iterative_deepening: bool,
}

impl AlphaBetaAI {
    /// The evaluation used at the leaves.
    pub closed spec fn spec_ev(&self) -> Eval {
        |g: Seq<Seq<Cell>>, r: int, c: int, p: Player| self.evaluator.spec_evaluate(g, r, c, p)
    }

    /// The search depth.
    pub closed spec fn spec_depth(&self) -> usize {
        self.depth
    }

    /// The greatest depth.
    pub closed spec fn spec_max_depth(&self) -> usize {
        self.max_depth
    }

    /// The number of leaves evaluated since the counters were reset.
    pub closed spec fn spec_nodes(&self) -> u64 {
        self.nodes_evaluated
    }

    /// The number of cutoffs since the counters were reset.
    pub closed spec fn spec_cutoffs(&self) -> u64 {
        self.cutoffs
    }

    /// Whether iterative deepening is asked for.
    pub closed spec fn spec_iterative(&self) -> bool {
        self.use_iterative_deepening
    }

    /// A search of the given depth with the simple evaluator.
    pub fn new(depth: usize) -> (r: Self)
        ensures
            r.spec_depth() == depth,
            r.spec_max_depth() == depth,
            r.spec_nodes() == 0,
            r.spec_cutoffs() == 0,
            r.spec_iterative(),
    {
        AlphaBetaAI {
            depth,
            max_depth: depth,
            nodes_evaluated: 0,
            cutoffs: 0,
            evaluator: Box::new(SimpleEvaluator),
            use_iterative_deepening: true,
        }
    }

    /// A search of the given depth with the given evaluator.
    pub fn with_evaluator(depth: usize, evaluator: Box<dyn BoardEvaluator>) -> (r: Self)
        ensures
            r.spec_depth() == depth,
            r.spec_max_depth() == depth,
            r.spec_nodes() == 0,
            r.spec_cutoffs() == 0,
            r.spec_iterative(),
    {
        AlphaBetaAI { depth, max_depth: depth, nodes_evaluated: 0, cutoffs: 0, evaluator, use_iterative_deepening: true }
    }

    /// The number of leaves evaluated.
    pub fn nodes_evaluated(&self) -> (r: u64)
        ensures
            r == self.spec_nodes(),
    {
        self.nodes_evaluated
    }

    /// The number of cutoffs.
    pub fn cutoffs(&self) -> (r: u64)
        ensures
            r == self.spec_cutoffs(),
    {
        self.cutoffs
    }

    /// Sets the counters to zero.
    pub fn reset_stats(&mut self)
        ensures
            final(self).spec_nodes() == 0,
            final(self).spec_cutoffs() == 0,
            final(self).spec_depth() == old(self).spec_depth(),
            final(self).spec_max_depth() == old(self).spec_max_depth(),
            final(self).spec_ev() == old(self).spec_ev(),
            final(self).spec_iterative() == old(self).spec_iterative(),
    {
        self.nodes_evaluated = 0;
        self.cutoffs = 0;
    }

    /// The move with the best value for `player`: the first column, left to
    /// right, whose value (searched with the widest window) beats all
    /// earlier ones and `i32::MIN`; `None` when no column can take a piece.
    /// The counters are reset first, so they count this search alone.
    pub fn select_move(&mut self, board: &Board, player: Player) -> (r: Option<usize>)
        requires
            searchable(board),
            old(self).spec_depth() >= 1 || crate::minimax::none_playable(board@, board.spec_cols() as int),
        ensures
            final(self).spec_ev() == old(self).spec_ev(),
            final(self).spec_depth() == old(self).spec_depth(),
            final(self).spec_max_depth() == old(self).spec_max_depth(),
            final(self).spec_iterative() == old(self).spec_iterative(),
            r == ab_choice(
                old(self).spec_ev(),
                board@,
                board.spec_rows() as int,
                board.spec_cols() as int,
                old(self).spec_depth() as nat,
                player,
            ),
            crate::minimax::none_playable(board@, board.spec_cols() as int) ==> final(self).spec_nodes() == 0
                && final(self).spec_cutoffs() == 0,
            r is Some && settled(board@, board.spec_rows() as int, board.spec_cols() as int)
                ==> final(self).spec_nodes() >= 1,
    {
        self.reset_stats();
        let ghost g = board@;
        let ghost rows = board.spec_rows() as int;
        let ghost cols = board.spec_cols() as int;
        let ghost ev = self.spec_ev();
        let ghost d = self.spec_depth() as nat;
        let ghost score = ab_root_score(ev, g, rows, cols, d, player);
        let ghost mut explored = false;
        let mut best_score: i32 = i32::MIN;
        let mut best_column: Option<usize> = None;
        let mut col: usize = 0;
        while col < board.cols()
            invariant
                searchable(board),
                g == board@,
                rows == board.spec_rows(),
                cols == board.spec_cols(),
                self.spec_ev() == ev,
                self.spec_depth() == old(self).spec_depth(),
                self.spec_max_depth() == old(self).spec_max_depth(),
                self.spec_iterative() == old(self).spec_iterative(),
                self.spec_depth() >= 1 || crate::minimax::none_playable(g, cols),
                d == self.spec_depth(),
                score == ab_root_score(ev, g, rows, cols, d, player),
                col <= cols,
                (match best_column { Some(c) => Some(c as int), None => None::<int> }, best_score as int)
                    == root_choice(playable(g, cols), score, col as int),
                !explored ==> self.spec_nodes() == 0 && self.spec_cutoffs() == 0,
                explored ==> exists|c: int| 0 <= c < col && !grid_column_full(g, cols, c),
                explored && settled(g, rows, cols) ==> self.spec_nodes() >= 1,
                best_column is Some ==> explored,
            decreases cols - col,
        {
            if can_play(board, col) {
                assert(!grid_column_full(g, cols, col as int));
                let test_board = play(board, col, player.cell());
                proof {
                    if settled(g, rows, cols) {
                        crate::game_tree::lemma_drop_settled(g, rows, cols, col as int, spec_cell(player));
                    }
                }
                let s = self.minimax_alpha_beta(&test_board, self.depth - 1, i32::MIN + 1, i32::MAX - 1, false, player);
                proof {
                    let v = score(col as int);
                    lemma_ab_range(ev, test_board@, rows, cols, (d - 1) as nat, player, false);
                    assert(v == ab_value(ev, test_board@, rows, cols, (d - 1) as nat, player, false));
                    assert(s == v);
                    explored = true;
                }
                if s > best_score {
                    best_score = s;
                    best_column = Some(col);
                }
            }
            col = col + 1;
        }
        best_column
    }

    /// The search of a node within the window (`alpha`, `beta`): a leaf is
    /// evaluated (and counted); a maximising node searches `player`'s moves,
    /// a minimising one the opponent's, each stopping (and counting a
    /// cutoff) once the window closes.
    fn minimax_alpha_beta(&mut self, board: &Board, depth: usize, alpha: i32, beta: i32, is_maximizing: bool, player: Player) -> (r: i32)
        requires
            searchable(board),
            alpha < beta,
        ensures
            fail_soft(
                r as int,
                ab_value(old(self).spec_ev(), board@, board.spec_rows() as int, board.spec_cols() as int, depth as nat, player, is_maximizing),
                alpha as int,
                beta as int,
            ),
            search_range(r as int),
            final(self).spec_ev() == old(self).spec_ev(),
            final(self).spec_depth() == old(self).spec_depth(),
            final(self).spec_max_depth() == old(self).spec_max_depth(),
            final(self).spec_iterative() == old(self).spec_iterative(),
            final(self).spec_nodes() >= old(self).spec_nodes(),
            final(self).spec_cutoffs() >= old(self).spec_cutoffs(),
            settled(board@, board.spec_rows() as int, board.spec_cols() as int) ==> final(self).spec_nodes() >= 1,
        decreases depth,
    {
        let ghost g = board@;
        let ghost rows = board.spec_rows() as int;
        let ghost cols = board.spec_cols() as int;
        let ghost ev = self.spec_ev();
        let ghost dn = depth as nat;
        if depth == 0 || is_terminal(board) {
            self.nodes_evaluated = self.nodes_evaluated.saturating_add(1);
            let who = if is_maximizing { player } else { player.opponent() };
            return self.evaluator.evaluate(board, who);
        }
        proof {
            assert(ab_value(ev, g, rows, cols, dn, player, is_maximizing) == ab_scan(ev, g, rows, cols, dn, player, is_maximizing, cols));
        }
        if is_maximizing {
            self.max_node(board, depth, alpha, beta, player)
        } else {
            self.min_node(board, depth, alpha, beta, player)
        }
    }

    /// A maximising node with moves: `player`'s moves in column order, the
    /// window's lower end raised by each value, stopping once it meets the
    /// upper end.
    fn max_node(&mut self, board: &Board, depth: usize, alpha: i32, beta: i32, player: Player) -> (r: i32)
        requires
            searchable(board),
            alpha < beta,
            depth >= 1,
            !grid_terminal(board@, board.spec_rows() as int, board.spec_cols() as int, SEARCH_LINE as int),
        ensures
            fail_soft(
                r as int,
                ab_scan(old(self).spec_ev(), board@, board.spec_rows() as int, board.spec_cols() as int, depth as nat, player, true, board.spec_cols() as int),
                alpha as int,
                beta as int,
            ),
            search_range(r as int),
            final(self).spec_ev() == old(self).spec_ev(),
            final(self).spec_depth() == old(self).spec_depth(),
            final(self).spec_max_depth() == old(self).spec_max_depth(),
            final(self).spec_iterative() == old(self).spec_iterative(),
            final(self).spec_nodes() >= old(self).spec_nodes(),
            final(self).spec_cutoffs() >= old(self).spec_cutoffs(),
            settled(board@, board.spec_rows() as int, board.spec_cols() as int) ==> final(self).spec_nodes() >= 1,
        decreases depth, 0int,
    {
        let ghost g = board@;
        let ghost rows = board.spec_rows() as int;
        let ghost cols = board.spec_cols() as int;
        let ghost ev = self.spec_ev();
        let ghost dn = depth as nat;
        let ghost mut explored = false;
        let mut max_eval: i32 = i32::MIN;
        let mut a: i32 = alpha;
        let mut col: usize = 0;
        while col < board.cols()
            invariant_except_break
                a < beta,
                a as int == (if max_eval > alpha { max_eval } else { alpha }),
                max_eval > alpha ==> ab_scan(ev, g, rows, cols, dn, player, true, col as int) == max_eval,
                max_eval <= alpha ==> ab_scan(ev, g, rows, cols, dn, player, true, col as int) <= max_eval,
                explored <==> exists|c: int| 0 <= c < col && !grid_column_full(g, cols, c),
            invariant
                searchable(board),
                g == board@,
                rows == board.spec_rows(),
                cols == board.spec_cols(),
                self.spec_ev() == ev,
                self.spec_depth() == old(self).spec_depth(),
                self.spec_max_depth() == old(self).spec_max_depth(),
                self.spec_iterative() == old(self).spec_iterative(),
                self.spec_nodes() >= old(self).spec_nodes(),
                self.spec_cutoffs() >= old(self).spec_cutoffs(),
                explored && settled(g, rows, cols) ==> self.spec_nodes() >= 1,
                depth >= 1,
                dn == depth,
                alpha < beta,
                col <= cols,
                search_range(max_eval as int),
            ensures
                col < cols ==> max_eval >= beta && ab_scan(ev, g, rows, cols, dn, player, true, cols) >= max_eval && explored,
                col >= cols ==> (max_eval > alpha ==> ab_scan(ev, g, rows, cols, dn, player, true, cols) == max_eval)
                    && (max_eval <= alpha ==> ab_scan(ev, g, rows, cols, dn, player, true, cols) <= max_eval)
                    && max_eval < beta
                    && (explored <== exists|c: int| 0 <= c < cols && !grid_column_full(g, cols, c)),
            decreases cols - col,
        {
            if can_play(board, col) {
                let test_board = play(board, col, player.cell());
                proof {
                    if settled(g, rows, cols) {
                        crate::game_tree::lemma_drop_settled(g, rows, cols, col as int, spec_cell(player));
                    }
                }
                let e = self.minimax_alpha_beta(&test_board, depth - 1, a, beta, false, player);
                proof {
                    explored = true;
                    let v = ab_move(ev, g, rows, cols, dn, player, true, col as int);
                    assert(v == ab_value(ev, grid_drop(g, rows, col as int, spec_cell(player)), rows, cols, (dn - 1) as nat, player, false));
                    assert(ab_scan(ev, g, rows, cols, dn, player, true, col + 1) == (if v > ab_scan(ev, g, rows, cols, dn, player, true, col as int) {
                        v
                    } else {
                        ab_scan(ev, g, rows, cols, dn, player, true, col as int)
                    }));
                }
                if e > max_eval {
                    max_eval = e;
                }
                if e > a {
                    a = e;
                }
                if beta <= a {
                    self.cutoffs = self.cutoffs.saturating_add(1);
                    proof {
                        lemma_ab_scan_bound(ev, g, rows, cols, dn, player, true, cols, col as int);
                    }
                    break;
                }
            }
            proof {
                assert((exists|c: int| 0 <= c < col + 1 && !grid_column_full(g, cols, c)) <==> ((exists|c: int|
                    0 <= c < col && !grid_column_full(g, cols, c)) || !grid_column_full(g, cols, col as int)));
            }
            col = col + 1;
        }
        proof {
            if settled(g, rows, cols) {
                crate::game_tree::lemma_settled_playable(g, rows, cols);
            }
        }
        max_eval
    }

    /// A minimising node with moves: the opponent's moves in column order,
    /// the window's upper end lowered by each value, stopping once it meets
    /// the lower end.
    fn min_node(&mut self, board: &Board, depth: usize, alpha: i32, beta: i32, player: Player) -> (r: i32)
        requires
            searchable(board),
            alpha < beta,
            depth >= 1,
            !grid_terminal(board@, board.spec_rows() as int, board.spec_cols() as int, SEARCH_LINE as int),
        ensures
            fail_soft(
                r as int,
                ab_scan(old(self).spec_ev(), board@, board.spec_rows() as int, board.spec_cols() as int, depth as nat, player, false, board.spec_cols() as int),
                alpha as int,
                beta as int,
            ),
            search_range(r as int),
            final(self).spec_ev() == old(self).spec_ev(),
            final(self).spec_depth() == old(self).spec_depth(),
            final(self).spec_max_depth() == old(self).spec_max_depth(),
            final(self).spec_iterative() == old(self).spec_iterative(),
            final(self).spec_nodes() >= old(self).spec_nodes(),
            final(self).spec_cutoffs() >= old(self).spec_cutoffs(),
            settled(board@, board.spec_rows() as int, board.spec_cols() as int) ==> final(self).spec_nodes() >= 1,
        decreases depth, 0int,
    {
        let ghost g = board@;
        let ghost rows = board.spec_rows() as int;
        let ghost cols = board.spec_cols() as int;
        let ghost ev = self.spec_ev();
        let ghost dn = depth as nat;
        let ghost mut explored = false;
        let mut min_eval: i32 = i32::MAX;
        let mut b: i32 = beta;
        let mut col: usize = 0;
        while col < board.cols()
            invariant_except_break
                alpha < b,
                b as int == (if min_eval < beta { min_eval } else { beta }),
                min_eval < beta ==> ab_scan(ev, g, rows, cols, dn, player, false, col as int) == min_eval,
                min_eval >= beta ==> ab_scan(ev, g, rows, cols, dn, player, false, col as int) >= min_eval,
                explored <==> exists|c: int| 0 <= c < col && !grid_column_full(g, cols, c),
            invariant
                searchable(board),
                g == board@,
                rows == board.spec_rows(),
                cols == board.spec_cols(),
                self.spec_ev() == ev,
                self.spec_depth() == old(self).spec_depth(),
                self.spec_max_depth() == old(self).spec_max_depth(),
                self.spec_iterative() == old(self).spec_iterative(),
                self.spec_nodes() >= old(self).spec_nodes(),
                self.spec_cutoffs() >= old(self).spec_cutoffs(),
                explored && settled(g, rows, cols) ==> self.spec_nodes() >= 1,
                depth >= 1,
                dn == depth,
                alpha < beta,
                col <= cols,
                search_range(min_eval as int),
            ensures
                col < cols ==> min_eval <= alpha && ab_scan(ev, g, rows, cols, dn, player, false, cols) <= min_eval && explored,
                col >= cols ==> (min_eval < beta ==> ab_scan(ev, g, rows, cols, dn, player, false, cols) == min_eval)
                    && (min_eval >= beta ==> ab_scan(ev, g, rows, cols, dn, player, false, cols) >= min_eval)
                    && min_eval > alpha
                    && (explored <== exists|c: int| 0 <= c < cols && !grid_column_full(g, cols, c)),
            decreases cols - col,
        {
            if can_play(board, col) {
                let test_board = play(board, col, player.opponent().cell());
                proof {
                    if settled(g, rows, cols) {
                        crate::game_tree::lemma_drop_settled(g, rows, cols, col as int, spec_cell(spec_opponent(player)));
                    }
                }
                let e = self.minimax_alpha_beta(&test_board, depth - 1, alpha, b, true, player);
                proof {
                    explored = true;
                    let v = ab_move(ev, g, rows, cols, dn, player, false, col as int);
                    assert(v == ab_value(ev, grid_drop(g, rows, col as int, spec_cell(spec_opponent(player))), rows, cols, (dn - 1) as nat, player, true));
                    assert(ab_scan(ev, g, rows, cols, dn, player, false, col + 1) == (if v < ab_scan(ev, g, rows, cols, dn, player, false, col as int) {
                        v
                    } else {
                        ab_scan(ev, g, rows, cols, dn, player, false, col as int)
                    }));
                }
                if e < min_eval {
                    min_eval = e;
                }
                if e < b {
                    b = e;
                }
                if b <= alpha {
                    self.cutoffs = self.cutoffs.saturating_add(1);
                    proof {
                        lemma_ab_scan_bound(ev, g, rows, cols, dn, player, false, cols, col as int);
                    }
                    break;
                }
            }
            proof {
                assert((exists|c: int| 0 <= c < col + 1 && !grid_column_full(g, cols, c)) <==> ((exists|c: int|
                    0 <= c < col && !grid_column_full(g, cols, c)) || !grid_column_full(g, cols, col as int)));
            }
            col = col + 1;
        }
        proof {
            if settled(g, rows, cols) {
                crate::game_tree::lemma_settled_playable(g, rows, cols);
            }
        }
        min_eval
    }
}

} // verus!
