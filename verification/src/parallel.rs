//! Settings for searching on several workers, the work one search task
//! does, and the move choice that scores each move by one static
//! evaluation.

use vstd::prelude::*;
use crate::board::Board;
use crate::evaluation::EVAL_BOUND;
use crate::game_tree::{grid_column_full, grid_drop, play, can_play};
use crate::minimax::{MinimaxAI, Eval, searchable, select_spec, lemma_select_playable};
use crate::player::{Player, spec_cell, spec_opponent};

verus! {

/// `num_cpus::get`: the number of logical CPUs this process may use. It
/// depends on the machine; its documentation promises at least 1.
#[verifier::external_body]
fn cpu_count() -> (r: usize)
    ensures
        r >= 1,
{
    num_cpus::get()
}

/// One search task: the move a minimax search of `depth` plies chooses for
/// `player` (none at depth 0) and the evaluation, for the opponent, of the
/// position that move leads to (0 without a move). The search is left set
/// to that depth.
pub fn run_search_task(ai: &mut MinimaxAI, board: &Board, player: Player, depth: usize) -> (r: (Option<usize>, i32))
    requires
        searchable(board),
    ensures
        final(ai).spec_ev() == old(ai).spec_ev(),
        final(ai).spec_depth() == depth,
        depth == 0 ==> r == (None::<usize>, 0i32),
        depth > 0 ==> r.0 == select_spec(
            old(ai).spec_ev(),
            board@,
            board.spec_rows() as int,
            board.spec_cols() as int,
            (depth - 1) as nat,
            player,
        ),
        depth > 0 ==> r.1 == (match r.0 {
            Some(c) => move_score(old(ai).spec_ev(), board@, board.spec_rows() as int, board.spec_cols() as int, c as int, player),
            None => 0,
        }),
{
    ai.set_depth(depth);
    if depth == 0 {
        return (None, 0);
    }
    let best = ai.select_move(board, player);
    proof {
        lemma_select_playable(
            ai.spec_ev(),
            board@,
            board.spec_rows() as int,
            board.spec_cols() as int,
            (depth - 1) as nat,
            player,
        );
    }
    match best {
        Some(col) => {
            let next = play(board, col, player.cell());
            let score = ai.evaluate(&next, player.opponent());
            (Some(col), score)
        },
        None => (None, 0),
    }
}

/// The settings of a parallel search.
#[derive(Clone, Copy, PartialEq, Eq, Debug, Structural)]
pub struct ParallelConfig {
    /// The number of workers.
    pub num_workers: usize,
    /// Whether idle workers take queued work from others.
    pub enable_work_stealing: bool,
    /// Whether work is balanced as it runs.
    pub enable_load_balancing: bool,
    /// How many tasks are handed out at once.
    pub chunk_size: usize,
    /// The longest a queue may grow.
    pub max_queue_depth: usize,
}

/// The settings besides the number of workers and the chunk size that
/// every preset shares: work stealing and load balancing on, queues of up
/// to 100.
pub open spec fn shared_settings(c: ParallelConfig) -> bool {
    c.enable_work_stealing && c.enable_load_balancing && c.max_queue_depth == 100
}

impl Default for ParallelConfig {
    fn default() -> (r: Self)
        ensures
            shared_settings(r),
            r.num_workers >= 1,
            r.chunk_size == 4,
    {
        ParallelConfig {
            num_workers: cpu_count(),
            enable_work_stealing: true,
            enable_load_balancing: true,
            chunk_size: 4,
            max_queue_depth: 100,
        }
    }
}

impl ParallelConfig {
    /// Two workers, chunks of two.
    pub fn small() -> (r: Self)
        ensures
            shared_settings(r),
            r.num_workers == 2,
            r.chunk_size == 2,
    {
        ParallelConfig { num_workers: 2, chunk_size: 2, ..Default::default() }
    }

    /// Four workers, chunks of four.
    pub fn medium() -> (r: Self)
        ensures
            shared_settings(r),
            r.num_workers == 4,
            r.chunk_size == 4,
    {
        ParallelConfig { num_workers: 4, ..Default::default() }
    }

    /// One worker per CPU, chunks of eight.
    pub fn large() -> (r: Self)
        ensures
            shared_settings(r),
            r.num_workers >= 1,
            r.chunk_size == 8,
    {
        ParallelConfig { num_workers: cpu_count(), chunk_size: 8, ..Default::default() }
    }
}

/// The score of a move: the evaluation, for the opponent, of the position
/// after it.
pub open spec fn move_score(ev: Eval, g: Seq<Seq<crate::cell::Cell>>, rows: int, cols: int, c: int, player: Player) -> int {
    ev(grid_drop(g, rows, c, spec_cell(player)), rows, cols, spec_opponent(player))
}

/// Over the moves into the first `n` columns, the last one with the
/// highest score, with that score.
pub open spec fn last_best(ev: Eval, g: Seq<Seq<crate::cell::Cell>>, rows: int, cols: int, player: Player, n: int) -> Option<(int, int)>
    decreases n,
{
    if n <= 0 {
        None
    } else {
        let prev = last_best(ev, g, rows, cols, player, n - 1);
        if grid_column_full(g, cols, n - 1) {
            prev
        } else {
            let s = move_score(ev, g, rows, cols, n - 1, player);
            match prev {
                Some((_, b)) => if s >= b { Some((n - 1, s)) } else { prev },
                None => Some((n - 1, s)),
            }
        }
    }
}

/// A minimax search whose moves can be scored on several workers.
pub struct ParallelMinimax {
    config: ParallelConfig,
    base_ai: MinimaxAI,
}

impl ParallelMinimax {
    /// The settings.
    pub closed spec fn spec_config(&self) -> ParallelConfig {
        self.config
    }

    /// The evaluation of the underlying search.
    pub closed spec fn spec_ev(&self) -> Eval {
        self.base_ai.spec_ev()
    }

    /// The underlying search's depth.
    pub closed spec fn spec_depth(&self) -> usize {
        self.base_ai.spec_depth()
    }

    /// A parallel search with the given settings around `base_ai`.
    pub fn new(config: ParallelConfig, base_ai: MinimaxAI) -> (r: Self)
        ensures
            r.spec_config() == config,
            r.spec_ev() == base_ai.spec_ev(),
            r.spec_depth() == base_ai.spec_depth(),
    {
        ParallelMinimax { config, base_ai }
    }

    /// The default settings around a minimax search of the given depth.
    pub fn with_default_ai(depth: usize) -> (r: Self)
        ensures
            shared_settings(r.spec_config()),
            r.spec_config().num_workers >= 1,
            r.spec_config().chunk_size == 4,
            r.spec_depth() == depth,
    {
        let config: ParallelConfig = Default::default();
        Self::new(config, MinimaxAI::new(depth))
    }

    /// The move whose resulting position the evaluator scores highest for
    /// the opponent, the last such column on ties; `None` when no column
    /// can take a piece. (`depth` does not change the choice.)
    pub fn find_best_move(&self, board: &Board, player: Player, depth: usize) -> (r: Option<usize>)
        requires
            searchable(board),
        ensures
            r == (match last_best(self.spec_ev(), board@, board.spec_rows() as int, board.spec_cols() as int, player, board.spec_cols() as int) {
                Some((c, _)) => Some(c as usize),
                None => None,
            }),
    {
        let ghost g = board@;
        let ghost rows = board.spec_rows() as int;
        let ghost cols = board.spec_cols() as int;
        let ghost ev = self.spec_ev();
        let mut best: Option<(usize, i32)> = None;
        let mut col: usize = 0;
        while col < board.cols()
            invariant
                searchable(board),
                g == board@,
                rows == board.spec_rows(),
                cols == board.spec_cols(),
                ev == self.spec_ev(),
                col <= cols,
                (match best { Some((c, s)) => Some((c as int, s as int)), None => None::<(int, int)> })
                    == last_best(ev, g, rows, cols, player, col as int),
            decreases cols - col,
        {
            if can_play(board, col) {
                let score = self.evaluate_move(board, col, player, depth);
                match best {
                    Some((_, b)) => {
                        if score >= b {
                            best = Some((col, score));
                        }
                    },
                    None => {
                        best = Some((col, score));
                    },
                }
            }
            col = col + 1;
        }
        match best {
            Some((c, _)) => Some(c),
            None => None,
        }
    }

    /// The evaluation, for the opponent, of the position after `player`
    /// plays into `col`.
    fn evaluate_move(&self, board: &Board, col: usize, player: Player, depth: usize) -> (r: i32)
        requires
            searchable(board),
            col < board.spec_cols(),
            !grid_column_full(board@, board.spec_cols() as int, col as int),
        ensures
            r == move_score(self.spec_ev(), board@, board.spec_rows() as int, board.spec_cols() as int, col as int, player),
            -EVAL_BOUND <= r <= EVAL_BOUND,
    {
        let new_board = play(board, col, player.cell());
        self.base_ai.evaluate(&new_board, player.opponent())
    }
}

} // verus!
