//! Openings: random sequences of legal moves from the empty standard board,
//! and what the moves of a finished game teach an opening book.

use vstd::prelude::*;
use crate::board::Board;
use crate::cell::Cell;
use crate::chance::random_usize;
use crate::game_tree::{grid_column_full, grid_drop, play, can_play};
use crate::minimax::none_playable;
use crate::player::{Player, spec_cell, spec_opponent};
use crate::zobrist::{ZobristKeys, grid_hash};
use crate::ai_player::GameOutcome;

verus! {

/// An empty grid.
pub open spec fn empty_grid(rows: int, cols: int) -> Seq<Seq<Cell>> {
    Seq::new(rows as nat, |r: int| Seq::new(cols as nat, |c: int| Cell::Empty))
}

/// The standard grid after the first `n` of `moves`, each dropping the
/// mover's piece into its column.
pub open spec fn replay(moves: Seq<(usize, Player)>, n: int) -> Seq<Seq<Cell>>
    decreases n,
{
    if n <= 0 {
        empty_grid(6, 7)
    } else {
        grid_drop(replay(moves, n - 1), 6, moves[n - 1].0 as int, spec_cell(moves[n - 1].1))
    }
}

/// The mover of the `i`-th move: player 1 first, then in turn.
pub open spec fn mover(i: int) -> Player {
    if i % 2 == 0 { Player::Player1 } else { Player::Player2 }
}

/// A legal opening of up to `depth` moves from the empty standard board:
/// players in turn from player 1, each move into a column that can take a
/// piece, stopping short of `depth` only when no column can.
pub open spec fn legal_opening(moves: Seq<(usize, Player)>, depth: int) -> bool {
    &&& moves.len() <= depth
    &&& forall|i: int| 0 <= i < moves.len() ==> (#[trigger] moves[i]).1 == mover(i) && moves[i].0 < 7
        && !grid_column_full(replay(moves, i), 7, moves[i].0 as int)
    &&& moves.len() < depth ==> none_playable(replay(moves, moves.len() as int), 7)
}

/// A source of random openings.
pub struct RandomOpeningGenerator {
    zobrist: ZobristKeys,
}

impl RandomOpeningGenerator {
    /// The generator's hashing keys.
    pub closed spec fn spec_keys(&self) -> ZobristKeys {
        self.zobrist
    }

    /// A generator with fresh keys.
    pub fn new() -> (r: Self)
        ensures
            r.spec_keys().wf(),
    {
        RandomOpeningGenerator { zobrist: ZobristKeys::new() }
    }

    /// A random legal opening of up to `depth` moves (fewer only when the
    /// board fills up): each move drawn among the columns that can take a
    /// piece.
    #[verifier::spinoff_prover]
    #[verifier::rlimit(40)]
    pub fn generate(&self, depth: usize) -> (r: Vec<(usize, Player)>)
        ensures
            legal_opening(r@, depth as int),
    {
        let mut moves: Vec<(usize, Player)> = Vec::new();
        let mut board = Board::new(6, 7);
        proof {
            assert forall|i: int| 0 <= i < 6 implies #[trigger] board@[i] =~= empty_grid(6, 7)[i] by {
                assert forall|j: int| 0 <= j < 7 implies board@[i][j] == Cell::Empty by {
                    assert(board.at(i, j) == Cell::Empty);
                }
            }
            assert(board@ =~= empty_grid(6, 7));
        }
        let mut player = Player::Player1;
        let mut k: usize = 0;
        while k < depth
            invariant_except_break
                moves@.len() == k,
            invariant
                board.wf(),
                board.spec_rows() == 6,
                board.spec_cols() == 7,
                board@ == replay(moves@, moves@.len() as int),
                player == mover(moves@.len() as int),
                k <= depth,
                moves@.len() <= k,
                forall|i: int| 0 <= i < moves@.len() ==> (#[trigger] moves@[i]).1 == mover(i) && moves@[i].0 < 7
                    && !grid_column_full(replay(moves@, i), 7, moves@[i].0 as int),
            ensures
                moves@.len() <= depth,
                moves@.len() < depth ==> none_playable(replay(moves@, moves@.len() as int), 7),
            decreases depth - k,
        {
            let valid = playable_columns(&board);
            if valid.len() == 0 {
                break;
            }
            let pick = random_usize() % valid.len();
            let col = valid[pick];
            let ghost before = moves@;
            board = play(&board, col, player.cell());
            moves.push((col, player));
            proof {
                lemma_replay_push(before, (col, player), moves@);
            }
            player = player.opponent();
            proof {
                assert(mover(moves@.len() as int) == spec_opponent(mover(before.len() as int)));
            }
            k = k + 1;
        }
        moves
    }

    /// `count` random openings of up to `depth` moves each.
    pub fn generate_batch(&self, count: usize, depth: usize) -> (r: Vec<Vec<(usize, Player)>>)
        ensures
            r@.len() == count,
            forall|i: int| 0 <= i < count ==> legal_opening(#[trigger] r@[i]@, depth as int),
    {
        let mut out: Vec<Vec<(usize, Player)>> = Vec::new();
        let mut i: usize = 0;
        while i < count
            invariant
                i <= count,
                out@.len() == i,
                forall|j: int| 0 <= j < i ==> legal_opening(#[trigger] out@[j]@, depth as int),
            decreases count - i,
        {
            out.push(self.generate(depth));
            i = i + 1;
        }
        out
    }
}

/// The columns of a standard board that can take a piece, in order.
fn playable_columns(board: &Board) -> (r: Vec<usize>)
    requires
        board.wf(),
        board.spec_rows() == 6,
        board.spec_cols() == 7,
    ensures
        forall|i: int| 0 <= i < r@.len() ==> #[trigger] r@[i] < 7 && !grid_column_full(board@, 7, r@[i] as int),
        r@.len() == 0 <==> none_playable(board@, 7),
{
    let mut valid: Vec<usize> = Vec::new();
    let mut col: usize = 0;
    while col < 7
        invariant
            board.wf(),
            board.spec_rows() == 6,
            board.spec_cols() == 7,
            col <= 7,
            forall|i: int| 0 <= i < valid@.len() ==> #[trigger] valid@[i] < 7 && !grid_column_full(board@, 7, valid@[i] as int),
            valid@.len() == 0 <==> forall|c: int| 0 <= c < col ==> #[trigger] grid_column_full(board@, 7, c),
        decreases 7 - col,
    {
        if can_play(board, col) {
            assert(!grid_column_full(board@, 7, col as int));
            valid.push(col);
        } else {
            assert(grid_column_full(board@, 7, col as int));
        }
        col = col + 1;
    }
    valid
}

/// What one move of a finished game teaches an opening book: the key of the
/// position the move leads to (with the player on turn by the move's
/// parity), the column, the game's result for the mover in halves of a win
/// (2 for a win, 1 for a draw, 0 for a loss), and the number of moves of the
/// game from that move on.
#[derive(Clone, Copy, PartialEq, Eq, Debug, Structural)]
pub struct OpeningLesson {
    pub hash: u64,
    pub column: usize,
    pub win_halves: u8,
    pub remaining: usize,
}

/// The game's result for the player who made a move, in halves of a win.
pub open spec fn spec_win_halves(outcome: GameOutcome, player: Player) -> u8 {
    match outcome {
        GameOutcome::Win(winner) => if winner == player { 2 } else { 0 },
        GameOutcome::Draw => 1,
    }
}

/// A move into `col` lands on the standard grid `g`.
pub open spec fn lands(g: Seq<Seq<Cell>>, col: int) -> bool {
    0 <= col < 7 && !grid_column_full(g, 7, col)
}

/// The standard grid after the first `n` moves of a game; a move into a
/// missing or full column changes nothing.
pub open spec fn book_grid(moves: Seq<(usize, Player)>, n: int) -> Seq<Seq<Cell>>
    decreases n,
{
    if n <= 0 {
        empty_grid(6, 7)
    } else {
        let g = book_grid(moves, n - 1);
        if lands(g, moves[n - 1].0 as int) {
            grid_drop(g, 6, moves[n - 1].0 as int, spec_cell(moves[n - 1].1))
        } else {
            g
        }
    }
}

/// The lessons of the first `n` moves of a game of `game_length` moves: one
/// for each move that lands.
pub open spec fn lessons_upto(
    keys: &ZobristKeys,
    moves: Seq<(usize, Player)>,
    outcome: GameOutcome,
    game_length: int,
    n: int,
) -> Seq<OpeningLesson>
    decreases n,
{
    if n <= 0 {
        seq![]
    } else {
        lessons_upto(keys, moves, outcome, game_length, n - 1) + (if lands(book_grid(moves, n - 1), moves[n - 1].0 as int) {
            seq![
                OpeningLesson {
                    hash: grid_hash(keys, book_grid(moves, n), 6, 7, mover(n - 1)),
                    column: moves[n - 1].0,
                    win_halves: spec_win_halves(outcome, moves[n - 1].1),
                    remaining: (game_length - (n - 1)) as usize,
                },
            ]
        } else {
            seq![]
        })
    }
}

/// The number of moves of a game that teach the book: all of them, but at
/// most `max_depth`.
pub open spec fn taught_plies(len: int, max_depth: int) -> int {
    if len < max_depth { len } else { max_depth }
}

/// The game's result for the player who made a move, in halves of a win.
pub fn win_halves(outcome: GameOutcome, player: Player) -> (r: u8)
    ensures
        r == spec_win_halves(outcome, player),
{
    match outcome {
        GameOutcome::Win(winner) => if winner == player { 2 } else { 0 },
        GameOutcome::Draw => 1,
    }
}

/// Every taught move of the game that lands comes within its length: the
/// count of moves left after it is a number.
pub open spec fn fits_game(moves: Seq<(usize, Player)>, game_length: int, max_depth: int) -> bool {
    forall|i: int|
        0 <= i < taught_plies(moves.len() as int, max_depth) && #[trigger] lands(book_grid(moves, i), moves[i].0 as int)
            ==> i <= game_length
}

/// Checks that every taught move of the game that lands comes within the
/// game's length, replaying the moves as `opening_lessons` does.
pub fn lessons_fit(moves: &[(usize, Player)], game_length: usize, max_depth: usize) -> (r: bool)
    ensures
        r == fits_game(moves@, game_length as int, max_depth as int),
{
    let mut board = Board::new(6, 7);
    proof {
        assert forall|i: int| 0 <= i < 6 implies #[trigger] board@[i] =~= empty_grid(6, 7)[i] by {
            assert forall|j: int| 0 <= j < 7 implies board@[i][j] == Cell::Empty by {
                assert(board.at(i, j) == Cell::Empty);
            }
        }
        assert(board@ =~= empty_grid(6, 7));
    }
    let mut ply: usize = 0;
    while ply < moves.len() && ply < max_depth
        invariant
            ply <= moves@.len(),
            ply <= max_depth,
            board.wf(),
            board.spec_rows() == 6,
            board.spec_cols() == 7,
            board@ == book_grid(moves@, ply as int),
            forall|i: int| 0 <= i < ply && #[trigger] lands(book_grid(moves@, i), moves@[i].0 as int) ==> i <= game_length,
        decreases moves@.len() - ply,
    {
        let (col, player) = moves[ply];
        if col < 7 && can_play(&board, col) {
            assert(lands(book_grid(moves@, ply as int), moves@[ply as int].0 as int));
            if ply > game_length {
                return false;
            }
            board = play(&board, col, player.cell());
        }
        ply = ply + 1;
    }
    true
}

/// What the first `max_depth` moves of a finished game of `game_length`
/// moves teach an opening book: the moves are replayed on the empty
/// standard board from player 1's turn, a move into a missing or full column
/// being passed over, and each move that lands gives a lesson keyed by the
/// position it leads to.
pub fn opening_lessons(
    keys: &ZobristKeys,
    moves: &[(usize, Player)],
    outcome: GameOutcome,
    game_length: usize,
    max_depth: usize,
) -> (r: Vec<OpeningLesson>)
    requires
        keys.wf(),
        fits_game(moves@, game_length as int, max_depth as int),
    ensures
        r@ == lessons_upto(keys, moves@, outcome, game_length as int, taught_plies(moves@.len() as int, max_depth as int)),
{
    let mut board = Board::new(6, 7);
    proof {
        assert forall|i: int| 0 <= i < 6 implies #[trigger] board@[i] =~= empty_grid(6, 7)[i] by {
            assert forall|j: int| 0 <= j < 7 implies board@[i][j] == Cell::Empty by {
                assert(board.at(i, j) == Cell::Empty);
            }
        }
        assert(board@ =~= empty_grid(6, 7));
    }
    let mut current = Player::Player1;
    let mut out: Vec<OpeningLesson> = Vec::new();
    let mut ply: usize = 0;
    while ply < moves.len() && ply < max_depth
        invariant
            keys.wf(),
            fits_game(moves@, game_length as int, max_depth as int),
            ply <= moves@.len(),
            ply <= max_depth,
            board.wf(),
            board.spec_rows() == 6,
            board.spec_cols() == 7,
            board@ == book_grid(moves@, ply as int),
            current == mover(ply as int),
            out@ == lessons_upto(keys, moves@, outcome, game_length as int, ply as int),
        decreases moves@.len() - ply,
    {
        let (col, player) = moves[ply];
        if col < 7 && can_play(&board, col) {
            assert(lands(book_grid(moves@, ply as int), moves@[ply as int].0 as int));
            board = play(&board, col, player.cell());
            let hash = keys.hash(&board, current);
            let halves = win_halves(outcome, player);
            out.push(OpeningLesson { hash, column: col, win_halves: halves, remaining: game_length - ply });
        }
        current = current.opponent();
        ply = ply + 1;
    }
    out
}

/// Adding a move keeps the grids before it and drops its piece last.
pub proof fn lemma_replay_push(before: Seq<(usize, Player)>, m: (usize, Player), moves: Seq<(usize, Player)>)
    requires
        moves == before.push(m),
    ensures
        forall|i: int| 0 <= i <= before.len() ==> #[trigger] replay(moves, i) == replay(before, i),
        replay(moves, moves.len() as int) == grid_drop(replay(before, before.len() as int), 6, m.0 as int, spec_cell(m.1)),
{
    assert forall|i: int| 0 <= i <= before.len() implies #[trigger] replay(moves, i) == replay(before, i) by {
        lemma_replay_prefix(before, moves, i);
    }
    let n = before.len() as int;
    assert(moves[n] == m);
    assert(replay(moves, n + 1) == grid_drop(replay(moves, n), 6, moves[n].0 as int, spec_cell(moves[n].1)));
    assert(replay(moves, n) == replay(before, n));
}

/// Replaying a prefix of a sequence gives the same grids as replaying the
/// sequence up to the prefix's length.
pub proof fn lemma_replay_prefix(a: Seq<(usize, Player)>, b: Seq<(usize, Player)>, n: int)
    requires
        0 <= n <= a.len(),
        a.len() <= b.len(),
        forall|i: int| 0 <= i < a.len() ==> a[i] == b[i],
    ensures
        replay(b, n) == replay(a, n),
    decreases n,
{
    if n > 0 {
        lemma_replay_prefix(a, b, n - 1);
    }
}

impl Default for RandomOpeningGenerator {
    fn default() -> (r: Self)
        ensures
            r.spec_keys().wf(),
    {
        Self::new()
    }
}

} // verus!
