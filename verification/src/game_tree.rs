//! Moves on a grid of cells, as the search-based players see them: which
//! columns can take a piece, where a dropped piece lands, and the grid that
//! results.

use vstd::prelude::*;
use crate::board::{Board, grid_has_win};
use crate::cell::Cell;

verus! {

/// A column that cannot take a piece: off the grid, or its top cell taken.
pub open spec fn grid_column_full(g: Seq<Seq<Cell>>, cols: int, col: int) -> bool {
    col >= cols || g[0][col] != Cell::Empty
}

/// The row where a piece dropped into `col` lands, looking at the first `n`
/// rows: the bottommost empty one.
pub open spec fn grid_landing(g: Seq<Seq<Cell>>, col: int, n: int) -> Option<int>
    decreases n,
{
    if n <= 0 {
        None
    } else if g[n - 1][col] == Cell::Empty {
        Some(n - 1)
    } else {
        grid_landing(g, col, n - 1)
    }
}

/// The grid after dropping `cell` into `col`.
pub open spec fn grid_drop(g: Seq<Seq<Cell>>, rows: int, col: int, cell: Cell) -> Seq<Seq<Cell>> {
    let r = grid_landing(g, col, rows).unwrap();
    g.update(r, g[r].update(col, cell))
}

/// Every cell of the grid is occupied.
pub open spec fn grid_full(g: Seq<Seq<Cell>>, rows: int, cols: int) -> bool {
    forall|i: int, j: int| 0 <= i < rows && 0 <= j < cols ==> #[trigger] g[i][j] != Cell::Empty
}

/// The piece a player drops.
pub open spec fn player_cell(p: crate::player::Player) -> Cell {
    crate::player::spec_cell(p)
}

/// The grid is a board of the given size.
pub open spec fn grid_shape(g: Seq<Seq<Cell>>, rows: int, cols: int) -> bool {
    crate::board::grid_shape(g, rows, cols)
}

/// The landing row is the bottommost empty cell of the column.
pub proof fn lemma_grid_landing(g: Seq<Seq<Cell>>, col: int, n: int, w: int)
    requires
        0 <= w < n,
        g[w][col] == Cell::Empty,
    ensures
        grid_landing(g, col, n) is Some,
        w <= grid_landing(g, col, n).unwrap() < n,
        g[grid_landing(g, col, n).unwrap()][col] == Cell::Empty,
        forall|k: int| grid_landing(g, col, n).unwrap() < k < n ==> #[trigger] g[k][col] != Cell::Empty,
    decreases n,
{
    if g[n - 1][col] != Cell::Empty {
        lemma_grid_landing(g, col, n - 1, w);
    }
}

/// A row that is empty with only occupied cells below it is the landing row.
pub proof fn lemma_grid_landing_unique(g: Seq<Seq<Cell>>, col: int, n: int, r: int)
    requires
        0 <= r < n,
        g[r][col] == Cell::Empty,
        forall|k: int| r < k < n ==> #[trigger] g[k][col] != Cell::Empty,
    ensures
        grid_landing(g, col, n) == Some(r),
    decreases n,
{
    if n - 1 != r {
        assert(g[n - 1][col] != Cell::Empty);
        lemma_grid_landing_unique(g, col, n - 1, r);
    }
}

/// Dropping `cell` into a column that can take it: a copy of the board with
/// the piece in the column's bottommost empty cell.
pub fn play(board: &Board, col: usize, cell: Cell) -> (r: Board)
    requires
        board.wf(),
        board.spec_rows() > 0,
        col < board.spec_cols(),
        !board.spec_column_full(col as int),
    ensures
        r.wf(),
        r.spec_rows() == board.spec_rows(),
        r.spec_cols() == board.spec_cols(),
        r@ == grid_drop(board@, board.spec_rows() as int, col as int, cell),
{
    let ghost g = board@;
    let ghost rows = board.spec_rows() as int;
    proof {
        assert(board.at(0, col as int) == Cell::Empty);
        board.lemma_lowest_empty(col as int, 0);
        let r0 = board.spec_lowest_empty_row(col as int).unwrap() as int;
        assert forall|k: int| r0 < k < rows implies #[trigger] g[k][col as int] != Cell::Empty by {
            assert(board.at(k, col as int) != Cell::Empty);
        }
        lemma_grid_landing_unique(g, col as int, rows, r0);
    }
    let mut out = board.clone();
    match board.lowest_empty_row(col) {
        Some(row) => {
            let _ = out.set_at(row, col, cell);
        },
        None => {},
    }
    out
}

/// Checks whether a column can take a piece.
pub fn can_play(board: &Board, col: usize) -> (r: bool)
    requires
        board.wf(),
        board.spec_cols() > 0 ==> board.spec_rows() > 0,
    ensures
        r == (col < board.spec_cols() && !board.spec_column_full(col as int)),
{
    col < board.cols() && !board.is_column_full(col)
}

/// Some player has a winning line on the grid, or it is full.
pub open spec fn grid_terminal(g: Seq<Seq<Cell>>, rows: int, cols: int, length: int) -> bool {
    grid_has_win(g, rows, cols, Cell::Player1, length) || grid_has_win(g, rows, cols, Cell::Player2, length)
        || grid_full(g, rows, cols)
}

} // verus!

verus! {

/// Checks whether every cell of the board is occupied.
pub fn board_full(board: &Board) -> (r: bool)
    requires
        board.wf(),
    ensures
        r == grid_full(board@, board.spec_rows() as int, board.spec_cols() as int),
{
    let r = board.is_full();
    proof {
        if r {
            assert forall|i: int, j: int| 0 <= i < board.spec_rows() && 0 <= j < board.spec_cols() implies #[trigger] board@[i][j]
                != Cell::Empty by {
                assert(board.in_bounds(i, j));
                assert(board.at(i, j) != Cell::Empty);
            }
        } else {
            let (i, j) = choose|i: int, j: int| board.in_bounds(i, j) && #[trigger] board.at(i, j) == Cell::Empty;
            assert(board@[i][j] == Cell::Empty);
        }
    }
    r
}

} // verus!

verus! {

/// A landing row is an empty cell of the column among the rows looked at.
pub proof fn lemma_grid_landing_empty(g: Seq<Seq<Cell>>, col: int, n: int)
    ensures
        grid_landing(g, col, n) is Some ==> 0 <= grid_landing(g, col, n).unwrap() < n && g[grid_landing(
            g,
            col,
            n,
        ).unwrap()][col] == Cell::Empty,
    decreases n,
{
    if n > 0 && g[n - 1][col] != Cell::Empty {
        lemma_grid_landing_empty(g, col, n - 1);
    }
}

/// Drops `cell` into `col` if the column has an empty cell: a copy of the
/// board with the piece in the column's bottommost empty cell.
pub fn drop_piece(board: &Board, col: usize, cell: Cell) -> (r: Option<Board>)
    requires
        board.wf(),
        col < board.spec_cols(),
    ensures
        grid_landing(board@, col as int, board.spec_rows() as int) is None ==> r is None,
        grid_landing(board@, col as int, board.spec_rows() as int) is Some ==> r is Some && r->Some_0.wf()
            && r->Some_0.spec_rows() == board.spec_rows() && r->Some_0.spec_cols() == board.spec_cols()
            && r->Some_0@ == grid_drop(board@, board.spec_rows() as int, col as int, cell),
{
    let ghost g = board@;
    let ghost rows = board.spec_rows() as int;
    match board.lowest_empty_row(col) {
        Some(row) => {
            proof {
                let w = choose|w: int| 0 <= w < rows && #[trigger] board.at(w, col as int) == Cell::Empty;
                board.lemma_lowest_empty(col as int, w);
                assert forall|k: int| row < k < rows implies #[trigger] g[k][col as int] != Cell::Empty by {
                    assert(board.at(k, col as int) != Cell::Empty);
                }
                lemma_grid_landing_unique(g, col as int, rows, row as int);
            }
            let mut out = board.clone();
            let _ = out.set_at(row, col, cell);
            Some(out)
        },
        None => {
            proof {
                lemma_grid_landing_empty(g, col as int, rows);
                if grid_landing(g, col as int, rows) is Some {
                    let w = grid_landing(g, col as int, rows).unwrap();
                    assert(board.at(w, col as int) == Cell::Empty);
                }
            }
            None
        },
    }
}

} // verus!

verus! {

/// The number of connected cells in a line that ends a search.
pub const SEARCH_LINE: usize = 4;

/// Checks whether a player has a winning line or the board is full.
pub fn is_terminal(board: &Board) -> (r: bool)
    requires
        board.wf(),
    ensures
        r == grid_terminal(board@, board.spec_rows() as int, board.spec_cols() as int, SEARCH_LINE as int),
{
    board.has_winning_line(Cell::Player1, SEARCH_LINE) || board.has_winning_line(Cell::Player2, SEARCH_LINE)
        || board_full(board)
}

/// The choice of a move at the root of a search, scanning the first `n`
/// columns left to right: the first column that can take a piece and whose
/// score beats every earlier one and `i32::MIN`, with its score.
pub open spec fn root_choice(valid: spec_fn(int) -> bool, score: spec_fn(int) -> int, n: int) -> (Option<int>, int)
    decreases n,
{
    if n <= 0 {
        (None, i32::MIN as int)
    } else {
        let prev = root_choice(valid, score, n - 1);
        if valid(n - 1) && score(n - 1) > prev.1 {
            (Some(n - 1), score(n - 1))
        } else {
            prev
        }
    }
}

/// A chosen column is one that can take a piece, and no column before the
/// end of the scan scores more.
pub proof fn lemma_root_choice(valid: spec_fn(int) -> bool, score: spec_fn(int) -> int, n: int)
    ensures
        root_choice(valid, score, n).0 matches Some(c) ==> 0 <= c < n && valid(c) && score(c) == root_choice(valid, score, n).1,
        forall|c: int| 0 <= c < n && valid(c) ==> #[trigger] score(c) <= root_choice(valid, score, n).1 || score(c) <= i32::MIN,
        root_choice(valid, score, n).1 >= i32::MIN,
    decreases n,
{
    if n > 0 {
        lemma_root_choice(valid, score, n - 1);
    }
}

} // verus!

verus! {

/// Every column is filled from the bottom: below an occupied cell every
/// cell is occupied, as on a board where pieces are only dropped.
pub open spec fn settled(g: Seq<Seq<Cell>>, rows: int, cols: int) -> bool {
    forall|r1: int, r2: int, c: int|
        0 <= r1 < r2 < rows && 0 <= c < cols && #[trigger] g[r1][c] != Cell::Empty ==> #[trigger] g[r2][c] != Cell::Empty
}

/// Whether every column of the board is filled from the bottom, as on a
/// board where pieces are only dropped.
pub fn board_is_settled(board: &Board) -> (r: bool)
    requires
        board.wf(),
    ensures
        r == settled(board@, board.spec_rows() as int, board.spec_cols() as int),
{
    let rows = board.rows();
    let cols = board.cols();
    let ghost g = board@;
    let mut c: usize = 0;
    while c < cols
        invariant
            board.wf(),
            g == board@,
            rows == board.spec_rows(),
            cols == board.spec_cols(),
            c <= cols,
            forall|r1: int, r2: int, c2: int|
                0 <= r1 < r2 < rows && 0 <= c2 < c && #[trigger] g[r1][c2] != Cell::Empty ==> #[trigger] g[r2][c2]
                    != Cell::Empty,
        decreases cols - c,
    {
        let mut seen = false;
        let ghost mut first: int = 0;
        let mut r: usize = 0;
        while r < rows
            invariant
                board.wf(),
                g == board@,
                rows == board.spec_rows(),
                cols == board.spec_cols(),
                c < cols,
                r <= rows,
                seen ==> 0 <= first < r && g[first][c as int] != Cell::Empty,
                !seen ==> forall|r1: int| 0 <= r1 < r ==> #[trigger] g[r1][c as int] == Cell::Empty,
                forall|r1: int, r2: int| 0 <= r1 < r2 < r && #[trigger] g[r1][c as int] != Cell::Empty ==> #[trigger] g[r2][c as int] != Cell::Empty,
            decreases rows - r,
        {
            let cell = match board.get_at(r, c) {
                Some(x) => x,
                None => Cell::Empty,
            };
            if cell != Cell::Empty {
                if !seen {
                    proof {
                        first = r as int;
                    }
                }
                seen = true;
            } else if seen {
                proof {
                    assert(g[first][c as int] != Cell::Empty && g[r as int][c as int] == Cell::Empty);
                    assert(!settled(g, rows as int, cols as int));
                }
                return false;
            }
            r = r + 1;
        }
        c = c + 1;
    }
    true
}

/// On a settled grid that is not full some column can take a piece.
pub proof fn lemma_settled_playable(g: Seq<Seq<Cell>>, rows: int, cols: int)
    requires
        settled(g, rows, cols),
        !grid_full(g, rows, cols),
    ensures
        exists|c: int| 0 <= c < cols && !grid_column_full(g, cols, c),
{
    let (i, j) = choose|i: int, j: int| 0 <= i < rows && 0 <= j < cols && #[trigger] g[i][j] == Cell::Empty;
    if g[0][j] != Cell::Empty {
        assert(g[i][j] != Cell::Empty);
    }
    assert(!grid_column_full(g, cols, j));
}

/// Dropping a piece into a playable column of a settled grid leaves it
/// settled.
pub proof fn lemma_drop_settled(g: Seq<Seq<Cell>>, rows: int, cols: int, col: int, cell: Cell)
    requires
        grid_shape(g, rows, cols),
        settled(g, rows, cols),
        0 <= col < cols,
        rows > 0,
        !grid_column_full(g, cols, col),
        cell != Cell::Empty,
    ensures
        settled(grid_drop(g, rows, col, cell), rows, cols),
        grid_shape(grid_drop(g, rows, col, cell), rows, cols),
{
    lemma_grid_landing(g, col, rows, 0);
    let r = grid_landing(g, col, rows).unwrap();
    let h = grid_drop(g, rows, col, cell);
    assert forall|r1: int, r2: int, c: int|
        0 <= r1 < r2 < rows && 0 <= c < cols && #[trigger] h[r1][c] != Cell::Empty implies #[trigger] h[r2][c] != Cell::Empty by {
        if c == col {
            if r1 < r {
                assert(g[r1][c] != Cell::Empty);
                assert(g[r][c] != Cell::Empty);
            }
            if r2 != r {
                if r2 < r {
                    assert(g[r1][c] != Cell::Empty);
                    assert(g[r2][c] != Cell::Empty);
                }
            }
        } else {
            assert(g[r1][c] != Cell::Empty);
        }
    }
}

} // verus!

verus! {

/// What a search with the window (`alpha`, `beta`) promises of its result
/// `r` and the true value `v`: a result at or below `alpha` is an upper
/// bound, one at or above `beta` a lower bound, and one strictly inside the
/// window is the value itself.
pub open spec fn fail_soft(r: int, v: int, alpha: int, beta: int) -> bool {
    &&& r <= alpha ==> v <= r
    &&& r >= beta ==> v >= r
    &&& alpha < r < beta ==> r == v
}

/// Within a window that contains the value, the search finds it exactly.
pub proof fn lemma_fail_soft_exact(r: int, v: int, alpha: int, beta: int)
    requires
        fail_soft(r, v, alpha, beta),
        alpha < v < beta,
    ensures
        r == v,
{
}

} // verus!
