//! The game board: a rectangular grid of cells, row 0 at the top.

use vstd::prelude::*;
use crate::cell::{Cell, spec_matches_player};
use crate::coordinates::{Position, Direction, spec_offset, spec_opposite, spec_apply, apply_in_range, signed_of};
use crate::text::{decimal, spec_decimal};
use std::hash::Hasher;

verus! {

/// A game board with configurable dimensions.
#[derive(PartialEq, Eq, Debug)]
pub struct Board {
    rows: usize,
    cols: usize,
    cells: Vec<Vec<Cell>>,
}

/// The grid is `rows` rows of `cols` cells each.
pub open spec fn grid_shape(g: Seq<Seq<Cell>>, rows: int, cols: int) -> bool {
    &&& g.len() == rows
    &&& forall|r: int| 0 <= r < rows ==> #[trigger] g[r].len() == cols
}

/// The number of cells in the first `n` rows of column `col` equal to `cell`.
pub open spec fn count_in_column(g: Seq<Seq<Cell>>, col: int, cell: Cell, n: int) -> nat
    decreases n,
{
    if n <= 0 {
        0
    } else {
        count_in_column(g, col, cell, n - 1) + (if g[n - 1][col] == cell { 1nat } else { 0nat })
    }
}

/// The number of cells of a row equal to `cell`.
pub open spec fn count_in_row(row: Seq<Cell>, cell: Cell) -> nat
    decreases row.len(),
{
    if row.len() == 0 {
        0
    } else {
        count_in_row(row.drop_last(), cell) + (if row.last() == cell { 1nat } else { 0nat })
    }
}

/// The number of cells of the first `n` rows equal to `cell`.
pub open spec fn count_in_grid(g: Seq<Seq<Cell>>, cell: Cell, n: int) -> nat
    decreases n,
{
    if n <= 0 {
        0
    } else {
        count_in_grid(g, cell, n - 1) + count_in_row(g[n - 1], cell)
    }
}

/// Counting cells of a row one more cell at a time.
pub proof fn lemma_count_in_row_step(row: Seq<Cell>, cell: Cell, c: int)
    requires
        0 <= c < row.len(),
    ensures
        count_in_row(row.subrange(0, c + 1), cell) == count_in_row(row.subrange(0, c), cell) + (if row[c]
            == cell {
            1nat
        } else {
            0nat
        }),
{
    assert(row.subrange(0, c + 1).drop_last() =~= row.subrange(0, c));
}

/// A row holds at most as many matching cells as it has cells, and none
/// exactly when no cell matches.
pub proof fn lemma_count_in_row_bounds(row: Seq<Cell>, cell: Cell)
    ensures
        count_in_row(row, cell) <= row.len(),
        (count_in_row(row, cell) == 0) == (forall|c: int| 0 <= c < row.len() ==> #[trigger] row[c] != cell),
        (count_in_row(row, cell) == row.len()) == (forall|c: int| 0 <= c < row.len() ==> #[trigger] row[c] == cell),
    decreases row.len(),
{
    if row.len() > 0 {
        lemma_count_in_row_bounds(row.drop_last(), cell);
        if count_in_row(row, cell) == 0 {
            assert forall|c: int| 0 <= c < row.len() implies #[trigger] row[c] != cell by {
                if c < row.len() - 1 {
                    assert(row.drop_last()[c] == row[c]);
                }
            }
        }
        if count_in_row(row, cell) == row.len() {
            assert forall|c: int| 0 <= c < row.len() implies #[trigger] row[c] == cell by {
                if c < row.len() - 1 {
                    assert(row.drop_last()[c] == row[c]);
                }
            }
        }
        if forall|c: int| 0 <= c < row.len() ==> #[trigger] row[c] != cell {
            assert forall|c: int| 0 <= c < row.len() - 1 implies #[trigger] row.drop_last()[c] != cell by {
                assert(row[c] != cell);
            }
        }
        if forall|c: int| 0 <= c < row.len() ==> #[trigger] row[c] == cell {
            assert forall|c: int| 0 <= c < row.len() - 1 implies #[trigger] row.drop_last()[c] == cell by {
                assert(row[c] == cell);
            }
        }
    }
}

/// The cells of a row holding a piece: the counts of the seven kinds of
/// piece added up.
pub open spec fn pieces_in_row(row: Seq<Cell>) -> nat {
    count_in_row(row, Cell::Player1) + count_in_row(row, Cell::Player2) + count_in_row(row, Cell::Blocker)
        + count_in_row(row, Cell::Explosive) + count_in_row(row, Cell::Wall) + count_in_row(row, Cell::Bomb)
        + count_in_row(row, Cell::Wild)
}

/// Every cell of a row is empty or holds one of the seven kinds of piece.
pub proof fn lemma_row_kinds(row: Seq<Cell>)
    ensures
        count_in_row(row, Cell::Empty) + pieces_in_row(row) == row.len(),
    decreases row.len(),
{
    if row.len() > 0 {
        lemma_row_kinds(row.drop_last());
    }
}

/// The cells of the first `n` rows holding a piece, kind by kind.
pub open spec fn pieces_in_grid(g: Seq<Seq<Cell>>, n: int) -> nat {
    count_in_grid(g, Cell::Player1, n) + count_in_grid(g, Cell::Player2, n) + count_in_grid(g, Cell::Blocker, n)
        + count_in_grid(g, Cell::Explosive, n) + count_in_grid(g, Cell::Wall, n) + count_in_grid(g, Cell::Bomb, n)
        + count_in_grid(g, Cell::Wild, n)
}

/// Every cell of the first `n` rows, of `cols` cells each, is empty or holds
/// one of the seven kinds of piece.
pub proof fn lemma_grid_kinds(g: Seq<Seq<Cell>>, n: int, cols: int)
    requires
        0 <= n <= g.len(),
        forall|r: int| 0 <= r < g.len() ==> #[trigger] g[r].len() == cols,
    ensures
        count_in_grid(g, Cell::Empty, n) + pieces_in_grid(g, n) == n * cols,
    decreases n,
{
    if n > 0 {
        lemma_grid_kinds(g, n - 1, cols);
        lemma_row_kinds(g[n - 1]);
        assert(g[n - 1].len() == cols);
        assert((n - 1) * cols + cols == n * cols) by (nonlinear_arith);
        assert(pieces_in_grid(g, n) == pieces_in_grid(g, n - 1) + pieces_in_row(g[n - 1]));
    } else {
        assert(n * cols == 0) by (nonlinear_arith)
            requires
                n == 0,
        ;
    }
}

/// The first `n` rows of a grid with `cols` columns hold at most `n * cols`
/// matching cells, and none exactly when no cell of them matches.
pub proof fn lemma_count_in_grid_bounds(g: Seq<Seq<Cell>>, cell: Cell, n: int, cols: int)
    requires
        0 <= n <= g.len(),
        cols >= 0,
        forall|r: int| 0 <= r < g.len() ==> #[trigger] g[r].len() == cols,
    ensures
        count_in_grid(g, cell, n) <= n * cols,
        (count_in_grid(g, cell, n) == 0) == (forall|r: int, c: int|
            0 <= r < n && 0 <= c < cols ==> #[trigger] g[r][c] != cell),
        (count_in_grid(g, cell, n) == n * cols) == (forall|r: int, c: int|
            0 <= r < n && 0 <= c < cols ==> #[trigger] g[r][c] == cell),
    decreases n,
{
    if n > 0 {
        lemma_count_in_grid_bounds(g, cell, n - 1, cols);
        lemma_count_in_row_bounds(g[n - 1], cell);
        assert(n * cols == (n - 1) * cols + cols) by (nonlinear_arith);
        if count_in_grid(g, cell, n) == 0 {
            assert forall|r: int, c: int| 0 <= r < n && 0 <= c < cols implies #[trigger] g[r][c] != cell by {
                if r < n - 1 {
                    assert(count_in_grid(g, cell, n - 1) == 0);
                } else {
                    assert(g[n - 1][c] != cell);
                }
            }
        }
        if count_in_grid(g, cell, n) == n * cols {
            assert(count_in_grid(g, cell, n - 1) == (n - 1) * cols);
            assert forall|r: int, c: int| 0 <= r < n && 0 <= c < cols implies #[trigger] g[r][c] == cell by {
                if r == n - 1 {
                    assert(g[n - 1][c] == cell);
                }
            }
        }
        if forall|r: int, c: int| 0 <= r < n && 0 <= c < cols ==> #[trigger] g[r][c] != cell {
            assert forall|c: int| 0 <= c < g[n - 1].len() implies #[trigger] g[n - 1][c] != cell by {}
        }
        if forall|r: int, c: int| 0 <= r < n && 0 <= c < cols ==> #[trigger] g[r][c] == cell {
            assert forall|c: int| 0 <= c < g[n - 1].len() implies #[trigger] g[n - 1][c] == cell by {}
        }
    } else {
        assert(n * cols == 0) by (nonlinear_arith) requires n == 0;
    }
}

/// The measure that a run shrinks at each step: how far the walk can still go
/// before it leaves the board along its direction.
pub open spec fn run_measure(rows: int, cols: int, r: int, c: int, dr: int, dc: int) -> int {
    if dr > 0 {
        rows - r
    } else if dr < 0 {
        r + 1
    } else if dc > 0 {
        cols - c
    } else {
        c + 1
    }
}

/// A position inside a grid of `rows` rows and `cols` columns.
pub open spec fn grid_in(rows: int, cols: int, r: int, c: int) -> bool {
    0 <= r < rows && 0 <= c < cols
}

/// How far a run reaches in a grid: the number of cells that follow
/// (`r`, `c`) one step at a time by (`dr`, `dc`) while they stay in the grid
/// and match `cell` (wild pieces match anything).
pub open spec fn grid_run(g: Seq<Seq<Cell>>, rows: int, cols: int, r: int, c: int, dr: int, dc: int, cell: Cell) -> nat
    decreases run_measure(rows, cols, r, c, dr, dc),
    when dr != 0 || dc != 0
{
    let nr = r + dr;
    let nc = c + dc;
    if grid_in(rows, cols, nr, nc) && spec_matches_player(g[nr][nc], cell) {
        1 + grid_run(g, rows, cols, nr, nc, dr, dc, cell)
    } else {
        0
    }
}

/// The matching cells on both sides of `start` along `d`, not counting
/// `start` (read with signed coordinates, as the steps are taken in `isize`).
pub open spec fn grid_count_bidirectional(g: Seq<Seq<Cell>>, rows: int, cols: int, start: Position, d: Direction, cell: Cell) -> nat {
    grid_run(
        g,
        rows,
        cols,
        signed_of(start.row),
        signed_of(start.col),
        spec_offset(d).row_offset as int,
        spec_offset(d).col_offset as int,
        cell,
    ) + grid_run(
        g,
        rows,
        cols,
        signed_of(start.row),
        signed_of(start.col),
        spec_offset(spec_opposite(d)).row_offset as int,
        spec_offset(spec_opposite(d)).col_offset as int,
        cell,
    )
}

/// The line through (`r`, `c`) along `d`, counting (`r`, `c`) itself, has at
/// least `length` matching cells.
pub open spec fn grid_line_at(g: Seq<Seq<Cell>>, rows: int, cols: int, r: int, c: int, d: Direction, cell: Cell, length: int) -> bool {
    grid_count_bidirectional(g, rows, cols, Position { row: r as usize, col: c as usize }, d, cell) + 1 >= length
}

/// Some cell of the grid holding `cell` starts, along some direction, a line
/// of at least `length` matching cells, itself included.
pub open spec fn grid_has_win(g: Seq<Seq<Cell>>, rows: int, cols: int, cell: Cell, length: int) -> bool {
    exists|r: int, c: int, d: Direction|
        grid_in(rows, cols, r, c) && g[r][c] == cell && #[trigger] grid_line_at(g, rows, cols, r, c, d, cell, length)
}

/// The row of the source cell used by each way of building a board:
/// 0 rotate clockwise, 1 rotate counter-clockwise, 2 transpose,
/// 3 flip horizontally, 4 flip vertically, 5 take a region.
pub open spec fn source_row(b: &Board, kind: u8, r0: int, i: int, j: int) -> int {
    if kind == 0 {
        b.spec_rows() - 1 - j
    } else if kind == 1 {
        j
    } else if kind == 2 {
        j
    } else if kind == 3 {
        i
    } else if kind == 4 {
        b.spec_rows() - 1 - i
    } else {
        r0 + i
    }
}

/// The column of the source cell used by each way of building a board.
pub open spec fn source_col(b: &Board, kind: u8, c0: int, i: int, j: int) -> int {
    if kind == 0 {
        i
    } else if kind == 1 {
        b.spec_cols() - 1 - i
    } else if kind == 2 {
        i
    } else if kind == 3 {
        b.spec_cols() - 1 - j
    } else if kind == 4 {
        j
    } else {
        c0 + j
    }
}

/// The source cell of (`i`, `j`) lies on the board.
pub open spec fn source_in_bounds(b: &Board, kind: u8, r0: int, c0: int, i: int, j: int) -> bool {
    b.in_bounds(source_row(b, kind, r0, i, j), source_col(b, kind, c0, i, j))
}

/// Two boards of the same size with the same cells.
pub open spec fn same_board(a: &Board, b: &Board) -> bool {
    &&& a.spec_rows() == b.spec_rows()
    &&& a.spec_cols() == b.spec_cols()
    &&& forall|i: int, j: int| #[trigger] a.in_bounds(i, j) ==> a.at(i, j) == b.at(i, j)
}

/// `b` is `a` turned 90 degrees clockwise.
pub open spec fn is_rotation_clockwise(a: &Board, b: &Board) -> bool {
    &&& b.spec_rows() == a.spec_cols()
    &&& b.spec_cols() == a.spec_rows()
    &&& forall|i: int, j: int| #[trigger] b.in_bounds(i, j) ==> b.at(i, j) == a.at(a.spec_rows() - 1 - j, i)
}

/// `b` is `a` turned 90 degrees counter-clockwise.
pub open spec fn is_rotation_counter_clockwise(a: &Board, b: &Board) -> bool {
    &&& b.spec_rows() == a.spec_cols()
    &&& b.spec_cols() == a.spec_rows()
    &&& forall|i: int, j: int| #[trigger] b.in_bounds(i, j) ==> b.at(i, j) == a.at(j, a.spec_cols() - 1 - i)
}

/// `b` is `a` with rows and columns swapped.
pub open spec fn is_transpose(a: &Board, b: &Board) -> bool {
    &&& b.spec_rows() == a.spec_cols()
    &&& b.spec_cols() == a.spec_rows()
    &&& forall|i: int, j: int| #[trigger] b.in_bounds(i, j) ==> b.at(i, j) == a.at(j, i)
}

/// `b` is `a` mirrored left to right.
pub open spec fn is_flip_horizontal(a: &Board, b: &Board) -> bool {
    &&& b.spec_rows() == a.spec_rows()
    &&& b.spec_cols() == a.spec_cols()
    &&& forall|i: int, j: int| #[trigger] b.in_bounds(i, j) ==> b.at(i, j) == a.at(i, a.spec_cols() - 1 - j)
}

/// `b` is `a` mirrored top to bottom.
pub open spec fn is_flip_vertical(a: &Board, b: &Board) -> bool {
    &&& b.spec_rows() == a.spec_rows()
    &&& b.spec_cols() == a.spec_cols()
    &&& forall|i: int, j: int| #[trigger] b.in_bounds(i, j) ==> b.at(i, j) == a.at(a.spec_rows() - 1 - i, j)
}

/// Flipping a board horizontally twice gives the board back; so does
/// flipping it vertically twice, or transposing it twice.
pub proof fn lemma_flip_twice(a: &Board, b: &Board, c: &Board)
    ensures
        is_flip_horizontal(a, b) && is_flip_horizontal(b, c) ==> same_board(a, c),
        is_flip_vertical(a, b) && is_flip_vertical(b, c) ==> same_board(a, c),
        is_transpose(a, b) && is_transpose(b, c) ==> same_board(a, c),
{
    if is_flip_horizontal(a, b) && is_flip_horizontal(b, c) {
        assert forall|i: int, j: int| #[trigger] a.in_bounds(i, j) implies a.at(i, j) == c.at(i, j) by {
            assert(c.in_bounds(i, j));
            assert(b.in_bounds(i, a.spec_cols() - 1 - j));
        }
    }
    if is_flip_vertical(a, b) && is_flip_vertical(b, c) {
        assert forall|i: int, j: int| #[trigger] a.in_bounds(i, j) implies a.at(i, j) == c.at(i, j) by {
            assert(c.in_bounds(i, j));
            assert(b.in_bounds(a.spec_rows() - 1 - i, j));
        }
    }
    if is_transpose(a, b) && is_transpose(b, c) {
        assert forall|i: int, j: int| #[trigger] a.in_bounds(i, j) implies a.at(i, j) == c.at(i, j) by {
            assert(c.in_bounds(i, j));
            assert(b.in_bounds(j, i));
        }
    }
}

/// Rotating clockwise and then counter-clockwise (or the other way round)
/// gives the board back.
pub proof fn lemma_rotate_back(a: &Board, b: &Board, c: &Board)
    ensures
        is_rotation_clockwise(a, b) && is_rotation_counter_clockwise(b, c) ==> same_board(a, c),
        is_rotation_counter_clockwise(a, b) && is_rotation_clockwise(b, c) ==> same_board(a, c),
{
    if is_rotation_clockwise(a, b) && is_rotation_counter_clockwise(b, c) {
        assert forall|i: int, j: int| #[trigger] a.in_bounds(i, j) implies a.at(i, j) == c.at(i, j) by {
            assert(c.in_bounds(i, j));
            assert(b.in_bounds(j, b.spec_cols() - 1 - i));
        }
    }
    if is_rotation_counter_clockwise(a, b) && is_rotation_clockwise(b, c) {
        assert forall|i: int, j: int| #[trigger] a.in_bounds(i, j) implies a.at(i, j) == c.at(i, j) by {
            assert(c.in_bounds(i, j));
            assert(b.in_bounds(b.spec_rows() - 1 - j, i));
        }
    }
}

/// Four clockwise rotations give the board back.
pub proof fn lemma_rotate_four_times(a: &Board, b: &Board, c: &Board, d: &Board, e: &Board)
    requires
        is_rotation_clockwise(a, b),
        is_rotation_clockwise(b, c),
        is_rotation_clockwise(c, d),
        is_rotation_clockwise(d, e),
    ensures
        same_board(a, e),
{
    assert forall|i: int, j: int| #[trigger] a.in_bounds(i, j) implies a.at(i, j) == e.at(i, j) by {
        assert(e.in_bounds(i, j));
        assert(d.in_bounds(d.spec_rows() - 1 - j, i));
        assert(c.in_bounds(c.spec_rows() - 1 - i, d.spec_rows() - 1 - j));
        assert(b.in_bounds(b.spec_rows() - 1 - (d.spec_rows() - 1 - j), c.spec_rows() - 1 - i));
    }
}

/// The positions, in order, of the listed cells equal to `cell`.
pub open spec fn select_positions(es: Seq<(Position, Cell)>, cell: Cell) -> Seq<Position>
    decreases es.len(),
{
    if es.len() == 0 {
        seq![]
    } else {
        select_positions(es.drop_last(), cell) + (if es.last().1 == cell {
            seq![es.last().0]
        } else {
            seq![]
        })
    }
}

/// The first `n` listed cells whose flag in `keep` is set, in order.
pub open spec fn select_kept(es: Seq<(Position, Cell)>, keep: Seq<bool>, n: int) -> Seq<(Position, Cell)>
    decreases n,
{
    if n <= 0 {
        seq![]
    } else {
        select_kept(es, keep, n - 1) + (if keep[n - 1] {
            seq![es[n - 1]]
        } else {
            seq![]
        })
    }
}

/// Only the first `n` flags matter to the first `n` selected cells.
proof fn lemma_select_kept_prefix(es: Seq<(Position, Cell)>, a: Seq<bool>, b: Seq<bool>, n: int)
    requires
        n <= b.len(),
        n <= a.len(),
        forall|i: int| 0 <= i < n ==> a[i] == b[i],
    ensures
        select_kept(es, a, n) == select_kept(es, b, n),
    decreases n,
{
    if n > 0 {
        lemma_select_kept_prefix(es, a, b, n - 1);
    }
}

/// The listed cells that are not empty, in order.
pub open spec fn select_occupied(es: Seq<(Position, Cell)>) -> Seq<(Position, Cell)>
    decreases es.len(),
{
    if es.len() == 0 {
        seq![]
    } else {
        select_occupied(es.drop_last()) + (if es.last().1 != Cell::Empty {
            seq![es.last()]
        } else {
            seq![]
        })
    }
}

impl View for Board {
    type V = Seq<Seq<Cell>>;

    /// The cells, row by row.
    closed spec fn view(&self) -> Seq<Seq<Cell>> {
        Seq::new(self.cells@.len(), |r: int| self.cells@[r]@)
    }
}

impl Board {
    /// The number of rows.
    pub closed spec fn spec_rows(&self) -> usize {
        self.rows
    }

    /// The number of columns.
    pub closed spec fn spec_cols(&self) -> usize {
        self.cols
    }

    /// The board is a grid of the stated size, small enough to be held in
    /// memory (each dimension and the number of cells fit in `isize`).
    pub open spec fn wf(&self) -> bool {
        &&& grid_shape(self@, self.spec_rows() as int, self.spec_cols() as int)
        &&& self.spec_rows() <= isize::MAX
        &&& self.spec_cols() <= isize::MAX
        &&& self.spec_rows() * self.spec_cols() <= isize::MAX
    }

    /// The cell at a row and column.
    pub open spec fn at(&self, r: int, c: int) -> Cell {
        self@[r][c]
    }

    /// A position inside the board.
    pub open spec fn in_bounds(&self, r: int, c: int) -> bool {
        0 <= r < self.spec_rows() && 0 <= c < self.spec_cols()
    }

    /// Every cell of the board holds `cell`.
    pub open spec fn all_cells(&self, cell: Cell) -> bool {
        forall|r: int, c: int| self.in_bounds(r, c) ==> #[trigger] self.at(r, c) == cell
    }

    /// The cell at a position, if it is on the board.
    pub open spec fn spec_get(&self, r: int, c: int) -> Option<Cell> {
        if self.in_bounds(r, c) {
            Some(self.at(r, c))
        } else {
            None
        }
    }

    /// `other` is this board with the cell at (`r`, `c`) replaced by `cell`.
    pub open spec fn updated(&self, other: &Board, r: int, c: int, cell: Cell) -> bool {
        &&& other.spec_rows() == self.spec_rows()
        &&& other.spec_cols() == self.spec_cols()
        &&& other@ == self@.update(r, self@[r].update(c, cell))
    }

    /// Creates an empty board with the given dimensions.
    pub fn new(rows: usize, cols: usize) -> (r: Self)
        requires
            rows <= isize::MAX,
            cols <= isize::MAX,
            rows * cols <= isize::MAX,
        ensures
            r.wf(),
            r.spec_rows() == rows,
            r.spec_cols() == cols,
            r.all_cells(Cell::Empty),
    {
        let mut cells: Vec<Vec<Cell>> = Vec::new();
        let mut i: usize = 0;
        while i < rows
            invariant
                i <= rows,
                cells@.len() == i,
                forall|k: int| 0 <= k < i ==> #[trigger] cells@[k]@ == Seq::new(cols as nat, |c: int| Cell::Empty),
            decreases rows - i,
        {
            let mut row: Vec<Cell> = Vec::new();
            let mut j: usize = 0;
            while j < cols
                invariant
                    j <= cols,
                    row@ == Seq::new(j as nat, |c: int| Cell::Empty),
                decreases cols - j,
            {
                row.push(Cell::Empty);
                j = j + 1;
                assert(row@ =~= Seq::new(j as nat, |c: int| Cell::Empty));
            }
            cells.push(row);
            i = i + 1;
        }
        let b = Board { rows, cols, cells };
        proof {
            b.lemma_view();
        }
        b
    }

    /// Creates a standard Connect Four board (6 rows, 7 columns).
    pub fn standard() -> (r: Self)
        ensures
            r.wf(),
            r.spec_rows() == 6,
            r.spec_cols() == 7,
            r.all_cells(Cell::Empty),
    {
        Self::new(6, 7)
    }

    /// Creates a board holding a copy of the given rows. An empty list of
    /// rows, or rows of different lengths, are refused.
    pub fn from_cells(cells: &[Vec<Cell>]) -> (r: Result<Self, String>)
        requires
            cells@.len() <= isize::MAX,
            cells@.len() > 0 ==> cells@.len() * cells@[0]@.len() <= isize::MAX,
        ensures
            cells@.len() == 0 ==> r is Err && r->Err_0@ == "Board cannot be empty"@,
            cells@.len() > 0 && (exists|i: int| 0 <= i < cells@.len() && #[trigger] cells@[i]@.len() != cells@[0]@.len())
                ==> r is Err && r->Err_0@ == "All rows must have the same length"@,
            cells@.len() > 0 && (forall|i: int| 0 <= i < cells@.len() ==> #[trigger] cells@[i]@.len() == cells@[0]@.len())
                ==> r is Ok && r->Ok_0.wf() && r->Ok_0.spec_rows() == cells@.len()
                    && r->Ok_0.spec_cols() == cells@[0]@.len()
                    && r->Ok_0@ == Seq::new(cells@.len(), |i: int| cells@[i]@),
    {
        if cells.len() == 0 {
            return Err(String::from_str("Board cannot be empty"));
        }
        let rows = cells.len();
        let cols = cells[0].len();
        let mut i: usize = 0;
        while i < rows
            invariant
                rows == cells@.len(),
                cols == cells@[0]@.len(),
                i <= rows,
                forall|k: int| 0 <= k < i ==> #[trigger] cells@[k]@.len() == cols,
            decreases rows - i,
        {
            if cells[i].len() != cols {
                return Err(String::from_str("All rows must have the same length"));
            }
            i = i + 1;
        }
        proof {
            if cols > isize::MAX {
                assert(rows * cols >= cols) by (nonlinear_arith)
                    requires rows >= 1;
            }
        }
        let mut copy: Vec<Vec<Cell>> = Vec::new();
        let mut k: usize = 0;
        while k < rows
            invariant
                rows == cells@.len(),
                cols == cells@[0]@.len(),
                k <= rows,
                forall|m: int| 0 <= m < rows ==> #[trigger] cells@[m]@.len() == cols,
                copy@.len() == k,
                forall|m: int| 0 <= m < k ==> #[trigger] copy@[m]@ == cells@[m]@,
            decreases rows - k,
        {
            let mut row: Vec<Cell> = Vec::new();
            let mut j: usize = 0;
            while j < cols
                invariant
                    rows == cells@.len(),
                    k < rows,
                    cols == cells@[k as int]@.len(),
                    j <= cols,
                    row@ == cells@[k as int]@.subrange(0, j as int),
                decreases cols - j,
            {
                row.push(cells[k][j]);
                j = j + 1;
                assert(row@ =~= cells@[k as int]@.subrange(0, j as int));
            }
            assert(row@ =~= cells@[k as int]@);
            copy.push(row);
            k = k + 1;
        }
        let b = Board { rows, cols, cells: copy };
        proof {
            b.lemma_view();
            assert(b@ =~= Seq::new(cells@.len(), |i: int| cells@[i]@));
        }
        Ok(b)
    }

    /// Returns the number of rows.
    pub fn rows(&self) -> (r: usize)
        ensures
            r == self.spec_rows(),
    {
        self.rows
    }

    /// Returns the number of columns.
    pub fn cols(&self) -> (r: usize)
        ensures
            r == self.spec_cols(),
    {
        self.cols
    }

    /// Returns the dimensions as a tuple (rows, cols).
    pub fn dimensions(&self) -> (r: (usize, usize))
        ensures
            r == (self.spec_rows(), self.spec_cols()),
    {
        (self.rows, self.cols)
    }

    /// Returns the total number of cells.
    pub fn size(&self) -> (r: usize)
        requires
            self.wf(),
        ensures
            r == self.spec_rows() * self.spec_cols(),
    {
        self.rows * self.cols
    }

    /// Checks if a position is on this board.
    pub fn is_valid_position(&self, pos: &Position) -> (r: bool)
        ensures
            r == self.in_bounds(pos.row as int, pos.col as int),
    {
        pos.row < self.rows && pos.col < self.cols
    }

    /// Gets the cell at the given position, if it is on the board.
    pub fn get(&self, pos: &Position) -> (r: Option<Cell>)
        requires
            self.wf(),
        ensures
            r == self.spec_get(pos.row as int, pos.col as int),
    {
        proof {
            self.lemma_view();
        }
        if self.is_valid_position(pos) {
            Some(self.cells[pos.row][pos.col])
        } else {
            None
        }
    }

    /// Gets the cell at the given row and column, if it is on the board.
    pub fn get_at(&self, row: usize, col: usize) -> (r: Option<Cell>)
        requires
            self.wf(),
        ensures
            r == self.spec_get(row as int, col as int),
    {
        proof {
            self.lemma_view();
        }
        if row < self.rows && col < self.cols {
            Some(self.cells[row][col])
        } else {
            None
        }
    }

    /// Sets the cell at the given position; a position off the board is an
    /// error that names it and leaves the board unchanged.
    pub fn set(&mut self, pos: &Position, cell: Cell) -> (r: Result<(), String>)
        requires
            old(self).wf(),
        ensures
            final(self).wf(),
            old(self).in_bounds(pos.row as int, pos.col as int) ==> r is Ok && old(self).updated(
                &*final(self),
                pos.row as int,
                pos.col as int,
                cell,
            ),
            !old(self).in_bounds(pos.row as int, pos.col as int) ==> r is Err && *final(self) == *old(self)
                && r->Err_0@ == "Invalid position: Position { row: "@ + spec_decimal(pos.row as nat)
                + ", col: "@ + spec_decimal(pos.col as nat) + " }"@,
    {
        if self.is_valid_position(pos) {
            self.write(pos.row, pos.col, cell);
            Ok(())
        } else {
            let mut s = String::from_str("Invalid position: Position { row: ");
            let a = decimal(pos.row as u64);
            s.append(a.as_str());
            s.append(", col: ");
            let b = decimal(pos.col as u64);
            s.append(b.as_str());
            s.append(" }");
            Err(s)
        }
    }

    /// Sets the cell at the given row and column; a position off the board is
    /// an error that names it and leaves the board unchanged.
    pub fn set_at(&mut self, row: usize, col: usize, cell: Cell) -> (r: Result<(), String>)
        requires
            old(self).wf(),
        ensures
            final(self).wf(),
            old(self).in_bounds(row as int, col as int) ==> r is Ok && old(self).updated(
                &*final(self),
                row as int,
                col as int,
                cell,
            ),
            !old(self).in_bounds(row as int, col as int) ==> r is Err && *final(self) == *old(self)
                && r->Err_0@ == "Invalid position: ("@ + spec_decimal(row as nat) + ", "@ + spec_decimal(
                col as nat,
            ) + ")"@,
    {
        if row < self.rows && col < self.cols {
            self.write(row, col, cell);
            Ok(())
        } else {
            let mut s = String::from_str("Invalid position: (");
            let a = decimal(row as u64);
            s.append(a.as_str());
            s.append(", ");
            let b = decimal(col as u64);
            s.append(b.as_str());
            s.append(")");
            Err(s)
        }
    }

    /// Writes a cell inside the board.
    fn write(&mut self, row: usize, col: usize, cell: Cell)
        requires
            old(self).wf(),
            old(self).in_bounds(row as int, col as int),
        ensures
            final(self).wf(),
            old(self).updated(&*final(self), row as int, col as int, cell),
    {
        proof {
            self.lemma_view();
        }
        let mut line: Vec<Cell> = Vec::new();
        assert(self@[row as int].len() == self.cols);
        self.cells.set_and_swap(row, &mut line);
        assert(line@ == old(self)@[row as int]);
        line.set(col, cell);
        self.cells.set_and_swap(row, &mut line);
        proof {
            self.lemma_view();
            assert(self@ =~= old(self)@.update(row as int, old(self)@[row as int].update(col as int, cell)));
        }
    }

    /// Sets every cell of the board to `Empty`.
    pub fn clear(&mut self)
        requires
            old(self).wf(),
        ensures
            final(self).wf(),
            final(self).spec_rows() == old(self).spec_rows(),
            final(self).spec_cols() == old(self).spec_cols(),
            final(self).all_cells(Cell::Empty),
    {
        let mut r: usize = 0;
        while r < self.rows
            invariant
                self.wf(),
                self.spec_rows() == old(self).spec_rows(),
                self.spec_cols() == old(self).spec_cols(),
                r <= self.rows,
                forall|i: int, j: int| 0 <= i < r && 0 <= j < self.cols ==> #[trigger] self.at(i, j) == Cell::Empty,
            decreases self.rows - r,
        {
            let mut c: usize = 0;
            while c < self.cols
                invariant
                    self.wf(),
                    self.spec_rows() == old(self).spec_rows(),
                    self.spec_cols() == old(self).spec_cols(),
                    r < self.rows,
                    c <= self.cols,
                    forall|i: int, j: int| 0 <= i < r && 0 <= j < self.cols ==> #[trigger] self.at(i, j) == Cell::Empty,
                    forall|j: int| 0 <= j < c ==> #[trigger] self.at(r as int, j) == Cell::Empty,
                decreases self.cols - c,
            {
                let ghost before = *self;
                self.write(r, c, Cell::Empty);
                proof {
                    before.lemma_updated_at(self, r as int, c as int, Cell::Empty);
                }
                c = c + 1;
            }
            r = r + 1;
        }
    }

    /// Clears a specific cell; a position off the board is an error.
    pub fn clear_cell(&mut self, pos: &Position) -> (r: Result<(), String>)
        requires
            old(self).wf(),
        ensures
            final(self).wf(),
            old(self).in_bounds(pos.row as int, pos.col as int) ==> r is Ok && old(self).updated(
                &*final(self),
                pos.row as int,
                pos.col as int,
                Cell::Empty,
            ),
            !old(self).in_bounds(pos.row as int, pos.col as int) ==> r is Err && *final(self) == *old(self),
    {
        self.set(pos, Cell::Empty)
    }

    /// Clears a specific cell by coordinates; a position off the board is an error.
    pub fn clear_cell_at(&mut self, row: usize, col: usize) -> (r: Result<(), String>)
        requires
            old(self).wf(),
        ensures
            final(self).wf(),
            old(self).in_bounds(row as int, col as int) ==> r is Ok && old(self).updated(
                &*final(self),
                row as int,
                col as int,
                Cell::Empty,
            ),
            !old(self).in_bounds(row as int, col as int) ==> r is Err && *final(self) == *old(self),
    {
        self.set_at(row, col, Cell::Empty)
    }

    /// Checks if the cell at a position is on the board and empty.
    pub fn is_empty(&self, pos: &Position) -> (r: bool)
        requires
            self.wf(),
        ensures
            r == (self.in_bounds(pos.row as int, pos.col as int) && self.at(pos.row as int, pos.col as int)
                == Cell::Empty),
    {
        match self.get(pos) {
            Some(c) => c == Cell::Empty,
            None => false,
        }
    }

    /// Checks if the cell at the given coordinates is on the board and empty.
    pub fn is_empty_at(&self, row: usize, col: usize) -> (r: bool)
        requires
            self.wf(),
        ensures
            r == (self.in_bounds(row as int, col as int) && self.at(row as int, col as int) == Cell::Empty),
    {
        match self.get_at(row, col) {
            Some(c) => c == Cell::Empty,
            None => false,
        }
    }

    /// A column is full when it is off the board or its top cell is occupied.
    pub open spec fn spec_column_full(&self, col: int) -> bool {
        col >= self.spec_cols() || self.at(0, col) != Cell::Empty
    }

    /// Checks if a column is full (off the board, or its top cell is not empty).
    pub fn is_column_full(&self, col: usize) -> (r: bool)
        requires
            self.wf(),
            col < self.spec_cols() ==> self.spec_rows() > 0,
        ensures
            r == self.spec_column_full(col as int),
    {
        if col >= self.cols {
            return true;
        }
        proof {
            self.lemma_row(0);
        }
        self.cells[0][col] != Cell::Empty
    }

    /// Some column on the board can take a move.
    pub open spec fn spec_has_valid_column(&self) -> bool {
        exists|c: int| 0 <= c < self.spec_cols() && !#[trigger] self.spec_column_full(c)
    }

    /// Checks if any column is valid for a move.
    pub fn has_valid_column(&self) -> (r: bool)
        requires
            self.wf(),
            self.spec_cols() > 0 ==> self.spec_rows() > 0,
        ensures
            r == self.spec_has_valid_column(),
    {
        let mut col: usize = 0;
        while col < self.cols
            invariant
                self.wf(),
                self.spec_cols() > 0 ==> self.spec_rows() > 0,
                col <= self.cols,
                forall|c: int| 0 <= c < col ==> #[trigger] self.spec_column_full(c),
            decreases self.cols - col,
        {
            if !self.is_column_full(col) {
                return true;
            }
            col = col + 1;
        }
        false
    }

    /// Returns the number of empty cells in a column (0 for a column off the board).
    pub fn column_empty_count(&self, col: usize) -> (r: usize)
        requires
            self.wf(),
        ensures
            col >= self.spec_cols() ==> r == 0,
            col < self.spec_cols() ==> r == count_in_column(self@, col as int, Cell::Empty, self.spec_rows() as int),
    {
        if col >= self.cols {
            return 0;
        }
        self.count_column(col, Cell::Empty)
    }

    /// Returns the number of pieces in a column (0 for a column off the board).
    pub fn column_piece_count(&self, col: usize) -> (r: usize)
        requires
            self.wf(),
        ensures
            col >= self.spec_cols() ==> r == 0,
            col < self.spec_cols() ==> r == self.spec_rows() - count_in_column(
                self@,
                col as int,
                Cell::Empty,
                self.spec_rows() as int,
            ),
    {
        if col >= self.cols {
            return 0;
        }
        let empty = self.count_column(col, Cell::Empty);
        self.rows - empty
    }

    /// Counts the cells of a column equal to `cell`.
    fn count_column(&self, col: usize, cell: Cell) -> (r: usize)
        requires
            self.wf(),
            col < self.spec_cols(),
        ensures
            r == count_in_column(self@, col as int, cell, self.spec_rows() as int),
            r <= self.spec_rows(),
    {
        proof {
            self.lemma_view();
        }
        let mut count: usize = 0;
        let mut row: usize = 0;
        while row < self.rows
            invariant
                self.wf(),
                col < self.cols,
                row <= self.rows,
                count == count_in_column(self@, col as int, cell, row as int),
                count <= row,
            decreases self.rows - row,
        {
            proof {
                self.lemma_row(row as int);
            }
            if self.cells[row][col] == cell {
                count = count + 1;
            }
            row = row + 1;
        }
        count
    }

    /// Returns the lowest empty row in a column: where a dropped piece lands.
    pub fn lowest_empty_row(&self, col: usize) -> (r: Option<usize>)
        requires
            self.wf(),
        ensures
            r == self.spec_lowest_empty_row(col as int),
    {
        if col >= self.cols {
            return None;
        }
        proof {
            self.lemma_view();
        }
        let mut row: usize = self.rows;
        while row > 0
            invariant
                self.wf(),
                col < self.cols,
                row <= self.rows,
                forall|k: int| row <= k < self.rows ==> #[trigger] self.at(k, col as int) != Cell::Empty,
            decreases row,
        {
            row = row - 1;
            proof {
                self.lemma_row(row as int);
            }
            if self.cells[row][col] == Cell::Empty {
                proof {
                    self.lemma_lowest_empty_is(col as int, row as int);
                }
                return Some(row);
            }
        }
        proof {
            self.lemma_lowest_empty_none(col as int);
        }
        None
    }

    /// The row where a piece dropped into `col` lands: the largest empty row
    /// of the column, if there is one.
    pub open spec fn spec_lowest_empty_row(&self, col: int) -> Option<usize>
        recommends
            self.wf(),
    {
        if 0 <= col < self.spec_cols() && exists|r: int| 0 <= r < self.spec_rows() && #[trigger] self.at(r, col)
            == Cell::Empty {
            let r = choose|r: int|
                0 <= r < self.spec_rows() && self.at(r, col) == Cell::Empty && (forall|k: int|
                    r < k < self.spec_rows() ==> #[trigger] self.at(k, col) != Cell::Empty);
            Some(r as usize)
        } else {
            None
        }
    }

    /// When a column has an empty cell `w`, the landing row is an empty cell
    /// at or below `w` with only occupied cells below it.
    pub proof fn lemma_lowest_empty(&self, col: int, w: int)
        requires
            self.wf(),
            0 <= col < self.spec_cols(),
            0 <= w < self.spec_rows(),
            self.at(w, col) == Cell::Empty,
        ensures
            self.spec_lowest_empty_row(col) is Some,
            ({
                let r = self.spec_lowest_empty_row(col).unwrap() as int;
                &&& w <= r < self.spec_rows()
                &&& self.at(r, col) == Cell::Empty
                &&& forall|k: int| r < k < self.spec_rows() ==> #[trigger] self.at(k, col) != Cell::Empty
            }),
    {
        let r0 = self.lemma_landing_exists(col, w);
        assert(0 <= r0 < self.spec_rows() && self.at(r0, col) == Cell::Empty && (forall|k: int|
            r0 < k < self.spec_rows() ==> #[trigger] self.at(k, col) != Cell::Empty));
        let r = self.spec_lowest_empty_row(col).unwrap() as int;
        if r < w {
            assert(self.at(w, col) != Cell::Empty);
        }
    }

    /// An empty cell of a column has, at or below it, an empty cell with only
    /// occupied cells below.
    proof fn lemma_landing_exists(&self, col: int, w: int) -> (r: int)
        requires
            self.wf(),
            0 <= col < self.spec_cols(),
            0 <= w < self.spec_rows(),
            self.at(w, col) == Cell::Empty,
        ensures
            w <= r < self.spec_rows(),
            self.at(r, col) == Cell::Empty,
            forall|k: int| r < k < self.spec_rows() ==> #[trigger] self.at(k, col) != Cell::Empty,
        decreases self.spec_rows() - w,
    {
        if exists|k: int| w < k < self.spec_rows() && #[trigger] self.at(k, col) == Cell::Empty {
            let k = choose|k: int| w < k < self.spec_rows() && #[trigger] self.at(k, col) == Cell::Empty;
            self.lemma_landing_exists(col, k)
        } else {
            w
        }
    }

    proof fn lemma_lowest_empty_is(&self, col: int, row: int)
        requires
            self.wf(),
            0 <= col < self.spec_cols(),
            0 <= row < self.spec_rows(),
            self.at(row, col) == Cell::Empty,
            forall|k: int| row < k < self.spec_rows() ==> #[trigger] self.at(k, col) != Cell::Empty,
        ensures
            self.spec_lowest_empty_row(col) == Some(row as usize),
    {
        let r = choose|r: int|
            0 <= r < self.spec_rows() && self.at(r, col) == Cell::Empty && (forall|k: int|
                r < k < self.spec_rows() ==> #[trigger] self.at(k, col) != Cell::Empty);
        assert(0 <= r < self.spec_rows() && self.at(r, col) == Cell::Empty && (forall|k: int|
            r < k < self.spec_rows() ==> #[trigger] self.at(k, col) != Cell::Empty));
        if r < row {
            assert(self.at(row, col) != Cell::Empty);
        }
        if r > row {
            assert(self.at(r, col) != Cell::Empty);
        }
    }

    proof fn lemma_lowest_empty_none(&self, col: int)
        requires
            self.wf(),
            0 <= col < self.spec_cols(),
            forall|k: int| 0 <= k < self.spec_rows() ==> #[trigger] self.at(k, col) != Cell::Empty,
        ensures
            self.spec_lowest_empty_row(col) is None,
    {
    }

    /// The topmost occupied row of a column, if there is one.
    pub open spec fn spec_highest_occupied_row(&self, col: int) -> Option<usize> {
        if 0 <= col < self.spec_cols() && exists|r: int| 0 <= r < self.spec_rows() && #[trigger] self.at(r, col)
            != Cell::Empty {
            let r = choose|r: int|
                0 <= r < self.spec_rows() && self.at(r, col) != Cell::Empty && (forall|k: int|
                    0 <= k < r ==> #[trigger] self.at(k, col) == Cell::Empty);
            Some(r as usize)
        } else {
            None
        }
    }

    /// Returns the highest occupied row in a column.
    pub fn highest_occupied_row(&self, col: usize) -> (r: Option<usize>)
        requires
            self.wf(),
        ensures
            r == self.spec_highest_occupied_row(col as int),
    {
        if col >= self.cols {
            return None;
        }
        let mut row: usize = 0;
        while row < self.rows
            invariant
                self.wf(),
                col < self.cols,
                row <= self.rows,
                forall|k: int| 0 <= k < row ==> #[trigger] self.at(k, col as int) == Cell::Empty,
            decreases self.rows - row,
        {
            proof {
                self.lemma_row(row as int);
            }
            if self.cells[row][col] != Cell::Empty {
                proof {
                    let r = choose|r: int|
                        0 <= r < self.spec_rows() && self.at(r, col as int) != Cell::Empty && (forall|k: int|
                            0 <= k < r ==> #[trigger] self.at(k, col as int) == Cell::Empty);
                    assert(self.at(row as int, col as int) != Cell::Empty && (forall|k: int|
                        0 <= k < row ==> #[trigger] self.at(k, col as int) == Cell::Empty));
                    if r < row {
                        assert(self.at(r, col as int) == Cell::Empty);
                    }
                    if r > row {
                        assert(self.at(row as int, col as int) == Cell::Empty);
                    }
                }
                return Some(row);
            }
            row = row + 1;
        }
        None
    }

    /// The number of cells of the board equal to `cell`.
    pub open spec fn spec_count(&self, cell: Cell) -> nat {
        count_in_grid(self@, cell, self.spec_rows() as int)
    }

    /// Counts how many cells of a given type are on the board.
    pub fn count_cells(&self, cell: Cell) -> (r: usize)
        requires
            self.wf(),
        ensures
            r == self.spec_count(cell),
            r <= self.spec_rows() * self.spec_cols(),
    {
        let mut count: usize = 0;
        let mut row: usize = 0;
        while row < self.rows
            invariant
                self.wf(),
                row <= self.rows,
                count == count_in_grid(self@, cell, row as int),
                count <= row * self.cols,
            decreases self.rows - row,
        {
            proof {
                self.lemma_row(row as int);
                lemma_count_in_grid_bounds(self@, cell, row as int, self.cols as int);
                assert((row + 1) * self.cols <= self.rows * self.cols) by (nonlinear_arith)
                    requires row < self.rows;
                assert((row + 1) * self.cols == row * self.cols + self.cols) by (nonlinear_arith);
            }
            let mut col: usize = 0;
            let ghost base = count;
            while col < self.cols
                invariant
                    self.wf(),
                    row < self.rows,
                    col <= self.cols,
                    (row + 1) * self.cols <= self.rows * self.cols,
                    base == count_in_grid(self@, cell, row as int),
                    base <= row * self.cols,
                    count == base + count_in_row(self@[row as int].subrange(0, col as int), cell),
                    count <= base + col,
                    self.cells@[row as int]@ == self@[row as int],
                    self.cells@[row as int]@.len() == self.cols,
                decreases self.cols - col,
            {
                proof {
                    lemma_count_in_row_step(self@[row as int], cell, col as int);
                    assert((row + 1) * self.cols == row * self.cols + self.cols) by (nonlinear_arith);
                }
                if self.cells[row][col] == cell {
                    count = count + 1;
                }
                col = col + 1;
            }
            proof {
                assert(self@[row as int].subrange(0, self.cols as int) =~= self@[row as int]);
                assert((row + 1) * self.cols == row * self.cols + self.cols) by (nonlinear_arith);
            }
            row = row + 1;
        }
        count
    }

    /// Counts empty cells on the board.
    pub fn empty_count(&self) -> (r: usize)
        requires
            self.wf(),
        ensures
            r == self.spec_count(Cell::Empty),
            r <= self.spec_rows() * self.spec_cols(),
    {
        self.count_cells(Cell::Empty)
    }

    /// Counts occupied cells on the board.
    pub fn occupied_count(&self) -> (r: usize)
        requires
            self.wf(),
        ensures
            r == self.spec_rows() * self.spec_cols() - self.spec_count(Cell::Empty),
    {
        let size = self.size();
        let empty = self.empty_count();
        size - empty
    }

    /// The occupied cells are those holding one of the seven kinds of piece:
    /// their counts add up to the size less the empty cells, and the board is
    /// full exactly when the occupied cells are as many as its size.
    pub proof fn lemma_occupied_kinds(&self)
        requires
            self.wf(),
        ensures
            self.spec_count(Cell::Player1) + self.spec_count(Cell::Player2) + self.spec_count(Cell::Blocker)
                + self.spec_count(Cell::Explosive) + self.spec_count(Cell::Wall) + self.spec_count(Cell::Bomb)
                + self.spec_count(Cell::Wild) == self.spec_rows() * self.spec_cols() - self.spec_count(Cell::Empty),
            self.spec_count(Cell::Empty) <= self.spec_rows() * self.spec_cols(),
            (self.spec_count(Cell::Empty) == 0) <==> (self.spec_rows() * self.spec_cols() - self.spec_count(Cell::Empty)
                == self.spec_rows() * self.spec_cols()),
    {
        lemma_grid_kinds(self@, self.spec_rows() as int, self.spec_cols() as int);
    }

    /// Checks if the board is completely empty.
    pub fn is_empty_board(&self) -> (r: bool)
        requires
            self.wf(),
        ensures
            r == self.all_cells(Cell::Empty),
    {
        let mut row: usize = 0;
        while row < self.rows
            invariant
                self.wf(),
                row <= self.rows,
                forall|i: int, j: int| 0 <= i < row && 0 <= j < self.cols ==> #[trigger] self.at(i, j) == Cell::Empty,
            decreases self.rows - row,
        {
            proof {
                self.lemma_row(row as int);
            }
            let mut col: usize = 0;
            while col < self.cols
                invariant
                    self.wf(),
                    row < self.rows,
                    col <= self.cols,
                    forall|i: int, j: int| 0 <= i < row && 0 <= j < self.cols ==> #[trigger] self.at(i, j) == Cell::Empty,
                    forall|j: int| 0 <= j < col ==> #[trigger] self.at(row as int, j) == Cell::Empty,
                    self.cells@[row as int]@ == self@[row as int],
                    self.cells@[row as int]@.len() == self.cols,
                decreases self.cols - col,
            {
                if self.cells[row][col] != Cell::Empty {
                    assert(self.in_bounds(row as int, col as int) && self.at(row as int, col as int) != Cell::Empty);
                    return false;
                }
                col = col + 1;
            }
            row = row + 1;
        }
        true
    }

    /// Checks if the board is completely full: no cell is empty.
    pub fn is_full(&self) -> (r: bool)
        requires
            self.wf(),
        ensures
            r == (self.spec_count(Cell::Empty) == 0),
            r == (forall|i: int, j: int| self.in_bounds(i, j) ==> #[trigger] self.at(i, j) != Cell::Empty),
    {
        proof {
            lemma_count_in_grid_bounds(self@, Cell::Empty, self.rows as int, self.cols as int);
            if forall|r: int, c: int| 0 <= r < self.rows && 0 <= c < self.cols ==> #[trigger] self@[r][c] != Cell::Empty {
                assert forall|i: int, j: int| self.in_bounds(i, j) implies #[trigger] self.at(i, j) != Cell::Empty by {
                    assert(self@[i][j] != Cell::Empty);
                }
            }
            if forall|i: int, j: int| self.in_bounds(i, j) ==> #[trigger] self.at(i, j) != Cell::Empty {
                assert forall|r: int, c: int| 0 <= r < self.rows && 0 <= c < self.cols implies #[trigger] self@[r][c]
                    != Cell::Empty by {
                    assert(self.at(r, c) != Cell::Empty);
                }
            }
        }
        self.empty_count() == 0
    }

    /// Gets a row, if it is on the board.
    pub fn row(&self, row: usize) -> (r: Option<&[Cell]>)
        requires
            self.wf(),
        ensures
            row < self.spec_rows() ==> r is Some && r->Some_0@ == self@[row as int],
            row >= self.spec_rows() ==> r is None,
    {
        if row < self.rows {
            proof {
                self.lemma_row(row as int);
            }
            Some(self.cells[row].as_slice())
        } else {
            None
        }
    }

    /// Gets a column, top to bottom, if it is on the board.
    pub fn column(&self, col: usize) -> (r: Option<Vec<Cell>>)
        requires
            self.wf(),
        ensures
            col < self.spec_cols() ==> r is Some && r->Some_0@ == Seq::new(
                self.spec_rows() as nat,
                |i: int| self.at(i, col as int),
            ),
            col >= self.spec_cols() ==> r is None,
    {
        if col >= self.cols {
            return None;
        }
        let mut out: Vec<Cell> = Vec::new();
        let mut row: usize = 0;
        while row < self.rows
            invariant
                self.wf(),
                col < self.cols,
                row <= self.rows,
                out@ == Seq::new(row as nat, |i: int| self.at(i, col as int)),
            decreases self.rows - row,
        {
            proof {
                self.lemma_row(row as int);
            }
            out.push(self.cells[row][col]);
            row = row + 1;
            proof {
                assert(out@ =~= Seq::new(row as nat, |i: int| self.at(i, col as int)));
            }
        }
        Some(out)
    }

    /// How far a run reaches: the number of cells that follow (`r`, `c`) one
    /// step at a time by (`dr`, `dc`) while they stay on the board and match
    /// `cell` (wild pieces match anything).
    pub open spec fn run_length(&self, r: int, c: int, dr: int, dc: int, cell: Cell) -> nat {
        grid_run(self@, self.spec_rows() as int, self.spec_cols() as int, r, c, dr, dc, cell)
    }

    /// The number of matching cells that follow `start` in direction `d`
    /// (`start` read with signed coordinates, as the step is taken in `isize`).
    pub open spec fn spec_count_consecutive(&self, start: Position, d: Direction, cell: Cell) -> nat {
        self.run_length(
            signed_of(start.row),
            signed_of(start.col),
            spec_offset(d).row_offset as int,
            spec_offset(d).col_offset as int,
            cell,
        )
    }

    /// The length of the run through `start` along `d`, not counting `start`:
    /// the matching cells that follow it in `d` and in the opposite direction.
    pub open spec fn spec_count_bidirectional(&self, start: Position, d: Direction, cell: Cell) -> nat {
        self.spec_count_consecutive(start, d, cell) + self.spec_count_consecutive(start, spec_opposite(d), cell)
    }

    proof fn lemma_run_length_bound(&self, r: int, c: int, dr: int, dc: int, cell: Cell)
        requires
            self.wf(),
            -1 <= dr <= 1,
            -1 <= dc <= 1,
            dr != 0 || dc != 0,
        ensures
            self.run_length(r, c, dr, dc, cell) <= (if dr != 0 { self.spec_rows() as int } else { self.spec_cols() as int }),
            self.in_bounds(r, c) ==> self.run_length(r, c, dr, dc, cell) <= (if dr == 1 {
                self.spec_rows() - 1 - r
            } else if dr == -1 {
                r
            } else if dc == 1 {
                self.spec_cols() - 1 - c
            } else {
                c
            }),
        decreases run_measure(self.spec_rows() as int, self.spec_cols() as int, r, c, dr, dc),
    {
        let nr = r + dr;
        let nc = c + dc;
        if self.in_bounds(nr, nc) && spec_matches_player(self.at(nr, nc), cell) {
            self.lemma_run_length_bound(nr, nc, dr, dc, cell);
        }
    }

    /// Counts the matching cells that follow `start`, one step at a time in
    /// `direction`, while they stay on the board (wild pieces match anything).
    pub fn count_consecutive(&self, start: &Position, direction: Direction, cell: Cell) -> (r: usize)
        requires
            self.wf(),
            apply_in_range(direction, *start),
        ensures
            r == self.spec_count_consecutive(*start, direction, cell),
            r <= isize::MAX,
            r <= self.spec_rows() + self.spec_cols(),
    {
        let ghost dr = spec_offset(direction).row_offset as int;
        let ghost dc = spec_offset(direction).col_offset as int;
        let ghost total = self.spec_count_consecutive(*start, direction, cell);
        proof {
            self.lemma_run_length_bound(signed_of(start.row), signed_of(start.col), dr, dc, cell);
        }
        let mut count: usize = 0;
        let mut current = *start;
        loop
            invariant
                self.wf(),
                dr == spec_offset(direction).row_offset,
                dc == spec_offset(direction).col_offset,
                total == self.spec_count_consecutive(*start, direction, cell),
                total <= isize::MAX,
                apply_in_range(direction, *start),
                count == 0 ==> current == *start,
                count > 0 ==> self.in_bounds(current.row as int, current.col as int),
                count + self.run_length(signed_of(current.row), signed_of(current.col), dr, dc, cell) == total,
            ensures
                count == total,
            decreases total - count,
        {
            proof {
                if count > 0 {
                    assert(current.row < self.spec_rows() <= isize::MAX);
                    assert(signed_of(current.row) == current.row);
                    assert(signed_of(current.col) == current.col);
                    assert(-1 <= spec_offset(direction).row_offset <= 1);
                    assert(-1 <= spec_offset(direction).col_offset <= 1);
                    assert(apply_in_range(direction, current));
                }
            }
            let next = match direction.apply(&current) {
                Some(n) => n,
                None => {
                    break;
                },
            };
            if !self.is_valid_position(&next) {
                break;
            }
            let matches = match self.get(&next) {
                Some(c) => c.matches_player(cell),
                None => false,
            };
            if matches {
                count = count + 1;
                current = next;
            } else {
                break;
            }
        }
        count
    }

    /// Counts the matching cells on both sides of `start` along a line.
    pub fn count_consecutive_bidirectional(&self, start: &Position, direction: Direction, cell: Cell) -> (r: usize)
        requires
            self.wf(),
            apply_in_range(direction, *start),
            apply_in_range(spec_opposite(direction), *start),
        ensures
            r == self.spec_count_bidirectional(*start, direction, cell),
            r <= 2 * (self.spec_rows() + self.spec_cols()),
    {
        let forward = self.count_consecutive(start, direction, cell);
        let backward = self.count_consecutive(start, direction.opposite(), cell);
        forward + backward
    }

    /// Checks whether a line of at least `length` connected matching cells
    /// passes through `start` along `direction`, `start` itself counted.
    pub fn has_line(&self, start: &Position, direction: Direction, cell: Cell, length: usize) -> (r: bool)
        requires
            self.wf(),
            apply_in_range(direction, *start),
            apply_in_range(spec_opposite(direction), *start),
        ensures
            r == (self.spec_count_bidirectional(*start, direction, cell) + 1 >= length),
    {
        length == 0 || self.count_consecutive_bidirectional(start, direction, cell) >= length - 1
    }

    /// The line through (`r`, `c`) along `d`, counting (`r`, `c`) itself,
    /// has at least `length` matching cells.
    #[verifier::inline]
    pub open spec fn spec_line_at(&self, r: int, c: int, d: Direction, cell: Cell, length: int) -> bool {
        grid_line_at(self@, self.spec_rows() as int, self.spec_cols() as int, r, c, d, cell, length)
    }

    /// Some cell holding `cell` lies on a line, along some direction, of at
    /// least `length` matching cells, itself included.
    #[verifier::inline]
    pub open spec fn spec_has_winning_line(&self, cell: Cell, length: int) -> bool {
        grid_has_win(self@, self.spec_rows() as int, self.spec_cols() as int, cell, length)
    }

    /// The run along a direction and the run along its opposite are the
    /// same line.
    pub proof fn lemma_line_at_opposite(&self, r: int, c: int, d: Direction, cell: Cell, length: int)
        ensures
            self.spec_line_at(r, c, d, cell, length) == self.spec_line_at(r, c, spec_opposite(d), cell, length),
    {
        crate::coordinates::lemma_opposite_negates(d);
    }

    /// Checks whether some cell holding `cell` lies, along one of the eight
    /// directions, on a line of at least `length` matching cells, itself
    /// included.
    pub fn has_winning_line(&self, cell: Cell, length: usize) -> (r: bool)
        requires
            self.wf(),
        ensures
            r == self.spec_has_winning_line(cell, length as int),
    {
        let dirs = Direction::all();
        let mut row: usize = 0;
        while row < self.rows
            invariant
                self.wf(),
                dirs@ == seq![
                    Direction::North,
                    Direction::Northeast,
                    Direction::East,
                    Direction::Southeast,
                    Direction::South,
                    Direction::Southwest,
                    Direction::West,
                    Direction::Northwest,
                ],
                row <= self.spec_rows(),
                forall|r: int, c: int, d: Direction|
                    0 <= r < row && 0 <= c < self.spec_cols() && self.at(r, c) == cell
                        ==> !#[trigger] self.spec_line_at(r, c, d, cell, length as int),
            decreases self.spec_rows() - row,
        {
            let mut col: usize = 0;
            while col < self.cols
                invariant
                    self.wf(),
                    dirs@ == seq![
                        Direction::North,
                        Direction::Northeast,
                        Direction::East,
                        Direction::Southeast,
                        Direction::South,
                        Direction::Southwest,
                        Direction::West,
                        Direction::Northwest,
                    ],
                    row < self.spec_rows(),
                    col <= self.spec_cols(),
                    forall|r: int, c: int, d: Direction|
                        0 <= r < row && 0 <= c < self.spec_cols() && self.at(r, c) == cell
                            ==> !#[trigger] self.spec_line_at(r, c, d, cell, length as int),
                    forall|c: int, d: Direction|
                        0 <= c < col && self.at(row as int, c) == cell
                            ==> !#[trigger] self.spec_line_at(row as int, c, d, cell, length as int),
                decreases self.spec_cols() - col,
            {
                let pos = Position::new(row, col);
                if self.get(&pos) == Some(cell) {
                    let mut k: usize = 0;
                    while k < 8
                        invariant
                            self.wf(),
                            dirs@ == seq![
                                Direction::North,
                                Direction::Northeast,
                                Direction::East,
                                Direction::Southeast,
                                Direction::South,
                                Direction::Southwest,
                                Direction::West,
                                Direction::Northwest,
                            ],
                            row < self.spec_rows(),
                            col < self.spec_cols(),
                            pos == (Position { row, col }),
                            self.at(row as int, col as int) == cell,
                            k <= 8,
                            forall|j: int| 0 <= j < k ==> !#[trigger] self.spec_line_at(
                                row as int,
                                col as int,
                                dirs@[j],
                                cell,
                                length as int,
                            ),
                        decreases 8 - k,
                    {
                        let d = dirs[k];
                        proof {
                            crate::coordinates::lemma_opposite_negates(d);
                        }
                        if self.has_line(&pos, d, cell, length) {
                            assert(self.in_bounds(row as int, col as int));
                            assert(self.at(row as int, col as int) == cell);
                            assert(self.spec_line_at(row as int, col as int, d, cell, length as int));
                            return true;
                        }
                        k = k + 1;
                    }
                    assert forall|d: Direction| !#[trigger] self.spec_line_at(
                        row as int,
                        col as int,
                        d,
                        cell,
                        length as int,
                    ) by {
                        let j: int = match d {
                            Direction::North => 0,
                            Direction::Northeast => 1,
                            Direction::East => 2,
                            Direction::Southeast => 3,
                            Direction::South => 4,
                            Direction::Southwest => 5,
                            Direction::West => 6,
                            Direction::Northwest => 7,
                        };
                        assert(dirs@[j] == d);
                    }
                }
                col = col + 1;
            }
            row = row + 1;
        }
        false
    }

    /// Builds a new board of the given size whose cell (`i`, `j`) is this
    /// board's cell at `source(kind, ..., i, j)`.
    fn build(&self, new_rows: usize, new_cols: usize, kind: u8, r0: usize, c0: usize) -> (b: Board)
        requires
            self.wf(),
            kind <= 5,
            new_rows <= isize::MAX,
            new_cols <= isize::MAX,
            new_rows * new_cols <= isize::MAX,
            forall|i: int, j: int|
                0 <= i < new_rows && 0 <= j < new_cols ==> #[trigger] source_in_bounds(
                    self,
                    kind,
                    r0 as int,
                    c0 as int,
                    i,
                    j,
                ),
        ensures
            b.wf(),
            b.spec_rows() == new_rows,
            b.spec_cols() == new_cols,
            forall|i: int, j: int|
                0 <= i < new_rows && 0 <= j < new_cols ==> #[trigger] b.at(i, j) == self.at(
                    source_row(self, kind, r0 as int, i, j),
                    source_col(self, kind, c0 as int, i, j),
                ),
    {
        let mut cells: Vec<Vec<Cell>> = Vec::new();
        let mut i: usize = 0;
        while i < new_rows
            invariant
                self.wf(),
                kind <= 5,
                i <= new_rows,
                cells@.len() == i,
                forall|a: int, c: int|
                    0 <= a < new_rows && 0 <= c < new_cols ==> #[trigger] source_in_bounds(
                        self,
                        kind,
                        r0 as int,
                        c0 as int,
                        a,
                        c,
                    ),
                forall|k: int| 0 <= k < i ==> #[trigger] cells@[k]@.len() == new_cols,
                forall|k: int, j: int|
                    0 <= k < i && 0 <= j < new_cols ==> #[trigger] cells@[k]@[j] == self.at(
                        source_row(self, kind, r0 as int, k, j),
                        source_col(self, kind, c0 as int, k, j),
                    ),
            decreases new_rows - i,
        {
            let mut row: Vec<Cell> = Vec::new();
            let mut j: usize = 0;
            while j < new_cols
                invariant
                    self.wf(),
                    kind <= 5,
                    i < new_rows,
                    j <= new_cols,
                    row@.len() == j,
                    forall|a: int, c: int|
                        0 <= a < new_rows && 0 <= c < new_cols ==> #[trigger] source_in_bounds(
                            self,
                            kind,
                            r0 as int,
                            c0 as int,
                            a,
                            c,
                        ),
                    forall|k: int|
                        0 <= k < j ==> #[trigger] row@[k] == self.at(
                            source_row(self, kind, r0 as int, i as int, k),
                            source_col(self, kind, c0 as int, i as int, k),
                        ),
                decreases new_cols - j,
            {
                assert(source_in_bounds(self, kind, r0 as int, c0 as int, i as int, j as int));
                let (sr, sc) = if kind == 0 {
                    (self.rows - 1 - j, i)
                } else if kind == 1 {
                    (j, self.cols - 1 - i)
                } else if kind == 2 {
                    (j, i)
                } else if kind == 3 {
                    (i, self.cols - 1 - j)
                } else if kind == 4 {
                    (self.rows - 1 - i, j)
                } else {
                    (r0 + i, c0 + j)
                };
                proof {
                    self.lemma_row(sr as int);
                }
                row.push(self.cells[sr][sc]);
                j = j + 1;
            }
            cells.push(row);
            i = i + 1;
        }
        let b = Board { rows: new_rows, cols: new_cols, cells };
        proof {
            b.lemma_view();
        }
        b
    }

    /// Rotates the board 90 degrees clockwise: the new board has the old
    /// number of columns as rows, and its cell (i, j) is the old cell
    /// (rows - 1 - j, i).
    pub fn rotate_clockwise(&mut self)
        requires
            old(self).wf(),
        ensures
            final(self).wf(),
            is_rotation_clockwise(&*old(self), &*final(self)),
    {
        proof {
            assert(self.cols * self.rows == self.rows * self.cols) by (nonlinear_arith);
        }
        let b = self.build(self.cols, self.rows, 0, 0, 0);
        *self = b;
    }

    /// Rotates the board 90 degrees counter-clockwise: the new cell (i, j) is
    /// the old cell (j, cols - 1 - i).
    pub fn rotate_counter_clockwise(&mut self)
        requires
            old(self).wf(),
        ensures
            final(self).wf(),
            is_rotation_counter_clockwise(&*old(self), &*final(self)),
    {
        proof {
            assert(self.cols * self.rows == self.rows * self.cols) by (nonlinear_arith);
        }
        let b = self.build(self.cols, self.rows, 1, 0, 0);
        *self = b;
    }

    /// Transposes the board: the new cell (i, j) is the old cell (j, i).
    pub fn transpose(&mut self)
        requires
            old(self).wf(),
        ensures
            final(self).wf(),
            is_transpose(&*old(self), &*final(self)),
    {
        proof {
            assert(self.cols * self.rows == self.rows * self.cols) by (nonlinear_arith);
        }
        let b = self.build(self.cols, self.rows, 2, 0, 0);
        *self = b;
    }

    /// Flips the board horizontally: each row is reversed.
    pub fn flip_horizontal(&mut self)
        requires
            old(self).wf(),
        ensures
            final(self).wf(),
            is_flip_horizontal(&*old(self), &*final(self)),
    {
        let b = self.build(self.rows, self.cols, 3, 0, 0);
        *self = b;
    }

    /// Flips the board vertically: the order of the rows is reversed.
    pub fn flip_vertical(&mut self)
        requires
            old(self).wf(),
        ensures
            final(self).wf(),
            is_flip_vertical(&*old(self), &*final(self)),
    {
        let b = self.build(self.rows, self.cols, 4, 0, 0);
        *self = b;
    }

    /// The region of `rows` x `cols` cells whose top-left corner is at
    /// (`row_start`, `col_start`), if it lies within the board.
    pub fn sub_board(&self, row_start: usize, col_start: usize, rows: usize, cols: usize) -> (r: Option<Self>)
        requires
            self.wf(),
            row_start + rows <= usize::MAX,
            col_start + cols <= usize::MAX,
        ensures
            (row_start + rows > self.spec_rows() || col_start + cols > self.spec_cols()) ==> r is None,
            !(row_start + rows > self.spec_rows() || col_start + cols > self.spec_cols()) ==> r is Some
                && r->Some_0.wf() && r->Some_0.spec_rows() == rows && r->Some_0.spec_cols() == cols && (forall|
                i: int,
                j: int,
            | 0 <= i < rows && 0 <= j < cols ==> #[trigger] r->Some_0.at(i, j) == self.at(row_start + i, col_start + j)),
    {
        if row_start + rows > self.rows || col_start + cols > self.cols {
            return None;
        }
        proof {
            assert(rows * cols <= self.rows * self.cols) by (nonlinear_arith)
                requires rows <= self.rows, cols <= self.cols;
        }
        Some(self.build(rows, cols, 5, row_start, col_start))
    }

    /// The cells of the first `c` columns of row `r`, with their positions.
    pub open spec fn row_entries(&self, r: int, c: int) -> Seq<(Position, Cell)> {
        Seq::new(c as nat, |j: int| (Position { row: r as usize, col: j as usize }, self.at(r, j)))
    }

    /// The cells of the first `n` rows with their positions, row by row.
    pub open spec fn entries_rows(&self, n: int) -> Seq<(Position, Cell)>
        decreases n,
    {
        if n <= 0 {
            seq![]
        } else {
            self.entries_rows(n - 1) + self.row_entries(n - 1, self.spec_cols() as int)
        }
    }

    /// Every cell of the board with its position, in row-major order.
    pub open spec fn spec_entries(&self) -> Seq<(Position, Cell)> {
        self.entries_rows(self.spec_rows() as int)
    }

    /// Lists every cell with its position, row by row from the top, each row
    /// from left to right.
    pub fn cells_iter(&self) -> (r: Vec<(Position, Cell)>)
        requires
            self.wf(),
        ensures
            r@ == self.spec_entries(),
    {
        let mut out: Vec<(Position, Cell)> = Vec::new();
        let mut row: usize = 0;
        while row < self.rows
            invariant
                self.wf(),
                row <= self.rows,
                out@ == self.entries_rows(row as int),
            decreases self.rows - row,
        {
            proof {
                self.lemma_row(row as int);
            }
            let mut col: usize = 0;
            while col < self.cols
                invariant
                    self.wf(),
                    row < self.rows,
                    col <= self.cols,
                    self.cells@[row as int]@ == self@[row as int],
                    self.cells@[row as int]@.len() == self.cols,
                    out@ == self.entries_rows(row as int) + self.row_entries(row as int, col as int),
                decreases self.cols - col,
            {
                out.push((Position::new(row, col), self.cells[row][col]));
                col = col + 1;
                proof {
                    assert(out@ =~= self.entries_rows(row as int) + self.row_entries(row as int, col as int));
                }
            }
            row = row + 1;
        }
        out
    }

    /// Lists the positions of all cells equal to `cell`, in row-major order.
    pub fn cells_of_type(&self, cell: Cell) -> (r: Vec<Position>)
        requires
            self.wf(),
        ensures
            r@ == select_positions(self.spec_entries(), cell),
    {
        let all = self.cells_iter();
        let mut out: Vec<Position> = Vec::new();
        let mut k: usize = 0;
        while k < all.len()
            invariant
                k <= all@.len(),
                out@ == select_positions(all@.subrange(0, k as int), cell),
            decreases all@.len() - k,
        {
            proof {
                assert(all@.subrange(0, k as int + 1).drop_last() =~= all@.subrange(0, k as int));
            }
            let (pos, c) = all[k];
            if c == cell {
                out.push(pos);
            }
            k = k + 1;
        }
        proof {
            assert(all@.subrange(0, all@.len() as int) =~= all@);
        }
        out
    }

    /// Lists the cells, with their positions, for which `f` answers true,
    /// in row-major order.
    pub fn filter_cells<F: Fn(&(Position, Cell)) -> bool>(&self, f: F) -> (r: Vec<(Position, Cell)>)
        requires
            self.wf(),
            forall|e: (Position, Cell)| call_requires(f, (&e,)),
        ensures
            exists|keep: Seq<bool>|
                {
                    &&& keep.len() == self.spec_entries().len()
                    &&& forall|i: int|
                        0 <= i < keep.len() ==> call_ensures(
                            f,
                            (&self.spec_entries()[i],),
                            #[trigger] keep[i],
                        )
                    &&& r@ == select_kept(self.spec_entries(), keep, keep.len() as int)
                },
    {
        let all = self.cells_iter();
        let mut out: Vec<(Position, Cell)> = Vec::new();
        let ghost mut keep: Seq<bool> = seq![];
        let mut k: usize = 0;
        while k < all.len()
            invariant
                k <= all@.len(),
                all@ == self.spec_entries(),
                forall|e: (Position, Cell)| call_requires(f, (&e,)),
                keep.len() == k,
                forall|i: int| 0 <= i < k ==> call_ensures(f, (&all@[i],), #[trigger] keep[i]),
                out@ == select_kept(all@, keep, k as int),
            decreases all@.len() - k,
        {
            let e = all[k];
            let b = f(&e);
            proof {
                let old_keep = keep;
                keep = keep.push(b);
                lemma_select_kept_prefix(all@, keep, old_keep, k as int);
            }
            if b {
                out.push(e);
            }
            k = k + 1;
        }
        out
    }

    /// Replaces every cell by what `f` makes of its position and its
    /// content, row by row from the top.
    pub fn map_cells<F: Fn(Position, Cell) -> Cell>(&mut self, f: F)
        requires
            old(self).wf(),
            forall|p: Position, c: Cell| call_requires(f, (p, c)),
        ensures
            final(self).wf(),
            final(self).spec_rows() == old(self).spec_rows(),
            final(self).spec_cols() == old(self).spec_cols(),
            forall|r: int, c: int|
                old(self).in_bounds(r, c) ==> call_ensures(
                    f,
                    (Position { row: r as usize, col: c as usize }, old(self).at(r, c)),
                    #[trigger] final(self).at(r, c),
                ),
    {
        let ghost orig: Board = *self;
        let mut row: usize = 0;
        while row < self.rows
            invariant
                self.wf(),
                self.spec_rows() == orig.spec_rows(),
                self.spec_cols() == orig.spec_cols(),
                row <= self.spec_rows(),
                forall|p: Position, c: Cell| call_requires(f, (p, c)),
                forall|r: int, c: int|
                    0 <= r < row && 0 <= c < self.spec_cols() ==> call_ensures(
                        f,
                        (Position { row: r as usize, col: c as usize }, orig.at(r, c)),
                        #[trigger] self.at(r, c),
                    ),
                forall|r: int, c: int|
                    row <= r < self.spec_rows() && 0 <= c < self.spec_cols() ==> #[trigger] self.at(r, c)
                        == orig.at(r, c),
            decreases self.spec_rows() - row,
        {
            let mut col: usize = 0;
            while col < self.cols
                invariant
                    self.wf(),
                    self.spec_rows() == orig.spec_rows(),
                    self.spec_cols() == orig.spec_cols(),
                    row < self.spec_rows(),
                    col <= self.spec_cols(),
                    forall|p: Position, c: Cell| call_requires(f, (p, c)),
                    forall|r: int, c: int|
                        ((0 <= r < row && 0 <= c < self.spec_cols()) || (r == row && 0 <= c < col))
                            ==> call_ensures(
                            f,
                            (Position { row: r as usize, col: c as usize }, orig.at(r, c)),
                            #[trigger] self.at(r, c),
                        ),
                    forall|r: int, c: int|
                        ((row < r < self.spec_rows() && 0 <= c < self.spec_cols()) || (r == row && col
                            <= c < self.spec_cols())) ==> #[trigger] self.at(r, c) == orig.at(r, c),
                decreases self.spec_cols() - col,
            {
                let current = match self.get_at(row, col) {
                    Some(c) => c,
                    None => Cell::Empty,
                };
                let next = f(Position { row, col }, current);
                let ghost before: Board = *self;
                self.write(row, col, next);
                proof {
                    before.lemma_updated_at(&*self, row as int, col as int, next);
                }
                col = col + 1;
            }
            row = row + 1;
        }
    }

    /// Lists the positions of all empty cells, in row-major order.
    pub fn empty_cells(&self) -> (r: Vec<Position>)
        requires
            self.wf(),
        ensures
            r@ == select_positions(self.spec_entries(), Cell::Empty),
    {
        self.cells_of_type(Cell::Empty)
    }

    /// Lists all occupied cells with their positions, in row-major order.
    pub fn occupied_cells(&self) -> (r: Vec<(Position, Cell)>)
        requires
            self.wf(),
        ensures
            r@ == select_occupied(self.spec_entries()),
    {
        let all = self.cells_iter();
        let mut out: Vec<(Position, Cell)> = Vec::new();
        let mut k: usize = 0;
        while k < all.len()
            invariant
                k <= all@.len(),
                out@ == select_occupied(all@.subrange(0, k as int)),
            decreases all@.len() - k,
        {
            proof {
                assert(all@.subrange(0, k as int + 1).drop_last() =~= all@.subrange(0, k as int));
            }
            let (pos, c) = all[k];
            if c != Cell::Empty {
                out.push((pos, c));
            }
            k = k + 1;
        }
        proof {
            assert(all@.subrange(0, all@.len() as int) =~= all@);
        }
        out
    }

    /// Returns an iterator over all positions on the board.
    pub fn positions(&self) -> (r: BoardPositionIterator)
        requires
            self.wf(),
        ensures
            r.wf(),
            r.spec_rows() == self.spec_rows(),
            r.spec_cols() == self.spec_cols(),
            r.spec_next() == (Position { row: 0, col: 0 }),
    {
        BoardPositionIterator::new(self.rows, self.cols)
    }

    /// How many steps by (`dr`, `dc`) from (`r`, `c`) stay on the board.
    pub open spec fn reach(&self, r: int, c: int, dr: int, dc: int) -> nat
        decreases run_measure(self.spec_rows() as int, self.spec_cols() as int, r, c, dr, dc),
        when dr != 0 || dc != 0
    {
        if self.in_bounds(r + dr, c + dc) {
            1 + self.reach(r + dr, c + dc, dr, dc)
        } else {
            0
        }
    }

    /// The positions on the board that follow `start` in direction `d`, in
    /// order of distance.
    pub open spec fn spec_line(&self, start: Position, d: Direction) -> Seq<Position> {
        let dr = spec_offset(d).row_offset as int;
        let dc = spec_offset(d).col_offset as int;
        Seq::new(
            self.reach(signed_of(start.row), signed_of(start.col), dr, dc),
            |i: int|
                Position {
                    row: (signed_of(start.row) + (i + 1) * dr) as usize,
                    col: (signed_of(start.col) + (i + 1) * dc) as usize,
                },
        )
    }

    proof fn lemma_reach_bound(&self, r: int, c: int, dr: int, dc: int)
        requires
            self.wf(),
            -1 <= dr <= 1,
            -1 <= dc <= 1,
            dr != 0 || dc != 0,
        ensures
            self.reach(r, c, dr, dc) <= (if dr != 0 { self.spec_rows() as int } else { self.spec_cols() as int }),
            self.in_bounds(r, c) ==> self.reach(r, c, dr, dc) <= (if dr == 1 {
                self.spec_rows() - 1 - r
            } else if dr == -1 {
                r
            } else if dc == 1 {
                self.spec_cols() - 1 - c
            } else {
                c
            }),
        decreases run_measure(self.spec_rows() as int, self.spec_cols() as int, r, c, dr, dc),
    {
        if self.in_bounds(r + dr, c + dc) {
            self.lemma_reach_bound(r + dr, c + dc, dr, dc);
        }
    }

    /// The positions on the board that follow `start` in a direction, in
    /// order of distance (not including `start`).
    pub fn get_line(&self, start: &Position, direction: Direction) -> (r: Vec<Position>)
        requires
            self.wf(),
            apply_in_range(direction, *start),
        ensures
            r@ == self.spec_line(*start, direction),
    {
        let ghost dr = spec_offset(direction).row_offset as int;
        let ghost dc = spec_offset(direction).col_offset as int;
        let ghost sr = signed_of(start.row);
        let ghost sc = signed_of(start.col);
        let ghost total = self.reach(sr, sc, dr, dc);
        proof {
            self.lemma_reach_bound(sr, sc, dr, dc);
        }
        let mut positions: Vec<Position> = Vec::new();
        let mut current = *start;
        loop
            invariant
                self.wf(),
                dr == spec_offset(direction).row_offset,
                dc == spec_offset(direction).col_offset,
                sr == signed_of(start.row),
                sc == signed_of(start.col),
                total == self.reach(sr, sc, dr, dc),
                total <= isize::MAX,
                apply_in_range(direction, *start),
                positions@.len() == 0 ==> current == *start,
                positions@.len() > 0 ==> self.in_bounds(current.row as int, current.col as int)
                    && current.row == sr + positions@.len() * dr && current.col == sc + positions@.len() * dc,
                positions@.len() + self.reach(signed_of(current.row), signed_of(current.col), dr, dc) == total,
                positions@ == self.spec_line(*start, direction).subrange(0, positions@.len() as int),
            ensures
                positions@.len() == total,
                positions@ == self.spec_line(*start, direction).subrange(0, positions@.len() as int),
            decreases total - positions@.len(),
        {
            proof {
                if positions@.len() > 0 {
                    assert(current.row < self.spec_rows() <= isize::MAX);
                    assert(signed_of(current.row) == current.row);
                    assert(signed_of(current.col) == current.col);
                    assert(apply_in_range(direction, current));
                }
            }
            let next = match direction.apply(&current) {
                Some(n) => n,
                None => {
                    break;
                },
            };
            if !self.is_valid_position(&next) {
                break;
            }
            proof {
                let k = positions@.len() as int;
                assert((k + 1) * dr == k * dr + dr) by (nonlinear_arith);
                assert((k + 1) * dc == k * dc + dc) by (nonlinear_arith);
                if k > 0 {
                    assert(signed_of(current.row) == current.row);
                    assert(signed_of(current.col) == current.col);
                }
                assert(next.row == signed_of(current.row) + dr);
                assert(next.col == signed_of(current.col) + dc);
                assert(next.row == sr + (k + 1) * dr);
                assert(next.col == sc + (k + 1) * dc);
            }
            positions.push(next);
            current = next;
            proof {
                assert(positions@ =~= self.spec_line(*start, direction).subrange(0, positions@.len() as int));
            }
        }
        proof {
            assert(positions@ =~= self.spec_line(*start, direction));
        }
        positions
    }

    /// The cell at a position, or `Empty` for a position off the board.
    pub open spec fn cell_or_empty(&self, p: Position) -> Cell {
        if self.in_bounds(p.row as int, p.col as int) {
            self.at(p.row as int, p.col as int)
        } else {
            Cell::Empty
        }
    }

    /// The cells at the given positions, `Empty` for those off the board.
    pub fn get_range(&self, positions: &[Position]) -> (r: Vec<Cell>)
        requires
            self.wf(),
        ensures
            r@ == Seq::new(positions@.len(), |i: int| self.cell_or_empty(positions@[i])),
    {
        let mut out: Vec<Cell> = Vec::new();
        let mut k: usize = 0;
        while k < positions.len()
            invariant
                self.wf(),
                k <= positions@.len(),
                out@ == Seq::new(k as nat, |i: int| self.cell_or_empty(positions@[i])),
            decreases positions@.len() - k,
        {
            let c = match self.get(&positions[k]) {
                Some(c) => c,
                None => Cell::Empty,
            };
            out.push(c);
            k = k + 1;
            proof {
                assert(out@ =~= Seq::new(k as nat, |i: int| self.cell_or_empty(positions@[i])));
            }
        }
        out
    }

    /// The cells along a line through `start`: `start` itself, then the cells
    /// that follow it in `direction`, then those that follow it in the
    /// opposite direction, each with its position.
    pub fn get_line_bidirectional(&self, start: &Position, direction: Direction) -> (r: Vec<(Position, Cell)>)
        requires
            self.wf(),
            apply_in_range(direction, *start),
            apply_in_range(spec_opposite(direction), *start),
        ensures
            r@ == seq![(*start, self.cell_or_empty(*start))] + self.spec_line(*start, direction).map_values(
                |p: Position| (p, self.cell_or_empty(p)),
            ) + self.spec_line(*start, spec_opposite(direction)).map_values(
                |p: Position| (p, self.cell_or_empty(p)),
            ),
    {
        let first = match self.get(start) {
            Some(c) => c,
            None => Cell::Empty,
        };
        let mut result: Vec<(Position, Cell)> = Vec::new();
        result.push((*start, first));
        let forward = self.get_line(start, direction);
        let backward = self.get_line(start, direction.opposite());
        let ghost base = result@;
        let mut k: usize = 0;
        while k < forward.len()
            invariant
                self.wf(),
                k <= forward@.len(),
                result@ == base + forward@.subrange(0, k as int).map_values(|p: Position| (p, self.cell_or_empty(p))),
            decreases forward@.len() - k,
        {
            let p = forward[k];
            let c = match self.get(&p) {
                Some(c) => c,
                None => Cell::Empty,
            };
            result.push((p, c));
            k = k + 1;
            proof {
                assert(result@ =~= base + forward@.subrange(0, k as int).map_values(
                    |p: Position| (p, self.cell_or_empty(p)),
                ));
            }
        }
        proof {
            assert(forward@.subrange(0, forward@.len() as int) =~= forward@);
        }
        let ghost base2 = result@;
        let mut m: usize = 0;
        while m < backward.len()
            invariant
                self.wf(),
                m <= backward@.len(),
                result@ == base2 + backward@.subrange(0, m as int).map_values(|p: Position| (p, self.cell_or_empty(p))),
            decreases backward@.len() - m,
        {
            let p = backward[m];
            let c = match self.get(&p) {
                Some(c) => c,
                None => Cell::Empty,
            };
            result.push((p, c));
            m = m + 1;
            proof {
                assert(result@ =~= base2 + backward@.subrange(0, m as int).map_values(
                    |p: Position| (p, self.cell_or_empty(p)),
                ));
            }
        }
        proof {
            assert(backward@.subrange(0, backward@.len() as int) =~= backward@);
            assert(result@ =~= seq![(*start, self.cell_or_empty(*start))] + self.spec_line(*start, direction).map_values(
                |p: Position| (p, self.cell_or_empty(p)),
            ) + self.spec_line(*start, spec_opposite(direction)).map_values(
                |p: Position| (p, self.cell_or_empty(p)),
            ));
        }
        result
    }

    /// Checks if this board has the same size and the same cells as another.
    pub fn matches(&self, other: &Board) -> (r: bool)
        requires
            self.wf(),
            other.wf(),
        ensures
            r == same_board(self, other),
    {
        if self.rows != other.rows || self.cols != other.cols {
            return false;
        }
        let mut row: usize = 0;
        while row < self.rows
            invariant
                self.wf(),
                other.wf(),
                self.rows == other.spec_rows(),
                self.cols == other.spec_cols(),
                row <= self.rows,
                forall|i: int, j: int| 0 <= i < row && 0 <= j < self.cols ==> #[trigger] self.at(i, j) == other.at(i, j),
            decreases self.rows - row,
        {
            let mut col: usize = 0;
            while col < self.cols
                invariant
                    self.wf(),
                    other.wf(),
                    self.rows == other.spec_rows(),
                    self.cols == other.spec_cols(),
                    row < self.rows,
                    col <= self.cols,
                    forall|i: int, j: int| 0 <= i < row && 0 <= j < self.cols ==> #[trigger] self.at(i, j) == other.at(i, j),
                    forall|j: int| 0 <= j < col ==> #[trigger] self.at(row as int, j) == other.at(row as int, j),
                decreases self.cols - col,
            {
                let a = self.get_at(row, col);
                let b = other.get_at(row, col);
                if a != b {
                    return false;
                }
                col = col + 1;
            }
            row = row + 1;
        }
        true
    }

    proof fn lemma_row(&self, r: int)
        requires
            self.wf(),
            0 <= r < self.spec_rows(),
        ensures
            self.cells@[r]@.len() == self.cols,
            self.cells@[r]@ == self@[r],
            self.cells@.len() == self.rows,
    {
        assert(self@[r].len() == self.cols);
    }

    /// After a one-cell update, that cell holds the new value and all others
    /// are unchanged.
    pub proof fn lemma_updated_at(&self, other: &Board, r: int, c: int, cell: Cell)
        requires
            self.wf(),
            self.in_bounds(r, c),
            self.updated(other, r, c, cell),
        ensures
            forall|i: int, j: int| other.in_bounds(i, j) ==> #[trigger] other.at(i, j) == (if i == r && j == c {
                cell
            } else {
                self.at(i, j)
            }),
    {
        assert forall|i: int, j: int| other.in_bounds(i, j) implies #[trigger] other.at(i, j) == (if i == r && j
            == c {
            cell
        } else {
            self.at(i, j)
        }) by {
            if i == r {
                assert(self@[r].len() == self.spec_cols());
            }
        }
    }

    proof fn lemma_view(&self)
        ensures
            self@.len() == self.cells@.len(),
            forall|r: int| 0 <= r < self.cells@.len() ==> #[trigger] self@[r] == self.cells@[r]@,
    {
    }
}

} // verus!

verus! {

impl Clone for Board {
    /// A copy of the board: the same size and the same cells.
    fn clone(&self) -> (r: Self)
        ensures
            r.spec_rows() == self.spec_rows(),
            r.spec_cols() == self.spec_cols(),
            r@ == self@,
    {
        let mut cells: Vec<Vec<Cell>> = Vec::new();
        let mut i: usize = 0;
        while i < self.cells.len()
            invariant
                i <= self.cells@.len(),
                cells@.len() == i,
                forall|k: int| 0 <= k < i ==> #[trigger] cells@[k]@ == self.cells@[k]@,
            decreases self.cells@.len() - i,
        {
            let mut copy: Vec<Cell> = Vec::new();
            let mut j: usize = 0;
            while j < self.cells[i].len()
                invariant
                    i < self.cells@.len(),
                    j <= self.cells@[i as int]@.len(),
                    copy@ == self.cells@[i as int]@.subrange(0, j as int),
                decreases self.cells@[i as int]@.len() - j,
            {
                copy.push(self.cells[i][j]);
                j = j + 1;
                assert(copy@ =~= self.cells@[i as int]@.subrange(0, j as int));
            }
            assert(copy@ =~= self.cells@[i as int]@);
            cells.push(copy);
            i = i + 1;
        }
        let b = Board { rows: self.rows, cols: self.cols, cells };
        proof {
            b.lemma_view();
            self.lemma_view();
            assert(b@ =~= self@);
        }
        b
    }
}

} // verus!

verus! {

/// Walks through the positions of a board, row by row.
#[derive(Clone, Debug)]
pub struct BoardPositionIterator {
    rows: usize,
    cols: usize,
    current_row: usize,
    current_col: usize,
}

impl BoardPositionIterator {
    /// The number of rows walked.
    pub closed spec fn spec_rows(&self) -> usize {
        self.rows
    }

    /// The number of columns walked.
    pub closed spec fn spec_cols(&self) -> usize {
        self.cols
    }

    /// The position handed out next (if its row is still on the board).
    pub closed spec fn spec_next(&self) -> Position {
        Position { row: self.current_row, col: self.current_col }
    }

    /// The walk is inside the board's rows and columns.
    pub closed spec fn wf(&self) -> bool {
        &&& self.current_row <= self.rows
        &&& (self.current_col < self.cols || self.current_col == 0)
        &&& (self.current_row == self.rows ==> self.current_col == 0)
        &&& self.rows * self.cols <= usize::MAX
    }

    /// Starts a walk at (0, 0).
    pub fn new(rows: usize, cols: usize) -> (r: Self)
        requires
            rows * cols <= usize::MAX,
        ensures
            r.wf(),
            r.spec_rows() == rows,
            r.spec_cols() == cols,
            r.spec_next() == (Position { row: 0, col: 0 }),
    {
        BoardPositionIterator { rows, cols, current_row: 0, current_col: 0 }
    }

    /// Hands out the next position, moving along the row and wrapping to the
    /// start of the next row after the last column; nothing once the rows are
    /// used up, and nothing at all when there are no columns.
    pub fn next(&mut self) -> (r: Option<Position>)
        requires
            old(self).wf(),
        ensures
            final(self).wf(),
            final(self).spec_rows() == old(self).spec_rows(),
            final(self).spec_cols() == old(self).spec_cols(),
            old(self).spec_next().row >= old(self).spec_rows() || old(self).spec_cols() == 0 ==> r is None
                && *final(self) == *old(self),
            old(self).spec_next().row < old(self).spec_rows() && old(self).spec_cols() > 0 ==> r == Some(
                old(self).spec_next(),
            ) && (if old(
                self,
            ).spec_next().col + 1 >= old(self).spec_cols() {
                final(self).spec_next() == Position { row: (old(self).spec_next().row + 1) as usize, col: 0 }
            } else {
                final(self).spec_next() == Position {
                    row: old(self).spec_next().row,
                    col: (old(self).spec_next().col + 1) as usize,
                }
            }),
    {
        if self.current_row >= self.rows || self.cols == 0 {
            return None;
        }
        let pos = Position::new(self.current_row, self.current_col);
        self.current_col = self.current_col + 1;
        if self.current_col >= self.cols {
            self.current_col = 0;
            self.current_row = self.current_row + 1;
        }
        Some(pos)
    }

    /// The number of positions still to come.
    pub fn len(&self) -> (r: usize)
        requires
            self.wf(),
        ensures
            r == (self.spec_rows() - self.spec_next().row) * self.spec_cols() - self.spec_next().col,
    {
        proof {
            assert((self.rows - self.current_row) * self.cols <= self.rows * self.cols) by (nonlinear_arith)
                requires self.current_row <= self.rows;
            if self.current_row < self.rows {
                assert((self.rows - self.current_row) * self.cols >= self.cols) by (nonlinear_arith)
                    requires self.current_row < self.rows;
            } else {
                assert((self.rows - self.current_row) * self.cols == 0) by (nonlinear_arith)
                    requires self.current_row == self.rows;
            }
        }
        (self.rows - self.current_row) * self.cols - self.current_col
    }
}

} // verus!

verus! {

/// The header line of a rendered board: two spaces, then the last digit of
/// each of the first `n` column numbers followed by a space.
pub open spec fn render_header(n: int) -> Seq<char>
    decreases n,
{
    if n <= 0 {
        "  "@
    } else {
        render_header(n - 1) + spec_decimal(((n - 1) % 10) as nat) + " "@
    }
}

/// The symbol of a cell in the chosen style.
pub open spec fn cell_symbol(c: Cell, ascii: bool) -> Seq<char> {
    if ascii {
        crate::cell::spec_ascii_symbol(c)@
    } else {
        crate::cell::spec_symbol(c)@
    }
}

/// Row `r` of a rendered board, up to column `n`: the last digit of the row
/// number and a space, then each cell's symbol followed by a space.
pub open spec fn render_row(b: &Board, r: int, n: int, ascii: bool) -> Seq<char>
    decreases n,
{
    if n <= 0 {
        spec_decimal((r % 10) as nat) + " "@
    } else {
        render_row(b, r, n - 1, ascii) + cell_symbol(b.at(r, n - 1), ascii) + " "@
    }
}

/// The first `n` rows of a rendered board, each ending in a newline.
pub open spec fn render_rows(b: &Board, n: int, ascii: bool) -> Seq<char>
    decreases n,
{
    if n <= 0 {
        seq![]
    } else {
        render_rows(b, n - 1, ascii) + render_row(b, n - 1, b.spec_cols() as int, ascii) + "\n"@
    }
}

/// A rendered board: the header line, then every row.
pub open spec fn render(b: &Board, ascii: bool) -> Seq<char> {
    render_header(b.spec_cols() as int) + "\n"@ + render_rows(b, b.spec_rows() as int, ascii)
}

impl Board {
    fn render_text(&self, ascii: bool) -> (r: String)
        requires
            self.wf(),
        ensures
            r@ == render(self, ascii),
    {
        let mut result = String::from_str("  ");
        let mut col: usize = 0;
        while col < self.cols
            invariant
                col <= self.cols,
                result@ == render_header(col as int),
            decreases self.cols - col,
        {
            let d = decimal((col % 10) as u64);
            result.append(d.as_str());
            result.append(" ");
            col = col + 1;
        }
        result.append("\n");
        let ghost head = result@;
        let mut row: usize = 0;
        while row < self.rows
            invariant
                self.wf(),
                row <= self.rows,
                head == render_header(self.cols as int) + "\n"@,
                result@ == head + render_rows(self, row as int, ascii),
            decreases self.rows - row,
        {
            let mut line = decimal((row % 10) as u64);
            line.append(" ");
            let mut c: usize = 0;
            while c < self.cols
                invariant
                    self.wf(),
                    row < self.rows,
                    c <= self.cols,
                    line@ == render_row(self, row as int, c as int, ascii),
                decreases self.cols - c,
            {
                let cell = match self.get_at(row, c) {
                    Some(x) => x,
                    None => Cell::Empty,
                };
                if ascii {
                    line.append(cell.ascii_symbol());
                } else {
                    line.append(cell.symbol());
                }
                line.append(" ");
                c = c + 1;
            }
            line.append("\n");
            result.append(line.as_str());
            row = row + 1;
            proof {
                assert(result@ =~= head + render_rows(self, row as int, ascii));
            }
        }
        result
    }

    /// A text picture of the board with the display symbols: a header line of
    /// column digits, then one line per row starting with its row digit.
    pub fn to_string(&self) -> (r: String)
        requires
            self.wf(),
        ensures
            r@ == render(self, false),
    {
        self.render_text(false)
    }

    /// The same picture as `to_string`, with ASCII symbols.
    pub fn to_ascii_string(&self) -> (r: String)
        requires
            self.wf(),
        ensures
            r@ == render(self, true),
    {
        self.render_text(true)
    }

    /// A hash of the board's size and cells, computed with std's
    /// `DefaultHasher`.
    pub fn hash(&self) -> (r: u64)
        requires
            self.wf(),
    {
        let mut hasher = std::collections::hash_map::DefaultHasher::new();
        hash_usize(self.rows, &mut hasher);
        hash_usize(self.cols, &mut hasher);
        let mut row: usize = 0;
        while row < self.rows
            invariant
                self.wf(),
                row <= self.rows,
            decreases self.rows - row,
        {
            proof {
                self.lemma_row(row as int);
            }
            hash_cell_row(&self.cells[row], &mut hasher);
            row = row + 1;
        }
        hasher.finish()
    }
}

/// `<usize as Hash>::hash` fed to a `DefaultHasher`; what it writes is not
/// stated.
#[verifier::external_body]
fn hash_usize(x: usize, hasher: &mut std::collections::hash_map::DefaultHasher) {
    std::hash::Hash::hash(&x, hasher)
}

/// `<Vec<Cell> as Hash>::hash` fed to a `DefaultHasher`; what it writes is
/// not stated.
#[verifier::external_body]
fn hash_cell_row(row: &Vec<Cell>, hasher: &mut std::collections::hash_map::DefaultHasher) {
    std::hash::Hash::hash(row, hasher)
}

impl Default for Board {
    fn default() -> (r: Self)
        ensures
            r.wf(),
            r.spec_rows() == 6,
            r.spec_cols() == 7,
            r.all_cells(Cell::Empty),
    {
        Self::standard()
    }
}

impl core::ops::Index<Position> for Board {
    type Output = Cell;

    fn index(&self, pos: Position) -> (r: &Cell)
        ensures
            *r == self.at(pos.row as int, pos.col as int),
    {
        proof {
            self.lemma_row(pos.row as int);
        }
        &self.cells[pos.row][pos.col]
    }
}

impl vstd::std_specs::core::IndexSpecImpl<Position> for Board {
    open spec fn index_req(&self, pos: &Position) -> bool {
        self.wf() && self.in_bounds(pos.row as int, pos.col as int)
    }
}

} // verus!
