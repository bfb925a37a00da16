//! Threats on the board: runs of a player's pieces that can still grow,
//! how serious they are, and where to block them; the pattern lengths and
//! the position hash the heuristic evaluator uses.

use vstd::prelude::*;
use crate::board::{Board, grid_in, run_measure};
use crate::cell::Cell;
use crate::direction::{Direction, spec_all, spec_row_delta, spec_col_delta};
use crate::player::{Player, spec_cell};

verus! {

/// The shapes of pieces the heuristic looks for.
#[derive(Clone, Copy, PartialEq, Eq, Debug, Hash, Structural)]
pub enum PatternType {
    /// Two in a row.
    TwoInRow,
    /// Three in a row.
    ThreeInRow,
    /// Four in a row.
    FourInRow,
    /// Two after a gap.
    TwoGap,
    /// Three after a gap.
    ThreeGap,
    /// Four or more after a gap.
    FourGap,
}

/// The number of pieces in each pattern.
pub open spec fn spec_pattern_length(p: PatternType) -> usize {
    match p {
        PatternType::TwoInRow | PatternType::TwoGap => 2,
        PatternType::ThreeInRow | PatternType::ThreeGap => 3,
        PatternType::FourInRow | PatternType::FourGap => 4,
    }
}

impl PatternType {
    /// The number of pieces in the pattern.
    pub fn length(&self) -> (r: usize)
        ensures
            r == spec_pattern_length(*self),
    {
        match self {
            PatternType::TwoInRow | PatternType::TwoGap => 2,
            PatternType::ThreeInRow | PatternType::ThreeGap => 3,
            PatternType::FourInRow | PatternType::FourGap => 4,
        }
    }
}

/// A run of at least two of a player's pieces that can still grow.
#[derive(Clone, Copy, Debug)]
pub struct Threat {
    /// The number of pieces in the run.
    pub count: usize,
    /// Where the run starts (row, column).
    pub start: (usize, usize),
    /// The direction it runs in.
    pub direction: Direction,
}

impl Threat {
    /// Four or more: a win.
    pub fn is_winning(&self) -> (r: bool)
        ensures
            r == (self.count >= 4),
    {
        self.count >= 4
    }

    /// Exactly three: one short of a win.
    pub fn is_critical(&self) -> (r: bool)
        ensures
            r == (self.count == 3),
    {
        self.count == 3
    }
}

/// How serious the threats on a board are.
#[derive(Clone, Copy, PartialEq, Eq, Debug, Structural)]
pub enum ThreatLevel {
    /// No threats.
    NoThreat,
    /// Runs of two that can grow.
    Potential,
    /// A run of three that can grow.
    Critical,
    /// A run of four or more.
    Winning,
}

/// A summary of a player's threats.
#[derive(Clone, Copy, Debug)]
pub struct ThreatReport {
    /// All threats.
    pub total_threats: usize,
    /// Threats of four or more.
    pub winning_threats: usize,
    /// Threats of exactly three.
    pub critical_threats: usize,
    /// The last threat of three found, if any.
    pub most_dangerous: Option<Threat>,
}

/// The level of a report: winning if any threat wins, else critical if any
/// is critical, else potential if there is any, else none.
pub open spec fn spec_threat_level(r: ThreatReport) -> ThreatLevel {
    if r.winning_threats > 0 {
        ThreatLevel::Winning
    } else if r.critical_threats > 0 {
        ThreatLevel::Critical
    } else if r.total_threats > 0 {
        ThreatLevel::Potential
    } else {
        ThreatLevel::NoThreat
    }
}

impl ThreatReport {
    /// Whether some threat wins.
    pub fn is_critical(&self) -> (r: bool)
        ensures
            r == (self.winning_threats > 0),
    {
        self.winning_threats > 0
    }

    /// The level of the threats.
    pub fn threat_level(&self) -> (r: ThreatLevel)
        ensures
            r == spec_threat_level(*self),
    {
        if self.winning_threats > 0 {
            ThreatLevel::Winning
        } else if self.critical_threats > 0 {
            ThreatLevel::Critical
        } else if self.total_threats > 0 {
            ThreatLevel::Potential
        } else {
            ThreatLevel::NoThreat
        }
    }
}

/// The number of cells equal to `cell` from (`r`, `c`) on, one step at a
/// time by (`dr`, `dc`), while they stay in the grid: the run starting
/// there, the starting cell included.
pub open spec fn streak(g: Seq<Seq<Cell>>, rows: int, cols: int, r: int, c: int, dr: int, dc: int, cell: Cell) -> nat
    decreases run_measure(rows, cols, r, c, dr, dc),
    when (dr != 0 || dc != 0) && -1 <= dr <= 1 && -1 <= dc <= 1
{
    if grid_in(rows, cols, r, c) && g[r][c] == cell {
        1 + streak(g, rows, cols, r + dr, c + dc, dr, dc, cell)
    } else {
        0
    }
}

/// A run is no longer than the way left to the edge of the grid.
pub proof fn lemma_streak_bound(g: Seq<Seq<Cell>>, rows: int, cols: int, r: int, c: int, dr: int, dc: int, cell: Cell)
    requires
        dr != 0 || dc != 0,
        -1 <= dr <= 1,
        -1 <= dc <= 1,
    ensures
        streak(g, rows, cols, r, c, dr, dc, cell) <= (if grid_in(rows, cols, r, c) { run_measure(rows, cols, r, c, dr, dc) } else { 0 }),
    decreases run_measure(rows, cols, r, c, dr, dc),
{
    if grid_in(rows, cols, r, c) && g[r][c] == cell {
        lemma_streak_bound(g, rows, cols, r + dr, c + dc, dr, dc, cell);
    }
}

/// The cell `k` steps from `x` by `d`.
pub open spec fn step_by(x: int, d: int, k: int) -> int {
    x + d * k
}

/// Whether a run of `k` from (`r`, `c`) along (`dr`, `dc`) can grow: the
/// cell just past its end, or the one just before its start, is on the
/// grid and empty.
pub open spec fn spec_can_extend(g: Seq<Seq<Cell>>, rows: int, cols: int, r: int, c: int, dr: int, dc: int, k: int) -> bool {
    let fr = step_by(r, dr, k);
    let fc = step_by(c, dc, k);
    let br = r - dr;
    let bc = c - dc;
    ||| (grid_in(rows, cols, fr, fc) && g[fr][fc] == Cell::Empty)
    ||| (grid_in(rows, cols, br, bc) && g[br][bc] == Cell::Empty)
}

/// The threat starting at (`r`, `c`) along `d`, if the cell holds `cell`,
/// the run there is at least two long and can grow.
pub open spec fn threat_at(g: Seq<Seq<Cell>>, rows: int, cols: int, r: int, c: int, d: Direction, cell: Cell) -> Option<Threat> {
    let k = streak(g, rows, cols, r, c, spec_row_delta(d), spec_col_delta(d), cell);
    if g[r][c] == cell && k >= 2 && spec_can_extend(g, rows, cols, r, c, spec_row_delta(d), spec_col_delta(d), k as int) {
        Some(Threat { count: k as usize, start: (r as usize, c as usize), direction: d })
    } else {
        None
    }
}

/// The threats at (`r`, `c`) along the first `n` of the eight directions.
pub open spec fn threats_dirs(g: Seq<Seq<Cell>>, rows: int, cols: int, r: int, c: int, cell: Cell, n: int) -> Seq<Threat>
    decreases n,
{
    if n <= 0 {
        Seq::empty()
    } else {
        let prev = threats_dirs(g, rows, cols, r, c, cell, n - 1);
        match threat_at(g, rows, cols, r, c, spec_all()[n - 1], cell) {
            Some(t) => prev.push(t),
            None => prev,
        }
    }
}

/// The threats starting in the first `n` cells of row `r`.
pub open spec fn threats_row(g: Seq<Seq<Cell>>, rows: int, cols: int, r: int, cell: Cell, n: int) -> Seq<Threat>
    decreases n,
{
    if n <= 0 {
        Seq::empty()
    } else {
        threats_row(g, rows, cols, r, cell, n - 1) + threats_dirs(g, rows, cols, r, n - 1, cell, 8)
    }
}

/// The threats starting in the first `n` rows, in reading order and, at
/// each cell, in the order of the eight directions.
pub open spec fn threats_rows(g: Seq<Seq<Cell>>, rows: int, cols: int, cell: Cell, n: int) -> Seq<Threat>
    decreases n,
{
    if n <= 0 {
        Seq::empty()
    } else {
        threats_rows(g, rows, cols, cell, n - 1) + threats_row(g, rows, cols, n - 1, cell, cols)
    }
}

/// Every threat of the first `n` directions at a cell is listed there.
proof fn lemma_threats_dirs_contains(g: Seq<Seq<Cell>>, rows: int, cols: int, r: int, c: int, cell: Cell, n: int, k: int)
    requires
        0 <= k < n <= 8,
        threat_at(g, rows, cols, r, c, spec_all()[k], cell) is Some,
    ensures
        threats_dirs(g, rows, cols, r, c, cell, n).contains(threat_at(g, rows, cols, r, c, spec_all()[k], cell).unwrap()),
    decreases n,
{
    let t = threat_at(g, rows, cols, r, c, spec_all()[k], cell).unwrap();
    let prev = threats_dirs(g, rows, cols, r, c, cell, n - 1);
    if k < n - 1 {
        lemma_threats_dirs_contains(g, rows, cols, r, c, cell, n - 1, k);
        let i = choose|i: int| 0 <= i < prev.len() && prev[i] == t;
        let cur = threats_dirs(g, rows, cols, r, c, cell, n);
        assert(cur[i] == t);
    } else {
        let cur = threats_dirs(g, rows, cols, r, c, cell, n);
        assert(cur[prev.len() as int] == t);
    }
}

/// Every threat at a cell among the first `n` of row `r` is listed.
proof fn lemma_threats_row_contains(g: Seq<Seq<Cell>>, rows: int, cols: int, r: int, cell: Cell, n: int, c: int, t: Threat)
    requires
        0 <= c < n,
        threats_dirs(g, rows, cols, r, c, cell, 8).contains(t),
    ensures
        threats_row(g, rows, cols, r, cell, n).contains(t),
    decreases n,
{
    let prev = threats_row(g, rows, cols, r, cell, n - 1);
    let here = threats_dirs(g, rows, cols, r, n - 1, cell, 8);
    let cur = threats_row(g, rows, cols, r, cell, n);
    if c < n - 1 {
        lemma_threats_row_contains(g, rows, cols, r, cell, n - 1, c, t);
        let i = choose|i: int| 0 <= i < prev.len() && prev[i] == t;
        assert(cur[i] == t);
    } else {
        let i = choose|i: int| 0 <= i < here.len() && here[i] == t;
        assert(cur[prev.len() + i] == t);
    }
}

/// Every threat at a cell of the first `n` rows is listed.
proof fn lemma_threats_rows_contains(g: Seq<Seq<Cell>>, rows: int, cols: int, cell: Cell, n: int, r: int, t: Threat)
    requires
        0 <= r < n,
        threats_row(g, rows, cols, r, cell, cols).contains(t),
    ensures
        threats_rows(g, rows, cols, cell, n).contains(t),
    decreases n,
{
    let prev = threats_rows(g, rows, cols, cell, n - 1);
    let here = threats_row(g, rows, cols, n - 1, cell, cols);
    let cur = threats_rows(g, rows, cols, cell, n);
    if r < n - 1 {
        lemma_threats_rows_contains(g, rows, cols, cell, n - 1, r, t);
        let i = choose|i: int| 0 <= i < prev.len() && prev[i] == t;
        assert(cur[i] == t);
    } else {
        let i = choose|i: int| 0 <= i < here.len() && here[i] == t;
        assert(cur[prev.len() + i] == t);
    }
}

/// Every run of at least two of `player`'s pieces that can grow is found:
/// a cell holding the player's piece, whose run along `d` is `k` long with
/// `k` at least 2 and an empty cell just past one of its ends, gives the
/// threat of `k` pieces from that cell along `d`.
pub proof fn lemma_threats_complete(b: &Board, player: Player, r: int, c: int, d: Direction)
    requires
        b.wf(),
        0 <= r < b.spec_rows(),
        0 <= c < b.spec_cols(),
        b@[r][c] == spec_cell(player),
        streak(b@, b.spec_rows() as int, b.spec_cols() as int, r, c, spec_row_delta(d), spec_col_delta(d), spec_cell(player)) >= 2,
        spec_can_extend(
            b@,
            b.spec_rows() as int,
            b.spec_cols() as int,
            r,
            c,
            spec_row_delta(d),
            spec_col_delta(d),
            streak(b@, b.spec_rows() as int, b.spec_cols() as int, r, c, spec_row_delta(d), spec_col_delta(d), spec_cell(player)) as int,
        ),
    ensures
        spec_threats(b, player).contains(Threat {
            count: streak(b@, b.spec_rows() as int, b.spec_cols() as int, r, c, spec_row_delta(d), spec_col_delta(d), spec_cell(player)) as usize,
            start: (r as usize, c as usize),
            direction: d,
        }),
{
    let g = b@;
    let rows = b.spec_rows() as int;
    let cols = b.spec_cols() as int;
    let cell = spec_cell(player);
    let k: int = match d {
        Direction::North => 0,
        Direction::Northeast => 1,
        Direction::East => 2,
        Direction::Southeast => 3,
        Direction::South => 4,
        Direction::Southwest => 5,
        Direction::West => 6,
        Direction::Northwest => 7,
    };
    assert(spec_all()[k] == d);
    let t = threat_at(g, rows, cols, r, c, d, cell).unwrap();
    lemma_threats_dirs_contains(g, rows, cols, r, c, cell, 8, k);
    lemma_threats_row_contains(g, rows, cols, r, cell, cols, c, t);
    lemma_threats_rows_contains(g, rows, cols, cell, rows, r, t);
}

/// All of `player`'s threats on the board.
pub open spec fn spec_threats(b: &Board, player: Player) -> Seq<Threat> {
    threats_rows(b@, b.spec_rows() as int, b.spec_cols() as int, spec_cell(player), b.spec_rows() as int)
}

/// The length of the run of `player`'s pieces from (`row`, `col`) along
/// `direction`, the starting cell included.
pub fn count_consecutive(board: &Board, row: usize, col: usize, direction: Direction, player: Player) -> (r: usize)
    requires
        board.wf(),
    ensures
        r == streak(board@, board.spec_rows() as int, board.spec_cols() as int, row as int, col as int, spec_row_delta(direction), spec_col_delta(direction), spec_cell(player)),
        r <= board.spec_rows() + board.spec_cols(),
{
    let ghost g = board@;
    let ghost rows = board.spec_rows() as int;
    let ghost cols = board.spec_cols() as int;
    let ghost dr = spec_row_delta(direction);
    let ghost dc = spec_col_delta(direction);
    let ghost cell = spec_cell(player);
    let ghost total = streak(g, rows, cols, row as int, col as int, dr, dc, cell);
    proof {
        lemma_streak_bound(g, rows, cols, row as int, col as int, dr, dc, cell);
    }
    if row >= board.rows() || col >= board.cols() {
        return 0;
    }
    let player_cell = player.cell();
    let (drow, dcol) = direction.deltas();
    let mut count: usize = 0;
    let mut r: usize = row;
    let mut c: usize = col;
    loop
        invariant_except_break
            count + streak(g, rows, cols, r as int, c as int, dr, dc, cell) == total,
        invariant
            board.wf(),
            g == board@,
            rows == board.spec_rows(),
            cols == board.spec_cols(),
            drow == dr,
            dcol == dc,
            dr == spec_row_delta(direction),
            dc == spec_col_delta(direction),
            player_cell == cell,
            r < rows,
            c < cols,
            total <= run_measure(rows, cols, row as int, col as int, dr, dc),
            run_measure(rows, cols, row as int, col as int, dr, dc) <= rows + cols,
        ensures
            count == total,
        decreases run_measure(rows, cols, r as int, c as int, dr, dc),
    {
        match board.get_at(r, c) {
            Some(x) => {
                if x != player_cell {
                    break;
                }
            },
            None => {
                break;
            },
        }
        proof {
            assert(streak(g, rows, cols, r as int, c as int, dr, dc, cell) == 1 + streak(g, rows, cols, r + dr, c + dc, dr, dc, cell));
        }
        count = count + 1;
        let nr: isize = r as isize + drow;
        let nc: isize = c as isize + dcol;
        if nr < 0 || nc < 0 || nr as usize >= board.rows() || nc as usize >= board.cols() {
            proof {
                assert(streak(g, rows, cols, nr as int, nc as int, dr, dc, cell) == 0);
            }
            break;
        }
        r = nr as usize;
        c = nc as usize;
    }
    count
}

/// Whether the run of `consecutive` pieces from (`row`, `col`) along
/// `direction` can grow at either end.
pub fn can_extend(board: &Board, row: usize, col: usize, direction: Direction, consecutive: usize) -> (r: bool)
    requires
        board.wf(),
        row < board.spec_rows(),
        col < board.spec_cols(),
        consecutive <= board.spec_rows() + board.spec_cols(),
    ensures
        r == spec_can_extend(board@, board.spec_rows() as int, board.spec_cols() as int, row as int, col as int, spec_row_delta(direction), spec_col_delta(direction), consecutive as int),
{
    let (dr, dc) = direction.deltas();
    let k = consecutive as i128;
    let fr: i128 = if dr > 0 { row as i128 + k } else if dr < 0 { row as i128 - k } else { row as i128 };
    let fc: i128 = if dc > 0 { col as i128 + k } else if dc < 0 { col as i128 - k } else { col as i128 };
    proof {
        assert(fr == step_by(row as int, dr as int, k as int)) by (nonlinear_arith)
            requires
                dr == -1 || dr == 0 || dr == 1,
                fr == (if dr > 0 { row + k } else if dr < 0 { row - k } else { row as int }),
        ;
        assert(fc == step_by(col as int, dc as int, k as int)) by (nonlinear_arith)
            requires
                dc == -1 || dc == 0 || dc == 1,
                fc == (if dc > 0 { col + k } else if dc < 0 { col - k } else { col as int }),
        ;
    }
    if fr >= 0 && fc >= 0 && fr < board.rows() as i128 && fc < board.cols() as i128 {
        if board.get_at(fr as usize, fc as usize) == Some(Cell::Empty) {
            return true;
        }
    }
    let br: i128 = row as i128 - dr as i128;
    let bc: i128 = col as i128 - dc as i128;
    if br >= 0 && bc >= 0 && br < board.rows() as i128 && bc < board.cols() as i128 {
        if board.get_at(br as usize, bc as usize) == Some(Cell::Empty) {
            return true;
        }
    }
    false
}

} // verus!

verus! {

/// No threat starts at a cell that does not hold the player's piece.
proof fn lemma_no_threats_off_piece(g: Seq<Seq<Cell>>, rows: int, cols: int, r: int, c: int, cell: Cell, n: int)
    requires
        g[r][c] != cell,
    ensures
        threats_dirs(g, rows, cols, r, c, cell, n) == Seq::<Threat>::empty(),
    decreases n,
{
    if n > 0 {
        lemma_no_threats_off_piece(g, rows, cols, r, c, cell, n - 1);
    }
}

/// All of `player`'s threats: for each cell in reading order holding one of
/// their pieces, and each of the eight directions in order, the run from
/// there when it is at least two long and can grow.
pub fn find_threats(board: &Board, player: Player) -> (r: Vec<Threat>)
    requires
        board.wf(),
    ensures
        r@ == spec_threats(board, player),
{
    let ghost g = board@;
    let ghost rows = board.spec_rows() as int;
    let ghost cols = board.spec_cols() as int;
    let ghost cell = spec_cell(player);
    let player_cell = player.cell();
    let directions = Direction::all();
    let mut threats: Vec<Threat> = Vec::new();
    let mut row: usize = 0;
    while row < board.rows()
        invariant
            board.wf(),
            g == board@,
            rows == board.spec_rows(),
            cols == board.spec_cols(),
            player_cell == cell,
            cell == spec_cell(player),
            directions@ == spec_all(),
            row <= rows,
            threats@ == threats_rows(g, rows, cols, cell, row as int),
        decreases rows - row,
    {
        let ghost before_row = threats@;
        let mut col: usize = 0;
        while col < board.cols()
            invariant
                board.wf(),
                g == board@,
                rows == board.spec_rows(),
                cols == board.spec_cols(),
                player_cell == cell,
                cell == spec_cell(player),
                directions@ == spec_all(),
                row < rows,
                col <= cols,
                threats@ == before_row + threats_row(g, rows, cols, row as int, cell, col as int),
            decreases cols - col,
        {
            let ghost before_cell = threats@;
            let here = board.get_at(row, col);
            if here == Some(player_cell) {
                let mut i: usize = 0;
                while i < 8
                    invariant
                        board.wf(),
                        g == board@,
                        rows == board.spec_rows(),
                        cols == board.spec_cols(),
                        player_cell == cell,
                        cell == spec_cell(player),
                        directions@ == spec_all(),
                        row < rows,
                        col < cols,
                        g[row as int][col as int] == cell,
                        i <= 8,
                        threats@ == before_cell + threats_dirs(g, rows, cols, row as int, col as int, cell, i as int),
                    decreases 8 - i,
                {
                    let direction = directions[i];
                    let consecutive = count_consecutive(board, row, col, direction, player);
                    if consecutive >= 2 {
                        if can_extend(board, row, col, direction, consecutive) {
                            threats.push(Threat { count: consecutive, start: (row, col), direction });
                        }
                    }
                    proof {
                        assert(threats@ =~= before_cell + threats_dirs(g, rows, cols, row as int, col as int, cell, i + 1));
                    }
                    i = i + 1;
                }
            } else {
                proof {
                    lemma_no_threats_off_piece(g, rows, cols, row as int, col as int, cell, 8);
                    assert(threats@ =~= before_cell + threats_dirs(g, rows, cols, row as int, col as int, cell, 8));
                }
            }
            proof {
                assert(threats@ =~= before_row + threats_row(g, rows, cols, row as int, cell, col + 1));
            }
            col = col + 1;
        }
        proof {
            assert(threats@ =~= threats_rows(g, rows, cols, cell, row + 1));
        }
        row = row + 1;
    }
    threats
}

/// The number of threats of four or more among the first `n`.
pub open spec fn count_winning(s: Seq<Threat>, n: int) -> nat
    decreases n,
{
    if n <= 0 { 0 } else { count_winning(s, n - 1) + if s[n - 1].count >= 4 { 1nat } else { 0nat } }
}

/// The number of threats of exactly three among the first `n`.
pub open spec fn count_critical(s: Seq<Threat>, n: int) -> nat
    decreases n,
{
    if n <= 0 { 0 } else { count_critical(s, n - 1) + if s[n - 1].count == 3 { 1nat } else { 0nat } }
}

/// The last threat of exactly three among the first `n`.
pub open spec fn last_critical(s: Seq<Threat>, n: int) -> Option<Threat>
    decreases n,
{
    if n <= 0 {
        None
    } else if s[n - 1].count == 3 {
        Some(s[n - 1])
    } else {
        last_critical(s, n - 1)
    }
}

/// The report on a list of threats: how many there are, how many win, how
/// many are critical, and the last critical one (all critical threats are
/// equally long, and the last of the longest is the one kept).
pub open spec fn spec_report(s: Seq<Threat>) -> ThreatReport {
    ThreatReport {
        total_threats: s.len() as usize,
        winning_threats: count_winning(s, s.len() as int) as usize,
        critical_threats: count_critical(s, s.len() as int) as usize,
        most_dangerous: last_critical(s, s.len() as int),
    }
}

/// Counts of some threats are at most their number.
proof fn lemma_counts_bounded(s: Seq<Threat>, n: int)
    requires
        0 <= n <= s.len(),
    ensures
        count_winning(s, n) <= n,
        count_critical(s, n) <= n,
    decreases n,
{
    if n > 0 {
        lemma_counts_bounded(s, n - 1);
    }
}

/// The report on `player`'s threats.
pub fn analyze_threats(board: &Board, player: Player) -> (r: ThreatReport)
    requires
        board.wf(),
    ensures
        r == spec_report(spec_threats(board, player)),
{
    let threats = find_threats(board, player);
    let mut winning: usize = 0;
    let mut critical: usize = 0;
    let mut most_dangerous: Option<Threat> = None;
    let mut i: usize = 0;
    while i < threats.len()
        invariant
            i <= threats@.len(),
            winning == count_winning(threats@, i as int),
            critical == count_critical(threats@, i as int),
            most_dangerous == last_critical(threats@, i as int),
        decreases threats@.len() - i,
    {
        proof {
            lemma_counts_bounded(threats@, i + 1);
        }
        let t = threats[i];
        if t.is_winning() {
            winning = winning + 1;
        }
        if t.is_critical() {
            critical = critical + 1;
            most_dangerous = Some(t);
        }
        i = i + 1;
    }
    ThreatReport { total_threats: threats.len(), winning_threats: winning, critical_threats: critical, most_dangerous }
}

/// The column where a critical threat is blocked: just past its end.
pub open spec fn block_column(t: Threat) -> int {
    t.start.1 + spec_col_delta(t.direction) * t.count
}

/// The blocking column of the first critical threat from index `i` on
/// whose blocking column is on the board.
pub open spec fn first_block(s: Seq<Threat>, cols: int, i: int) -> Option<usize>
    decreases s.len() - i,
{
    if i < 0 || i >= s.len() {
        None
    } else if s[i].count == 3 && 0 <= block_column(s[i]) < cols {
        Some(block_column(s[i]) as usize)
    } else {
        first_block(s, cols, i + 1)
    }
}

/// The column that blocks the opponent's first critical threat (in the
/// order threats are found) whose blocking column is on the board.
pub fn find_best_block(board: &Board, opponent: Player) -> (r: Option<usize>)
    requires
        board.wf(),
    ensures
        r == first_block(spec_threats(board, opponent), board.spec_cols() as int, 0),
{
    let threats = find_threats(board, opponent);
    let mut i: usize = 0;
    while i < threats.len()
        invariant
            i <= threats@.len(),
            threats@ == spec_threats(board, opponent),
            board.wf(),
            first_block(threats@, board.spec_cols() as int, 0) == first_block(threats@, board.spec_cols() as int, i as int),
        decreases threats@.len() - i,
    {
        let t = threats[i];
        if t.is_critical() {
            let (_dr, dc) = t.direction.deltas();
            let block_col: i128 = t.start.1 as i128 + dc as i128 * 3;
            if block_col >= 0 && block_col < board.cols() as i128 {
                return Some(block_col as usize);
            }
        }
        i = i + 1;
    }
    None
}

/// The hash the heuristic evaluator caches by: starting from the player's
/// number (0 for player 1, 1 for player 2), each cell in reading order
/// multiplies by 31 and adds the cell's number (wrapping).
pub open spec fn hash_step(h: u64, c: Cell) -> u64 {
    vstd::wrapping::u64_specs::wrapping_add(vstd::wrapping::u64_specs::wrapping_mul(h, 31), crate::zobrist::cell_byte(c) as u64)
}

/// The first `c` cells of row `r` folded into `h`.
pub open spec fn hash_row(g: Seq<Seq<Cell>>, r: int, c: int, h: u64) -> u64
    decreases c,
{
    if c <= 0 { h } else { hash_step(hash_row(g, r, c - 1, h), g[r][c - 1]) }
}

/// The first `r` rows folded into `h`.
pub open spec fn hash_rows(g: Seq<Seq<Cell>>, cols: int, r: int, h: u64) -> u64
    decreases r,
{
    if r <= 0 { h } else { hash_row(g, r - 1, cols, hash_rows(g, cols, r - 1, h)) }
}

/// The evaluator's hash of a position with `player` to move.
pub fn board_hash(board: &Board, player: Player) -> (r: u64)
    requires
        board.wf(),
    ensures
        r == hash_rows(board@, board.spec_cols() as int, board.spec_rows() as int, if player == Player::Player1 { 0u64 } else { 1u64 }),
{
    let mut hash: u64 = if player == Player::Player1 { 0 } else { 1 };
    let ghost h0 = hash;
    let mut row: usize = 0;
    while row < board.rows()
        invariant
            board.wf(),
            row <= board.spec_rows(),
            hash == hash_rows(board@, board.spec_cols() as int, row as int, h0),
        decreases board.spec_rows() - row,
    {
        let ghost start = hash;
        let mut col: usize = 0;
        while col < board.cols()
            invariant
                board.wf(),
                row < board.spec_rows(),
                col <= board.spec_cols(),
                hash == hash_row(board@, row as int, col as int, start),
            decreases board.spec_cols() - col,
        {
            if let Some(cell) = board.get_at(row, col) {
                let v: u64 = match cell {
                    Cell::Empty => 0,
                    Cell::Player1 => 1,
                    Cell::Player2 => 2,
                    Cell::Blocker => 3,
                    Cell::Explosive => 4,
                    Cell::Wall => 5,
                    Cell::Bomb => 6,
                    Cell::Wild => 7,
                };
                hash = hash.wrapping_mul(31).wrapping_add(v);
            }
            col = col + 1;
        }
        row = row + 1;
    }
    hash
}

} // verus!

verus! {

/// A pattern found on the board: its shape, where it starts, the direction
/// it runs in, and whether it can still grow into a line.
#[derive(Clone, Copy, Debug)]
pub struct PatternSpot {
    /// The shape.
    pub pattern_type: PatternType,
    /// Where it starts (row, column).
    pub start: (usize, usize),
    /// The direction it runs in.
    pub direction: Direction,
    /// Whether it can still grow.
    pub is_winnable: bool,
}

/// The consecutive pattern of a run of `k`: two, three or four in a row.
pub open spec fn run_pattern(k: int) -> Option<PatternType> {
    if k == 2 {
        Some(PatternType::TwoInRow)
    } else if k == 3 {
        Some(PatternType::ThreeInRow)
    } else if k == 4 {
        Some(PatternType::FourInRow)
    } else {
        None
    }
}

/// The gap pattern of `k` pieces after a gap: two, three, or four and more.
pub open spec fn gap_pattern(k: int) -> PatternType {
    if k == 2 {
        PatternType::TwoGap
    } else if k == 3 {
        PatternType::ThreeGap
    } else {
        PatternType::FourGap
    }
}

/// The consecutive pattern from (`r`, `c`) along `d`, if the run there is
/// two, three or four long, with whether it can grow.
pub open spec fn run_spot(g: Seq<Seq<Cell>>, rows: int, cols: int, r: int, c: int, d: Direction, cell: Cell) -> Seq<PatternSpot> {
    let dr = spec_row_delta(d);
    let dc = spec_col_delta(d);
    let k = streak(g, rows, cols, r, c, dr, dc, cell);
    match run_pattern(k as int) {
        Some(t) => seq![PatternSpot {
            pattern_type: t,
            start: (r as usize, c as usize),
            direction: d,
            is_winnable: spec_can_extend(g, rows, cols, r, c, dr, dc, k as int),
        }],
        None => Seq::empty(),
    }
}

/// The gap pattern with the gap `gap` steps from (`r`, `c`) along `d`: the
/// gap cell is on the grid and empty and at least two of the player's
/// pieces follow it.
pub open spec fn gap_spot(g: Seq<Seq<Cell>>, rows: int, cols: int, r: int, c: int, d: Direction, cell: Cell, gap: int) -> Seq<PatternSpot> {
    let dr = spec_row_delta(d);
    let dc = spec_col_delta(d);
    let gr = r + dr * gap;
    let gc = c + dc * gap;
    if grid_in(rows, cols, gr, gc) && g[gr][gc] == Cell::Empty {
        let k = streak(g, rows, cols, gr + dr, gc + dc, dr, dc, cell);
        if k >= 2 {
            seq![PatternSpot { pattern_type: gap_pattern(k as int), start: (r as usize, c as usize), direction: d, is_winnable: true }]
        } else {
            Seq::empty()
        }
    } else {
        Seq::empty()
    }
}

/// The patterns at (`r`, `c`) along `d`: the consecutive one, then the gap
/// ones with the gap one and two steps away.
pub open spec fn spots_along(g: Seq<Seq<Cell>>, rows: int, cols: int, r: int, c: int, d: Direction, cell: Cell) -> Seq<PatternSpot> {
    run_spot(g, rows, cols, r, c, d, cell) + gap_spot(g, rows, cols, r, c, d, cell, 1) + gap_spot(g, rows, cols, r, c, d, cell, 2)
}

/// The patterns at (`r`, `c`) along the first `n` of the eight directions,
/// when the cell holds the player's piece.
pub open spec fn spots_dirs(g: Seq<Seq<Cell>>, rows: int, cols: int, r: int, c: int, cell: Cell, n: int) -> Seq<PatternSpot>
    decreases n,
{
    if n <= 0 || g[r][c] != cell {
        Seq::empty()
    } else {
        spots_dirs(g, rows, cols, r, c, cell, n - 1) + spots_along(g, rows, cols, r, c, spec_all()[n - 1], cell)
    }
}

/// The patterns starting in the first `n` cells of row `r`.
pub open spec fn spots_row(g: Seq<Seq<Cell>>, rows: int, cols: int, r: int, cell: Cell, n: int) -> Seq<PatternSpot>
    decreases n,
{
    if n <= 0 {
        Seq::empty()
    } else {
        spots_row(g, rows, cols, r, cell, n - 1) + spots_dirs(g, rows, cols, r, n - 1, cell, 8)
    }
}

/// The patterns starting in the first `n` rows, in reading order.
pub open spec fn spots_rows(g: Seq<Seq<Cell>>, rows: int, cols: int, cell: Cell, n: int) -> Seq<PatternSpot>
    decreases n,
{
    if n <= 0 {
        Seq::empty()
    } else {
        spots_rows(g, rows, cols, cell, n - 1) + spots_row(g, rows, cols, n - 1, cell, cols)
    }
}

/// All of `player`'s patterns on the board.
pub open spec fn spec_patterns(b: &Board, player: Player) -> Seq<PatternSpot> {
    spots_rows(b@, b.spec_rows() as int, b.spec_cols() as int, spec_cell(player), b.spec_rows() as int)
}

/// The consecutive pattern from (`row`, `col`) along `direction`, if any.
pub fn check_consecutive_pattern(board: &Board, row: usize, col: usize, direction: Direction, player: Player, patterns: &mut Vec<PatternSpot>)
    requires
        board.wf(),
        row < board.spec_rows(),
        col < board.spec_cols(),
    ensures
        final(patterns)@ == old(patterns)@ + run_spot(board@, board.spec_rows() as int, board.spec_cols() as int, row as int, col as int, direction, spec_cell(player)),
{
    let count = count_consecutive(board, row, col, direction, player);
    let pattern_type = if count == 2 {
        Some(PatternType::TwoInRow)
    } else if count == 3 {
        Some(PatternType::ThreeInRow)
    } else if count == 4 {
        Some(PatternType::FourInRow)
    } else {
        None
    };
    if let Some(pt) = pattern_type {
        let is_winnable = can_extend(board, row, col, direction, count);
        patterns.push(PatternSpot { pattern_type: pt, start: (row, col), direction, is_winnable });
    }
    proof {
        assert(final(patterns)@ =~= old(patterns)@ + run_spot(board@, board.spec_rows() as int, board.spec_cols() as int, row as int, col as int, direction, spec_cell(player)));
    }
}

/// The gap patterns from (`row`, `col`) along `direction`, with the gap one
/// and then two steps away.
pub fn check_gap_pattern(board: &Board, row: usize, col: usize, direction: Direction, player: Player, patterns: &mut Vec<PatternSpot>)
    requires
        board.wf(),
        row < board.spec_rows(),
        col < board.spec_cols(),
    ensures
        final(patterns)@ == old(patterns)@ + gap_spot(board@, board.spec_rows() as int, board.spec_cols() as int, row as int, col as int, direction, spec_cell(player), 1)
            + gap_spot(board@, board.spec_rows() as int, board.spec_cols() as int, row as int, col as int, direction, spec_cell(player), 2),
{
    let ghost start = patterns@;
    check_gap_at(board, row, col, direction, player, 1, patterns);
    check_gap_at(board, row, col, direction, player, 2, patterns);
    proof {
        let g = board@;
        let rows = board.spec_rows() as int;
        let cols = board.spec_cols() as int;
        let cell = spec_cell(player);
        assert(final(patterns)@ =~= start + gap_spot(g, rows, cols, row as int, col as int, direction, cell, 1)
            + gap_spot(g, rows, cols, row as int, col as int, direction, cell, 2));
    }
}

/// The gap pattern with the gap `gap` steps away, if any.
fn check_gap_at(board: &Board, row: usize, col: usize, direction: Direction, player: Player, gap: usize, patterns: &mut Vec<PatternSpot>)
    requires
        board.wf(),
        row < board.spec_rows(),
        col < board.spec_cols(),
        1 <= gap <= 2,
    ensures
        final(patterns)@ == old(patterns)@ + gap_spot(board@, board.spec_rows() as int, board.spec_cols() as int, row as int, col as int, direction, spec_cell(player), gap as int),
{
    let ghost g = board@;
    let ghost rows = board.spec_rows() as int;
    let ghost cols = board.spec_cols() as int;
    let (dr, dc) = direction.deltas();
    let step_r: i128 = if dr > 0 { gap as i128 } else if dr < 0 { -(gap as i128) } else { 0 };
    let step_c: i128 = if dc > 0 { gap as i128 } else if dc < 0 { -(gap as i128) } else { 0 };
    proof {
        assert(step_r == dr * gap) by (nonlinear_arith)
            requires
                dr == -1 || dr == 0 || dr == 1,
                step_r == (if dr > 0 { gap as int } else if dr < 0 { -gap } else { 0 }),
        ;
        assert(step_c == dc * gap) by (nonlinear_arith)
            requires
                dc == -1 || dc == 0 || dc == 1,
                step_c == (if dc > 0 { gap as int } else if dc < 0 { -gap } else { 0 }),
        ;
    }
    let gr: i128 = row as i128 + step_r;
    let gc: i128 = col as i128 + step_c;
    if gr >= 0 && gc >= 0 && gr < board.rows() as i128 && gc < board.cols() as i128 {
        if board.get_at(gr as usize, gc as usize) == Some(Cell::Empty) {
            let nr = gr + dr as i128;
            let nc = gc + dc as i128;
            let pieces_after: usize = if nr >= 0 && nc >= 0 && nr < board.rows() as i128 && nc < board.cols() as i128 {
                count_consecutive(board, nr as usize, nc as usize, direction, player)
            } else {
                0
            };
            if pieces_after >= 2 {
                let pattern_type = if pieces_after == 2 {
                    PatternType::TwoGap
                } else if pieces_after == 3 {
                    PatternType::ThreeGap
                } else {
                    PatternType::FourGap
                };
                patterns.push(PatternSpot { pattern_type, start: (row, col), direction, is_winnable: true });
            }
        }
    }
    proof {
        assert(final(patterns)@ =~= old(patterns)@ + gap_spot(g, rows, cols, row as int, col as int, direction, spec_cell(player), gap as int));
    }
}

/// The patterns from (`row`, `col`) along `direction`: the consecutive one,
/// then the gap ones.
#[verifier::rlimit(40)]
fn patterns_along(board: &Board, row: usize, col: usize, direction: Direction, player: Player, patterns: &mut Vec<PatternSpot>)
    requires
        board.wf(),
        row < board.spec_rows(),
        col < board.spec_cols(),
    ensures
        final(patterns)@ == old(patterns)@ + spots_along(board@, board.spec_rows() as int, board.spec_cols() as int, row as int, col as int, direction, spec_cell(player)),
{
    let ghost start = patterns@;
    check_consecutive_pattern(board, row, col, direction, player, patterns);
    check_gap_pattern(board, row, col, direction, player, patterns);
    proof {
        let g = board@;
        let rows = board.spec_rows() as int;
        let cols = board.spec_cols() as int;
        let cell = spec_cell(player);
        assert(final(patterns)@ =~= start + spots_along(g, rows, cols, row as int, col as int, direction, cell));
    }
}

/// All of `player`'s patterns: for each cell in reading order holding one
/// of their pieces, and each of the eight directions in order, the
/// consecutive pattern and the gap patterns from there.
#[verifier::rlimit(40)]
pub fn find_patterns(board: &Board, player: Player) -> (r: Vec<PatternSpot>)
    requires
        board.wf(),
    ensures
        r@ == spec_patterns(board, player),
{
    let ghost g = board@;
    let ghost rows = board.spec_rows() as int;
    let ghost cols = board.spec_cols() as int;
    let ghost cell = spec_cell(player);
    let player_cell = player.cell();
    let directions = Direction::all();
    let mut patterns: Vec<PatternSpot> = Vec::new();
    let mut row: usize = 0;
    while row < board.rows()
        invariant
            board.wf(),
            g == board@,
            rows == board.spec_rows(),
            cols == board.spec_cols(),
            player_cell == cell,
            cell == spec_cell(player),
            directions@ == spec_all(),
            row <= rows,
            patterns@ == spots_rows(g, rows, cols, cell, row as int),
        decreases rows - row,
    {
        let ghost before_row = patterns@;
        let mut col: usize = 0;
        while col < board.cols()
            invariant
                board.wf(),
                g == board@,
                rows == board.spec_rows(),
                cols == board.spec_cols(),
                player_cell == cell,
                cell == spec_cell(player),
                directions@ == spec_all(),
                row < rows,
                col <= cols,
                patterns@ == before_row + spots_row(g, rows, cols, row as int, cell, col as int),
            decreases cols - col,
        {
            let ghost before_cell = patterns@;
            if board.get_at(row, col) == Some(player_cell) {
                let mut i: usize = 0;
                while i < 8
                    invariant
                        board.wf(),
                        g == board@,
                        rows == board.spec_rows(),
                        cols == board.spec_cols(),
                        player_cell == cell,
                        cell == spec_cell(player),
                        directions@ == spec_all(),
                        row < rows,
                        col < cols,
                        g[row as int][col as int] == cell,
                        i <= 8,
                        patterns@ == before_cell + spots_dirs(g, rows, cols, row as int, col as int, cell, i as int),
                    decreases 8 - i,
                {
                    let direction = directions[i];
                    let ghost mid = patterns@;
                    patterns_along(board, row, col, direction, player, &mut patterns);
                    proof {
                        assert(spots_dirs(g, rows, cols, row as int, col as int, cell, i + 1)
                            == spots_dirs(g, rows, cols, row as int, col as int, cell, i as int) + spots_along(g, rows, cols, row as int, col as int, direction, cell));
                        assert(patterns@ =~= before_cell + spots_dirs(g, rows, cols, row as int, col as int, cell, i + 1));
                    }
                    i = i + 1;
                }
            } else {
                proof {
                    assert(patterns@ =~= before_cell + spots_dirs(g, rows, cols, row as int, col as int, cell, 8));
                }
            }
            proof {
                assert(patterns@ =~= before_row + spots_row(g, rows, cols, row as int, cell, col + 1));
            }
            col = col + 1;
        }
        proof {
            assert(patterns@ =~= spots_rows(g, rows, cols, cell, row + 1));
        }
        row = row + 1;
    }
    patterns
}

} // verus!
